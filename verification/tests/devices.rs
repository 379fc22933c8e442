use teddy_sync::devices::handlers::{
    fetch_device, id_to_register, rename_device, renamed, DeviceResponse,
};
use teddy_sync::devices::limits::{max_devices_per_account, DEFAULT_MAX_DEVICES_PER_ACCOUNT};
use teddy_sync::error::AppError;
use teddy_sync::ids::Uuid;
use teddy_sync::instant::Instant;
use teddy_sync::sync::device::{
    choose_fallback_device, clean_name, ensure_device, fallback_device, name_to_store,
    registered_device_set, require_registered_device, resolve_item_device,
    resolve_item_device_cached, resolve_sync_device, DeviceRow, DeviceWrite, ItemDevice,
    ItemDeviceRule, RegisteredDevices, SyncDevice, DEFAULT_DEVICE_NAME,
};

const USER: Uuid = Uuid { bits: 1 };
const OTHER: Uuid = Uuid { bits: 2 };
const TABLET: Uuid = Uuid { bits: 10 };
const SECOND: Uuid = Uuid { bits: 11 };

fn row(user_id: Uuid, name: &str) -> DeviceRow {
    DeviceRow { user_id, name: name.to_string() }
}

#[test]
fn the_cap_defaults_when_the_environment_is_silent() {
    assert_eq!(max_devices_per_account(None), DEFAULT_MAX_DEVICES_PER_ACCOUNT);
}

#[test]
fn the_cap_is_read_where_it_is_set_to_something() {
    assert_eq!(max_devices_per_account(Some("3")), 3);
    assert_eq!(max_devices_per_account(Some("0")), DEFAULT_MAX_DEVICES_PER_ACCOUNT);
    assert_eq!(max_devices_per_account(Some("many")), DEFAULT_MAX_DEVICES_PER_ACCOUNT);
}

#[test]
fn a_new_device_is_registered_up_to_the_cap() {
    match ensure_device(USER, TABLET, Some(" Kitchen "), None, 9, 10) {
        Ok(DeviceWrite::Register(name)) => assert_eq!(name, "Kitchen"),
        other => panic!("expected a registration, got {:?}", other),
    }
    match ensure_device(USER, TABLET, None, None, 0, 10) {
        Ok(DeviceWrite::Register(name)) => assert_eq!(name, DEFAULT_DEVICE_NAME),
        other => panic!("expected a registration, got {:?}", other),
    }
    let refused = ensure_device(USER, TABLET, Some("Kitchen"), None, 10, 10).unwrap_err();
    assert_eq!(refused.status(), 429);
}

#[test]
fn a_registered_device_passes_whatever_the_cap() {
    let kitchen = row(USER, "Kitchen");
    assert!(matches!(
        ensure_device(USER, TABLET, None, Some(&kitchen), 50, 10),
        Ok(DeviceWrite::Nothing)
    ));
    assert!(matches!(
        ensure_device(USER, TABLET, Some("Kitchen"), Some(&kitchen), 50, 10),
        Ok(DeviceWrite::Nothing)
    ));
    match ensure_device(USER, TABLET, Some("Hall"), Some(&kitchen), 50, 10) {
        Ok(DeviceWrite::Rename(name)) => assert_eq!(name, "Hall"),
        other => panic!("expected a new name, got {:?}", other),
    }
}

#[test]
fn another_accounts_device_is_forbidden() {
    let theirs = row(OTHER, "Kitchen");
    let refused = ensure_device(USER, TABLET, None, Some(&theirs), 0, 10).unwrap_err();
    assert_eq!(refused.status(), 403);
}

#[test]
fn white_space_is_no_name() {
    assert_eq!(clean_name(Some("  ")), None);
    assert_eq!(clean_name(Some(" Den ")), Some("Den"));
    assert_eq!(clean_name(None), None);
    assert_eq!(name_to_store(Some("")), DEFAULT_DEVICE_NAME);
    assert_eq!(name_to_store(Some("Den")), "Den");
}

#[test]
fn a_rename_has_to_leave_something() {
    assert_eq!(rename_device(" Den ").unwrap(), "Den");
    assert!(matches!(rename_device("   "), Err(AppError::BadRequest(_))));
}

#[test]
fn a_device_the_account_does_not_have_is_not_found() {
    assert!(renamed(TABLET, 1).is_ok());
    match renamed(TABLET, 0) {
        Err(AppError::NotFound(message)) => {
            assert_eq!(message, "Device 00000000-0000-0000-0000-00000000000a not found")
        }
        other => panic!("expected NotFound, got {:?}", other),
    }
    assert_eq!(fetch_device(TABLET, None).unwrap_err().status(), 404);
    let den = DeviceResponse {
        id: TABLET,
        name: "Den".to_string(),
        created_at: Instant { secs: 0, nanos: 0 },
        last_seen_at: None,
    };
    assert_eq!(fetch_device(TABLET, Some(den)).unwrap().name, "Den");
}

#[test]
fn a_device_without_an_id_gets_a_random_one() {
    assert_eq!(id_to_register(Some(TABLET)), TABLET);
    let one = id_to_register(None);
    let other = id_to_register(None);
    assert_ne!(one, other);
    assert_eq!(one.text().as_bytes()[14], b'4');
}

#[test]
fn a_request_names_its_device_or_falls_back() {
    assert_eq!(resolve_sync_device(Some(TABLET)), SyncDevice::Named(TABLET));
    assert_eq!(resolve_sync_device(None), SyncDevice::Fallback);

    let oldest = choose_fallback_device(Some(TABLET), SECOND, Some("Den"));
    assert_eq!(oldest.id, TABLET);
    assert!(oldest.register.is_none());
    let fresh = choose_fallback_device(None, SECOND, Some(" Den "));
    assert_eq!(fresh.id, SECOND);
    assert_eq!(fresh.register.unwrap(), "Den");
    assert_eq!(fallback_device(None, None).register.unwrap(), DEFAULT_DEVICE_NAME);
    assert_eq!(fallback_device(Some(TABLET), None).id, TABLET);
}

#[test]
fn a_row_belongs_to_the_device_it_names() {
    let request = ItemDeviceRule::RequestDevice(TABLET);
    let managing = ItemDeviceRule::RowMustName;
    let resolve = |rule, named| resolve_item_device(rule, named, "config", "c1");
    assert_eq!(resolve(request, None).unwrap(), ItemDevice::Known(TABLET));
    assert_eq!(resolve(request, Some(TABLET)).unwrap(), ItemDevice::Known(TABLET));
    assert_eq!(resolve(request, Some(SECOND)).unwrap(), ItemDevice::Ensure(SECOND));
    assert_eq!(resolve(managing, Some(SECOND)).unwrap(), ItemDevice::Require(SECOND));
    match resolve(managing, None) {
        Err(AppError::BadRequest(message)) => assert!(message.contains("c1"), "{}", message),
        other => panic!("expected BadRequest, got {:?}", other),
    }
}

#[test]
fn looking_devices_up_ahead_changes_no_answer() {
    let managing = ItemDeviceRule::RowMustName;
    let known = RegisteredDevices::of(&vec![SECOND]);
    assert!(known.contains(SECOND) && !known.contains(TABLET));
    let resolve = |named| resolve_item_device_cached(managing, Some(named), "config", "c1", &known);
    assert_eq!(resolve(SECOND).unwrap(), ItemDevice::Known(SECOND));
    assert_eq!(resolve(TABLET).unwrap(), ItemDevice::Require(TABLET));
    assert!(require_registered_device(TABLET, true).is_ok());
    assert_eq!(require_registered_device(TABLET, false).unwrap_err().status(), 404);
}

#[test]
fn devices_are_looked_up_ahead_only_where_rows_have_to_name_one() {
    let request = ItemDeviceRule::RequestDevice(TABLET);
    assert!(registered_device_set(request, vec![TABLET, SECOND]).is_empty());
    let managing = ItemDeviceRule::RowMustName;
    assert_eq!(registered_device_set(managing, vec![TABLET, SECOND]), vec![TABLET, SECOND]);
}
