use teddy_sync::error::AppError;
use teddy_sync::ids::Uuid;
use teddy_sync::json::{encode, json_depth, Field, Json};
use teddy_sync::sync::grocery::grocery_items::GroceryChangeDelta;
use teddy_sync::sync::limits::{
    check_config_change, check_config_fields, check_config_item, check_drawing_change,
    check_drawing_data, check_drawing_item, check_item_counts, collections, read_limit,
    validate_sync_payload, RawLimits, SyncLimits, DEFAULT_MAX_CONFIG_KEY_BYTES,
    DEFAULT_SYNC_DOWNLOAD_PAGE_SIZE,
};
use teddy_sync::sync::request::{
    ConfigChangeDelta, ConfigData, ConfigSyncItem, DrawingChangeDelta, DrawingData,
    DrawingSyncItem, SyncRequest, TodoChangeDelta,
};
use teddy_sync::sync::types::{ChangeDelta, OperationType, Payload, SyncState};

fn tiny() -> SyncLimits {
    SyncLimits {
        max_drawing_data_bytes: 64,
        max_drawing_data_depth: 3,
        max_config_key_bytes: 8,
        max_config_value_bytes: 16,
        max_items_per_collection: 3,
        max_items_total: 5,
        download_page_size: DEFAULT_SYNC_DOWNLOAD_PAGE_SIZE,
    }
}

fn number(n: i64) -> Json {
    Json::Number(n.to_string())
}

fn field(name: &str, value: Json) -> Field {
    Field { name: name.to_string(), value }
}

fn message(err: AppError) -> String {
    match err {
        AppError::BadRequest(message) => message,
        other => panic!("expected BadRequest, got {:?}", other),
    }
}

#[test]
fn depth_counts_levels_not_siblings() {
    assert_eq!(json_depth(&number(1)), 1);
    assert_eq!(json_depth(&Json::Array(vec![number(1), number(2), number(3)])), 2);
    let inner = Json::Object(vec![field("b", Json::Array(vec![number(1)]))]);
    assert_eq!(json_depth(&Json::Object(vec![field("a", inner)])), 4);
}

#[test]
fn an_empty_container_is_one_level() {
    assert_eq!(json_depth(&Json::Array(vec![])), 1);
    assert_eq!(json_depth(&Json::Object(vec![])), 1);
    assert_eq!(json_depth(&Json::Null), 1);
    assert_eq!(json_depth(&Json::Bool(true)), 1);
}

#[test]
fn deep_nesting_is_refused_even_when_small() {
    let mut deep = number(1);
    for _ in 0..10 {
        deep = Json::Array(vec![deep]);
    }
    assert!(encode(&deep).len() < tiny().max_drawing_data_bytes);
    let err = check_drawing_data("d1", "drawings[].data", &deep, &tiny()).unwrap_err();
    assert!(matches!(err, AppError::BadRequest(ref m) if m.contains("levels deep")), "got {:?}", err);
}

#[test]
fn oversized_data_names_the_field_and_the_unit() {
    let big = Json::Object(vec![field("strokes", Json::Text("x".repeat(200)))]);
    let err = check_drawing_data("d1", "drawings[].data", &big, &tiny()).unwrap_err();
    match err {
        AppError::BadRequest(msg) => {
            assert!(msg.contains("drawings[].data"), "{}", msg);
            assert!(msg.contains("bytes"), "{}", msg);
            assert!(msg.contains("64"), "{}", msg);
        }
        other => panic!("expected BadRequest, got {:?}", other),
    }
}

#[test]
fn ordinary_values_pass() {
    let stroke = Json::Object(vec![
        field("points", Json::Array(vec![number(1), number(2)])),
        field("color", Json::Text("#fff".to_string())),
    ]);
    let drawing = Json::Object(vec![field("strokes", Json::Array(vec![stroke]))]);
    assert!(check_drawing_data("d1", "drawings[].data", &drawing, &SyncLimits::default()).is_ok());
    assert!(
        check_config_fields("c1", "configs[]", "child_name", "Robin", &SyncLimits::default()).is_ok()
    );
}

#[test]
fn config_key_and_value_are_bounded_separately() {
    let long_key = check_config_fields("c1", "configs[]", &"k".repeat(9), "v", &tiny()).unwrap_err();
    assert!(matches!(long_key, AppError::BadRequest(ref m) if m.contains(".key")), "got {:?}", long_key);

    let long_value =
        check_config_fields("c1", "configs[]", "k", &"v".repeat(17), &tiny()).unwrap_err();
    assert!(
        matches!(long_value, AppError::BadRequest(ref m) if m.contains(".value")),
        "got {:?}",
        long_value
    );
}

#[test]
fn config_bounds_are_inclusive_and_counted_in_bytes() {
    assert!(check_config_fields("c1", "configs[]", &"k".repeat(8), &"v".repeat(16), &tiny()).is_ok());
    // Three bytes each: two fit into eight, three do not.
    assert!(check_config_fields("c1", "configs[]", "\u{3042}\u{3042}", "v", &tiny()).is_ok());
    assert!(check_config_fields("c1", "configs[]", "\u{3042}\u{3042}\u{3042}", "v", &tiny()).is_err());
}

/// An otherwise empty body, so a count test shows only the vector it is about.
fn blank() -> SyncRequest {
    SyncRequest::blank("client-1".to_string())
}

fn grocery_delta(n: usize) -> Vec<GroceryChangeDelta> {
    (0..n)
        .map(|i| ChangeDelta {
            id: format!("g{}", i),
            operation_type: OperationType::Delete,
            version: 1,
            data: Payload::Missing,
        })
        .collect()
}

fn todo_delta(n: usize) -> Vec<TodoChangeDelta> {
    (0..n)
        .map(|i| ChangeDelta {
            id: format!("t{}", i),
            operation_type: OperationType::Delete,
            version: 1,
            data: Payload::Missing,
        })
        .collect()
}

#[test]
fn an_over_full_collection_is_refused_by_name() {
    let mut payload = blank();
    payload.grocery_changes = grocery_delta(4);
    let err = check_item_counts(&payload, &tiny()).unwrap_err();
    match err {
        AppError::BadRequest(msg) => {
            assert!(msg.contains("groceryChanges"), "{}", msg);
            assert!(msg.contains("items"), "{}", msg);
            assert!(msg.contains('3'), "{}", msg);
        }
        other => panic!("expected BadRequest, got {:?}", other),
    }
}

/// The case a per-collection cap on its own does not catch: several collections, each
/// legal, adding up to a request that is not.
#[test]
fn collections_each_under_the_cap_can_still_bust_the_total() {
    let mut payload = blank();
    payload.grocery_changes = grocery_delta(3);
    payload.todo_changes = todo_delta(3);
    for (_, count) in collections(&payload) {
        assert!(count <= tiny().max_items_per_collection);
    }
    let err = check_item_counts(&payload, &tiny()).unwrap_err();
    assert!(
        matches!(err, AppError::BadRequest(ref m) if m.contains("across all change collections") && m.contains('5')),
        "got {:?}",
        err
    );
}

#[test]
fn a_body_within_both_counts_passes() {
    let mut payload = blank();
    payload.grocery_changes = grocery_delta(2);
    payload.todo_changes = todo_delta(2);
    assert!(check_item_counts(&payload, &tiny()).is_ok());
    assert!(validate_sync_payload(&payload, &tiny()).is_ok());
}

/// What the batched Android client sends is nowhere near the shipped defaults.
#[test]
fn the_default_counts_clear_a_real_client_batch_by_orders_of_magnitude() {
    let defaults = SyncLimits::default();
    assert!(defaults.max_items_per_collection > 25 * 100);
    assert!(defaults.max_items_per_collection > 32 * 20);
    assert!(defaults.max_items_total >= defaults.max_items_per_collection * 2);
}

#[test]
fn env_overrides_fall_back_on_junk_and_zero() {
    assert_eq!(read_limit(None, 7), 7);
    assert_eq!(read_limit(Some("0"), 7), 7);
    assert_eq!(read_limit(Some("junk"), 7), 7);
    assert_eq!(read_limit(Some("-1"), 7), 7);
    assert_eq!(read_limit(Some(""), 7), 7);
    assert_eq!(read_limit(Some("12"), 7), 12);
    assert_eq!(read_limit(Some("+12"), 7), 12);
    assert_eq!(read_limit(Some("18446744073709551616"), 7), 7);
}

#[test]
fn each_limit_is_read_from_its_own_setting() {
    let env = RawLimits {
        max_drawing_data_bytes: Some("1"),
        max_drawing_data_depth: Some("2"),
        max_config_key_bytes: None,
        max_config_value_bytes: Some("4"),
        max_items_per_collection: Some("5"),
        max_items_total: Some("6"),
        download_page_size: Some("7"),
    };
    let limits = SyncLimits::from_env(&env);
    assert_eq!(limits.max_drawing_data_bytes, 1);
    assert_eq!(limits.max_drawing_data_depth, 2);
    assert_eq!(limits.max_config_key_bytes, DEFAULT_MAX_CONFIG_KEY_BYTES);
    assert_eq!(limits.max_config_value_bytes, 4);
    assert_eq!(limits.max_items_per_collection, 5);
    assert_eq!(limits.max_items_total, 6);
    assert_eq!(limits.download_page_size, 7);
}

#[test]
fn every_collection_is_counted_under_the_name_a_client_knows() {
    let mut payload = blank();
    payload.grocery_changes = grocery_delta(2);
    payload.todo_changes = todo_delta(1);
    let counts = collections(&payload);
    assert_eq!(counts.len(), 12);
    assert!(counts.contains(&("groceryChanges", 2)));
    assert!(counts.contains(&("todoChanges", 1)));
    assert!(counts.contains(&("drawings", 0)));
}

fn drawing(id: Uuid, data: Json) -> DrawingSyncItem {
    DrawingSyncItem {
        id,
        user_id: None,
        device_uuid: None,
        created_at: 0,
        data,
        sync_state: SyncState::Synced,
        version: 1,
        is_deleted: false,
        last_modified: 0,
    }
}

fn config(id: Uuid, key: &str, value: &str) -> ConfigSyncItem {
    ConfigSyncItem {
        id,
        device_uuid: None,
        key: key.to_string(),
        value: value.to_string(),
        sync_state: SyncState::Synced,
        version: 1,
        is_deleted: false,
        last_modified: 0,
    }
}

#[test]
fn a_refused_item_is_named_by_its_id() {
    let id = Uuid { bits: 7 };
    let big = Json::Text("x".repeat(200));
    let said = message(check_drawing_item(&drawing(id, big), &tiny()).unwrap_err());
    assert!(said.contains("00000000-0000-0000-0000-000000000007"), "{}", said);
    let said = message(check_config_item(&config(id, "a_long_key", "v"), &tiny()).unwrap_err());
    assert!(said.contains("00000000-0000-0000-0000-000000000007"), "{}", said);
    assert!(said.contains("128") == false && said.contains('8'), "{}", said);
}

#[test]
fn a_change_is_bounded_whether_or_not_its_payload_reads() {
    let unreadable = DrawingChangeDelta {
        id: "d1".to_string(),
        operation_type: OperationType::Insert,
        version: 1,
        device_uuid: None,
        data: Payload::Unreadable("missing field `id`".to_string()),
        stray_blob: Some(Json::Text("x".repeat(200))),
    };
    let said = message(check_drawing_change(&unreadable, &tiny()).unwrap_err());
    assert!(said.contains("d1"), "{}", said);

    let readable = DrawingChangeDelta {
        id: "d2".to_string(),
        operation_type: OperationType::Insert,
        version: 1,
        device_uuid: None,
        data: Payload::Item(DrawingData {
            id: Uuid { bits: 1 },
            user_id: "u".to_string(),
            client_uuid: "c".to_string(),
            device_uuid: None,
            version: 1,
            is_deleted: false,
            last_modified: 0,
            sync_state: SyncState::Synced,
            created_at: 0,
            data: Json::Null,
        }),
        stray_blob: None,
    };
    assert!(check_drawing_change(&readable, &tiny()).is_ok());

    let long_key = ConfigChangeDelta {
        id: "c1".to_string(),
        operation_type: OperationType::Insert,
        version: 1,
        device_uuid: None,
        data: Payload::Item(ConfigData {
            id: Uuid { bits: 1 },
            user_id: "u".to_string(),
            client_uuid: "c".to_string(),
            device_uuid: None,
            version: 1,
            is_deleted: false,
            last_modified: 0,
            sync_state: SyncState::Synced,
            key: "a_long_key".to_string(),
            value: "v".to_string(),
        }),
        stray_key: None,
        stray_value: None,
    };
    let said = message(check_config_change(&long_key, &tiny()).unwrap_err());
    assert!(said.contains("c1") && said.contains(".key"), "{}", said);

    let stray = ConfigChangeDelta {
        id: "c2".to_string(),
        operation_type: OperationType::Insert,
        version: 1,
        device_uuid: None,
        data: Payload::Unreadable("missing field `id`".to_string()),
        stray_key: None,
        stray_value: Some("v".repeat(17)),
    };
    let said = message(check_config_change(&stray, &tiny()).unwrap_err());
    assert!(said.contains("c2") && said.contains(".value"), "{}", said);
}

/// The counts are looked at before any item is.
#[test]
fn counts_are_refused_before_items() {
    let mut payload = blank();
    payload.grocery_changes = grocery_delta(4);
    payload.configs = vec![config(Uuid { bits: 1 }, "a_long_key", "v")];
    let said = message(validate_sync_payload(&payload, &tiny()).unwrap_err());
    assert!(said.contains("groceryChanges"), "{}", said);

    payload.grocery_changes = grocery_delta(1);
    let said = message(validate_sync_payload(&payload, &tiny()).unwrap_err());
    assert!(said.contains(".key"), "{}", said);
}

/// Every bound is inclusive, and one step past any of them is refused.
#[test]
fn a_body_at_every_bound_passes_and_one_past_any_does_not() {
    let picture = |levels: usize, bytes: usize| {
        // Two brackets a level, and two quotes.
        let mut value = Json::Text("x".repeat(bytes - 2 * levels));
        for _ in 1..levels {
            value = Json::Array(vec![value]);
        }
        assert_eq!(encode(&value).len(), bytes);
        value
    };
    let change = |blob: Json| DrawingChangeDelta {
        id: "d1".to_string(),
        operation_type: OperationType::Insert,
        version: 1,
        device_uuid: None,
        data: Payload::Unreadable("missing field `id`".to_string()),
        stray_blob: Some(blob),
    };
    let stray = |key: usize, value: usize| ConfigChangeDelta {
        id: "c2".to_string(),
        operation_type: OperationType::Insert,
        version: 1,
        device_uuid: None,
        data: Payload::Null("null".to_string()),
        stray_key: Some("k".repeat(key)),
        stray_value: Some("v".repeat(value)),
    };
    let full = || {
        let mut payload = blank();
        payload.grocery_changes = grocery_delta(2);
        payload.drawing_changes = vec![change(picture(3, 64))];
        payload.configs = vec![config(Uuid { bits: 1 }, &"k".repeat(8), &"v".repeat(16))];
        payload.config_changes = vec![stray(8, 16)];
        payload
    };
    let passes = |payload: &SyncRequest| validate_sync_payload(payload, &tiny()).is_ok();
    assert!(passes(&full()));

    let mut over = full();
    over.drawing_changes = vec![change(picture(4, 64))];
    assert!(!passes(&over));
    over.drawing_changes = vec![change(picture(3, 65))];
    assert!(!passes(&over));
    let mut over = full();
    over.configs = vec![config(Uuid { bits: 1 }, &"k".repeat(9), "v")];
    assert!(!passes(&over));
    over.configs = vec![config(Uuid { bits: 1 }, "k", &"v".repeat(17))];
    assert!(!passes(&over));
    let mut over = full();
    over.config_changes = vec![stray(9, 16)];
    assert!(!passes(&over));
    over.config_changes = vec![stray(8, 17)];
    assert!(!passes(&over));
    let mut over = full();
    over.grocery_changes = grocery_delta(3);
    assert!(!passes(&over));
}

/// A value is measured on the encoding it is stored in, which is serde_json's.
#[test]
fn a_value_is_encoded_as_serde_json_does() {
    let value = Json::Object(vec![
        field("a \"b\"\n", Json::Array(vec![number(-1), Json::Number("2.5".to_string()), Json::Null])),
        field("c", Json::Object(vec![])),
        field("d", Json::Array(vec![])),
        field("e", Json::Text("\u{1}\\ / \u{e4}\u{1F600}".to_string())),
        field("f", Json::Array(vec![Json::Bool(true), Json::Bool(false)])),
    ]);
    let mut outside = serde_json::Map::new();
    outside.insert(
        "a \"b\"\n".to_string(),
        serde_json::Value::Array(vec![
            serde_json::Value::from(-1),
            serde_json::Value::from(2.5),
            serde_json::Value::Null,
        ]),
    );
    outside.insert("c".to_string(), serde_json::Value::Object(serde_json::Map::new()));
    outside.insert("d".to_string(), serde_json::Value::Array(vec![]));
    outside.insert("e".to_string(), serde_json::Value::from("\u{1}\\ / \u{e4}\u{1F600}"));
    outside.insert(
        "f".to_string(),
        serde_json::Value::Array(vec![serde_json::Value::Bool(true), serde_json::Value::Bool(false)]),
    );
    let outside = serde_json::Value::Object(outside);
    assert_eq!(encode(&value), serde_json::to_string(&outside).unwrap());
    assert_eq!(encode(&Json::Text("a\"b".to_string())), "\"a\\\"b\"");
    // One escape makes a character of one byte into six.
    let mut limits = tiny();
    limits.max_drawing_data_bytes = 8;
    let control = Json::Text("\u{1}".to_string());
    assert!(check_drawing_data("d1", "drawings[].data", &control, &limits).is_ok());
    limits.max_drawing_data_bytes = 7;
    assert!(check_drawing_data("d1", "drawings[].data", &control, &limits).is_err());
}
