use teddy_sync::ids::{choose_uuid, fresh_uuid, parse_or_hash_uuid, read_uuid, Uuid};
use teddy_sync::instant::Instant;
use teddy_sync::json::Json;
use teddy_sync::sync::config::upload::ConfigBroadcast;
use teddy_sync::sync::fanout::{
    confirm_subscription, serve, Backoff, Registry, ServeEvent, ServeExit, SubscribeReply,
    RECONNECT_INITIAL_DELAY_MS, RECONNECT_MAX_DELAY_MS,
};
use teddy_sync::sync::publish_conn::{with_redial, ConnectionCache, Redial};
use teddy_sync::sync::publisher::{
    config_event, get_channel_name, get_device_channel_name, is_false, SyncSseEvent,
};
use teddy_sync::sync::remote_mutations::remote_reads;
use teddy_sync::sync::request::ConfigSyncItem;
use teddy_sync::sync::status::{
    cached_timestamp, get_cache_key, latest_update, status_from_tables, status_reads, status_scope,
    status_step, sync_status, timestamp_to_cache, StatusStep,
};
use teddy_sync::sync::stream::{
    build_sse_headers, channels_of_stream, event_targets_device, is_cloud_scope, is_echo,
    passes_on, requested_device, resolve_stream_device, StreamDevice,
};
use teddy_sync::sync::stream_limits::{
    read_cap, StreamRefusal, StreamSlots, DEFAULT_MAX_STREAMS_PER_USER, DEFAULT_MAX_STREAMS_TOTAL,
};
use teddy_sync::sync::types::{Claims, Product, SyncScope, SyncState};

const TABLET: Uuid = Uuid { bits: 10 };
const SECOND: Uuid = Uuid { bits: 11 };

// Ids

#[test]
fn an_identifier_is_parsed_or_hashed() {
    let spelled = "67E55044-10B1-426F-9247-BB680E5FE0C8";
    let id = parse_or_hash_uuid(spelled);
    assert_eq!(id.bits, 0x67e55044_10b1_426f_9247_bb680e5fe0c8);
    assert_eq!(id.text(), "67e55044-10b1-426f-9247-bb680e5fe0c8");
    assert_eq!(read_uuid("user-1"), None);

    // The hash is version 5 and the same every time.
    let hashed = parse_or_hash_uuid("user-1");
    assert_eq!(hashed, parse_or_hash_uuid("user-1"));
    assert_ne!(hashed, parse_or_hash_uuid("user-2"));
    assert_eq!(hashed.text().as_bytes()[14], b'5');
    // The published example of a name in the DNS namespace.
    assert_eq!(parse_or_hash_uuid("python.org").text(), "886313e1-3b8a-5372-9b90-0c9aee199e5d");
    assert_eq!(choose_uuid(None, TABLET), TABLET);
    assert_eq!(choose_uuid(Some(SECOND), TABLET), SECOND);
}

#[test]
fn a_fresh_id_is_random() {
    let id = fresh_uuid();
    assert_ne!(id, fresh_uuid());
    assert_eq!(id.text().as_bytes()[14], b'4');
    assert_eq!(read_uuid(&id.text()), Some(id));
}

// Slots

#[test]
fn streams_are_capped_per_account_and_in_all() {
    let mut slots = StreamSlots::with_limits(2, 3);
    let first = slots.try_acquire("a").unwrap();
    slots.try_acquire("a").unwrap();
    assert_eq!(slots.try_acquire("a").unwrap_err(), StreamRefusal::PerUser);
    slots.try_acquire("b").unwrap();
    assert_eq!(slots.try_acquire("c").unwrap_err(), StreamRefusal::Global);
    assert_eq!(slots.active_total(), 3);

    slots.release(first);
    assert_eq!(slots.active_for_user("a"), 1);
    assert_eq!(slots.active_total(), 2);
    assert!(slots.try_acquire("c").is_ok());
}

#[test]
fn a_full_process_is_reported_before_a_full_account() {
    let mut slots = StreamSlots::with_limits(1, 1);
    slots.try_acquire("a").unwrap();
    assert_eq!(slots.try_acquire("a").unwrap_err(), StreamRefusal::Global);
    assert_eq!(StreamRefusal::PerUser.error().status(), 429);
    assert_eq!(StreamRefusal::Global.error().status(), 503);
    assert_ne!(StreamRefusal::PerUser.label(), StreamRefusal::Global.label());
}

#[test]
fn a_refused_stream_takes_no_slot() {
    let mut slots = StreamSlots::with_limits(1, 5);
    slots.try_acquire("a").unwrap();
    slots.try_acquire("a").unwrap_err();
    assert_eq!(slots.active_for_user("a"), 1);
    assert_eq!(slots.active_total(), 1);
}

#[test]
fn stream_caps_fall_back_on_junk_and_zero() {
    assert_eq!(read_cap(None, 7), 7);
    assert_eq!(read_cap(Some("0"), 7), 7);
    assert_eq!(read_cap(Some("junk"), 7), 7);
    assert_eq!(read_cap(Some("12"), 7), 12);
    let mut slots = StreamSlots::from_env(Some("1"), None);
    slots.try_acquire("a").unwrap();
    assert!(slots.try_acquire("a").is_err());
    let mut slots = StreamSlots::default();
    for _ in 0..DEFAULT_MAX_STREAMS_PER_USER {
        slots.try_acquire("a").unwrap();
    }
    assert!(slots.try_acquire("a").is_err());
    assert_eq!(DEFAULT_MAX_STREAMS_TOTAL, 1_000);
}

// Fan-out

#[test]
fn one_subscription_serves_every_listener_of_a_channel() {
    let mut registry = Registry::new();
    assert!(registry.subscribe("a"));
    assert!(!registry.subscribe("a"));
    assert!(registry.subscribe("b"));
    assert_eq!(registry.listener_count("a"), 2);
    assert_eq!(registry.subscribed_channels(), 2);

    assert!(!registry.release("a"));
    assert!(registry.release("a"));
    assert_eq!(registry.listener_count("a"), 0);
    assert!(!registry.release("a"));
    assert_eq!(registry.channels(), vec!["b"]);

    registry.drop_all();
    assert_eq!(registry.subscribed_channels(), 0);
    assert!(registry.subscribe("b"));
}

#[test]
fn a_subscription_counts_once_it_is_confirmed() {
    assert!(confirm_subscription("c", &SubscribeReply::Confirmed).is_ok());
    for reply in
        [SubscribeReply::Failed("boom".to_string()), SubscribeReply::NotRunning, SubscribeReply::Stopped]
    {
        assert!(confirm_subscription("c", &reply).is_err());
    }
}

#[test]
fn a_connection_is_served_until_it_is_lost() {
    assert_eq!(serve(ServeEvent::Message), ServeExit::Stay);
    assert_eq!(serve(ServeEvent::Subscribed(true)), ServeExit::Stay);
    assert_eq!(serve(ServeEvent::Subscribed(false)), ServeExit::ConnectionLost);
    assert_eq!(serve(ServeEvent::Unsubscribed(true)), ServeExit::Stay);
    assert_eq!(serve(ServeEvent::Unsubscribed(false)), ServeExit::ConnectionLost);
    assert_eq!(serve(ServeEvent::Ended), ServeExit::ConnectionLost);
    assert_eq!(serve(ServeEvent::Abandoned), ServeExit::ShuttingDown);
}

#[test]
fn waits_double_up_to_a_bound_and_start_over() {
    let mut backoff = Backoff::new();
    assert_eq!(backoff.wait(), RECONNECT_INITIAL_DELAY_MS);
    assert_eq!(backoff.wait(), 500);
    for _ in 0..10 {
        backoff.wait();
    }
    assert_eq!(backoff.wait(), RECONNECT_MAX_DELAY_MS);
    backoff.restored();
    assert_eq!(backoff.wait(), RECONNECT_INITIAL_DELAY_MS);
}

// Publishing

#[test]
fn a_stale_connection_does_not_evict_its_replacement() {
    let mut cache = ConnectionCache::new();
    assert!(cache.connection().is_none());
    let first = cache.dialled();
    cache.discard(first);
    assert!(cache.connection().is_none());
    let second = cache.dialled();
    cache.discard(first);
    assert_eq!(cache.connection(), Some(second));
}

#[test]
fn a_failed_publish_is_tried_once_more() {
    assert_eq!(with_redial(true, false), Redial::Retry);
    assert_eq!(with_redial(true, true), Redial::Answer);
    assert_eq!(with_redial(false, false), Redial::Answer);
    assert_eq!(with_redial(false, true), Redial::Answer);
}

#[test]
fn every_device_has_its_own_channel() {
    let account = get_channel_name("u1");
    let tablet = get_device_channel_name("u1", TABLET);
    assert!(account.contains("u1"));
    assert!(tablet.contains("u1") && tablet.contains("00000000-0000-0000-0000-00000000000a"));
    assert_ne!(account, tablet);
    assert_ne!(tablet, get_device_channel_name("u1", SECOND));
    assert_ne!(tablet, get_device_channel_name("u2", TABLET));
    assert!(is_false(&false) && !is_false(&true));
}

fn item(key: &str, value: &str) -> ConfigSyncItem {
    ConfigSyncItem {
        id: Uuid { bits: 1 },
        device_uuid: Some(TABLET),
        key: key.to_string(),
        value: value.to_string(),
        sync_state: SyncState::Synced,
        version: 3,
        is_deleted: false,
        last_modified: 9,
    }
}

#[test]
fn a_stored_config_is_pushed_to_its_device() {
    let broadcast = ConfigBroadcast { device_uuid: TABLET, item: item("child_name", "Robin") };
    let event = config_event(&broadcast, "client-1");
    assert_eq!(event.entity(), "config");
    match &event {
        SyncSseEvent::DirectUpdate { key, value, sender_client_id, device_uuid, is_deleted, .. } => {
            assert_eq!(key, "child_name");
            assert!(matches!(value, Json::Text(s) if s == "Robin"), "{:?}", value);
            assert_eq!(sender_client_id.as_deref(), Some("client-1"));
            assert_eq!(*device_uuid, Some(TABLET));
            assert!(!is_deleted);
        }
        other => panic!("expected a direct update, got {:?}", other),
    }
    assert!(is_echo(&event, "client-1"));
    assert!(!is_echo(&event, "client-2"));
    assert!(event_targets_device(&event, Some(TABLET)));
    assert!(!event_targets_device(&event, Some(SECOND)));
    assert!(!event_targets_device(&event, None));
    assert!(passes_on(Some(&event), "client-2", Some(TABLET)));
    assert!(!passes_on(Some(&event), "client-1", Some(TABLET)));
    assert!(!passes_on(Some(&event), "client-2", Some(SECOND)));
}

#[test]
fn an_account_wide_event_reaches_every_device() {
    let event =
        SyncSseEvent::Invalidate { entity: "todo".to_string(), sender_client_id: None, device_uuid: None };
    assert_ne!(event.variant(), "");
    assert!(event_targets_device(&event, Some(TABLET)));
    assert!(event_targets_device(&event, None));
    assert!(!is_echo(&event, "client-1"));
}

// Streams

#[test]
fn a_stream_watches_the_device_it_names() {
    let spelled = "00000000-0000-0000-0000-00000000000a";
    assert_eq!(requested_device(None, Some(spelled)), Some(TABLET));
    assert_eq!(requested_device(Some(SECOND), Some(spelled)), Some(SECOND));
    assert_eq!(requested_device(None, Some("nonsense")), None);
    assert_eq!(requested_device(None, None), None);

    assert_eq!(resolve_stream_device(Some(TABLET), None), StreamDevice::Watches(TABLET));
    assert_eq!(
        resolve_stream_device(None, Some("scribble_keep_cloud")),
        StreamDevice::AccountWide
    );
    assert_eq!(resolve_stream_device(None, Some("All")), StreamDevice::Fallback);
    assert!(is_cloud_scope(Some("scribble_keep_cloud")));
    assert!(!is_cloud_scope(None));

    assert_eq!(
        channels_of_stream("u1", Some(TABLET)),
        vec![get_channel_name("u1"), get_device_channel_name("u1", TABLET)]
    );
    assert_eq!(channels_of_stream("u1", None), vec![get_channel_name("u1")]);
}

#[test]
fn a_stream_is_not_buffered_on_the_way() {
    let headers = build_sse_headers();
    let of = |name: &str| headers.iter().find(|h| h.name == name).map(|h| h.value);
    assert_eq!(of("x-accel-buffering"), Some("no"));
    assert!(of("cache-control").unwrap().contains("no-cache"));
}

// Status

fn claims(product: Option<Product>) -> Claims {
    Claims { sub: "u1".to_string(), client_uuid: "c1".to_string(), exp: 0, product }
}

fn at(secs: i64, nanos: u32) -> Instant {
    Instant { secs, nanos }
}

#[test]
fn a_cached_timestamp_is_read_back() {
    let then = at(1_709_251_199, 123_456_000);
    let written = timestamp_to_cache(then);
    assert!(written.starts_with("2024-02-29T23:59:59.123456"), "{}", written);
    assert_eq!(cached_timestamp(Some(&written)), Some(then));
    assert_eq!(cached_timestamp(Some("2024-02-29T23:59:59+01:00")), Some(at(1_709_247_599, 0)));
    assert_eq!(cached_timestamp(Some("yesterday")), None);
    assert_eq!(cached_timestamp(None), None);
}

#[test]
fn a_client_behind_the_latest_update_needs_a_sync() {
    let latest = latest_update(&vec![Some(at(5, 0)), None, Some(at(7, 1)), Some(at(6, 0))]);
    assert_eq!(latest, at(7, 1));
    assert_eq!(latest_update(&vec![None, None]), at(0, 0));
    assert!(sync_status(latest, Some(at(7, 0))).needs_sync);
    assert!(!sync_status(latest, Some(at(7, 1))).needs_sync);
    assert!(sync_status(latest, None).needs_sync);
    assert_eq!(sync_status(latest, None).latest_version, latest);
}

#[test]
fn a_status_is_about_one_permitted_scope() {
    assert_eq!(get_cache_key("u1", SyncScope::Todo), "user:u1:last_update:Todo");
    assert_eq!(status_scope(&claims(None), None).unwrap(), SyncScope::All);
    assert_eq!(
        status_scope(&claims(Some(Product::ScribbleRoute)), None).unwrap_err().status(),
        403
    );
    let reads = status_reads(SyncScope::ScribbleKeep);
    assert!(reads.configs && !reads.todo && !reads.grocery);
    let reads = status_reads(SyncScope::All);
    assert!(reads.todo && reads.grocery && !reads.drawings);
}

#[test]
fn the_products_download_apart() {
    let teddy = remote_reads(SyncScope::All);
    assert!(teddy.todo && teddy.grocery && !teddy.configs && !teddy.drawings);
    let grocery = remote_reads(SyncScope::Grocery);
    assert!(!grocery.todo && grocery.grocery);
    let scribble = remote_reads(SyncScope::ScribbleKeep);
    assert!(!scribble.todo && !scribble.grocery && scribble.configs);
}

#[test]
fn the_cache_answers_where_it_can_be_read() {
    let scope = SyncScope::Grocery;
    let read = StatusStep::Read(status_reads(scope));
    assert_eq!(status_step(None, scope, None), read);
    assert_eq!(status_step(Some("yesterday"), scope, Some(at(1, 0))), read);

    let updates = vec![Some(at(5, 0)), None, Some(at(7, 1_000))];
    let found = status_from_tables(&updates, Some(at(6, 0)));
    assert!(found.response.needs_sync);
    assert_eq!(found.response.latest_version, at(7, 1_000));
    assert_eq!(
        status_step(Some(&found.to_cache), scope, Some(at(6, 0))),
        StatusStep::Answer(found.response)
    );
    assert_eq!(
        status_step(Some(&found.to_cache), scope, Some(at(8, 0))),
        StatusStep::Answer(sync_status(at(7, 1_000), Some(at(8, 0))))
    );
    assert!(!status_from_tables(&vec![None], Some(at(0, 0))).response.needs_sync);
}

#[test]
fn a_slot_knows_its_account() {
    let mut slots = StreamSlots::with_limits(1, 2);
    let slot = slots.try_acquire("alice").unwrap();
    assert_eq!(slot.user_id(), "alice");
    assert_eq!(slots.active_for_user(slot.user_id()), 1);
    slots.release(slot);
    assert_eq!(slots.active_total(), 0);
}
