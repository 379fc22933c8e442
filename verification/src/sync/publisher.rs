//! What the streams hear, and on which channel.

use crate::ids::{hyphenated, Uuid};
use crate::json::Json;
use crate::sync::config::upload::ConfigBroadcast;
use vstd::prelude::*;

verus! {

/// An event on a stream.
#[derive(Debug)]
pub enum SyncSseEvent {
    /// One value changed.
    DirectUpdate {
        entity: String,
        key: String,
        value: Json,
        /// The client the change came from, which does not need to hear of it.
        sender_client_id: Option<String>,
        /// The tablet the update is aimed at.
        device_uuid: Option<Uuid>,
        /// Set when the row was deleted: a listener drops the key.
        is_deleted: bool,
    },
    /// Something changed that a listener has to read again.
    Invalidate { entity: String, sender_client_id: Option<String>, device_uuid: Option<Uuid> },
    /// What a stream opens with.
    InitialState { entity: String, data: Json },
}

/// The name of an event's kind.
pub open spec fn variant_name(event: SyncSseEvent) -> Seq<char> {
    match event {
        SyncSseEvent::DirectUpdate { .. } => "DIRECT_UPDATE"@,
        SyncSseEvent::Invalidate { .. } => "INVALIDATE"@,
        SyncSseEvent::InitialState { .. } => "INITIAL_STATE"@,
    }
}

/// The table an event is about.
pub open spec fn entity_of(event: SyncSseEvent) -> Seq<char> {
    match event {
        SyncSseEvent::DirectUpdate { entity, .. } => entity@,
        SyncSseEvent::Invalidate { entity, .. } => entity@,
        SyncSseEvent::InitialState { entity, .. } => entity@,
    }
}

/// The client an event came from, where it says so.
pub open spec fn sender_of(event: SyncSseEvent) -> Option<String> {
    match event {
        SyncSseEvent::DirectUpdate { sender_client_id, .. } => sender_client_id,
        SyncSseEvent::Invalidate { sender_client_id, .. } => sender_client_id,
        SyncSseEvent::InitialState { .. } => None,
    }
}

/// The device an event is aimed at, where it is aimed at one.
pub open spec fn target_of(event: SyncSseEvent) -> Option<Uuid> {
    match event {
        SyncSseEvent::DirectUpdate { device_uuid, .. } => device_uuid,
        SyncSseEvent::Invalidate { device_uuid, .. } => device_uuid,
        SyncSseEvent::InitialState { .. } => None,
    }
}

/// Whether a flag is left out of the wire form.
pub fn is_false(value: &bool) -> (b: bool)
    ensures
        b == !*value,
{
    !*value
}

impl SyncSseEvent {
    /// The name of this event's kind, for logs that must not hold what it carries.
    pub fn variant(&self) -> (name: &'static str)
        ensures
            name@ == variant_name(*self),
    {
        match self {
            SyncSseEvent::DirectUpdate { .. } => "DIRECT_UPDATE",
            SyncSseEvent::Invalidate { .. } => "INVALIDATE",
            SyncSseEvent::InitialState { .. } => "INITIAL_STATE",
        }
    }

    /// The table this event is about.
    pub fn entity(&self) -> (name: &str)
        ensures
            name@ == entity_of(*self),
    {
        match self {
            SyncSseEvent::DirectUpdate { entity, .. } => entity.as_str(),
            SyncSseEvent::Invalidate { entity, .. } => entity.as_str(),
            SyncSseEvent::InitialState { entity, .. } => entity.as_str(),
        }
    }
}

/// The channel of an account.
pub open spec fn user_channel(user: Seq<char>) -> Seq<char> {
    "sync_channel:"@ + user
}

/// The channel of one device of an account.
pub open spec fn device_channel(user: Seq<char>, device: Uuid) -> Seq<char> {
    "sync_channel:"@ + user + ":device:"@ + hyphenated(device.bits)
}

/// The channel of an account.
pub fn get_channel_name(user_id: &str) -> (name: String)
    ensures
        name@ == user_channel(user_id@),
{
    let mut s = "sync_channel:".to_owned();
    s.append(user_id);
    s
}

/// The channel of one device of an account. Configs live per device, so their updates go
/// here rather than on the account's channel.
pub fn get_device_channel_name(user_id: &str, device_uuid: Uuid) -> (name: String)
    ensures
        name@ == device_channel(user_id@, device_uuid),
{
    let mut s = "sync_channel:".to_owned();
    s.append(user_id);
    s.append(":device:");
    s.append(device_uuid.text().as_str());
    s
}

/// Whether `event` is what the device's stream hears of a config that was written: the value
/// itself under its key, and not the whole row.
pub open spec fn announces(event: SyncSseEvent, broadcast: ConfigBroadcast, client: Seq<char>) -> bool {
    match event {
        SyncSseEvent::DirectUpdate {
            entity,
            key,
            value,
            sender_client_id,
            device_uuid,
            is_deleted,
        } => {
            &&& entity@ == "config"@
            &&& key == broadcast.item.key
            &&& value == Json::Text(broadcast.item.value)
            &&& crate::text::opt_text(sender_client_id) == Some(client)
            &&& device_uuid == Some(broadcast.device_uuid)
            &&& is_deleted == broadcast.item.is_deleted
        },
        _ => false,
    }
}

/// What the device's stream hears of a config that `client_id` wrote.
pub fn config_event(broadcast: &ConfigBroadcast, client_id: &str) -> (event: SyncSseEvent)
    ensures
        announces(event, *broadcast, client_id@),
{
    SyncSseEvent::DirectUpdate {
        entity: "config".to_owned(),
        key: broadcast.item.key.clone(),
        value: Json::Text(broadcast.item.value.clone()),
        sender_client_id: Some(client_id.to_owned()),
        device_uuid: Some(broadcast.device_uuid),
        is_deleted: broadcast.item.is_deleted,
    }
}

/// The devices of one account have distinct channels.
pub proof fn devices_have_their_own_channels(user: Seq<char>, one: Uuid, other: Uuid)
    requires
        device_channel(user, one) == device_channel(user, other),
    ensures
        one == other,
{
    let head = "sync_channel:"@ + user + ":device:"@;
    assert(device_channel(user, one).skip(head.len() as int) =~= hyphenated(one.bits));
    assert(device_channel(user, other).skip(head.len() as int) =~= hyphenated(other.bits));
    crate::ids::hyphenated_injective(one.bits, other.bits);
}

/// The device's stream hears of a written config what the device needs: the config's key and its
/// value as text, that it was deleted where it was, the client that wrote it, and the device it
/// is aimed at.
pub proof fn a_written_config_is_heard_as_it_is(
    broadcast: &ConfigBroadcast,
    client_id: &str,
    event: SyncSseEvent,
)
    requires
        call_ensures(config_event, (broadcast, client_id), event),
    ensures
        match event {
            SyncSseEvent::DirectUpdate {
                entity,
                key,
                value,
                sender_client_id,
                device_uuid,
                is_deleted,
            } => {
                &&& entity@ == "config"@
                &&& key@ == broadcast.item.key@
                &&& value matches Json::Text(text) && text@ == broadcast.item.value@
                &&& sender_client_id matches Some(sender) && sender@ == client_id@
                &&& device_uuid == Some(broadcast.device_uuid)
                &&& is_deleted == broadcast.item.is_deleted
            },
            _ => false,
        },
{
}

/// An event is named by its kind and by the table it is about; only an update or an
/// invalidation has a sender or is aimed at a device.
pub proof fn an_event_is_named_by_its_kind(event: &SyncSseEvent, name: &'static str, table: &str)
    requires
        call_ensures(SyncSseEvent::variant, (event,), name),
        call_ensures(SyncSseEvent::entity, (event,), table),
    ensures
        match *event {
            SyncSseEvent::DirectUpdate { entity, sender_client_id, device_uuid, .. } => name@
                == "DIRECT_UPDATE"@ && table@ == entity@ && sender_of(*event) == sender_client_id
                && target_of(*event) == device_uuid,
            SyncSseEvent::Invalidate { entity, sender_client_id, device_uuid } => name@
                == "INVALIDATE"@ && table@ == entity@ && sender_of(*event) == sender_client_id
                && target_of(*event) == device_uuid,
            SyncSseEvent::InitialState { entity, .. } => name@ == "INITIAL_STATE"@ && table@
                == entity@ && sender_of(*event) is None && target_of(*event) is None,
        },
{
}

/// An account has a channel of its own, and each of its devices one that begins with it and is
/// not it: no device's updates are heard on the account's channel.
pub proof fn a_device_is_heard_apart_from_its_account(
    user: Seq<char>,
    other: Seq<char>,
    device: Uuid,
)
    ensures
        user_channel(user) == user_channel(other) ==> user == other,
        device_channel(user, device) == device_channel(other, device) ==> user == other,
        user_channel(user) != device_channel(user, device),
        device_channel(user, device).take(user_channel(user).len() as int) == user_channel(user),
        user_channel(user).skip("sync_channel:"@.len() as int) == user,
{
    let head = "sync_channel:"@;
    let n = head.len() as int;
    let tail = ":device:"@ + hyphenated(device.bits);
    crate::ids::hyphenated_len(device.bits);
    assert(user_channel(user).skip(n) =~= user);
    assert(user_channel(other).skip(n) =~= other);
    assert(device_channel(user, device) =~= head + user + tail);
    assert(device_channel(other, device) =~= head + other + tail);
    assert(device_channel(user, device).take(user_channel(user).len() as int) =~= user_channel(
        user,
    ));
    assert(device_channel(user, device).len() == n + user.len() + tail.len());
    assert(tail.len() >= 36);
    if device_channel(user, device) == device_channel(other, device) {
        assert(device_channel(user, device).subrange(n, n + user.len()) =~= user);
        assert(device_channel(other, device).subrange(n, n + other.len()) =~= other);
    }
}

} // verus!
