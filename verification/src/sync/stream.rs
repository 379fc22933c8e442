//! Streams: which channels one listens to, and which events it passes on.

use crate::ids::{parsed_uuid, read_uuid, Uuid};
use crate::sync::publisher::{
    device_channel, get_channel_name, get_device_channel_name, sender_of, target_of, user_channel,
    SyncSseEvent,
};
use crate::text::{is_text, opt_text, raw_text, same_text, texts, upper_text};
use vstd::prelude::*;

verus! {

/// How often an idle stream is kept alive, in seconds.
pub const KEEP_ALIVE_SECS: u64 = 240;

/// What it is kept alive with.
pub const KEEP_ALIVE_TEXT: &'static str = "ping";

/// Whether a stream belongs to the cloud dashboard, which watches every device at once.
pub open spec fn cloud_scope(scope: Option<Seq<char>>) -> bool {
    match scope {
        Some(s) => upper_text(s) == "SCRIBBLE_KEEP_CLOUD"@,
        None => false,
    }
}

/// Whether a stream belongs to the cloud dashboard, in any case of letters.
pub fn is_cloud_scope(scope: Option<&str>) -> (b: bool)
    ensures
        b == cloud_scope(raw_text(scope)),
{
    match scope {
        Some(s) => {
            let upper = s.to_ascii_uppercase();
            same_text(upper.as_str(), "SCRIBBLE_KEEP_CLOUD")
        },
        None => false,
    }
}

/// The device a stream asks for: the one in its query, or else the one its header spells.
pub fn requested_device(query: Option<Uuid>, header: Option<&str>) -> (device: Option<Uuid>)
    ensures
        device == (match query {
            Some(device) => Some(device),
            None => match raw_text(header) {
                Some(s) => match parsed_uuid(s) {
                    Some(bits) => Some(Uuid { bits }),
                    None => None,
                },
                None => None,
            },
        }),
{
    match query {
        Some(device) => Some(device),
        None => match header {
            Some(s) => read_uuid(s),
            None => None,
        },
    }
}

/// The device a stream watches.
#[derive(Debug, Clone, Copy, PartialEq, Eq, Structural)]
pub enum StreamDevice {
    /// This one.
    Watches(Uuid),
    /// All of them.
    AccountWide,
    /// The account's fallback device, or all where it has none. A stream never registers one.
    Fallback,
}

/// The device a stream watches: the one it names. A tablet that names none watches the
/// device its syncs fall back to, and the cloud dashboard watches the account.
pub open spec fn stream_device(requested: Option<Uuid>, scope: Option<Seq<char>>) -> StreamDevice {
    match requested {
        Some(device) => StreamDevice::Watches(device),
        None => if cloud_scope(scope) {
            StreamDevice::AccountWide
        } else {
            StreamDevice::Fallback
        },
    }
}

/// The device a stream watches.
pub fn resolve_stream_device(requested: Option<Uuid>, scope: Option<&str>) -> (device: StreamDevice)
    ensures
        device == stream_device(requested, raw_text(scope)),
{
    match requested {
        Some(device) => StreamDevice::Watches(device),
        None => if is_cloud_scope(scope) {
            StreamDevice::AccountWide
        } else {
            StreamDevice::Fallback
        },
    }
}

/// The channels a stream listens to: the account's, and its device's where it watches one.
pub open spec fn stream_channels(user: Seq<char>, device: Option<Uuid>) -> Seq<Seq<char>> {
    match device {
        Some(device) => seq![user_channel(user), device_channel(user, device)],
        None => seq![user_channel(user)],
    }
}

/// The channels a stream listens to.
pub fn channels_of_stream(user_id: &str, device: Option<Uuid>) -> (channels: Vec<String>)
    ensures
        texts(channels@) == stream_channels(user_id@, device),
{
    let mut channels: Vec<String> = Vec::new();
    channels.push(get_channel_name(user_id));
    if let Some(device) = device {
        channels.push(get_device_channel_name(user_id, device));
    }
    assert(texts(channels@) =~= stream_channels(user_id@, device));
    channels
}

/// A response header.
#[derive(Debug)]
pub struct Header {
    pub name: &'static str,
    pub value: &'static str,
}

/// The headers a stream is answered with, so that nothing in between buffers it.
pub fn build_sse_headers() -> (headers: Vec<Header>)
    ensures
        headers@.len() == 3,
        headers@[0].name@ == "cache-control"@ && headers@[0].value@ == "no-cache"@,
        headers@[1].name@ == "connection"@ && headers@[1].value@ == "keep-alive"@,
        headers@[2].name@ == "x-accel-buffering"@ && headers@[2].value@ == "no"@,
{
    let mut headers: Vec<Header> = Vec::new();
    headers.push(Header { name: "cache-control", value: "no-cache" });
    headers.push(Header { name: "connection", value: "keep-alive" });
    headers.push(Header { name: "x-accel-buffering", value: "no" });
    headers
}

/// Whether an event belongs on a stream: one aimed at no device is everybody's, and one
/// aimed at a device is for the streams watching it.
pub open spec fn targets(event: SyncSseEvent, watching: Option<Uuid>) -> bool {
    target_of(event) is None || target_of(event) == watching
}

/// Whether an event belongs on a stream watching `device_uuid`.
pub fn event_targets_device(event: &SyncSseEvent, device_uuid: Option<Uuid>) -> (b: bool)
    ensures
        b == targets(*event, device_uuid),
{
    let target = match event {
        SyncSseEvent::DirectUpdate { device_uuid, .. } => *device_uuid,
        SyncSseEvent::Invalidate { device_uuid, .. } => *device_uuid,
        SyncSseEvent::InitialState { .. } => None,
    };
    match (target, device_uuid) {
        (None, _) => true,
        (Some(_), None) => false,
        (Some(target), Some(watching)) => target == watching,
    }
}

/// Whether an event came from a client.
pub open spec fn echoes(event: SyncSseEvent, client: Seq<char>) -> bool {
    opt_text(sender_of(event)) == Some(client)
}

/// Whether an event is an echo of the listening client's own write.
pub fn is_echo(event: &SyncSseEvent, client_id: &str) -> (b: bool)
    ensures
        b == echoes(*event, client_id@),
{
    match event {
        SyncSseEvent::DirectUpdate { sender_client_id, .. } => is_text(sender_client_id, client_id),
        SyncSseEvent::Invalidate { sender_client_id, .. } => is_text(sender_client_id, client_id),
        SyncSseEvent::InitialState { .. } => false,
    }
}

/// Whether a stream passes a message on: its own echoes and other tablets' events are left
/// out, and a message that is no event goes through as it is.
pub fn passes_on(event: Option<&SyncSseEvent>, client_id: &str, watching: Option<Uuid>) -> (b: bool)
    ensures
        b == (match event {
            Some(event) => !echoes(*event, client_id@) && targets(*event, watching),
            None => true,
        }),
{
    match event {
        Some(event) => !is_echo(event, client_id) && event_targets_device(event, watching),
        None => true,
    }
}

/// A stream that watches the whole account hears only what is aimed at no tablet, and an
/// account-wide event reaches every stream.
pub proof fn account_wide_events_reach_everybody(event: SyncSseEvent, watching: Option<Uuid>)
    ensures
        target_of(event) is None ==> targets(event, watching),
        watching is None ==> (targets(event, watching) <==> target_of(event) is None),
{
}

/// A stream passes on what is not its own echo and is aimed at its device or at none, and every
/// message that is no event. What another client wrote for no device in particular always goes
/// through, and what the listening client wrote never does.
pub proof fn a_stream_passes_on_what_others_wrote_for_it(
    event: &SyncSseEvent,
    client_id: &str,
    watching: Option<Uuid>,
    passed: bool,
    unread: bool,
)
    requires
        call_ensures(passes_on, (Some(event), client_id, watching), passed),
        call_ensures(passes_on, (None, client_id, watching), unread),
    ensures
        unread,
        passed <==> match *event {
            SyncSseEvent::DirectUpdate { sender_client_id, device_uuid, .. } => is_theirs(
                sender_client_id,
                device_uuid,
                client_id@,
                watching,
            ),
            SyncSseEvent::Invalidate { sender_client_id, device_uuid, .. } => is_theirs(
                sender_client_id,
                device_uuid,
                client_id@,
                watching,
            ),
            SyncSseEvent::InitialState { .. } => true,
        },
{
}

/// Whether an event is not the client's own and is aimed at no device or at the one watched.
pub open spec fn is_theirs(
    sender: Option<String>,
    target: Option<Uuid>,
    client: Seq<char>,
    watching: Option<Uuid>,
) -> bool {
    &&& sender matches Some(s) ==> s@ != client
    &&& target matches Some(device) ==> (watching matches Some(own) && own == device)
}

/// A stream watches the device in its query, or else the one its header spells. Where it names
/// none, the cloud dashboard watches the account, however its scope is capitalised, and a tablet
/// the fallback device.
pub proof fn a_stream_watches_the_device_it_names(
    query: Option<Uuid>,
    header: Option<&str>,
    requested: Option<Uuid>,
    scope: Option<&str>,
    device: StreamDevice,
)
    requires
        call_ensures(requested_device, (query, header), requested),
        call_ensures(resolve_stream_device, (requested, scope), device),
    ensures
        query is Some ==> requested == query,
        query is None && header is None ==> requested is None,
        query is None ==> (header matches Some(s) ==> match parsed_uuid(s@) {
            Some(bits) => requested matches Some(id) && id.bits == bits,
            None => requested is None,
        }),
        requested matches Some(id) ==> device == StreamDevice::Watches(id),
        requested is None ==> (device is AccountWide <==> (scope matches Some(s) && upper_text(s@)
            == "SCRIBBLE_KEEP_CLOUD"@)),
        requested is None ==> (device is AccountWide || device is Fallback),
{
}

/// A stream listens to its account's channel first, and to its device's too where it watches
/// one, and to no other.
pub proof fn a_stream_listens_to_its_own_channels(
    user_id: &str,
    device: Option<Uuid>,
    channels: Vec<String>,
)
    requires
        call_ensures(channels_of_stream, (user_id, device), channels),
    ensures
        channels@.len() == (if device is Some {
            2nat
        } else {
            1nat
        }),
        channels@[0]@ == user_channel(user_id@),
        device matches Some(id) ==> channels@[1]@ == device_channel(user_id@, id),
{
    let names = texts(channels@);
    assert(names.len() == channels@.len());
    assert(names[0] == channels@[0]@);
    if device is Some {
        assert(names[1] == channels@[1]@);
    }
}

/// Nothing between the service and the listener keeps a stream back: it is neither cached nor
/// buffered, and its connection is kept.
pub proof fn a_stream_is_not_kept_back(headers: Vec<Header>)
    requires
        call_ensures(build_sse_headers, (), headers),
    ensures
        headers@.len() == 3,
        headers@[0].name@ == "cache-control"@,
        headers@[0].value@ == "no-cache"@,
        headers@[1].name@ == "connection"@,
        headers@[1].value@ == "keep-alive"@,
        headers@[2].name@ == "x-accel-buffering"@,
        headers@[2].value@ == "no"@,
{
}

} // verus!
