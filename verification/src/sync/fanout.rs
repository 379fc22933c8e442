//! Which channels this process listens to on its one shared subscription.
//!
//! A channel is subscribed to when its first listener arrives and unsubscribed from when
//! its last one leaves, so nothing is left behind by a client that has gone.

use crate::error::{outcome, AppError, ErrorView};
use crate::text::{same_text, texts};
use vstd::prelude::*;

verus! {

/// Events buffered for each channel before a slow listener starts losing them.
pub const CHANNEL_BUFFER: usize = 256;

/// The first delay before reconnecting, in milliseconds.
pub const RECONNECT_INITIAL_DELAY_MS: u64 = 250;

/// The longest delay before reconnecting, in milliseconds.
pub const RECONNECT_MAX_DELAY_MS: u64 = 10_000;

/// What a caller is told that asks to subscribe during an outage.
pub const OUTAGE: &'static str = "the shared Redis pub/sub connection is down";

/// One channel and the number of its listeners.
#[derive(Debug)]
pub struct ChannelState {
    pub name: String,
    pub listeners: usize,
}

/// The channels this process has a listener for.
pub struct Registry {
    channels: Vec<ChannelState>,
}

/// Whether an entry is a channel's.
pub open spec fn is_at(channels: Seq<ChannelState>, i: int, name: Seq<char>) -> bool {
    0 <= i < channels.len() && channels[i].name@ == name
}

impl Registry {
    closed spec fn entries(self) -> Seq<ChannelState> {
        self.channels@
    }

    /// The listeners of a channel.
    pub closed spec fn count(self, name: Seq<char>) -> nat {
        if exists|i: int| is_at(self.entries(), i, name) {
            self.entries()[choose|i: int| is_at(self.entries(), i, name)].listeners as nat
        } else {
            0
        }
    }

    /// The channels the shared connection is subscribed to.
    pub open spec fn subscribed(self) -> Set<Seq<char>> {
        Set::new(|name: Seq<char>| self.count(name) > 0)
    }

    /// The invariant: each channel stands there once, and none without a listener.
    pub closed spec fn wf(self) -> bool {
        &&& forall|i: int, j: int|
            0 <= i < j < self.entries().len() ==> (#[trigger] self.entries()[i]).name@ != (
            #[trigger] self.entries()[j]).name@
        &&& forall|i: int|
            0 <= i < self.entries().len() ==> (#[trigger] self.entries()[i]).listeners > 0
    }

    proof fn count_at(self, i: int)
        requires
            self.wf(),
            0 <= i < self.entries().len(),
        ensures
            self.count(self.entries()[i].name@) == self.entries()[i].listeners,
    {
        let name = self.entries()[i].name@;
        assert(is_at(self.entries(), i, name));
        let j = choose|j: int| is_at(self.entries(), j, name);
        assert(is_at(self.entries(), j, name));
        if i < j {
            assert(self.entries()[i].name@ != self.entries()[j].name@);
        } else if j < i {
            assert(self.entries()[j].name@ != self.entries()[i].name@);
        }
    }

    /// A registry without channels.
    pub fn new() -> (r: Registry)
        ensures
            r.wf(),
            forall|name: Seq<char>| #[trigger] r.count(name) == 0,
    {
        Registry { channels: Vec::new() }
    }

    fn find(&self, name: &str) -> (at: Option<usize>)
        requires
            self.wf(),
        ensures
            match at {
                Some(i) => is_at(self.entries(), i as int, name@) && self.count(name@)
                    == self.entries()[i as int].listeners,
                None => self.count(name@) == 0 && forall|i: int| !is_at(self.entries(), i, name@),
            },
    {
        let mut i: usize = 0;
        while i < self.channels.len()
            invariant
                self.wf(),
                i <= self.channels.len(),
                forall|k: int| 0 <= k < i ==> (#[trigger] self.entries()[k]).name@ != name@,
            decreases self.channels.len() - i,
        {
            if same_text(self.channels[i].name.as_str(), name) {
                proof {
                    self.count_at(i as int);
                }
                return Some(i);
            }
            i = i + 1;
        }
        None
    }

    /// Registers a listener, and says whether it is the channel's first, which is when the
    /// shared connection has to be subscribed.
    pub fn subscribe(&mut self, name: &str) -> (first: bool)
        requires
            old(self).wf(),
            old(self).count(name@) < usize::MAX,
        ensures
            final(self).wf(),
            first == (old(self).count(name@) == 0),
            final(self).count(name@) == old(self).count(name@) + 1,
            forall|other: Seq<char>|
                other != name@ ==> #[trigger] final(self).count(other) == old(self).count(other),
    {
        match self.find(name) {
            Some(i) => {
                let entry = ChannelState {
                    name: self.channels[i].name.clone(),
                    listeners: self.channels[i].listeners + 1,
                };
                self.channels.set(i, entry);
                proof {
                    let before = old(self).entries();
                    let after = self.entries();
                    assert forall|a: int, b: int| 0 <= a < b < after.len() implies (
                    #[trigger] after[a]).name@ != (#[trigger] after[b]).name@ by {
                        assert(before[a].name@ != before[b].name@);
                    }
                    assert forall|k: int| 0 <= k < after.len() implies (
                    #[trigger] after[k]).listeners > 0 by {
                        if k != i {
                            assert(after[k] == before[k]);
                        }
                    }
                    assert forall|k: int| 0 <= k < before.len() && (#[trigger] before[k]).name@
                        != name@ implies exists|j: int| 0 <= j < after.len() && #[trigger] after[j]
                        == before[k] by {
                        assert(after[k] == before[k]);
                    }
                    assert forall|k: int| 0 <= k < after.len() && (#[trigger] after[k]).name@
                        != name@ implies exists|j: int| 0 <= j < before.len() && #[trigger] before[j]
                        == after[k] by {
                        assert(after[k] == before[k]);
                    }
                    self.count_at(i as int);
                    Registry::others_keep(*old(self), *self, name@);
                }
                false
            },
            None => {
                self.channels.push(ChannelState { name: name.to_owned(), listeners: 1 });
                proof {
                    let before = old(self).entries();
                    let after = self.entries();
                    assert forall|a: int, b: int| 0 <= a < b < after.len() implies (
                    #[trigger] after[a]).name@ != (#[trigger] after[b]).name@ by {
                        assert(after[a] == before[a]);
                        if b < before.len() {
                            assert(after[b] == before[b]);
                        } else {
                            assert(!is_at(before, a, name@));
                        }
                    }
                    assert forall|k: int| 0 <= k < after.len() implies (
                    #[trigger] after[k]).listeners > 0 by {
                        if k < before.len() {
                            assert(after[k] == before[k]);
                        }
                    }
                    assert forall|k: int| 0 <= k < before.len() && (#[trigger] before[k]).name@
                        != name@ implies exists|j: int| 0 <= j < after.len() && #[trigger] after[j]
                        == before[k] by {
                        assert(after[k] == before[k]);
                    }
                    assert forall|k: int| 0 <= k < after.len() && (#[trigger] after[k]).name@
                        != name@ implies exists|j: int| 0 <= j < before.len() && #[trigger] before[j]
                        == after[k] by {
                        assert(after[k] == before[k]);
                    }
                    self.count_at(before.len() as int);
                    Registry::others_keep(*old(self), *self, name@);
                }
                true
            },
        }
    }

    /// Where two registries have the same entries but for one channel, every other channel
    /// has the same listeners.
    proof fn others_keep(before: Registry, after: Registry, name: Seq<char>)
        requires
            before.wf(),
            after.wf(),
            forall|i: int|
                0 <= i < before.entries().len() && (#[trigger] before.entries()[i]).name@ != name
                    ==> exists|j: int|
                    0 <= j < after.entries().len() && #[trigger] after.entries()[j]
                        == before.entries()[i],
            forall|j: int|
                0 <= j < after.entries().len() && (#[trigger] after.entries()[j]).name@ != name
                    ==> exists|i: int|
                    0 <= i < before.entries().len() && #[trigger] before.entries()[i]
                        == after.entries()[j],
        ensures
            forall|other: Seq<char>|
                other != name ==> #[trigger] after.count(other) == before.count(other),
    {
        assert forall|other: Seq<char>| other != name implies #[trigger] after.count(other)
            == before.count(other) by {
            if exists|i: int| is_at(before.entries(), i, other) {
                let i = choose|i: int| is_at(before.entries(), i, other);
                before.count_at(i);
                let j = choose|j: int|
                    0 <= j < after.entries().len() && #[trigger] after.entries()[j]
                        == before.entries()[i];
                after.count_at(j);
            } else {
                assert forall|j: int| !is_at(after.entries(), j, other) by {
                    if is_at(after.entries(), j, other) {
                        let i = choose|i: int|
                            0 <= i < before.entries().len() && #[trigger] before.entries()[i]
                                == after.entries()[j];
                        assert(is_at(before.entries(), i, other));
                    }
                }
            }
        }
    }

    /// Releases a listener, and says whether it was the channel's last, which is when the
    /// shared connection has to be unsubscribed. A channel the registry no longer holds was
    /// dropped with its connection, and there is nothing to release.
    pub fn release(&mut self, name: &str) -> (last: bool)
        requires
            old(self).wf(),
        ensures
            final(self).wf(),
            last == (old(self).count(name@) == 1),
            final(self).count(name@) == (if old(self).count(name@) == 0 {
                0
            } else {
                old(self).count(name@) - 1
            }),
            forall|other: Seq<char>|
                other != name@ ==> #[trigger] final(self).count(other) == old(self).count(other),
    {
        match self.find(name) {
            None => false,
            Some(i) => {
                let listeners: usize = self.channels[i].listeners;
                if listeners == 1 {
                    self.channels.remove(i);
                    proof {
                        let before = old(self).entries();
                        let after = self.entries();
                        assert forall|k: int| 0 <= k < after.len() implies #[trigger] after[k]
                            == before[if k < i {
                            k
                        } else {
                            k + 1
                        }] by {}
                        assert forall|a: int, b: int| 0 <= a < b < after.len() implies (
                        #[trigger] after[a]).name@ != (#[trigger] after[b]).name@ by {
                            let x = if a < i {
                                a
                            } else {
                                a + 1
                            };
                            let y = if b < i {
                                b
                            } else {
                                b + 1
                            };
                            assert(before[x].name@ != before[y].name@);
                        }
                        assert forall|k: int| 0 <= k < before.len() && (
                        #[trigger] before[k]).name@ != name@ implies exists|j: int|
                            0 <= j < after.len() && #[trigger] after[j] == before[k] by {
                            let j = if k < i {
                                k
                            } else {
                                k - 1
                            };
                            assert(after[j] == before[k]);
                        }
                        assert forall|j: int| !is_at(after, j, name@) by {
                            if 0 <= j < after.len() {
                                let k = if j < i {
                                    j
                                } else {
                                    j + 1
                                };
                                if k < i {
                                    assert(before[k].name@ != before[i as int].name@);
                                } else {
                                    assert(before[i as int].name@ != before[k].name@);
                                }
                            }
                        }
                        Registry::others_keep(*old(self), *self, name@);
                    }
                    true
                } else {
                    assert(old(self).entries()[i as int].listeners > 0);
                    let entry = ChannelState {
                        name: self.channels[i].name.clone(),
                        listeners: listeners - 1,
                    };
                    self.channels.set(i, entry);
                    proof {
                        let before = old(self).entries();
                        let after = self.entries();
                        assert forall|a: int, b: int| 0 <= a < b < after.len() implies (
                        #[trigger] after[a]).name@ != (#[trigger] after[b]).name@ by {
                            assert(before[a].name@ != before[b].name@);
                        }
                        assert forall|k: int| 0 <= k < after.len() implies (
                        #[trigger] after[k]).listeners > 0 by {
                            if k != i {
                                assert(after[k] == before[k]);
                            }
                        }
                        assert forall|k: int| 0 <= k < before.len() && (#[trigger] before[k]).name@
                            != name@ implies exists|j: int| 0 <= j < after.len() && #[trigger] after[j]
                            == before[k] by {
                            assert(after[k] == before[k]);
                        }
                        assert forall|k: int| 0 <= k < after.len() && (#[trigger] after[k]).name@
                            != name@ implies exists|j: int| 0 <= j < before.len() && #[trigger] before[j]
                            == after[k] by {
                            assert(after[k] == before[k]);
                        }
                        self.count_at(i as int);
                        Registry::others_keep(*old(self), *self, name@);
                    }
                    false
                }
            },
        }
    }

    /// Drops every channel: the subscriptions died with the connection.
    pub fn drop_all(&mut self)
        ensures
            final(self).wf(),
            forall|name: Seq<char>| #[trigger] final(self).count(name) == 0,
    {
        self.channels.clear();
    }

    /// The listeners of a channel.
    pub fn listener_count(&self, name: &str) -> (n: usize)
        requires
            self.wf(),
        ensures
            n == self.count(name@),
    {
        match self.find(name) {
            Some(i) => self.channels[i].listeners,
            None => 0,
        }
    }

    /// The channels to subscribe to again on a new connection, each once.
    pub fn channels(&self) -> (names: Vec<String>)
        requires
            self.wf(),
        ensures
            texts(names@).no_duplicates(),
            forall|name: Seq<char>| #[trigger]
                texts(names@).contains(name) <==> self.subscribed().contains(name),
    {
        let mut names: Vec<String> = Vec::new();
        let mut i: usize = 0;
        while i < self.channels.len()
            invariant
                self.wf(),
                i <= self.channels.len(),
                names@.len() == i,
                forall|k: int| 0 <= k < i ==> #[trigger] names@[k]@ == self.entries()[k].name@,
            decreases self.channels.len() - i,
        {
            names.push(self.channels[i].name.clone());
            i = i + 1;
        }
        proof {
            let list = texts(names@);
            assert forall|a: int, b: int| 0 <= a < list.len() && 0 <= b < list.len() && a != b implies list[a]
                != list[b] by {
                assert(list[a] == names@[a]@);
                assert(list[b] == names@[b]@);
                if a < b {
                    assert(self.entries()[a].name@ != self.entries()[b].name@);
                } else {
                    assert(self.entries()[b].name@ != self.entries()[a].name@);
                }
            }
            assert forall|name: Seq<char>| #[trigger] list.contains(name)
                <==> self.subscribed().contains(name) by {
                if list.contains(name) {
                    let k = choose|k: int| 0 <= k < list.len() && list[k] == name;
                    assert(list[k] == names@[k]@);
                    self.count_at(k);
                }
                if self.subscribed().contains(name) {
                    let k = choose|k: int| is_at(self.entries(), k, name);
                    assert(is_at(self.entries(), k, name));
                    assert(list[k] == names@[k]@);
                }
            }
        }
        names
    }

    /// The number of channels the shared connection is subscribed to.
    pub fn subscribed_channels(&self) -> (n: usize)
        requires
            self.wf(),
        ensures
            self.subscribed().finite(),
            n == self.subscribed().len(),
    {
        let names = self.channels();
        proof {
            let list = texts(names@);
            list.unique_seq_to_set();
            assert(list.to_set() =~= self.subscribed());
        }
        names.len()
    }
}

/// What came of asking the manager to subscribe.
#[derive(Debug)]
pub enum SubscribeReply {
    /// The subscription stands.
    Confirmed,
    /// Redis refused, or is down.
    Failed(String),
    /// There is no manager to ask.
    NotRunning,
    /// The manager went away before it answered.
    Stopped,
}

/// What a listener is told of its subscription.
pub open spec fn subscription(channel: Seq<char>, reply: SubscribeReply) -> Result<(), ErrorView> {
    match reply {
        SubscribeReply::Confirmed => Ok(()),
        SubscribeReply::Failed(err) => Err(
            ErrorView::Internal(
                "Failed to subscribe to Redis channel "@ + channel + ": "@ + err@,
            ),
        ),
        SubscribeReply::NotRunning => Err(
            ErrorView::Internal("Redis fan-out task is not running"@),
        ),
        SubscribeReply::Stopped => Err(
            ErrorView::Internal("Redis fan-out task stopped before confirming the subscription"@),
        ),
    }
}

/// What a listener is told of its subscription.
pub fn confirm_subscription(channel: &str, reply: &SubscribeReply) -> (r: Result<(), AppError>)
    ensures
        outcome(r) == subscription(channel@, *reply),
{
    match reply {
        SubscribeReply::Confirmed => Ok(()),
        SubscribeReply::Failed(err) => {
            let mut s = "Failed to subscribe to Redis channel ".to_owned();
            s.append(channel);
            s.append(": ");
            s.append(err.as_str());
            Err(AppError::Internal(s))
        },
        SubscribeReply::NotRunning => Err(
            AppError::Internal("Redis fan-out task is not running".to_owned()),
        ),
        SubscribeReply::Stopped => Err(
            AppError::Internal(
                "Redis fan-out task stopped before confirming the subscription".to_owned(),
            ),
        ),
    }
}

/// What happened on the shared connection.
#[derive(Debug, Clone, Copy, PartialEq, Eq, Structural)]
pub enum ServeEvent {
    /// A subscribe was issued; whether it went through.
    Subscribed(bool),
    /// An unsubscribe was issued; whether it went through.
    Unsubscribed(bool),
    /// A message arrived.
    Message,
    /// The connection ended.
    Ended,
    /// Everybody who could ask for something is gone.
    Abandoned,
}

/// What the manager does about it.
#[derive(Debug, Clone, Copy, PartialEq, Eq, Structural)]
pub enum ServeExit {
    /// Goes on with this connection.
    Stay,
    /// Drops the connection and reconnects.
    ConnectionLost,
    /// Stops.
    ShuttingDown,
}

/// What the manager does about an event: a command that fails on the connection costs the
/// connection.
pub fn serve(event: ServeEvent) -> (exit: ServeExit)
    ensures
        exit == (match event {
            ServeEvent::Subscribed(true) => ServeExit::Stay,
            ServeEvent::Unsubscribed(true) => ServeExit::Stay,
            ServeEvent::Message => ServeExit::Stay,
            ServeEvent::Abandoned => ServeExit::ShuttingDown,
            _ => ServeExit::ConnectionLost,
        }),
{
    match event {
        ServeEvent::Subscribed(ok) | ServeEvent::Unsubscribed(ok) => if ok {
            ServeExit::Stay
        } else {
            ServeExit::ConnectionLost
        },
        ServeEvent::Message => ServeExit::Stay,
        ServeEvent::Ended => ServeExit::ConnectionLost,
        ServeEvent::Abandoned => ServeExit::ShuttingDown,
    }
}

/// The delay before the shared connection is dialled again.
#[derive(Debug)]
pub struct Backoff {
    delay_ms: u64,
}

impl Backoff {
    /// The delay the next outage is sat out with.
    pub closed spec fn view(&self) -> u64 {
        self.delay_ms
    }

    /// A delay is never longer than the longest.
    pub open spec fn wf(self) -> bool {
        RECONNECT_INITIAL_DELAY_MS <= self@ <= RECONNECT_MAX_DELAY_MS
    }

    /// The first delay.
    pub fn new() -> (b: Backoff)
        ensures
            b.wf(),
            b@ == RECONNECT_INITIAL_DELAY_MS,
    {
        Backoff { delay_ms: RECONNECT_INITIAL_DELAY_MS }
    }

    /// Starts over: the connection stands and its subscriptions are restored.
    pub fn restored(&mut self)
        ensures
            final(self).wf(),
            final(self)@ == RECONNECT_INITIAL_DELAY_MS,
    {
        self.delay_ms = RECONNECT_INITIAL_DELAY_MS;
    }

    /// The delay to sit out now. The next one is twice as long, up to the longest.
    pub fn wait(&mut self) -> (ms: u64)
        requires
            old(self).wf(),
        ensures
            final(self).wf(),
            ms == old(self)@,
            final(self)@ == (if 2 * old(self)@ <= RECONNECT_MAX_DELAY_MS {
                2 * old(self)@
            } else {
                RECONNECT_MAX_DELAY_MS as int
            }),
    {
        let ms: u64 = self.delay_ms;
        let doubled: u64 = ms * 2;
        self.delay_ms = if doubled <= RECONNECT_MAX_DELAY_MS {
            doubled
        } else {
            RECONNECT_MAX_DELAY_MS
        };
        ms
    }
}

/// The process is subscribed to a channel exactly while the channel has a listener: the
/// first to arrive adds it, the last to leave takes it away, and nobody else changes
/// anything.
pub proof fn subscriptions_follow_the_listeners(before: Registry, after: Registry, name: Seq<char>)
    requires
        forall|other: Seq<char>|
            other != name ==> #[trigger] after.count(other) == before.count(other),
    ensures
        after.count(name) == before.count(name) + 1 ==> after.subscribed() == (if before.count(name)
            == 0 {
            before.subscribed().insert(name)
        } else {
            before.subscribed()
        }),
        before.count(name) > 0 && after.count(name) == before.count(name) - 1
            ==> after.subscribed() == (if before.count(name) == 1 {
            before.subscribed().remove(name)
        } else {
            before.subscribed()
        }),
{
    if after.count(name) == before.count(name) + 1 {
        if before.count(name) == 0 {
            assert(after.subscribed() =~= before.subscribed().insert(name));
        } else {
            assert(after.subscribed() =~= before.subscribed());
        }
    }
    if before.count(name) > 0 && after.count(name) == before.count(name) - 1 {
        if before.count(name) == 1 {
            assert(after.subscribed() =~= before.subscribed().remove(name));
        } else {
            assert(after.subscribed() =~= before.subscribed());
        }
    }
}

/// The manager stays with a connection while everything on it goes through, gives it up as soon
/// as a command fails on it or it ends, and stops only when nobody can ask for anything any more.
pub proof fn a_failed_command_costs_the_connection(ok: bool, event: ServeEvent, exit: ServeExit)
    requires
        call_ensures(serve, (event,), exit),
    ensures
        exit is ShuttingDown <==> event is Abandoned,
        event is Message ==> exit is Stay,
        event is Ended ==> exit is ConnectionLost,
        event == ServeEvent::Subscribed(ok) || event == ServeEvent::Unsubscribed(ok) ==> (exit
            is Stay <==> ok) && (exit is ConnectionLost <==> !ok),
{
}

/// A listener is let in exactly if its subscription stands, and whatever else came of it is the
/// service's failure; a refusal names the channel and gives the reason.
pub proof fn a_listener_is_let_in_if_it_is_subscribed(
    channel: &str,
    reply: &SubscribeReply,
    r: Result<(), AppError>,
)
    requires
        call_ensures(confirm_subscription, (channel, reply), r),
    ensures
        r is Ok <==> reply is Confirmed,
        r matches Err(e) ==> e@ is Internal,
        *reply matches SubscribeReply::Failed(reason) ==> (r matches Err(e) && e@
            == ErrorView::Internal(
            "Failed to subscribe to Redis channel "@ + channel@ + ": "@ + reason@,
        )),
{
}

} // verus!
