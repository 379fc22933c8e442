//! The connection events are published on: dialled once, shared, and dialled again when it
//! dies.

use vstd::prelude::*;

verus! {

/// Which dial a cached connection came from.
pub type Generation = u64;

/// Which connection is cached. Whoever holds the connections keeps them at its side.
pub struct ConnectionCache {
    cached: Option<Generation>,
    next: Generation,
}

impl ConnectionCache {
    /// The cached connection's dial.
    pub closed spec fn view(&self) -> Option<Generation> {
        self.cached
    }

    /// The number of the next dial.
    pub closed spec fn upcoming(self) -> Generation {
        self.next
    }

    /// The invariant: the cached connection is of an earlier dial.
    pub open spec fn wf(self) -> bool {
        self@ matches Some(generation) ==> generation < self.upcoming()
    }

    /// No connection: nothing is dialled before it is needed.
    pub fn new() -> (c: ConnectionCache)
        ensures
            c.wf(),
            c@ is None,
            c.upcoming() == 0,
    {
        ConnectionCache { cached: None, next: 0 }
    }

    /// The connection to use, or none where one has to be dialled.
    pub fn connection(&self) -> (generation: Option<Generation>)
        ensures
            generation == self@,
    {
        self.cached
    }

    /// Caches a connection that was just dialled.
    pub fn dialled(&mut self) -> (generation: Generation)
        requires
            old(self).wf(),
            old(self).upcoming() < u64::MAX,
        ensures
            final(self).wf(),
            generation == old(self).upcoming(),
            final(self)@ == Some(generation),
            final(self).upcoming() == generation + 1,
    {
        let generation: Generation = self.next;
        self.next = generation + 1;
        self.cached = Some(generation);
        generation
    }

    /// Evicts the cached connection, but only if it is still the one that failed.
    pub fn discard(&mut self, generation: Generation)
        requires
            old(self).wf(),
        ensures
            final(self).wf(),
            final(self).upcoming() == old(self).upcoming(),
            final(self)@ == (if old(self)@ == Some(generation) {
                None
            } else {
                old(self)@
            }),
    {
        if let Some(current) = self.cached {
            if current == generation {
                self.cached = None;
            }
        }
    }
}

/// What follows an attempt on a connection.
#[derive(Debug, Clone, Copy, PartialEq, Eq, Structural)]
pub enum Redial {
    /// The answer stands, good or bad.
    Answer,
    /// The connection is discarded, another one is dialled, and the command is sent once
    /// more.
    Retry,
}

/// What follows an attempt: the first failure costs the connection, and the second is the
/// answer.
pub fn with_redial(first: bool, succeeded: bool) -> (next: Redial)
    ensures
        next == Redial::Retry <==> first && !succeeded,
{
    if first && !succeeded {
        Redial::Retry
    } else {
        Redial::Answer
    }
}

/// A failure on an old connection does not cost the one that has replaced it.
pub proof fn a_replacement_is_not_evicted(before: ConnectionCache, after: ConnectionCache, stale: Generation)
    requires
        before.wf(),
        before@ matches Some(current) && stale < current,
        after@ == (if before@ == Some(stale) {
            None
        } else {
            before@
        }),
    ensures
        after@ == before@,
{
}

/// A command is sent at most twice: once more after a first failure, and never after a success
/// or a second failure.
pub proof fn a_command_is_sent_at_most_twice(once: Redial, again: Redial, failed: Redial, succeeded: bool)
    requires
        call_ensures(with_redial, (true, true), once),
        call_ensures(with_redial, (true, false), failed),
        call_ensures(with_redial, (false, succeeded), again),
    ensures
        once is Answer,
        failed is Retry,
        again is Answer,
{
}

} // verus!
