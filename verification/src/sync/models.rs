//! The collections a request can be about, and which of them a scope takes in.

use vstd::prelude::*;

verus! {

/// A collection, or all of them.
#[derive(Debug, Clone, Copy, PartialEq, Eq, Structural)]
pub enum SyncScope {
    All,
    Todo,
    Grocery,
    Habit,
    ScribbleBox,
    ScribbleKeep,
    ScribbleNote,
}

impl SyncScope {
    /// Whether this scope takes `target` in: everything takes in everything, and any other
    /// scope only itself.
    pub fn includes(&self, target: SyncScope) -> (b: bool)
        ensures
            b == (*self == SyncScope::All || *self == target),
    {
        match self {
            SyncScope::All => true,
            scope => *scope == target,
        }
    }
}

/// Everything takes every scope in, and what is not everything takes in itself alone.
pub proof fn a_scope_takes_in_itself(
    scope: &SyncScope,
    target: SyncScope,
    own: bool,
    other: bool,
)
    requires
        call_ensures(SyncScope::includes, (scope, *scope), own),
        call_ensures(SyncScope::includes, (scope, target), other),
    ensures
        own,
        scope is All ==> other,
        !(scope is All) && *scope != target ==> !other,
{
}

} // verus!
