//! Caps on the streams that are open at once: per account, and per process.

use crate::error::{AppError, ErrorView};
use crate::text::{parse_unsigned, raw_text, unsigned_value};
use vstd::hash_map::StringHashMap;
use vstd::prelude::*;

verus! {

/// Streams one account may hold at once.
pub const DEFAULT_MAX_STREAMS_PER_USER: usize = 3;

/// Streams one process holds at once, across all accounts.
pub const DEFAULT_MAX_STREAMS_TOTAL: usize = 1_000;

pub const MAX_STREAMS_PER_USER_ENV: &'static str = "SSE_MAX_STREAMS_PER_USER";

pub const MAX_STREAMS_TOTAL_ENV: &'static str = "SSE_MAX_STREAMS_TOTAL";

/// Why a stream was refused.
#[derive(Debug, Clone, Copy, PartialEq, Eq, Structural)]
pub enum StreamRefusal {
    /// This account already holds its maximum.
    PerUser,
    /// This process is at capacity, whoever owns the streams.
    Global,
}

/// The metric label of a refusal.
pub open spec fn refusal_label(refusal: StreamRefusal) -> Seq<char> {
    match refusal {
        StreamRefusal::PerUser => "per_user"@,
        StreamRefusal::Global => "global"@,
    }
}

/// How a refusal is answered: an account over its own limit should stop, and a full process
/// should be tried again.
pub open spec fn refusal_error(refusal: StreamRefusal) -> ErrorView {
    match refusal {
        StreamRefusal::PerUser => ErrorView::TooManyRequests(
            "Too many open sync streams for this account"@,
        ),
        StreamRefusal::Global => ErrorView::Overloaded(
            "Sync stream capacity reached; retry shortly"@,
        ),
    }
}

impl StreamRefusal {
    /// Stable, bounded metric label.
    pub fn label(self) -> (label: &'static str)
        ensures
            label@ == refusal_label(self),
    {
        match self {
            StreamRefusal::PerUser => "per_user",
            StreamRefusal::Global => "global",
        }
    }

    /// How this refusal is answered.
    pub fn error(self) -> (e: AppError)
        ensures
            e@ == refusal_error(self),
    {
        match self {
            StreamRefusal::PerUser => AppError::TooManyRequests(
                "Too many open sync streams for this account".to_owned(),
            ),
            StreamRefusal::Global => AppError::Overloaded(
                "Sync stream capacity reached; retry shortly".to_owned(),
            ),
        }
    }
}

/// The cap in force: what the operator set, or `default` where they set nothing, zero or
/// something that is no number. White space is not ignored.
pub open spec fn cap(raw: Option<Seq<char>>, default: usize) -> usize {
    match raw {
        Some(s) => match unsigned_value(s) {
            Some(v) if 0 < v <= usize::MAX => v as usize,
            _ => default,
        },
        None => default,
    }
}

/// The cap in force.
pub fn read_cap(raw: Option<&str>, default: usize) -> (n: usize)
    ensures
        n == cap(raw_text(raw), default),
{
    match raw {
        Some(s) => match parse_unsigned(s, usize::MAX as u64) {
            Some(n) => if n > 0 {
                n as usize
            } else {
                default
            },
            None => default,
        },
        None => default,
    }
}

/// The number of streams the named accounts hold together.
pub open spec fn held_by(counts: Map<Seq<char>, usize>, users: Set<Seq<char>>) -> nat
    decreases users.len(),
    when users.finite()
{
    if users.len() == 0 {
        0
    } else {
        let user = users.choose();
        counts[user] as nat + held_by(counts, users.remove(user))
    }
}

proof fn held_by_without(counts: Map<Seq<char>, usize>, users: Set<Seq<char>>, user: Seq<char>)
    requires
        users.finite(),
        users.contains(user),
    ensures
        held_by(counts, users) == counts[user] as nat + held_by(counts, users.remove(user)),
    decreases users.len(),
{
    let first = users.choose();
    if first != user {
        held_by_without(counts, users.remove(first), user);
        held_by_without(counts, users.remove(user), first);
        assert(users.remove(first).remove(user) =~= users.remove(user).remove(first));
    }
}

proof fn held_by_reads_only_its_users(
    one: Map<Seq<char>, usize>,
    other: Map<Seq<char>, usize>,
    users: Set<Seq<char>>,
)
    requires
        users.finite(),
        forall|user: Seq<char>| #[trigger] users.contains(user) ==> one[user] == other[user],
    ensures
        held_by(one, users) == held_by(other, users),
    decreases users.len(),
{
    if users.len() > 0 {
        let user = users.choose();
        assert(users.contains(user));
        held_by_reads_only_its_users(one, other, users.remove(user));
    }
}

/// The streams this process holds.
pub struct StreamSlots {
    per_user: StringHashMap<usize>,
    total: usize,
    max_per_user: usize,
    max_total: usize,
}

/// One stream's place, which only [`StreamSlots::try_acquire`] gives out. It is given back when
/// the stream ends.
#[derive(Debug)]
pub struct StreamSlot {
    user_id: String,
}

impl StreamSlot {
    /// The account the place belongs to.
    pub closed spec fn user(self) -> Seq<char> {
        self.user_id@
    }

    /// The account the place belongs to.
    pub fn user_id(&self) -> (user: &str)
        ensures
            user@ == self.user(),
    {
        self.user_id.as_str()
    }
}

impl StreamSlots {
    /// The streams each account holds. Accounts without one do not appear.
    pub closed spec fn view(&self) -> Map<Seq<char>, usize> {
        self.per_user@
    }

    /// The streams one account holds.
    pub open spec fn count(self, user: Seq<char>) -> nat {
        if self@.contains_key(user) {
            self@[user] as nat
        } else {
            0
        }
    }

    /// The streams the process holds.
    pub closed spec fn all(self) -> nat {
        self.total as nat
    }

    pub closed spec fn user_cap(self) -> nat {
        self.max_per_user as nat
    }

    pub closed spec fn total_cap(self) -> nat {
        self.max_total as nat
    }

    /// The invariant: the total is the sum of what the accounts hold, no account appears
    /// without a stream, and neither cap is passed. The caps are machine numbers, so that one
    /// stream more can be counted wherever there is room for it.
    pub open spec fn wf(self) -> bool {
        &&& self.user_cap() <= usize::MAX
        &&& self.total_cap() <= usize::MAX
        &&& self@.dom().finite()
        &&& self.all() == held_by(self@, self@.dom())
        &&& self.all() <= self.total_cap()
        &&& forall|user: Seq<char>| #[trigger]
            self@.contains_key(user) ==> 0 < self@[user] <= self.user_cap()
    }

    /// No streams, under the caps an operator set.
    pub fn from_env(max_per_user: Option<&str>, max_total: Option<&str>) -> (s: StreamSlots)
        ensures
            s.wf(),
            s@ == Map::<Seq<char>, usize>::empty(),
            s.user_cap() == cap(raw_text(max_per_user), DEFAULT_MAX_STREAMS_PER_USER),
            s.total_cap() == cap(raw_text(max_total), DEFAULT_MAX_STREAMS_TOTAL),
    {
        StreamSlots::with_limits(
            read_cap(max_per_user, DEFAULT_MAX_STREAMS_PER_USER),
            read_cap(max_total, DEFAULT_MAX_STREAMS_TOTAL),
        )
    }

    /// No streams, under these caps.
    pub fn with_limits(max_per_user: usize, max_total: usize) -> (s: StreamSlots)
        ensures
            s.wf(),
            s@ == Map::<Seq<char>, usize>::empty(),
            s.user_cap() == max_per_user,
            s.total_cap() == max_total,
    {
        StreamSlots { per_user: StringHashMap::new(), total: 0, max_per_user, max_total }
    }

    /// Claims a slot for an account, or says why it cannot. The process's cap is checked
    /// first: when it is full there is room for nobody.
    pub fn try_acquire(&mut self, user_id: &str) -> (r: Result<StreamSlot, StreamRefusal>)
        requires
            old(self).wf(),
        ensures
            final(self).wf(),
            final(self).user_cap() == old(self).user_cap(),
            final(self).total_cap() == old(self).total_cap(),
            match r {
                Err(StreamRefusal::Global) => old(self).all() >= old(self).total_cap()
                    && *final(self) == *old(self),
                Err(StreamRefusal::PerUser) => old(self).all() < old(self).total_cap() && old(
                    self,
                ).count(user_id@) >= old(self).user_cap() && *final(self) == *old(self),
                Ok(slot) => old(self).all() < old(self).total_cap() && old(self).count(user_id@)
                    < old(self).user_cap() && slot.user() == user_id@ && final(self)@ == old(
                    self,
                )@.insert(user_id@, (old(self).count(user_id@) + 1) as usize) && final(self).all()
                    == old(self).all() + 1,
            },
    {
        if self.total >= self.max_total {
            return Err(StreamRefusal::Global);
        }
        let held: usize = match self.per_user.get(user_id) {
            Some(n) => *n,
            None => 0,
        };
        if held >= self.max_per_user {
            return Err(StreamRefusal::PerUser);
        }
        let ghost before = self@;
        self.per_user.insert(user_id.to_owned(), held + 1);
        self.total = self.total + 1;
        proof {
            let after = self@;
            let user = user_id@;
            let others = before.dom().remove(user);
            assert(after.dom().remove(user) =~= others);
            held_by_without(after, after.dom(), user);
            held_by_reads_only_its_users(before, after, others);
            if before.contains_key(user) {
                held_by_without(before, before.dom(), user);
            } else {
                assert(others =~= before.dom());
            }
        }
        Ok(StreamSlot { user_id: user_id.to_owned() })
    }

    /// Gives a slot back.
    pub fn release(&mut self, slot: StreamSlot)
        requires
            old(self).wf(),
            old(self).count(slot.user()) > 0,
        ensures
            final(self).wf(),
            final(self).user_cap() == old(self).user_cap(),
            final(self).total_cap() == old(self).total_cap(),
            final(self).all() == old(self).all() - 1,
            final(self)@ == (if old(self).count(slot.user()) == 1 {
                old(self)@.remove(slot.user())
            } else {
                old(self)@.insert(slot.user(), (old(self).count(slot.user()) - 1) as usize)
            }),
    {
        let ghost before = self@;
        let ghost user = slot.user_id@;
        let held: usize = match self.per_user.get(slot.user_id.as_str()) {
            Some(n) => *n,
            None => 0,
        };
        proof {
            held_by_without(before, before.dom(), user);
        }
        self.total = self.total - 1;
        if held == 1 {
            self.per_user.remove(slot.user_id.as_str());
            proof {
                assert(self@.dom() =~= before.dom().remove(user));
                held_by_reads_only_its_users(before, self@, self@.dom());
            }
        } else {
            self.per_user.insert(slot.user_id, held - 1);
            proof {
                let after = self@;
                let others = before.dom().remove(user);
                assert(after.dom().remove(user) =~= others);
                held_by_without(after, after.dom(), user);
                held_by_reads_only_its_users(before, after, others);
            }
        }
    }

    /// Streams held by one account.
    pub fn active_for_user(&self, user_id: &str) -> (n: usize)
        ensures
            n == self.count(user_id@),
    {
        match self.per_user.get(user_id) {
            Some(n) => *n,
            None => 0,
        }
    }

    /// Streams held by the process.
    pub fn active_total(&self) -> (n: usize)
        ensures
            n == self.all(),
    {
        self.total
    }
}

impl Default for StreamSlots {
    /// No streams, under the caps of an environment that sets none.
    fn default() -> (s: Self)
        ensures
            s.wf(),
            s@ == Map::<Seq<char>, usize>::empty(),
            s.user_cap() == DEFAULT_MAX_STREAMS_PER_USER,
            s.total_cap() == DEFAULT_MAX_STREAMS_TOTAL,
    {
        StreamSlots::from_env(None, None)
    }
}

/// An account never passes its cap, and the process never passes its own.
pub proof fn no_cap_is_passed(slots: StreamSlots, user: Seq<char>)
    requires
        slots.wf(),
    ensures
        slots.count(user) <= slots.user_cap(),
        slots.all() <= slots.total_cap(),
{
}

/// Giving a slot back undoes claiming it: every account holds what it held before.
pub proof fn releasing_undoes_acquiring(before: Map<Seq<char>, usize>, user: Seq<char>, held: usize)
    requires
        held < usize::MAX,
        before.contains_key(user) ==> before[user] == held && held > 0,
        !before.contains_key(user) ==> held == 0,
    ensures
        ({
            let during = before.insert(user, (held + 1) as usize);
            let after = if during[user] == 1 {
                during.remove(user)
            } else {
                during.insert(user, (during[user] - 1) as usize)
            };
            after == before
        }),
{
    let during = before.insert(user, (held + 1) as usize);
    if held == 0 {
        assert(during.remove(user) =~= before);
    } else {
        assert(during.insert(user, held) =~= before);
    }
}

/// A cap is what the operator set where that is a number above zero that the machine can hold,
/// and the standard one otherwise; an account over its cap has to stop, and a full process may
/// be tried again.
pub proof fn the_operator_sets_the_caps(
    raw: &str,
    default: usize,
    set: usize,
    unset: usize,
    refusal: StreamRefusal,
    e: AppError,
    label: &'static str,
)
    requires
        call_ensures(read_cap, (Some(raw), default), set),
        call_ensures(read_cap, (None, default), unset),
        call_ensures(StreamRefusal::error, (refusal,), e),
        call_ensures(StreamRefusal::label, (refusal,), label),
    ensures
        unset == default,
        unsigned_value(raw@) matches Some(v) ==> 0 < v <= usize::MAX ==> set == v,
        unsigned_value(raw@) is None || unsigned_value(raw@)->0 == 0 || unsigned_value(raw@)->0
            > usize::MAX ==> set == default,
        refusal is PerUser ==> e@ is TooManyRequests && label@ == "per_user"@,
        refusal is Global ==> e@ is Overloaded && label@ == "global"@,
{
}

} // verus!
