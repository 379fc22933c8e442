//! Spend limits for the helpers, which cost money with every call.
//!
//! Three brakes: a cap for each account and day, a cap for all of them together, and a
//! switch an operator can throw. A call that cannot be counted is refused.

use crate::error::{AppError, ErrorView};
use crate::instant::Instant;
use crate::text::{lower_text, raw_text, read_setting, same_text, setting, trim, trimmed};
use vstd::prelude::*;

verus! {

/// Calls one account may make in a day.
pub const DEFAULT_MAX_CALLS_PER_USER_PER_DAY: u64 = 200;

/// Calls all accounts together may make in a day.
pub const DEFAULT_MAX_CALLS_PER_DAY: u64 = 20_000;

pub const MAX_CALLS_PER_USER_ENV: &'static str = "GEMINI_MAX_CALLS_PER_USER_PER_DAY";

pub const MAX_CALLS_TOTAL_ENV: &'static str = "GEMINI_MAX_CALLS_PER_DAY";

/// The key whose presence stops all calls.
pub const KILL_SWITCH_KEY: &'static str = "ai:gemini:disabled";

/// How long a day's counter is kept, in seconds.
pub const COUNTER_TTL_SECS: i64 = 90_000;

/// The two caps.
#[derive(Debug, Clone, Copy, PartialEq, Eq, Structural)]
pub struct BudgetLimits {
    pub per_user_per_day: u64,
    pub total_per_day: u64,
}

impl Default for BudgetLimits {
    fn default() -> (limits: Self)
        ensures
            limits.per_user_per_day == DEFAULT_MAX_CALLS_PER_USER_PER_DAY,
            limits.total_per_day == DEFAULT_MAX_CALLS_PER_DAY,
    {
        BudgetLimits {
            per_user_per_day: DEFAULT_MAX_CALLS_PER_USER_PER_DAY,
            total_per_day: DEFAULT_MAX_CALLS_PER_DAY,
        }
    }
}

/// The caps an operator set: zero and what is no number fall back to the defaults.
pub open spec fn limits_of(per_user: Option<Seq<char>>, total: Option<Seq<char>>) -> BudgetLimits {
    BudgetLimits {
        per_user_per_day: setting(
            per_user,
            u64::MAX as nat,
            DEFAULT_MAX_CALLS_PER_USER_PER_DAY as nat,
        ) as u64,
        total_per_day: setting(total, u64::MAX as nat, DEFAULT_MAX_CALLS_PER_DAY as nat) as u64,
    }
}

impl BudgetLimits {
    /// The caps an operator set.
    pub fn from_env(per_user: Option<&str>, total: Option<&str>) -> (limits: BudgetLimits)
        ensures
            limits == limits_of(raw_text(per_user), raw_text(total)),
    {
        BudgetLimits {
            per_user_per_day: read_setting(
                per_user,
                u64::MAX,
                DEFAULT_MAX_CALLS_PER_USER_PER_DAY,
            ),
            total_per_day: read_setting(total, u64::MAX, DEFAULT_MAX_CALLS_PER_DAY),
        }
    }

    /// The caps, read once: later settings change nothing.
    pub fn cached(
        seen: &mut Option<BudgetLimits>,
        per_user: Option<&str>,
        total: Option<&str>,
    ) -> (limits: BudgetLimits)
        ensures
            limits == (match *old(seen) {
                Some(limits) => limits,
                None => limits_of(raw_text(per_user), raw_text(total)),
            }),
            *final(seen) == Some(limits),
    {
        match *seen {
            Some(limits) => limits,
            None => {
                let limits = BudgetLimits::from_env(per_user, total);
                *seen = Some(limits);
                limits
            },
        }
    }
}

/// Why a call was refused.
#[derive(Debug, Clone, Copy, PartialEq, Eq, Structural)]
pub enum BudgetRefusal {
    /// An operator has switched the helpers off.
    KillSwitch,
    /// This account has spent its day's allowance.
    UserExhausted,
    /// All accounts together have spent theirs.
    GlobalExhausted,
    /// The call could not be counted.
    Unmetered,
}

/// The metric label of a refusal.
pub open spec fn refusal_label(refusal: BudgetRefusal) -> Seq<char> {
    match refusal {
        BudgetRefusal::KillSwitch => "kill_switch"@,
        BudgetRefusal::UserExhausted => "user_budget"@,
        BudgetRefusal::GlobalExhausted => "global_budget"@,
        BudgetRefusal::Unmetered => "unmetered"@,
    }
}

/// How a refusal is answered: an account out of allowance backs off until tomorrow, and the
/// rest is not the caller's doing.
pub open spec fn refusal_error(refusal: BudgetRefusal) -> ErrorView {
    match refusal {
        BudgetRefusal::UserExhausted => ErrorView::TooManyRequests(
            "Daily AI request limit reached for this account; try again tomorrow"@,
        ),
        BudgetRefusal::GlobalExhausted => ErrorView::TooManyRequests(
            "Daily AI request limit reached for this service; try again later"@,
        ),
        BudgetRefusal::KillSwitch => ErrorView::Overloaded(
            "AI features are temporarily disabled"@,
        ),
        BudgetRefusal::Unmetered => ErrorView::Overloaded(
            "AI features are temporarily unavailable"@,
        ),
    }
}

impl BudgetRefusal {
    /// Stable, bounded metric label.
    pub fn label(self) -> (label: &'static str)
        ensures
            label@ == refusal_label(self),
    {
        match self {
            BudgetRefusal::KillSwitch => "kill_switch",
            BudgetRefusal::UserExhausted => "user_budget",
            BudgetRefusal::GlobalExhausted => "global_budget",
            BudgetRefusal::Unmetered => "unmetered",
        }
    }

    /// How this refusal is answered.
    pub fn error(self) -> (e: AppError)
        ensures
            e@ == refusal_error(self),
    {
        match self {
            BudgetRefusal::UserExhausted => AppError::TooManyRequests(
                "Daily AI request limit reached for this account; try again tomorrow".to_owned(),
            ),
            BudgetRefusal::GlobalExhausted => AppError::TooManyRequests(
                "Daily AI request limit reached for this service; try again later".to_owned(),
            ),
            BudgetRefusal::KillSwitch => AppError::Overloaded(
                "AI features are temporarily disabled".to_owned(),
            ),
            BudgetRefusal::Unmetered => AppError::Overloaded(
                "AI features are temporarily unavailable".to_owned(),
            ),
        }
    }
}

/// Every refusal there is, so that each can be counted from zero.
pub fn refusal_reasons() -> (reasons: Vec<BudgetRefusal>)
    ensures
        reasons@ == seq![
            BudgetRefusal::KillSwitch,
            BudgetRefusal::UserExhausted,
            BudgetRefusal::GlobalExhausted,
            BudgetRefusal::Unmetered,
        ],
        forall|refusal: BudgetRefusal| #[trigger] reasons@.contains(refusal),
{
    let reasons = vec![
        BudgetRefusal::KillSwitch,
        BudgetRefusal::UserExhausted,
        BudgetRefusal::GlobalExhausted,
        BudgetRefusal::Unmetered,
    ];
    proof {
        assert forall|refusal: BudgetRefusal| #[trigger] reasons@.contains(refusal) by {
            let at = match refusal {
                BudgetRefusal::KillSwitch => 0int,
                BudgetRefusal::UserExhausted => 1,
                BudgetRefusal::GlobalExhausted => 2,
                BudgetRefusal::Unmetered => 3,
            };
            assert(reasons@[at] == refusal);
        }
    }
    reasons
}

/// What chrono writes for a UTC day, counted from the epoch, as `%Y-%m-%d`.
pub uninterp spec fn day_text(day: int) -> Seq<char>;

/// `chrono::DateTime::format` with `%Y-%m-%d`, in UTC. The notation is left to the crate;
/// what is claimed is that the text depends on the UTC day alone.
#[verifier::external_body]
fn format_day(at: Instant) -> (s: String)
    requires
        at.wf(),
    ensures
        s@ == day_text(at.secs as int / 86_400),
{
    chrono::DateTime::from_timestamp(at.secs, 0).map(|t| t.format("%Y-%m-%d").to_string()).unwrap_or_default()
}

/// The UTC day a call is counted on.
pub fn day_of(at: Instant) -> (day: String)
    requires
        at.wf(),
    ensures
        day@ == day_text(at.secs as int / 86_400),
{
    format_day(at)
}

/// The key an account's calls of one day are counted under.
pub open spec fn user_counter(user: Seq<char>, day: Seq<char>) -> Seq<char> {
    "ai:gemini:calls:user:"@ + user + ":"@ + day
}

/// The key all calls of one day are counted under.
pub open spec fn total_counter(day: Seq<char>) -> Seq<char> {
    "ai:gemini:calls:total:"@ + day
}

/// The key an account's calls of one day are counted under.
pub fn user_key(user_id: &str, day: &str) -> (key: String)
    ensures
        key@ == user_counter(user_id@, day@),
{
    let mut s = "ai:gemini:calls:user:".to_owned();
    s.append(user_id);
    s.append(":");
    s.append(day);
    s
}

/// The key all calls of one day are counted under.
pub fn total_key(day: &str) -> (key: String)
    ensures
        key@ == total_counter(day@),
{
    let mut s = "ai:gemini:calls:total:".to_owned();
    s.append(day);
    s
}

/// Whether a text spells "off".
pub open spec fn spells_off(raw: Seq<char>) -> bool {
    let s = lower_text(trimmed(raw));
    s == ""@ || s == "0"@ || s == "false"@ || s == "off"@ || s == "no"@
}

/// Whether the switch stops calls: it is set, and not to an explicit "off".
pub open spec fn stops(value: Option<Seq<char>>) -> bool {
    match value {
        Some(raw) => !spells_off(raw),
        None => false,
    }
}

/// Whether the switch stops calls. Anything but an explicit "off" does: somebody reaching
/// for it means to stop spending.
pub fn kill_switch_is_set(value: Option<&str>) -> (b: bool)
    ensures
        b == stops(raw_text(value)),
{
    match value {
        None => false,
        Some(raw) => {
            let lower = trim(raw).to_ascii_lowercase();
            let s = lower.as_str();
            !(same_text(s, "") || same_text(s, "0") || same_text(s, "false") || same_text(s, "off")
                || same_text(s, "no"))
        },
    }
}

/// What counting a call gave: the switch, and both counters with this call in them.
#[derive(Debug)]
pub struct Metered {
    pub kill_switch: Option<String>,
    pub user_calls: u64,
    pub total_calls: u64,
}

/// Whether a call may be made.
pub open spec fn charged(limits: BudgetLimits, metered: Option<Metered>) -> Result<
    (),
    BudgetRefusal,
> {
    match metered {
        None => Err(BudgetRefusal::Unmetered),
        Some(m) => if stops(crate::text::opt_text(m.kill_switch)) {
            Err(BudgetRefusal::KillSwitch)
        } else if m.user_calls > limits.per_user_per_day {
            Err(BudgetRefusal::UserExhausted)
        } else if m.total_calls > limits.total_per_day {
            Err(BudgetRefusal::GlobalExhausted)
        } else {
            Ok(())
        },
    }
}

/// Charges one call, or says why it may not be made. `metered` is what counting it gave, and
/// none where it could not be counted.
pub fn charge_gemini_call(limits: BudgetLimits, metered: &Option<Metered>) -> (r: Result<
    (),
    BudgetRefusal,
>)
    ensures
        r == charged(limits, *metered),
{
    match metered {
        None => Err(BudgetRefusal::Unmetered),
        Some(m) => {
            let stopped = match &m.kill_switch {
                Some(raw) => kill_switch_is_set(Some(raw.as_str())),
                None => false,
            };
            if stopped {
                Err(BudgetRefusal::KillSwitch)
            } else if m.user_calls > limits.per_user_per_day {
                Err(BudgetRefusal::UserExhausted)
            } else if m.total_calls > limits.total_per_day {
                Err(BudgetRefusal::GlobalExhausted)
            } else {
                Ok(())
            }
        },
    }
}

/// A call is made only when it was counted, nobody has switched the helpers off, and neither
/// the account nor all accounts together are over their day's allowance.
pub proof fn no_call_is_made_over_budget(limits: BudgetLimits, metered: Option<Metered>)
    ensures
        charged(limits, metered) is Ok <==> (metered matches Some(m) && !stops(
            crate::text::opt_text(m.kill_switch),
        ) && m.user_calls <= limits.per_user_per_day && m.total_calls <= limits.total_per_day),
{
}

/// The budget starts over with the day, and one account's is not another's: the counters of
/// two days, and of two accounts on one day, are distinct.
pub proof fn counters_are_kept_apart(
    one: Seq<char>,
    other: Seq<char>,
    day: Seq<char>,
    next: Seq<char>,
)
    ensures
        day != next ==> user_counter(one, day) != user_counter(one, next),
        day != next ==> total_counter(day) != total_counter(next),
        one != other ==> user_counter(one, day) != user_counter(other, day),
{
    let head = "ai:gemini:calls:user:"@;
    let from: int = (head + one + ":"@).len() as int;
    assert(user_counter(one, day).skip(from) =~= day);
    assert(user_counter(one, next).skip(from) =~= next);
    let total: int = "ai:gemini:calls:total:"@.len() as int;
    assert(total_counter(day).skip(total) =~= day);
    assert(total_counter(next).skip(total) =~= next);
    if user_counter(one, day) == user_counter(other, day) {
        assert(user_counter(one, day).len() == head.len() + one.len() + ":"@.len() + day.len());
        assert(user_counter(other, day).len() == head.len() + other.len() + ":"@.len()
            + day.len());
        let start: int = head.len() as int;
        assert(user_counter(one, day).subrange(start, start + one.len()) =~= one);
        assert(user_counter(other, day).subrange(start, start + other.len()) =~= other);
    }
}

/// A call goes through exactly if it was counted, the switch does not stop it, and the account
/// and all accounts are within their allowances with it counted in; what stops it is named in
/// that order, and only an allowance that ran out is the caller's to wait for.
pub proof fn a_call_is_stopped_by_the_first_brake(
    limits: BudgetLimits,
    metered: &Option<Metered>,
    r: Result<(), BudgetRefusal>,
    refusal: BudgetRefusal,
    e: AppError,
)
    requires
        call_ensures(charge_gemini_call, (limits, metered), r),
        call_ensures(BudgetRefusal::error, (refusal,), e),
    ensures
        metered is None ==> r == Err::<(), BudgetRefusal>(BudgetRefusal::Unmetered),
        *metered matches Some(m) ==> {
            let off = m.kill_switch matches Some(raw) && !spells_off(raw@);
            &&& off ==> r == Err::<(), BudgetRefusal>(BudgetRefusal::KillSwitch)
            &&& !off && m.user_calls > limits.per_user_per_day ==> r == Err::<(), BudgetRefusal>(
                BudgetRefusal::UserExhausted,
            )
            &&& !off && m.user_calls <= limits.per_user_per_day && m.total_calls
                > limits.total_per_day ==> r == Err::<(), BudgetRefusal>(
                BudgetRefusal::GlobalExhausted,
            )
            &&& !off && m.user_calls <= limits.per_user_per_day && m.total_calls
                <= limits.total_per_day ==> r is Ok
        },
        e@ is TooManyRequests <==> refusal is UserExhausted || refusal is GlobalExhausted,
        e@ is Overloaded <==> refusal is KillSwitch || refusal is Unmetered,
{
}

/// The switch is off where it is not set, blank or an explicit "off" in whatever case and white
/// space, and stops calls otherwise.
pub proof fn anything_but_off_stops_calls(raw: &str, stopped: bool, unset: bool)
    requires
        call_ensures(kill_switch_is_set, (Some(raw),), stopped),
        call_ensures(kill_switch_is_set, (None,), unset),
    ensures
        !unset,
        !stopped <==> ({
            let s = lower_text(trimmed(raw@));
            s == ""@ || s == "0"@ || s == "false"@ || s == "off"@ || s == "no"@
        }),
{
}

/// Each allowance is what the operator set for it, and otherwise two hundred calls for an
/// account and twenty thousand for all.
pub proof fn the_operator_sets_the_allowances(
    per_user: Option<&str>,
    total: Option<&str>,
    limits: BudgetLimits,
)
    requires
        call_ensures(BudgetLimits::from_env, (per_user, total), limits),
    ensures
        per_user is None ==> limits.per_user_per_day == 200,
        total is None ==> limits.total_per_day == 20_000,
        per_user matches Some(s) ==> limits.per_user_per_day == setting(
            Some(s@),
            u64::MAX as nat,
            200,
        ),
        total matches Some(s) ==> limits.total_per_day == setting(
            Some(s@),
            u64::MAX as nat,
            20_000,
        ),
{
}

/// A call counts on the UTC day it is made: any two of one day count together.
pub proof fn calls_of_one_day_count_together(a: Instant, b: Instant, one: String, other: String)
    requires
        a.wf(),
        b.wf(),
        a.secs as int / 86_400 == b.secs as int / 86_400,
        call_ensures(day_of, (a,), one),
        call_ensures(day_of, (b,), other),
    ensures
        one@ == other@,
{
}

/// The refusals are told apart by their labels.
pub proof fn refusals_are_labelled_apart(
    one: BudgetRefusal,
    other: BudgetRefusal,
    label: &'static str,
    next: &'static str,
)
    requires
        call_ensures(BudgetRefusal::label, (one,), label),
        call_ensures(BudgetRefusal::label, (other,), next),
        label@ == next@,
    ensures
        one == other,
{
    reveal_strlit("kill_switch");
    reveal_strlit("user_budget");
    reveal_strlit("global_budget");
    reveal_strlit("unmetered");
    assert(refusal_label(one).len() == refusal_label(other).len());
    assert(refusal_label(one)[0] == refusal_label(other)[0]);
}

/// A call is counted for its account and for all, on its day.
pub proof fn a_call_is_counted_twice(
    user_id: &str,
    day: &str,
    own: String,
    all: String,
    reasons: Vec<BudgetRefusal>,
)
    requires
        call_ensures(user_key, (user_id, day), own),
        call_ensures(total_key, (day,), all),
        call_ensures(refusal_reasons, (), reasons),
    ensures
        own@ == "ai:gemini:calls:user:"@ + user_id@ + ":"@ + day@,
        all@ == "ai:gemini:calls:total:"@ + day@,
        reasons@.len() == 4,
        forall|refusal: BudgetRefusal| #[trigger] reasons@.contains(refusal),
{
}

} // verus!
