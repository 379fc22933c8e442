//! The numbers that bound inviting and joining.

use crate::text::{raw_text, read_setting, setting};
use vstd::prelude::*;

verus! {

/// Failed joins within the window after which an account is refused outright.
pub const DEFAULT_MAX_JOIN_FAILURES: i64 = 5;

/// The window those failures are counted over, in minutes.
pub const DEFAULT_JOIN_FAILURE_WINDOW_MINS: i64 = 10;

/// Failed redemptions of one code before it is destroyed.
pub const DEFAULT_MAX_INVITE_ATTEMPTS: i32 = 3;

/// Live codes one account may have across all its lists.
pub const DEFAULT_MAX_OUTSTANDING_INVITES_PER_USER: i64 = 10;

/// How long a code is good for, in minutes.
pub const DEFAULT_INVITE_TTL_MINS: i64 = 60;

/// Draws at a unique code before minting gives up.
pub const INVITE_CODE_GENERATION_ATTEMPTS: usize = 8;

pub const MAX_JOIN_FAILURES_ENV: &'static str = "LIST_JOIN_MAX_FAILURES";

pub const JOIN_FAILURE_WINDOW_ENV: &'static str = "LIST_JOIN_FAILURE_WINDOW_MINS";

pub const MAX_INVITE_ATTEMPTS_ENV: &'static str = "LIST_INVITE_MAX_ATTEMPTS";

pub const MAX_OUTSTANDING_INVITES_ENV: &'static str = "LIST_MAX_OUTSTANDING_INVITES_PER_USER";

pub const INVITE_TTL_ENV: &'static str = "LIST_INVITE_TTL_MINS";

/// A limit: what the operator set, or `default` where they set nothing, zero, less or
/// something that is no number.
fn read_positive(raw: Option<&str>, default: i64) -> (n: i64)
    requires
        default > 0,
    ensures
        n == setting(raw_text(raw), i64::MAX as nat, default as nat),
        n > 0,
{
    read_setting(raw, i64::MAX as u64, default as u64) as i64
}

pub fn max_join_failures(raw: Option<&str>) -> (n: i64)
    ensures
        n == setting(raw_text(raw), i64::MAX as nat, DEFAULT_MAX_JOIN_FAILURES as nat),
        n > 0,
{
    read_positive(raw, DEFAULT_MAX_JOIN_FAILURES)
}

pub fn join_failure_window_mins(raw: Option<&str>) -> (n: i64)
    ensures
        n == setting(raw_text(raw), i64::MAX as nat, DEFAULT_JOIN_FAILURE_WINDOW_MINS as nat),
        n > 0,
{
    read_positive(raw, DEFAULT_JOIN_FAILURE_WINDOW_MINS)
}

/// A number too large for the counter is no setting either.
pub fn max_invite_attempts(raw: Option<&str>) -> (n: i32)
    ensures
        n == setting(raw_text(raw), i32::MAX as nat, DEFAULT_MAX_INVITE_ATTEMPTS as nat),
        n > 0,
{
    read_setting(raw, i32::MAX as u64, DEFAULT_MAX_INVITE_ATTEMPTS as u64) as i32
}

pub fn max_outstanding_invites_per_user(raw: Option<&str>) -> (n: i64)
    ensures
        n == setting(
            raw_text(raw),
            i64::MAX as nat,
            DEFAULT_MAX_OUTSTANDING_INVITES_PER_USER as nat,
        ),
        n > 0,
{
    read_positive(raw, DEFAULT_MAX_OUTSTANDING_INVITES_PER_USER)
}

pub fn invite_ttl_mins(raw: Option<&str>) -> (n: i64)
    ensures
        n == setting(raw_text(raw), i64::MAX as nat, DEFAULT_INVITE_TTL_MINS as nat),
        n > 0,
{
    read_positive(raw, DEFAULT_INVITE_TTL_MINS)
}

/// Each number is what the operator set for it, and otherwise five failures, ten minutes,
/// three attempts, ten codes and sixty minutes.
pub proof fn the_operator_sets_the_numbers(
    raw: Option<&str>,
    failures: i64,
    window: i64,
    attempts: i32,
    codes: i64,
    lifetime: i64,
)
    requires
        call_ensures(max_join_failures, (raw,), failures),
        call_ensures(join_failure_window_mins, (raw,), window),
        call_ensures(max_invite_attempts, (raw,), attempts),
        call_ensures(max_outstanding_invites_per_user, (raw,), codes),
        call_ensures(invite_ttl_mins, (raw,), lifetime),
    ensures
        raw is None ==> failures == 5 && window == 10 && attempts == 3 && codes == 10 && lifetime
            == 60,
        raw matches Some(s) ==> failures == setting(Some(s@), i64::MAX as nat, 5) && window
            == setting(Some(s@), i64::MAX as nat, 10) && attempts == setting(
            Some(s@),
            i32::MAX as nat,
            3,
        ) && codes == setting(Some(s@), i64::MAX as nat, 10) && lifetime == setting(
            Some(s@),
            i64::MAX as nat,
            60,
        ),
{
}

} // verus!
