//! How many tablets one account may register.

use crate::text::{raw_text, read_setting, setting};
use vstd::prelude::*;

verus! {

/// Devices one account may have registered at once.
pub const DEFAULT_MAX_DEVICES_PER_ACCOUNT: i64 = 10;

pub const MAX_DEVICES_PER_ACCOUNT_ENV: &'static str = "MAX_DEVICES_PER_ACCOUNT";

/// The cap in force: what the operator set, or the default where they set nothing, zero, less
/// or something that is no number.
pub fn max_devices_per_account(raw: Option<&str>) -> (cap: i64)
    ensures
        cap == setting(
            raw_text(raw),
            i64::MAX as nat,
            DEFAULT_MAX_DEVICES_PER_ACCOUNT as nat,
        ),
        cap > 0,
{
    read_setting(raw, i64::MAX as u64, DEFAULT_MAX_DEVICES_PER_ACCOUNT as u64) as i64
}

/// An account may have ten devices unless the operator sets another number, and what they set
/// is what is in force.
pub proof fn the_operator_sets_the_cap(raw: Option<&str>, cap: i64)
    requires
        call_ensures(max_devices_per_account, (raw,), cap),
    ensures
        raw is None ==> cap == 10,
        raw matches Some(s) ==> cap == setting(Some(s@), i64::MAX as nat, 10),
{
}

} // verus!
