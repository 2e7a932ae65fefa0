//! The wall clock. The presence tracker stamps each transition with the
//! current time; what "now" is comes from outside, so nothing is assumed of
//! the value and every caller's contract holds whatever the clock returned.

use vstd::prelude::*;

verus! {

/// Relies on chrono's `Utc::now` and `DateTime::timestamp`: the current
/// number of non-leap seconds since the Unix epoch. The value depends on the
/// machine's clock, so nothing is assumed of it.
#[verifier::external_body]
fn utc_unix_timestamp() -> i64 {
    chrono::Utc::now().timestamp()
}

/// The current time in whole seconds since the Unix epoch, clamped to zero
/// for clocks set before the epoch so that it fits an unsigned timestamp.
pub fn now_seconds() -> u64 {
    let t = utc_unix_timestamp();
    if t <= 0 {
        0
    } else {
        t as u64
    }
}

} // verus!
