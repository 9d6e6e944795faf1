//! The wall clock. Every store operation takes the current time as a
//! plain argument; this module is where a caller obtains it.

use vstd::prelude::*;

verus! {

/// Relies on `chrono::Utc::now`: reads the system clock as whole
/// seconds since the Unix epoch. Nothing can be promised of the value.
#[verifier::external_body]
fn utc_now_timestamp() -> i64 {
    chrono::Utc::now().timestamp()
}

/// The current Unix time in seconds, clamped below at the epoch.
pub fn current_unix_time() -> u64 {
    let t = utc_now_timestamp();
    if t < 0 {
        0
    } else {
        t as u64
    }
}

} // verus!
