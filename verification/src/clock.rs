//! The wall clock, read as plain milliseconds.

use vstd::prelude::*;

verus! {

/// Relies on std::time::SystemTime for the current time: milliseconds since
/// the Unix epoch.  A clock set before the epoch reads as zero rather than
/// failing, and a reading too large for the result saturates, so the read
/// never panics.  Nothing can be promised of a clock reading; callers state
/// what holds for every value.
#[verifier::external_body]
pub fn now_millis() -> u64 {
    match std::time::SystemTime::now().duration_since(std::time::UNIX_EPOCH) {
        Ok(since_epoch) => {
            let ms = since_epoch.as_millis();
            if ms > u64::MAX as u128 {
                u64::MAX
            } else {
                ms as u64
            }
        },
        Err(_) => 0,
    }
}

} // verus!
