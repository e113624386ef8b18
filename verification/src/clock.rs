//! Wall-clock time for task timestamps, and the monotone clock the queue
//! derives from it.

use vstd::prelude::*;

verus! {

/// Relies on std's `SystemTime::now` and `duration_since`: the current
/// UTC time as whole seconds since the Unix epoch.  A clock reading
/// before the epoch yields 0, and one too large for `i64` saturates, so
/// the call cannot panic.  Nothing is promised of the value; the queue
/// clamps it to keep its own clock monotone.
#[verifier::external_body]
pub fn now_secs() -> i64 {
    match std::time::SystemTime::now().duration_since(std::time::UNIX_EPOCH) {
        Ok(d) => i64::try_from(d.as_secs()).unwrap_or(i64::MAX),
        Err(_) => 0,
    }
}

/// The timestamp a mutation stamps on rows when the queue clock stands at
/// `clock` and the wall clock reports `now`: wall time when it moved
/// forward, else one past the queue clock, never going backwards.
pub open spec fn tick(clock: int, now: int) -> int {
    if now > clock {
        now
    } else if clock < 0x7fff_ffff_ffff_ffff {
        clock + 1
    } else {
        clock
    }
}

/// Computes `tick` on machine integers.
pub fn tick_exec(clock: i64, now: i64) -> (r: i64)
    ensures
        r == tick(clock as int, now as int),
        r >= clock,
{
    if now > clock {
        now
    } else if clock < i64::MAX {
        clock + 1
    } else {
        clock
    }
}

} // verus!
