//! The one place where the engine reads the wall clock. Every handler takes
//! the timestamp as a plain argument, so the whole engine is verified for
//! every value the clock may hand back.

use vstd::prelude::*;

verus! {

/// Relies on chrono's `Utc::now().timestamp_millis()`: the current wall-clock
/// time as milliseconds since the Unix epoch. Nothing is promised of the
/// value; callers must hold for every outcome.
#[verifier::external_body]
pub fn now_ms() -> i64 {
    chrono::Utc::now().timestamp_millis()
}

} // verus!
