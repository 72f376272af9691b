//! One-way latency of a frame, from the sender's timestamp and the
//! receiver's clock.
use vstd::prelude::*;

verus! {

/// `now_ms - timestamp_ms`, or zero when the timestamp lies in the future.
pub open spec fn latency_of(now_ms: u64, timestamp_ms: u64) -> int {
    if now_ms >= timestamp_ms {
        now_ms - timestamp_ms
    } else {
        0
    }
}

/// The latency in milliseconds of a frame stamped `timestamp_ms` that is
/// received at `now_ms`; never negative and never wrapped, also when the two
/// clocks disagree.
pub fn latency_ms(now_ms: u64, timestamp_ms: u64) -> (r: u64)
    ensures
        r == latency_of(now_ms, timestamp_ms),
        r <= now_ms,
        timestamp_ms >= now_ms ==> r == 0,
{
    now_ms.saturating_sub(timestamp_ms)
}

} // verus!
