//! The pacing of a benchmark client.

use vstd::prelude::*;

verus! {

/// The delay, in microseconds, that a client running at `requests_per_sec`
/// waits between two requests: a million divided by the rate, or 999 999
/// seconds where the rate is zero.
pub fn request_delay_micros(requests_per_sec: u64) -> (us: u64)
    requires
        requests_per_sec <= 1_000_000,
    ensures
        requests_per_sec == 0 ==> us == 999_999_000_000,
        requests_per_sec > 0 ==> us == 1_000_000int / (requests_per_sec as int) && us != 0,
{
    if requests_per_sec == 0 {
        return 999_999_000_000;
    }
    let delay_us = 1_000_000 / requests_per_sec;
    assert(delay_us >= 1) by (nonlinear_arith)
        requires
            0 < requests_per_sec <= 1_000_000,
            delay_us == 1_000_000int / (requests_per_sec as int),
    ;
    delay_us
}

} // verus!
