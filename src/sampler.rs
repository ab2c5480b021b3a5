//! Retry policy of the sampling loop: after a failed run the loop waits,
//! doubling the wait on each further failure up to a cap; a good run clears it.

use vstd::prelude::*;

verus! {

/// Wait after the first failure in a row, in milliseconds.
pub const BACKOFF_START_MS: u64 = 1000;

/// Longest wait between failed runs, in milliseconds.
pub const BACKOFF_CAP_MS: u64 = 30000;

/// The wait that follows a run, given the wait that preceded it.
pub open spec fn backoff_spec(delay_ms: u64, failed: bool) -> u64 {
    if !failed {
        0
    } else if delay_ms == 0 {
        BACKOFF_START_MS
    } else if 2 * delay_ms > BACKOFF_CAP_MS {
        BACKOFF_CAP_MS
    } else {
        (2 * delay_ms) as u64
    }
}

/// Decides how long the loop waits before the next run: zero after a good
/// run; after a failed one, the first wait or twice the last, at most the cap.
pub fn next_backoff(delay_ms: u64, failed: bool) -> (r: u64)
    ensures
        r == backoff_spec(delay_ms, failed),
{
    if !failed {
        0
    } else if delay_ms == 0 {
        BACKOFF_START_MS
    } else if delay_ms > BACKOFF_CAP_MS / 2 {
        BACKOFF_CAP_MS
    } else {
        2 * delay_ms
    }
}

/// Waits stay within the cap: from a wait within the cap, whatever the
/// outcome, the next wait is within it too, and a failure always waits.
pub proof fn lemma_backoff_bounded(delay_ms: u64, failed: bool)
    requires
        delay_ms <= BACKOFF_CAP_MS,
    ensures
        backoff_spec(delay_ms, failed) <= BACKOFF_CAP_MS,
        failed ==> backoff_spec(delay_ms, failed) > 0,
{
}

} // verus!
