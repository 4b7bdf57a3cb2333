//! The decisions of a worker: whether to send again, and what an attempt
//! came to. Times are milliseconds since the start of the run.
use vstd::prelude::*;

use crate::metrics::{Outcome, StatusClass};

verus! {

/// The deadline of a run of `duration_secs` seconds, saturated at the
/// largest time.
pub open spec fn deadline_of(duration_secs: int) -> int {
    if duration_secs * 1000 > u64::MAX {
        u64::MAX as int
    } else {
        duration_secs * 1000
    }
}

/// The deadline of a run, computed once before the workers start.
pub fn deadline_ms(duration_secs: u64) -> (r: u64)
    ensures
        r == deadline_of(duration_secs as int),
{
    if duration_secs > u64::MAX / 1000 {
        u64::MAX
    } else {
        duration_secs * 1000
    }
}

/// Whether a worker sends another request: only before the deadline.
pub fn keep_sending(now_ms: u64, deadline_ms: u64) -> (r: bool)
    ensures
        r == (now_ms < deadline_ms),
{
    now_ms < deadline_ms
}

/// What one attempt came to: the HTTP status that the transport returned, or
/// a transport failure where it returned none.
pub fn outcome_of(status: Option<u16>, elapsed_ms: u64) -> (r: Outcome)
    ensures
        r.elapsed_ms == elapsed_ms,
        r.status == match status {
            Some(code) => StatusClass::Code(code),
            None => StatusClass::TransportError,
        },
{
    match status {
        Some(code) => Outcome { status: StatusClass::Code(code), elapsed_ms },
        None => Outcome { status: StatusClass::TransportError, elapsed_ms },
    }
}

/// A run of at least one second sends at least once: at its start, every
/// worker is before the deadline.
pub proof fn lemma_first_attempt_is_sent(duration_secs: u64, now_ms: u64)
    requires
        duration_secs > 0,
        now_ms < 1000,
    ensures
        now_ms < deadline_of(duration_secs as int),
{
}

} // verus!
