//! Decisions of the latency probe, which times a TCP connect to the address.
use vstd::prelude::*;

verus! {

/// Connect times at or under this many milliseconds are taken for an immediate local reset
/// rather than a round trip.
pub const NOISE_FLOOR_MS: u64 = 10;

/// Port that the connect probe dials.
pub const PROBE_PORT: u16 = 80;

/// What one timed connect attempt came to.
#[derive(Clone, Copy, Debug, PartialEq, Eq, Structural)]
pub enum ConnectOutcome {
    /// The handshake completed after `elapsed_ms` milliseconds.
    Connected { elapsed_ms: u64 },
    /// The attempt failed (refused, unreachable, no route).
    Failed,
    /// The attempt did not finish within the timeout.
    TimedOut,
}

/// The latency that an outcome stands for, or `None` for an unreachable address.
pub open spec fn latency_of(outcome: ConnectOutcome, noise_floor_ms: u64) -> Option<u64> {
    match outcome {
        ConnectOutcome::Connected { elapsed_ms } => if elapsed_ms > noise_floor_ms {
            Some(elapsed_ms)
        } else {
            None
        },
        _ => None,
    }
}

/// Turns a connect attempt into a latency: a completed handshake slower than the noise floor
/// is a latency; a faster one, a failure or a timeout makes the address unreachable.
pub fn latency_from_connect(outcome: ConnectOutcome, noise_floor_ms: u64) -> (r: Option<u64>)
    ensures
        r == latency_of(outcome, noise_floor_ms),
{
    match outcome {
        ConnectOutcome::Connected { elapsed_ms } => {
            if elapsed_ms > noise_floor_ms {
                Some(elapsed_ms)
            } else {
                None
            }
        },
        _ => None,
    }
}

/// The timeout of one connect probe: the assignment's latency ceiling, none when it is not
/// positive.
pub fn probe_timeout_ms(maximum_ping: i32) -> (r: u64)
    ensures
        r == (if maximum_ping > 0 {
            maximum_ping as int
        } else {
            0
        }),
{
    if maximum_ping > 0 {
        maximum_ping as u64
    } else {
        0
    }
}

} // verus!
