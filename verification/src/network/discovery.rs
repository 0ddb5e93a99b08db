//! Retransmission timing of discovery: exponential client backoff, the
//! server's fixed interval, and the session timeout.
use vstd::prelude::*;

verus! {

/// The client's retry interval after `attempt` failed sends, in
/// milliseconds: 200 ms doubled per attempt, capped after five doublings.
pub open spec fn spec_client_retry_ms(attempt: u32) -> u64 {
    if attempt == 0 {
        200
    } else if attempt == 1 {
        400
    } else if attempt == 2 {
        800
    } else if attempt == 3 {
        1600
    } else if attempt == 4 {
        3200
    } else {
        6400
    }
}

/// The client's retry interval after `attempt` failed sends, in
/// milliseconds (200 * 2^min(attempt, 5)).
pub fn get_client_retry_interval(attempt: u32) -> (r: u64)
    ensures
        r == spec_client_retry_ms(attempt),
        r == 200 * vstd::arithmetic::power2::pow2(if attempt < 5 { attempt as nat } else { 5 }),
{
    let capped: u32 = if attempt < 5 { attempt } else { 5 };
    let mut interval: u64 = 200;
    let mut i: u32 = 0;
    proof {
        vstd::arithmetic::power2::lemma2_to64();
    }
    while i < capped
        invariant
            i <= capped <= 5,
            interval == 200 * vstd::arithmetic::power2::pow2(i as nat),
        decreases capped - i,
    {
        proof {
            vstd::arithmetic::power2::lemma_pow2_unfold((i + 1) as nat);
            vstd::arithmetic::power2::lemma_pow2_strictly_increases(i as nat, 5);
            vstd::arithmetic::power2::lemma2_to64();
        }
        interval = interval * 2;
        i = i + 1;
    }
    proof {
        vstd::arithmetic::power2::lemma2_to64();
    }
    interval
}

/// The server's retry interval, in milliseconds.
pub fn get_server_retry_interval() -> (r: u64)
    ensures
        r == 500,
{
    500
}

/// How long a discovery session lasts, in seconds.
pub fn get_session_timeout() -> (r: u64)
    ensures
        r == 120,
{
    120
}

/// The next step of a retransmission loop.
#[derive(Debug, Clone, Copy, PartialEq, Eq)]
pub enum RetransmitStep {
    /// Wait this many milliseconds, then send attempt `next_attempt`.
    Retry { sleep_ms: u64, next_attempt: u32 },
    /// The deadline has passed: stop without an answer.
    GiveUp,
}

/// What a retransmission loop does after attempt `attempt` got no answer,
/// `elapsed_ms` after it started: give up once the deadline has passed,
/// otherwise wait the client retry interval and try again.
pub fn next_retransmit_step(attempt: u32, elapsed_ms: u64, max_duration_ms: u64) -> (r: RetransmitStep)
    requires
        attempt < u32::MAX,
    ensures
        elapsed_ms >= max_duration_ms ==> r == RetransmitStep::GiveUp,
        elapsed_ms < max_duration_ms ==> r == (RetransmitStep::Retry {
            sleep_ms: spec_client_retry_ms(attempt),
            next_attempt: (attempt + 1) as u32,
        }),
{
    if elapsed_ms >= max_duration_ms {
        RetransmitStep::GiveUp
    } else {
        RetransmitStep::Retry { sleep_ms: get_client_retry_interval(attempt), next_attempt: attempt + 1 }
    }
}

} // verus!
