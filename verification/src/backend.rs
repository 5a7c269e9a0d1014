//! Messaging backend policies: the reconnect schedule every engine shares,
//! and one module per engine.
pub mod demo;
pub mod native;
pub mod signal_cli;

use std::time::Duration;
use vstd::arithmetic::power2::{lemma2_to64, pow2};
use vstd::bits::lemma_u64_shl_is_mul;
use vstd::prelude::*;

use crate::clock::{duration_from_secs, duration_nanos, duration_secs};

verus! {

/// Seconds to wait after failed attempt number `attempt` (1-based):
/// doubling from 2s, capped at 30s, with the exponent itself capped at 6 so
/// large attempt numbers never overflow.
pub open spec fn backoff_secs(attempt: u32) -> nat {
    let e: nat = if attempt < 6 {
        attempt as nat
    } else {
        6
    };
    if pow2(e) < 30 {
        pow2(e)
    } else {
        30
    }
}

/// `(1 << attempt.min(6)).min(30)` seconds.
pub(crate) fn backoff_secs_exec(attempt: u32) -> (s: u64)
    ensures
        s == backoff_secs(attempt),
{
    let shift: u64 = if attempt < 6 {
        attempt as u64
    } else {
        6
    };
    proof {
        lemma2_to64();
        lemma_u64_shl_is_mul(1, shift);
    }
    let doubled: u64 = 1u64 << shift;
    if doubled < 30 {
        doubled
    } else {
        30
    }
}

/// Retry policy for the main loop's reconnect supervisor. Adapters expose it
/// so the policy is an engine property, not a main-loop constant.
#[derive(Debug, Clone, Copy, PartialEq, Eq, Structural)]
pub struct ReconnectPolicy {
    /// How many attempts before giving up and leaving the disconnect error
    /// on screen.
    pub max_attempts: u32,
}

impl Default for ReconnectPolicy {
    /// signal-cli's policy: 6 respawn attempts, exponential backoff.
    fn default() -> (p: Self)
        ensures
            p.max_attempts == 6,
    {
        Self { max_attempts: 6 }
    }
}

impl ReconnectPolicy {
    /// Exponential backoff before the next attempt, capped at 30s. `attempt`
    /// is 1-based (the delay applied *after* attempt N fails, before attempt
    /// N+1). The first attempt fires immediately on disconnect, so this is
    /// only consulted after a failure.
    pub fn backoff(&self, attempt: u32) -> (d: Duration)
        ensures
            duration_nanos(d) == backoff_secs(attempt) * 1_000_000_000,
            duration_secs(d) == backoff_secs(attempt),
    {
        duration_from_secs(backoff_secs_exec(attempt))
    }
}

/// The backoff doubles with each failed attempt until it reaches the 30s
/// ceiling, and never exceeds it.
pub proof fn law_backoff_doubles_then_caps(attempt: u32)
    ensures
        1 <= backoff_secs(attempt) <= 30,
        attempt < 4 ==> backoff_secs((attempt + 1) as u32) == 2 * backoff_secs(attempt),
        attempt >= 5 ==> backoff_secs(attempt) == 30,
        attempt <= 4 ==> backoff_secs(attempt) == pow2(attempt as nat),
{
    lemma2_to64();
}

} // verus!
