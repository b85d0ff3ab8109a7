//! Timing options of a probe run.

use vstd::prelude::*;

verus! {

/// Default per-step timeout in milliseconds.
pub const DEFAULT_TIMEOUT_MS: u64 = 10_000;

/// Default retry count for transient failures.
pub const DEFAULT_RETRIES: u32 = 0;

/// Default delay between retries in milliseconds.
pub const DEFAULT_RETRY_DELAY_MS: u64 = 250;

/// Resolved probe timing options.
#[derive(Clone, Copy, Debug)]
pub struct ProbeOptions {
    pub timeout_ms: u64,
    pub retries: u32,
    pub retry_delay_ms: u64,
}

/// Resolve timing options from a target, each absent one taking its
/// default.
pub fn resolve_probe_options(timeout_ms: Option<u64>, retries: Option<u32>, retry_delay_ms: Option<u64>) -> (r:
    ProbeOptions)
    ensures
        r.timeout_ms == match timeout_ms {
            Some(t) => t,
            None => DEFAULT_TIMEOUT_MS,
        },
        r.retries == match retries {
            Some(n) => n,
            None => DEFAULT_RETRIES,
        },
        r.retry_delay_ms == match retry_delay_ms {
            Some(d) => d,
            None => DEFAULT_RETRY_DELAY_MS,
        },
{
    ProbeOptions {
        timeout_ms: match timeout_ms {
            Some(t) => t,
            None => DEFAULT_TIMEOUT_MS,
        },
        retries: match retries {
            Some(n) => n,
            None => DEFAULT_RETRIES,
        },
        retry_delay_ms: match retry_delay_ms {
            Some(d) => d,
            None => DEFAULT_RETRY_DELAY_MS,
        },
    }
}

} // verus!
