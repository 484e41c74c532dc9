//! Subscription health-check results.

use vstd::prelude::*;

verus! {

/// Reachability verdict for a subscribed channel.
#[derive(Debug, Clone, Copy, PartialEq, Eq, Structural)]
pub enum HealthStatus {
    /// The channel answered normally (serialized as "ok").
    Healthy,
    /// The channel answered abnormally (rate limit, server error, redirect).
    Warning,
    /// The channel is gone (404, 410, other client errors, network failure).
    Dead,
}

/// Outcome of checking one subscription.
#[derive(Debug, Clone)]
pub struct HealthCheckResult {
    pub subscription_id: String,
    pub url: String,
    pub status: HealthStatus,
    pub detail: String,
    pub latency_ms: u64,
    pub checked_at: String,
}

/// Totals of a health-check run.
#[derive(Debug, Clone)]
pub struct HealthCheckSummary {
    pub total: usize,
    pub ok: usize,
    pub warning: usize,
    pub dead: usize,
    pub duration_ms: u64,
    pub results: Vec<HealthCheckResult>,
}

impl HealthCheckSummary {
    /// An empty summary announcing that `total` subscriptions are about to be checked.
    pub fn pending(total: usize) -> (s: Self)
        ensures
            s.total == total,
            s.ok == 0,
            s.warning == 0,
            s.dead == 0,
            s.duration_ms == 0,
            s.results@.len() == 0,
    {
        HealthCheckSummary { total, ok: 0, warning: 0, dead: 0, duration_ms: 0, results: Vec::new() }
    }
}

} // verus!
