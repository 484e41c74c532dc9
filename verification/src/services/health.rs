//! Classification of health-check answers and their totals. The HTTP requests
//! themselves are made by the caller.

use vstd::prelude::*;
use vstd::arithmetic::power2::{lemma2_to64, pow2};
use vstd::string::*;

use crate::models::health::{HealthCheckResult, HealthCheckSummary, HealthStatus};
use crate::text::{decimal, push_decimal};

verus! {

/// Stateless health-check service.
pub struct HealthService;

/// What a HEAD request to a channel URL produced.
#[derive(Debug, Clone)]
pub enum RequestOutcome {
    /// The server answered with this status code.
    Response(u16),
    /// The request timed out.
    TimedOut,
    /// The connection failed; the error text.
    ConnectFailed(String),
    /// Any other network error; the error text.
    Failed(String),
}

/// The verdict for an HTTP status code: 2xx is healthy; 301, 302 and 429 are warnings;
/// 404, 410 and the other 4xx codes mean the channel is dead; 5xx and anything else
/// are warnings.
pub open spec fn classify(status: u16) -> HealthStatus {
    if 200 <= status <= 299 {
        HealthStatus::Healthy
    } else if status == 301 || status == 302 {
        HealthStatus::Warning
    } else if status == 404 || status == 410 {
        HealthStatus::Dead
    } else if status == 429 {
        HealthStatus::Warning
    } else if 500 <= status <= 599 {
        HealthStatus::Warning
    } else if 400 <= status <= 499 {
        HealthStatus::Dead
    } else {
        HealthStatus::Warning
    }
}

/// Number of results with verdict `s`.
pub open spec fn status_count(results: Seq<HealthCheckResult>, s: HealthStatus) -> nat
    decreases results.len(),
{
    if results.len() == 0 {
        0
    } else {
        status_count(results.drop_last(), s) + if results.last().status == s {
            1nat
        } else {
            0nat
        }
    }
}

/// The verdict of a request outcome: network failures mean the channel is dead.
pub open spec fn outcome_status(o: RequestOutcome) -> HealthStatus {
    match o {
        RequestOutcome::Response(code) => classify(code),
        _ => HealthStatus::Dead,
    }
}

/// The detail text of a request outcome.
pub open spec fn outcome_detail(o: RequestOutcome) -> Seq<char> {
    match o {
        RequestOutcome::Response(code) => "HTTP "@ + decimal(code as nat),
        RequestOutcome::TimedOut => "请求超时"@,
        RequestOutcome::ConnectFailed(e) => "连接失败: "@ + e@,
        RequestOutcome::Failed(e) => "网络错误: "@ + e@,
    }
}

/// Every verdict is one of the three kinds, so the three counts add up to the number
/// of results.
pub proof fn law_status_counts_add_up(results: Seq<HealthCheckResult>)
    ensures
        status_count(results, HealthStatus::Healthy) + status_count(results, HealthStatus::Warning)
            + status_count(results, HealthStatus::Dead) == results.len(),
    decreases results.len(),
{
    if results.len() > 0 {
        law_status_counts_add_up(results.drop_last());
    }
}

impl HealthService {
    /// How long to wait before asking again after an answer with status `status` to
    /// request number `attempt` (0 for the first): a "429 Too Many Requests" is retried
    /// at most twice, after 2 s and then 4 s (exponential backoff) plus `jitter_ms`
    /// drawn by the caller; any other answer, or a third 429, is final (`None`).
    pub fn retry_delay_ms(status: u16, attempt: u32, jitter_ms: u64) -> (d: Option<u64>)
        requires
            jitter_ms <= 1000,
        ensures
            (status == 429 && attempt < 2) ==> d == Some((2000 * pow2(attempt as nat) + jitter_ms) as u64),
            !(status == 429 && attempt < 2) ==> d is None,
    {
        proof {
            lemma2_to64();
        }
        if status == 429 && attempt < 2 {
            let base: u64 = if attempt == 0 {
                2000
            } else {
                4000
            };
            Some(base + jitter_ms)
        } else {
            None
        }
    }

    /// Maps an HTTP status code to a verdict.
    pub fn classify_status(status: u16) -> (h: HealthStatus)
        ensures
            h == classify(status),
    {
        if 200 <= status && status <= 299 {
            HealthStatus::Healthy
        } else if status == 301 || status == 302 {
            HealthStatus::Warning
        } else if status == 404 || status == 410 {
            HealthStatus::Dead
        } else if status == 429 {
            HealthStatus::Warning
        } else if 500 <= status && status <= 599 {
            HealthStatus::Warning
        } else if 400 <= status && status <= 499 {
            HealthStatus::Dead
        } else {
            HealthStatus::Warning
        }
    }

    /// The result of checking one subscription, from what its request produced.
    pub fn check_result(
        subscription_id: &str,
        url: &str,
        outcome: RequestOutcome,
        latency_ms: u64,
        checked_at: String,
    ) -> (r: HealthCheckResult)
        ensures
            r.subscription_id@ == subscription_id@,
            r.url@ == url@,
            r.status == outcome_status(outcome),
            r.detail@ == outcome_detail(outcome),
            r.latency_ms == latency_ms,
            r.checked_at == checked_at,
    {
        let (status, detail) = match outcome {
            RequestOutcome::Response(code) => {
                let mut d = String::from_str("HTTP ");
                push_decimal(&mut d, code as u64);
                (Self::classify_status(code), d)
            },
            RequestOutcome::TimedOut => (HealthStatus::Dead, String::from_str("请求超时")),
            RequestOutcome::ConnectFailed(e) => {
                let mut d = String::from_str("连接失败: ");
                d.append(e.as_str());
                (HealthStatus::Dead, d)
            },
            RequestOutcome::Failed(e) => {
                let mut d = String::from_str("网络错误: ");
                d.append(e.as_str());
                (HealthStatus::Dead, d)
            },
        };
        HealthCheckResult {
            subscription_id: String::from_str(subscription_id),
            url: String::from_str(url),
            status,
            detail,
            latency_ms,
            checked_at,
        }
    }

    /// The summary of a finished run over `total` subscriptions: the results with
    /// the number of each verdict among them.
    pub fn summarize(total: usize, results: Vec<HealthCheckResult>, duration_ms: u64) -> (s:
        HealthCheckSummary)
        ensures
            s.total == total,
            s.ok == status_count(results@, HealthStatus::Healthy),
            s.warning == status_count(results@, HealthStatus::Warning),
            s.dead == status_count(results@, HealthStatus::Dead),
            s.duration_ms == duration_ms,
            s.results == results,
    {
        let mut ok: usize = 0;
        let mut warning: usize = 0;
        let mut dead: usize = 0;
        let mut i: usize = 0;
        while i < results.len()
            invariant
                i <= results@.len(),
                ok == status_count(results@.take(i as int), HealthStatus::Healthy),
                warning == status_count(results@.take(i as int), HealthStatus::Warning),
                dead == status_count(results@.take(i as int), HealthStatus::Dead),
                ok + warning + dead == i,
            decreases results@.len() - i,
        {
            assert(results@.take(i + 1).drop_last() =~= results@.take(i as int));
            match results[i].status {
                HealthStatus::Healthy => ok += 1,
                HealthStatus::Warning => warning += 1,
                HealthStatus::Dead => dead += 1,
            }
            i += 1;
        }
        assert(results@.take(results@.len() as int) =~= results@);
        HealthCheckSummary { total, ok, warning, dead, duration_ms, results }
    }
}

} // verus!
