use ytdlp_sub::commands::health::{health_check_targets, update_subscriptions_health};
use ytdlp_sub::models::{HealthCheckResult, HealthCheckSummary, HealthStatus, Subscription};
use ytdlp_sub::services::health::RequestOutcome;
use ytdlp_sub::services::HealthService;

fn make_sub(id: &str, url: &str, name: &str) -> Subscription {
    let mut sub = Subscription::new(
        url.to_string(),
        "youtube".to_string(),
        name.to_string(),
        "https://example.com/avatar.jpg".to_string(),
    );
    sub.id = id.to_string();
    sub
}

#[test]
fn test_classify_status_ok() {
    assert_eq!(HealthService::classify_status(200), HealthStatus::Healthy);
    assert_eq!(HealthService::classify_status(201), HealthStatus::Healthy);
    assert_eq!(HealthService::classify_status(204), HealthStatus::Healthy);
    assert_eq!(HealthService::classify_status(299), HealthStatus::Healthy);
}

#[test]
fn test_classify_status_redirect() {
    assert_eq!(HealthService::classify_status(301), HealthStatus::Warning);
    assert_eq!(HealthService::classify_status(302), HealthStatus::Warning);
}

#[test]
fn test_classify_status_not_found() {
    assert_eq!(HealthService::classify_status(404), HealthStatus::Dead);
    assert_eq!(HealthService::classify_status(410), HealthStatus::Dead);
}

#[test]
fn test_classify_status_client_error() {
    assert_eq!(HealthService::classify_status(403), HealthStatus::Dead);
    assert_eq!(HealthService::classify_status(451), HealthStatus::Dead);
}

#[test]
fn test_classify_status_server_error() {
    assert_eq!(HealthService::classify_status(500), HealthStatus::Warning);
    assert_eq!(HealthService::classify_status(502), HealthStatus::Warning);
    assert_eq!(HealthService::classify_status(503), HealthStatus::Warning);
    assert_eq!(HealthService::classify_status(599), HealthStatus::Warning);
}

#[test]
fn test_classify_status_rate_limited() {
    assert_eq!(HealthService::classify_status(429), HealthStatus::Warning);
}

#[test]
fn test_classify_status_unknown() {
    assert_eq!(HealthService::classify_status(0), HealthStatus::Warning);
    assert_eq!(HealthService::classify_status(600), HealthStatus::Warning);
    assert_eq!(HealthService::classify_status(999), HealthStatus::Warning);
}

#[test]
fn test_check_result_fields() {
    let result = HealthCheckResult {
        subscription_id: "test-id".to_string(),
        url: "https://example.com".to_string(),
        status: HealthStatus::Healthy,
        detail: "HTTP 200".to_string(),
        latency_ms: 42,
        checked_at: "2026-06-10T12:00:00Z".to_string(),
    };
    assert_eq!(result.subscription_id, "test-id");
    assert_eq!(result.status, HealthStatus::Healthy);
    assert_eq!(result.latency_ms, 42);
}

#[test]
fn test_check_batch_empty_subscriptions() {
    let summary = HealthService::summarize(0, vec![], 0);
    assert_eq!(summary.total, 0);
    assert_eq!(summary.ok, 0);
    assert_eq!(summary.warning, 0);
    assert_eq!(summary.dead, 0);
    assert!(summary.results.is_empty());
}

#[test]
fn test_health_check_summary_pending_service() {
    let summary = HealthCheckSummary::pending(5);
    assert_eq!(summary.total, 5);
    assert_eq!(summary.ok, 0);
    assert_eq!(summary.warning, 0);
    assert_eq!(summary.dead, 0);
    assert_eq!(summary.duration_ms, 0);
    assert!(summary.results.is_empty());
}

#[test]
fn test_health_check_summary_pending() {
    let summary = HealthCheckSummary::pending(10);
    assert_eq!(summary.total, 10);
    assert_eq!(summary.ok, 0);
    assert_eq!(summary.duration_ms, 0);
    assert!(summary.results.is_empty());
}

#[test]
fn test_check_result_from_outcomes() {
    let ok = HealthService::check_result("a", "https://x", RequestOutcome::Response(200), 5, "t".to_string());
    assert_eq!(ok.status, HealthStatus::Healthy);
    assert_eq!(ok.detail, "HTTP 200");
    let gone = HealthService::check_result("a", "https://x", RequestOutcome::Response(404), 5, "t".to_string());
    assert_eq!(gone.status, HealthStatus::Dead);
    assert_eq!(gone.detail, "HTTP 404");
    let timeout = HealthService::check_result("a", "https://x", RequestOutcome::TimedOut, 5, "t".to_string());
    assert_eq!(timeout.status, HealthStatus::Dead);
    assert_eq!(timeout.detail, "请求超时");
    let conn = HealthService::check_result(
        "a",
        "https://x",
        RequestOutcome::ConnectFailed("refused".to_string()),
        5,
        "t".to_string(),
    );
    assert_eq!(conn.detail, "连接失败: refused");
    let other = HealthService::check_result("a", "https://x", RequestOutcome::Failed("boom".to_string()), 5, "t".to_string());
    assert_eq!(other.detail, "网络错误: boom");
    assert_eq!(other.latency_ms, 5);
}

#[test]
fn test_summarize_counts_add_up() {
    let mk = |s: HealthStatus| HealthCheckResult {
        subscription_id: "x".to_string(),
        url: "u".to_string(),
        status: s,
        detail: String::new(),
        latency_ms: 1,
        checked_at: String::new(),
    };
    let summary = HealthService::summarize(
        4,
        vec![mk(HealthStatus::Healthy), mk(HealthStatus::Dead), mk(HealthStatus::Warning), mk(HealthStatus::Dead)],
        12,
    );
    assert_eq!(summary.ok, 1);
    assert_eq!(summary.warning, 1);
    assert_eq!(summary.dead, 2);
    assert_eq!(summary.ok + summary.warning + summary.dead, summary.results.len());
    assert_eq!(summary.duration_ms, 12);
}

#[test]
fn test_check_all_health_no_subscriptions() {
    let subs: Vec<Subscription> = vec![];
    let result = health_check_targets(&subs, None);
    assert!(result.is_empty());
}

#[test]
fn test_check_selected_health_empty_ids() {
    let subs = vec![make_sub("id-1", "https://youtube.com/@a", "A"), make_sub("id-2", "https://youtube.com/@b", "B")];
    let empty: Vec<String> = vec![];
    let result = health_check_targets(&subs, Some(&empty));
    assert_eq!(result.len(), 2);
}

#[test]
fn test_filter_subscriptions_all() {
    let subs = vec![make_sub("id-1", "https://youtube.com/@a", "A"), make_sub("id-2", "https://youtube.com/@b", "B")];
    let result = health_check_targets(&subs, None);
    assert_eq!(result.len(), 2);
    assert!(result.iter().any(|&i| subs[i].id == "id-1"));
    assert!(result.iter().any(|&i| subs[i].id == "id-2"));
}

#[test]
fn test_filter_subscriptions_selected() {
    let subs = vec![
        make_sub("id-1", "https://youtube.com/@a", "A"),
        make_sub("id-2", "https://youtube.com/@b", "B"),
        make_sub("id-3", "https://youtube.com/@c", "C"),
    ];
    let selected = vec!["id-1".to_string(), "id-3".to_string()];
    let result = health_check_targets(&subs, Some(&selected));
    assert_eq!(result.len(), 2);
    assert_eq!(subs[result[0]].id, "id-1");
    assert_eq!(subs[result[1]].id, "id-3");
}

#[test]
fn test_filter_subscriptions_none_matched() {
    let subs = vec![make_sub("id-1", "https://youtube.com/@a", "A")];
    let selected = vec!["id-nonexistent".to_string()];
    let result = health_check_targets(&subs, Some(&selected));
    assert_eq!(result.len(), 0);
}

fn verdict(id: &str, url: &str, status: HealthStatus, detail: &str, latency_ms: u64, at: &str) -> HealthCheckResult {
    HealthCheckResult {
        subscription_id: id.to_string(),
        url: url.to_string(),
        status,
        detail: detail.to_string(),
        latency_ms,
        checked_at: at.to_string(),
    }
}

#[test]
fn test_update_subscriptions_health_ok() {
    let mut sub = make_sub("id-1", "https://youtube.com/@a", "A");
    sub.health_status = None;
    sub.last_health_check = None;
    let mut subs = vec![sub];
    let results = vec![verdict("id-1", "https://youtube.com/@a", HealthStatus::Healthy, "HTTP 200", 100, "2026-06-10T12:00:00Z")];
    update_subscriptions_health(&mut subs, &results);
    assert_eq!(subs[0].health_status, Some(HealthStatus::Healthy));
    assert_eq!(subs[0].last_health_check, Some("2026-06-10T12:00:00Z".to_string()));
    assert!(!subs[0].paused, "Ok 状态不应自动暂停");
}

#[test]
fn test_update_subscriptions_health_warning() {
    let mut sub = make_sub("id-1", "https://youtube.com/@a", "A");
    sub.paused = false;
    let mut subs = vec![sub];
    let results = vec![verdict("id-1", "https://youtube.com/@a", HealthStatus::Warning, "HTTP 429", 500, "2026-06-10T12:00:00Z")];
    update_subscriptions_health(&mut subs, &results);
    assert_eq!(subs[0].health_status, Some(HealthStatus::Warning));
    assert!(!subs[0].paused, "Warning 状态不应自动暂停");
}

#[test]
fn test_update_subscriptions_health_persists_to_disk() {
    let mut sub = make_sub("id-1", "https://youtube.com/@a", "A");
    sub.health_status = None;
    let mut subs = vec![sub];
    let results = vec![verdict("id-1", "https://youtube.com/@a", HealthStatus::Healthy, "HTTP 200", 100, "2026-06-10T12:00:00Z")];
    update_subscriptions_health(&mut subs, &results);
    assert_eq!(subs.len(), 1);
    assert_eq!(subs[0].health_status, Some(HealthStatus::Healthy));
    assert_eq!(subs[0].last_health_check, Some("2026-06-10T12:00:00Z".to_string()));
}

#[test]
fn test_auto_pause_on_dead() {
    let mut sub = make_sub("id-1", "https://youtube.com/@a", "A");
    sub.paused = false;
    let mut subs = vec![sub];
    let results = vec![verdict("id-1", "https://youtube.com/@a", HealthStatus::Dead, "HTTP 404", 50, "2026-06-10T12:00:00Z")];
    update_subscriptions_health(&mut subs, &results);
    assert_eq!(subs[0].health_status, Some(HealthStatus::Dead));
    assert!(subs[0].paused, "Dead 状态必须自动暂停订阅");
}

#[test]
fn test_auto_pause_dead_persists_to_disk() {
    let mut sub = make_sub("id-1", "https://youtube.com/@a", "A");
    sub.paused = false;
    let mut subs = vec![sub];
    let results = vec![verdict("id-1", "https://youtube.com/@a", HealthStatus::Dead, "HTTP 410 Gone", 30, "2026-06-10T12:00:00Z")];
    update_subscriptions_health(&mut subs, &results);
    assert_eq!(subs.len(), 1);
    assert_eq!(subs[0].health_status, Some(HealthStatus::Dead));
    assert!(subs[0].paused, "Dead 暂停状态必须持久化到磁盘");
}

#[test]
fn test_auto_pause_only_for_dead() {
    let mut sub_ok = make_sub("id-ok", "https://youtube.com/@ok", "OK");
    sub_ok.paused = false;
    let mut sub_warn = make_sub("id-warn", "https://youtube.com/@warn", "Warn");
    sub_warn.paused = false;
    let mut sub_dead = make_sub("id-dead", "https://youtube.com/@dead", "Dead");
    sub_dead.paused = false;
    let mut subs = vec![sub_ok, sub_warn, sub_dead];
    let results = vec![
        verdict("id-ok", "https://youtube.com/@ok", HealthStatus::Healthy, "HTTP 200", 100, "2026-06-10T12:00:00Z"),
        verdict("id-warn", "https://youtube.com/@warn", HealthStatus::Warning, "HTTP 500", 200, "2026-06-10T12:00:01Z"),
        verdict("id-dead", "https://youtube.com/@dead", HealthStatus::Dead, "HTTP 404", 50, "2026-06-10T12:00:02Z"),
    ];
    update_subscriptions_health(&mut subs, &results);
    let sub_ok = subs.iter().find(|s| s.id == "id-ok").unwrap();
    let sub_warn = subs.iter().find(|s| s.id == "id-warn").unwrap();
    let sub_dead = subs.iter().find(|s| s.id == "id-dead").unwrap();
    assert!(!sub_ok.paused, "Ok 不应自动暂停");
    assert!(!sub_warn.paused, "Warning 不应自动暂停");
    assert!(sub_dead.paused, "Dead 必须自动暂停");
}

#[test]
fn test_update_subscriptions_health_id_not_found_skips() {
    let sub = make_sub("id-1", "https://youtube.com/@a", "A");
    let original_paused = sub.paused;
    let mut subs = vec![sub];
    let results = vec![verdict("id-non-existent", "https://youtube.com/@b", HealthStatus::Dead, "HTTP 404", 50, "2026-06-10T12:00:00Z")];
    update_subscriptions_health(&mut subs, &results);
    assert_eq!(subs[0].paused, original_paused, "不应影响未匹配的订阅");
    assert_eq!(subs[0].health_status, None, "不应更新未匹配订阅的状态");
}

#[test]
fn test_retry_delay_for_rate_limit() {
    assert_eq!(HealthService::retry_delay_ms(429, 0, 0), Some(2000));
    assert_eq!(HealthService::retry_delay_ms(429, 1, 0), Some(4000));
    assert_eq!(HealthService::retry_delay_ms(429, 0, 250), Some(2250));
    assert_eq!(HealthService::retry_delay_ms(429, 1, 1000), Some(5000));
}

#[test]
fn test_retry_delay_stops_after_two_retries() {
    assert_eq!(HealthService::retry_delay_ms(429, 2, 0), None);
    assert_eq!(HealthService::retry_delay_ms(429, 7, 500), None);
}

#[test]
fn test_retry_delay_only_for_rate_limit() {
    assert_eq!(HealthService::retry_delay_ms(200, 0, 0), None);
    assert_eq!(HealthService::retry_delay_ms(503, 0, 0), None);
    assert_eq!(HealthService::retry_delay_ms(404, 1, 100), None);
}
