use ytdlp_sub::commands::download::{
    already_downloaded, ensure_listable, find_subscription, has_more_pages, new_videos, page_summary,
    playlist_range, record_check_outcome, records_of_subscription, recover_state, since_date,
};
use ytdlp_sub::error::AppError;
use ytdlp_sub::models::{DownloadRecord, HealthStatus, Subscription};
use ytdlp_sub::services::ytdlp::VideoInfo;

fn make_record(sub_id: &str, title: &str, url: &str, vid: &str, status: &str) -> DownloadRecord {
    let mut r = DownloadRecord::new(sub_id.to_string(), title.to_string(), url.to_string(), vid.to_string());
    r.status = status.to_string();
    r
}

#[test]
fn test_recover_state_marks_downloading_as_failed() {
    let mut records = vec![
        make_record("sub-1", "Video A", "https://youtube.com/watch?v=a", "vid-a", "downloading"),
        make_record("sub-1", "Video B", "https://youtube.com/watch?v=b", "vid-b", "completed"),
    ];
    let changed = recover_state(&mut records);
    assert!(changed);
    assert_eq!(records.len(), 2);
    assert_eq!(records[0].status, "failed");
    assert_eq!(records[0].error_message, Some("Application restarted".to_string()));
    assert_eq!(records[1].status, "completed");
    assert_eq!(records[1].error_message, None);
}

#[test]
fn test_recover_state_marks_paused_as_failed() {
    let mut records = vec![make_record("sub-1", "Video", "https://youtube.com/watch?v=c", "vid-c", "paused")];
    recover_state(&mut records);
    assert_eq!(records[0].status, "failed");
    assert_eq!(records[0].error_message, Some("Application restarted".to_string()));
}

#[test]
fn test_recover_state_leaves_completed_and_failed_unchanged() {
    let mut records = vec![
        make_record("sub-1", "Video A", "https://youtube.com/watch?v=a", "vid-a", "completed"),
        make_record("sub-1", "Video B", "https://youtube.com/watch?v=b", "vid-b", "failed"),
        make_record("sub-1", "Video C", "https://youtube.com/watch?v=c", "vid-c", "cancelled"),
    ];
    recover_state(&mut records);
    assert_eq!(records.len(), 3);
    assert_eq!(records[0].status, "completed");
    assert_eq!(records[1].status, "failed");
    assert_eq!(records[2].status, "cancelled");
}

#[test]
fn test_recover_state_no_changes_when_nothing_to_recover() {
    let mut records = vec![make_record("sub-1", "Video", "https://youtube.com/watch?v=a", "vid-a", "completed")];
    let changed = recover_state(&mut records);
    assert!(!changed);
    assert_eq!(records[0].status, "completed");
}

#[test]
fn test_recover_state_twice_changes_nothing_more() {
    let mut records = vec![
        make_record("s", "A", "https://a", "a", "downloading"),
        make_record("s", "B", "https://b", "b", "paused"),
    ];
    assert!(recover_state(&mut records));
    assert!(!recover_state(&mut records));
    assert_eq!(records[0].status, "failed");
    assert_eq!(records[1].status, "failed");
}

#[test]
fn test_dedup_skips_existing_completed_video_id() {
    let existing = vec![make_record("sub-1", "Video", "https://youtube.com/watch?v=abc", "abc", "completed")];
    assert!(already_downloaded(&existing, "abc", "https://youtube.com/watch?v=abc"));
}

#[test]
fn test_dedup_skips_existing_completed_video_url_fallback() {
    let existing = vec![make_record("sub-1", "Video", "https://youtube.com/watch?v=abc", "", "completed")];
    assert!(already_downloaded(&existing, "", "https://youtube.com/watch?v=abc"));
}

#[test]
fn test_dedup_allows_retry_for_failed_record() {
    let existing = vec![make_record("sub-1", "Video", "https://youtube.com/watch?v=abc", "abc", "failed")];
    assert!(!already_downloaded(&existing, "abc", "https://youtube.com/watch?v=abc"));
}

#[test]
fn test_dedup_allows_new_video() {
    let existing = vec![make_record("sub-1", "Video A", "https://youtube.com/watch?v=abc", "abc", "completed")];
    assert!(!already_downloaded(&existing, "xyz", "https://youtube.com/watch?v=xyz"));
}

#[test]
fn test_dedup_skips_cancelled_record() {
    let existing = vec![make_record("sub-1", "Video", "https://youtube.com/watch?v=abc", "abc", "cancelled")];
    assert!(already_downloaded(&existing, "abc", "https://youtube.com/watch?v=abc"));
}

fn video(title: &str, url: &str, id: Option<&str>) -> VideoInfo {
    VideoInfo { title: title.to_string(), url: url.to_string(), id: id.map(|s| s.to_string()), upload_date: None }
}

#[test]
fn test_new_videos_skips_known_and_repeated() {
    let existing = vec![
        make_record("s", "Old", "https://v/1", "1", "completed"),
        make_record("s", "Broken", "https://v/2", "2", "failed"),
    ];
    let listed = vec![
        video("Old", "https://v/1", Some("1")),
        video("Broken", "https://v/2", Some("2")),
        video("New", "https://v/3", Some("3")),
        video("New again", "https://v/3b", Some("3")),
        video("No id", "https://v/4", None),
        video("No id again", "https://v/4", None),
    ];
    let fresh = new_videos(&existing, listed);
    let titles: Vec<&str> = fresh.iter().map(|v| v.title.as_str()).collect();
    assert_eq!(titles, vec!["Broken", "New", "No id"]);
}

#[test]
fn test_pagination_calc_page1_size10() {
    let (start, end) = playlist_range(1, 10);
    assert_eq!(start, 1);
    assert_eq!(end, 11);
}

#[test]
fn test_pagination_calc_page2_size10() {
    let (start, end) = playlist_range(2, 10);
    assert_eq!(start, 11);
    assert_eq!(end, 21);
}

#[test]
fn test_pagination_calc_page3_size10() {
    let (start, end) = playlist_range(3, 10);
    assert_eq!(start, 21);
    assert_eq!(end, 31);
}

#[test]
fn test_pagination_calc_page1_size5() {
    let (start, end) = playlist_range(1, 5);
    assert_eq!(start, 1);
    assert_eq!(end, 6);
}

#[test]
fn test_pagination_calc_page1_size1() {
    let (start, end) = playlist_range(1, 1);
    assert_eq!(start, 1);
    assert_eq!(end, 2);
}

#[test]
fn test_pagination_page_zero() {
    let (start, end) = playlist_range(0, 10);
    assert_eq!(start, 1);
    assert_eq!(end, 1);
}

#[test]
fn test_has_more_true_when_extra_video_returned() {
    assert!(has_more_pages(11, 10));
}

#[test]
fn test_has_more_false_when_exact_or_less() {
    assert!(!has_more_pages(10, 10));
    assert!(!has_more_pages(5, 10));
    assert!(!has_more_pages(0, 10));
}

#[test]
fn test_page_summary_of_empty_channel() {
    let s = page_summary(1, 10, 0);
    assert!(!s.has_more);
    assert_eq!(s.keep, 0);
    assert_eq!(s.total, 0);
}

#[test]
fn test_page_summary_with_more_pages() {
    let s = page_summary(1, 10, 11);
    assert!(s.has_more);
    assert_eq!(s.keep, 10);
    assert_eq!(s.total, 11);
}

#[test]
fn test_page_summary_of_last_page() {
    let s = page_summary(5, 10, 1);
    assert!(!s.has_more);
    assert_eq!(s.keep, 1);
    assert_eq!(s.total, 41);
}

fn sub_with(id: &str) -> Subscription {
    let mut s = Subscription::new("https://c".to_string(), "youtube".to_string(), "C".to_string(), String::new());
    s.id = id.to_string();
    s
}

#[test]
fn test_dead_channel_cannot_be_listed() {
    let mut s = sub_with("a");
    assert!(ensure_listable(&s).is_ok());
    s.health_status = Some(HealthStatus::Dead);
    assert_eq!(ensure_listable(&s).unwrap_err(), "此频道已失效，无法获取视频列表");
    s.health_status = Some(HealthStatus::Warning);
    assert!(ensure_listable(&s).is_ok());
}

#[test]
fn test_find_subscription_not_found() {
    let subs = vec![sub_with("a"), sub_with("b")];
    assert_eq!(find_subscription(&subs, "b").unwrap(), 1);
    match find_subscription(&subs, "zz") {
        Err(AppError::NotFound(m)) => assert_eq!(m, "Subscription not found: zz"),
        _ => panic!("expected not found"),
    }
}

#[test]
fn test_record_check_outcome() {
    let mut s = sub_with("a");
    record_check_outcome(&mut s, &Ok(0), "2026-01-01T00:00:00Z".to_string());
    assert_eq!(s.last_check_status, Some("success".to_string()));
    assert_eq!(s.last_check_error, None);
    assert_eq!(s.last_checked_at, Some("2026-01-01T00:00:00Z".to_string()));
    record_check_outcome(&mut s, &Err(AppError::YtDlp("boom".to_string())), "t2".to_string());
    assert_eq!(s.last_check_status, Some("failed".to_string()));
    assert_eq!(s.last_check_error, Some("yt-dlp error: boom".to_string()));
}

#[test]
fn test_since_date_from_last_check() {
    assert_eq!(since_date("2025-05-31T12:34:56.789Z"), Some(Some("20250531".to_string())));
    assert_eq!(since_date("2025-05-31T12:34:56Z"), Some(Some("20250531".to_string())));
    assert_eq!(since_date("2025-05-31T12:34:56.123456789+00:00"), Some(Some("20250531".to_string())));
    assert_eq!(since_date("garbage-text"), Some(None));
    assert_eq!(since_date("short"), None);
}

#[test]
fn test_records_of_subscription() {
    let records = vec![
        make_record("a", "1", "u1", "", "completed"),
        make_record("b", "2", "u2", "", "completed"),
        make_record("a", "3", "u3", "", "failed"),
    ];
    let only_a = records_of_subscription(records.clone(), Some("a".to_string()));
    let titles: Vec<&str> = only_a.iter().map(|r| r.video_title.as_str()).collect();
    assert_eq!(titles, vec!["1", "3"]);
    assert_eq!(records_of_subscription(records, None).len(), 3);
}
