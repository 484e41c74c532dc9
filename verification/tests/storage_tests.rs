use ytdlp_sub::commands::subscription::remove_records_of;
use ytdlp_sub::models::{AppSettings, AppState, DownloadRecord, Subscription};
use ytdlp_sub::services::storage::ReadOutcome;
use ytdlp_sub::services::StorageService;

fn make_sub(url: &str, name: &str) -> Subscription {
    Subscription::new(url.to_string(), "youtube".to_string(), name.to_string(), "https://example.com/avatar.jpg".to_string())
}

fn make_record(sub_id: &str, title: &str) -> DownloadRecord {
    DownloadRecord::new(sub_id.to_string(), title.to_string(), "https://example.com/video".to_string(), "".to_string())
}

#[test]
fn test_subscriptions_empty_dir_returns_empty_vec() {
    let result = StorageService::load_subscriptions(ReadOutcome::Missing);
    assert!(result.is_ok(), "should not error on missing file");
    let subs = result.unwrap();
    assert!(subs.is_empty(), "should return empty vec for empty dir");
}

#[test]
fn test_subscriptions_empty_json_array_loads_empty_vec() {
    let loaded = StorageService::load_subscriptions(ReadOutcome::Parsed(vec![])).expect("load should succeed");
    assert!(loaded.is_empty());
}

#[test]
fn test_subscriptions_multiple_save_and_load() {
    let sub1 = make_sub("https://youtube.com/@a", "A");
    let sub2 = make_sub("https://youtube.com/@b", "B");
    let sub3 = make_sub("https://bilibili.com/space/1", "C");
    let ids = (sub1.id.clone(), sub2.id.clone(), sub3.id.clone());
    let loaded = StorageService::load_subscriptions(ReadOutcome::Parsed(vec![sub1, sub2, sub3])).expect("load should succeed");
    assert_eq!(loaded.len(), 3);
    assert_eq!(loaded[0].id, ids.0);
    assert_eq!(loaded[1].id, ids.1);
    assert_eq!(loaded[2].id, ids.2);
}

#[test]
fn test_unreadable_and_malformed_files() {
    match StorageService::load_subscriptions(ReadOutcome::Unreadable("denied".to_string())) {
        Err(e) => assert_eq!(e.message(), "IO error: denied"),
        Ok(_) => panic!("expected an error"),
    }
    match StorageService::load_download_records(ReadOutcome::Malformed("bad".to_string())) {
        Err(e) => assert_eq!(e.message(), "Serialization error: bad"),
        Ok(_) => panic!("expected an error"),
    }
}

#[test]
fn test_download_records_empty_dir_returns_empty_vec() {
    let result = StorageService::load_download_records(ReadOutcome::Missing);
    assert!(result.is_ok());
    assert!(result.unwrap().is_empty());
}

#[test]
fn test_download_records_cascade_delete_simulation() {
    let sub_id_a = "sub-a";
    let sub_id_b = "sub-b";
    let r1 = make_record(sub_id_a, "Video A1");
    let r2 = make_record(sub_id_a, "Video A2");
    let r3 = make_record(sub_id_b, "Video B1");
    let mut records = vec![r1, r2, r3];
    remove_records_of(&mut records, sub_id_a);
    assert_eq!(records.len(), 1);
    assert_eq!(records[0].subscription_id, sub_id_b);
    assert_eq!(records[0].video_title, "Video B1");
}

#[test]
fn test_deduplicate_vec_keeps_completed_over_failed() {
    let mut r1 = make_record("sub-1", "Video");
    r1.video_id = "vid-1".to_string();
    r1.status = "failed".to_string();
    r1.downloaded_at = "2026-06-01T12:00:00Z".to_string();
    let mut r2 = make_record("sub-1", "Video");
    r2.video_id = "vid-1".to_string();
    r2.status = "completed".to_string();
    r2.downloaded_at = "2026-06-01T11:00:00Z".to_string();
    let result = StorageService::deduplicate_vec(vec![r1, r2]);
    assert_eq!(result.len(), 1);
    assert_eq!(result[0].status, "completed");
}

#[test]
fn test_deduplicate_vec_same_status_keeps_latest() {
    let mut r1 = make_record("sub-1", "Video");
    r1.video_id = "vid-1".to_string();
    r1.status = "failed".to_string();
    r1.downloaded_at = "2026-06-01T12:00:00Z".to_string();
    let mut r2 = make_record("sub-1", "Video");
    r2.video_id = "vid-1".to_string();
    r2.status = "failed".to_string();
    r2.downloaded_at = "2026-06-01T13:00:00Z".to_string();
    let result = StorageService::deduplicate_vec(vec![r1, r2]);
    assert_eq!(result.len(), 1);
    assert_eq!(result[0].downloaded_at, "2026-06-01T13:00:00Z");
}

#[test]
fn test_deduplicate_vec_single_record_unchanged() {
    let mut r = make_record("sub-1", "Video");
    r.video_id = "vid-1".to_string();
    let result = StorageService::deduplicate_vec(vec![r]);
    assert_eq!(result.len(), 1);
    assert_eq!(result[0].video_id, "vid-1");
}

#[test]
fn test_deduplicate_vec_empty_id_kept() {
    let r1 = make_record("sub-1", "Video A");
    let r2 = make_record("sub-1", "Video B");
    let result = StorageService::deduplicate_vec(vec![r1, r2]);
    assert_eq!(result.len(), 2);
}

#[test]
fn test_deduplicate_records_reports_removed() {
    let mut a = make_record("s", "A");
    a.video_id = "v".to_string();
    a.status = "paused".to_string();
    let mut b = make_record("s", "B");
    b.video_id = "v".to_string();
    b.status = "downloading".to_string();
    let c = make_record("s", "C");
    let (kept, removed) = StorageService::deduplicate_records(vec![a, b, c]);
    assert_eq!(removed, 1);
    assert_eq!(kept.len(), 2);
    assert_eq!(kept[0].video_title, "B");
    assert_eq!(kept[1].video_title, "C");
}

#[test]
fn test_deduplicate_twice_removes_nothing_more() {
    let mut a = make_record("s", "A");
    a.video_id = "v".to_string();
    a.status = "failed".to_string();
    let mut b = make_record("s", "B");
    b.video_id = "v".to_string();
    b.status = "completed".to_string();
    let mut c = make_record("s", "C");
    c.video_id = "w".to_string();
    let d = make_record("s", "D");
    let (kept, removed) = StorageService::deduplicate_records(vec![a, b, c, d]);
    assert_eq!(removed, 1);
    let titles: Vec<String> = kept.iter().map(|r| r.video_title.clone()).collect();
    let (again, removed_again) = StorageService::deduplicate_records(kept);
    assert_eq!(removed_again, 0);
    let titles_again: Vec<String> = again.iter().map(|r| r.video_title.clone()).collect();
    assert_eq!(titles_again, titles);
}

#[test]
fn test_settings_empty_dir_returns_defaults() {
    let settings = StorageService::load_settings(ReadOutcome::Missing, "/home/u/Videos/yt-dlp".to_string());
    assert_eq!(settings.check_interval_minutes, 60);
    assert_eq!(settings.yt_dlp_path, "yt-dlp");
}

#[test]
fn test_corrupt_settings_returns_defaults() {
    let settings = StorageService::load_settings(ReadOutcome::Malformed("expected value".to_string()), "/d".to_string());
    assert_eq!(settings.check_interval_minutes, 60, "corrupt settings should fall back to defaults");
    assert_eq!(settings.download_dir, "/d");
}

#[test]
fn test_settings_parsed_kept() {
    let mut s = AppSettings::with_download_dir("/custom/downloads".to_string());
    s.quality_preset = "720p".to_string();
    s.proxy_url = "http://127.0.0.1:7890".to_string();
    let loaded = StorageService::load_settings(ReadOutcome::Parsed(s), "/other".to_string());
    assert_eq!(loaded.download_dir, "/custom/downloads");
    assert_eq!(loaded.quality_preset, "720p");
    assert_eq!(loaded.proxy_url, "http://127.0.0.1:7890");
}

#[test]
fn test_app_state_empty_dir_returns_defaults() {
    let state = StorageService::load_state(ReadOutcome::Missing).expect("should not error on missing file");
    assert_eq!(state.last_check_time, None);
    assert_eq!(state.total_downloads, 0);
}

#[test]
fn test_recompute_total_downloads() {
    let mut a = make_record("s", "A");
    a.status = "completed".to_string();
    let b = make_record("s", "B");
    let mut c = make_record("t", "C");
    c.status = "completed".to_string();
    let state = AppState { last_check_time: Some("x".to_string()), total_downloads: 7 };
    let (count, updated) = StorageService::recompute_total_downloads(&vec![a, b, c], &state);
    assert_eq!(count, 2);
    let updated = updated.expect("a stale total is replaced");
    assert_eq!(updated.total_downloads, 2);
    assert_eq!(updated.last_check_time, Some("x".to_string()));
}

#[test]
fn test_recompute_subscription_download_counts() {
    let mut s1 = make_sub("https://a", "A");
    s1.id = "s1".to_string();
    s1.download_count = 9;
    let mut s2 = make_sub("https://b", "B");
    s2.id = "s2".to_string();
    let mut r1 = make_record("s1", "x");
    r1.status = "completed".to_string();
    let mut r2 = make_record("s2", "y");
    r2.status = "completed".to_string();
    let mut r3 = make_record("s2", "z");
    r3.status = "completed".to_string();
    let mut subs = vec![s1, s2];
    let changed = StorageService::recompute_subscription_download_counts(&mut subs, &vec![r1, r2, r3]);
    assert!(changed);
    assert_eq!(subs[0].download_count, 1);
    assert_eq!(subs[1].download_count, 2);
}

#[test]
fn test_deduplicate_list_without_duplicates_removes_nothing() {
    let mut a = make_record("s", "A");
    a.video_id = "v".to_string();
    let mut b = make_record("s", "B");
    b.video_id = "w".to_string();
    let c = make_record("s", "C");
    let (_, removed) = StorageService::deduplicate_records(vec![a.clone(), b.clone(), c.clone()]);
    assert_eq!(removed, 0);
    let (_, removed_again) = StorageService::deduplicate_records(vec![a, b, c]);
    assert_eq!(removed_again, 0);
}
