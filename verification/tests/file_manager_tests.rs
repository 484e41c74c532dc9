use ytdlp_sub::models::DownloadRecord;
use ytdlp_sub::services::file_manager::{completed_file_paths, delete_file_and_update_record};

fn record(vid: &str, path: &str) -> DownloadRecord {
    let mut r = DownloadRecord::new("sub-1".to_string(), "Test Video".to_string(), "https://example.com/v".to_string(), vid.to_string());
    r.status = "completed".to_string();
    r.file_path = path.to_string();
    r
}

#[test]
fn test_delete_file_and_update_record() {
    let r = record("vid-1", "/downloads/video.mp4");
    let id = r.id.clone();
    let mut records = vec![r];
    let result = delete_file_and_update_record(&mut records, &id).unwrap();
    assert_eq!(result.status, "deleted");
    assert_eq!(records[0].status, "deleted");
}

#[test]
fn test_delete_file_already_missing() {
    let r = record("vid-2", "/nonexistent/video.mp4");
    let id = r.id.clone();
    let mut records = vec![r];
    let result = delete_file_and_update_record(&mut records, &id).unwrap();
    assert_eq!(result.status, "deleted");
}

#[test]
fn test_delete_file_record_not_found() {
    let mut records: Vec<DownloadRecord> = vec![];
    let result = delete_file_and_update_record(&mut records, "nonexistent-id");
    assert!(result.is_err());
    assert_eq!(result.unwrap_err().message(), "Not found: 下载记录不存在: nonexistent-id");
}

#[test]
fn test_completed_file_paths() {
    let mut pending = record("a", "");
    pending.status = "downloading".to_string();
    let no_path = record("b", "");
    let done = record("c", "/d/c.mp4");
    let mut failed = record("d", "/d/d.mp4");
    failed.status = "failed".to_string();
    assert_eq!(completed_file_paths(&vec![pending, no_path, done, failed]), vec!["/d/c.mp4".to_string()]);
}
