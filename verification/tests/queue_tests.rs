use ytdlp_sub::models::{AppState, DownloadRecord, Subscription};
use ytdlp_sub::services::download_queue::{
    complete_download_record, count_completed_download, count_subscription_download, fail_download_record,
    select_tasks_to_pause, update_record_status, apply_cancellation, apply_status_change, Cancelled, ProgressInfo,
    QueueBook, RecordMark, TaskStatus,
};

fn key(p: f32) -> u32 {
    p.to_bits()
}

#[test]
fn test_task_status_display() {
    assert_eq!(TaskStatus::Waiting.to_text(), "waiting");
    assert_eq!(TaskStatus::Running.to_text(), "running");
    assert_eq!(TaskStatus::Paused.to_text(), "paused");
    assert_eq!(TaskStatus::Completed.to_text(), "completed");
    assert_eq!(TaskStatus::Failed.to_text(), "failed");
    assert_eq!(TaskStatus::Cancelled.to_text(), "cancelled");
}

#[test]
fn test_cancel_removes_waiting_task() {
    let mut q = QueueBook::new(1);
    q.enqueue_batch(vec![("v1".to_string(), "One".to_string(), "https://v/1".to_string())], "s".to_string(), "1080p".to_string());
    assert_eq!(q.waiting[0].status.to_text(), "waiting");
    let id = q.waiting[0].id.clone();
    match q.cancel(&id) {
        Ok(Cancelled::Waiting(t)) => assert_eq!(t.video_url, "https://v/1"),
        _ => panic!("expected the waiting task"),
    }
    assert_eq!(q.get_state().waiting_count, 0);
    assert_eq!(TaskStatus::Cancelled.to_text(), "cancelled");
}

#[test]
fn test_pause_resume_status_transitions() {
    let mut q = QueueBook::new(2);
    q.enqueue_video("s".to_string(), "T".to_string(), "https://v/t".to_string(), "vt".to_string(), "720p".to_string());
    let task = q.take_next().unwrap();
    let id = task.id.clone();
    q.register_active(task, 4242);
    let paused = q.pause(&id).unwrap();
    assert_eq!(paused.pid, Some(4242));
    assert_eq!(q.active[0].task.status.to_text(), "paused");
    let resumed = q.resume(&id).unwrap();
    assert_eq!(resumed.pid, Some(4242));
    assert_eq!(q.active[0].task.status.to_text(), "running");
}

#[test]
fn test_pause_and_resume_waiting_task_restores_it() {
    let mut q = QueueBook::new(1);
    q.enqueue_video("s".to_string(), "T".to_string(), "https://v/t".to_string(), "vt".to_string(), "720p".to_string());
    let id = q.waiting[0].id.clone();
    let c = q.pause(&id).unwrap();
    assert_eq!(c.pid, None);
    assert_eq!(q.waiting[0].status, TaskStatus::Paused);
    q.resume(&id).unwrap();
    assert_eq!(q.waiting[0].status, TaskStatus::Waiting);
}

#[test]
fn test_unknown_task_errors() {
    let mut q = QueueBook::new(1);
    assert_eq!(q.pause("nope").unwrap_err().message(), "Not found: Task nope not found");
    assert_eq!(q.resume("nope").unwrap_err().message(), "Not found: Task nope not found or not paused");
    assert_eq!(q.pause_by_url("u").unwrap_err().message(), "Not found: No active task found for url u");
    assert!(q.cancel("nope").is_err());
    assert!(q.cancel_by_url("u").is_err());
}

#[test]
fn test_queue_is_first_in_first_out() {
    let mut q = QueueBook::new(1);
    let n = q.enqueue_batch(
        vec![
            ("a".to_string(), "A".to_string(), "https://v/a".to_string()),
            ("b".to_string(), "B".to_string(), "https://v/b".to_string()),
        ],
        "s".to_string(),
        "best".to_string(),
    );
    assert_eq!(n, 2);
    assert_eq!(q.take_next().unwrap().video_id, "a");
    assert_eq!(q.take_next().unwrap().video_id, "b");
    assert!(q.take_next().is_none());
}

#[test]
fn test_get_tasks_lists_waiting_then_active() {
    let mut q = QueueBook::new(2);
    q.enqueue_video("s".to_string(), "A".to_string(), "https://v/a".to_string(), "a".to_string(), "best".to_string());
    q.enqueue_video("s".to_string(), "B".to_string(), "https://v/b".to_string(), "b".to_string(), "best".to_string());
    let t = q.take_next().unwrap();
    q.register_active(t, 7);
    let tasks = q.get_tasks();
    assert_eq!(tasks.len(), 2);
    assert_eq!(tasks[0].video_id, "b");
    assert_eq!(tasks[1].video_id, "a");
    let st = q.get_state();
    assert_eq!((st.active_count, st.waiting_count, st.max_concurrent), (1, 1, 2));
}

#[test]
fn test_select_tasks_by_progress_ascending() {
    let entries = vec![("task-a".to_string(), key(45.0)), ("task-b".to_string(), key(10.0)), ("task-c".to_string(), key(90.0))];
    let order = select_tasks_to_pause(&entries, 3);
    assert_eq!(order, vec!["task-b".to_string(), "task-a".to_string(), "task-c".to_string()]);
}

#[test]
fn test_select_least_progress_tasks_to_pause() {
    let entries = vec![
        ("fast-task".to_string(), key(88.5)),
        ("mid-task".to_string(), key(42.0)),
        ("slow-task".to_string(), key(5.2)),
    ];
    let paused = select_tasks_to_pause(&entries, 1);
    assert_eq!(paused.len(), 1);
    assert_eq!(paused[0], "slow-task");
}

#[test]
fn test_select_multiple_to_pause() {
    let entries = vec![
        ("t1".to_string(), key(95.0)),
        ("t2".to_string(), key(60.0)),
        ("t3".to_string(), key(30.0)),
        ("t4".to_string(), key(10.0)),
        ("t5".to_string(), key(0.5)),
    ];
    let paused = select_tasks_to_pause(&entries, 3);
    assert_eq!(paused.len(), 3);
    assert_eq!(paused[0], "t5");
    assert_eq!(paused[1], "t4");
    assert_eq!(paused[2], "t3");
}

#[test]
fn test_no_pause_when_concurrency_increases() {
    let old = 2u32;
    let new = 4u32;
    assert!(new > old);
    let mut q = QueueBook::new(old);
    q.enqueue_video("s".to_string(), "A".to_string(), "https://v/a".to_string(), "a".to_string(), "best".to_string());
    let t = q.take_next().unwrap();
    q.register_active(t, 1);
    let change = q.update_max_concurrent(new);
    assert_eq!(change.added_permits, 2);
    assert_eq!(change.reclaim, 0);
    assert!(change.paused_pids.is_empty());
    assert_eq!(q.active[0].task.status, TaskStatus::Waiting);
    let entries = vec![("t1".to_string(), key(50.0))];
    assert_eq!(select_tasks_to_pause(&entries, 0).len(), 0);
}

#[test]
fn test_concurrency_logic_no_excess_when_equal() {
    let mut q = QueueBook::new(3);
    let change = q.update_max_concurrent(3);
    assert_eq!(change.added_permits, 0);
    assert_eq!(change.reclaim, 0);
    assert!(change.paused_pids.is_empty());
}

#[test]
fn test_concurrency_adjustment_completes_fast() {
    let entries: Vec<(String, u32)> = (0..100).map(|i| (format!("task-{}", i), key((i as f32) * 1.5 % 100.0))).collect();
    let start = std::time::Instant::now();
    let paused = select_tasks_to_pause(&entries, 10);
    let elapsed = start.elapsed();
    assert_eq!(paused.len(), 10);
    assert!(elapsed.as_millis() < 10, "Sort+select should complete fast (actual: {:?})", elapsed);
}

#[test]
fn test_lowering_limit_pauses_least_progressed() {
    let mut q = QueueBook::new(3);
    for (vid, pid, pct) in [("a", 11u32, 80.0f32), ("b", 12, 5.0), ("c", 13, 40.0)] {
        q.enqueue_video("s".to_string(), vid.to_string(), format!("https://v/{}", vid), vid.to_string(), "best".to_string());
        let t = q.take_next().unwrap();
        let id = t.id.clone();
        q.register_active(t, pid);
        q.record_progress(
            &id,
            ProgressInfo { percent_key: key(pct), speed: "1MiB/s".to_string(), downloaded_bytes: 1, total_bytes: 2, eta: "00:01".to_string() },
        );
    }
    let change = q.update_max_concurrent(1);
    assert_eq!(change.reclaim, 2);
    assert_eq!(change.paused_pids, vec![12, 13]);
    assert_eq!(q.active[0].task.status, TaskStatus::Waiting);
    assert_eq!(q.active[1].task.status, TaskStatus::Paused);
    assert_eq!(q.active[2].task.status, TaskStatus::Paused);
}

#[test]
fn test_cancel_by_url_prefers_active() {
    let mut q = QueueBook::new(2);
    q.enqueue_video("s".to_string(), "A".to_string(), "https://v/a".to_string(), "a".to_string(), "best".to_string());
    let t = q.take_next().unwrap();
    q.register_active(t, 9);
    q.enqueue_video("s".to_string(), "A2".to_string(), "https://v/a".to_string(), "a".to_string(), "best".to_string());
    match q.cancel_by_url("https://v/a") {
        Ok(Cancelled::Active(a)) => assert_eq!(a.pid, 9),
        _ => panic!("expected the active task"),
    }
    assert_eq!(q.get_state().waiting_count, 1);
    assert_eq!(q.get_state().active_count, 0);
}

fn rec(sub: &str, url: &str, status: &str) -> DownloadRecord {
    let mut r = DownloadRecord::new(sub.to_string(), "T".to_string(), url.to_string(), String::new());
    r.status = status.to_string();
    r
}

#[test]
fn test_update_record_status_touches_matching_records() {
    let mut records = vec![rec("s", "u", "downloading"), rec("t", "u", "downloading"), rec("s", "u", "waiting")];
    update_record_status(&mut records, "u", "s", "paused", None, "NOW".to_string());
    assert_eq!(records[0].status, "paused");
    assert_eq!(records[0].downloaded_at, "NOW");
    assert_eq!(records[1].status, "downloading");
    assert_eq!(records[2].status, "paused");
    update_record_status(&mut records, "u", "s", "cancelled", Some("Cancelled by user".to_string()), "T2".to_string());
    assert_eq!(records[0].error_message, Some("Cancelled by user".to_string()));
}

#[test]
fn test_complete_download_record_writes_last_match() {
    let mut a = rec("s", "u", "failed");
    a.id = "first".to_string();
    let mut b = rec("s", "u", "downloading");
    b.id = "second".to_string();
    let mut records = vec![a, b];
    assert!(complete_download_record(&mut records, "u", "s", "/d/v.mp4", 42));
    assert_eq!(records[0].status, "failed");
    assert_eq!(records[1].status, "completed");
    assert_eq!(records[1].file_path, "/d/v.mp4");
    assert_eq!(records[1].file_size, 42);
    assert!(!complete_download_record(&mut records, "u", "s", "", 1));
    assert!(!complete_download_record(&mut records, "other", "s", "/x", 1));
}

#[test]
fn test_fail_download_record_messages() {
    let mut records = vec![rec("s", "u", "downloading")];
    assert!(fail_download_record(&mut records, "u", "s", true));
    assert_eq!(records[0].status, "failed");
    assert_eq!(records[0].error_message, Some("代理连接失败".to_string()));
    let mut records = vec![rec("s", "u", "downloading")];
    assert!(fail_download_record(&mut records, "u", "s", false));
    assert_eq!(records[0].error_message, Some("yt-dlp process exited with error".to_string()));
    let mut records = vec![rec("s", "u", "cancelled")];
    assert!(!fail_download_record(&mut records, "u", "s", false));
    assert_eq!(records[0].status, "cancelled");
}

#[test]
fn test_download_counters() {
    let mut st = AppState::default();
    count_completed_download(&mut st);
    assert_eq!(st.total_downloads, 1);
    let mut s = Subscription::new("https://c".to_string(), "youtube".to_string(), "C".to_string(), String::new());
    s.id = "sid".to_string();
    let mut subs = vec![s];
    assert!(count_subscription_download(&mut subs, "sid"));
    assert_eq!(subs[0].download_count, 1);
    assert!(!count_subscription_download(&mut subs, "other"));
}

#[test]
fn test_pause_and_resume_mark_records() {
    let mut q = QueueBook::new(2);
    q.enqueue_video("s".to_string(), "T".to_string(), "u".to_string(), "vt".to_string(), "720p".to_string());
    let id = q.waiting[0].id.clone();
    let mut records = vec![rec("s", "u", "downloading"), rec("t", "u", "downloading")];
    let change = q.pause(&id).unwrap();
    assert_eq!(change.mark, RecordMark::Paused);
    apply_status_change(&mut records, &change, "T1".to_string());
    assert_eq!(records[0].status, "paused");
    assert_eq!(records[0].error_message, None);
    assert_eq!(records[0].downloaded_at, "T1");
    assert_eq!(records[1].status, "downloading");
    let change = q.resume(&id).unwrap();
    assert_eq!(change.mark, RecordMark::Downloading);
    apply_status_change(&mut records, &change, "T2".to_string());
    assert_eq!(records[0].status, "downloading");
}

#[test]
fn test_cancellation_marks_records() {
    let mut q = QueueBook::new(1);
    q.enqueue_video("s".to_string(), "T".to_string(), "u".to_string(), "vt".to_string(), "720p".to_string());
    let cancelled = q.cancel_by_url("u").unwrap();
    let mut records = vec![rec("s", "u", "downloading"), rec("s", "w", "downloading")];
    apply_cancellation(&mut records, &cancelled, "T3".to_string());
    assert_eq!(records[0].status, "cancelled");
    assert_eq!(records[0].error_message, Some("Cancelled by user".to_string()));
    assert_eq!(records[1].status, "downloading");
}
