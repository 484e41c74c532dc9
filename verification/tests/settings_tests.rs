use ytdlp_sub::commands::settings::{detect_interval_change, settings_change};
use ytdlp_sub::models::settings::{default_download_dir_from, default_max_concurrent_downloads, default_true};
use ytdlp_sub::models::{AppSettings, AppState};
use ytdlp_sub::services::scheduler::{SchedulerService, SchedulerWait};

fn default_settings() -> AppSettings {
    AppSettings::with_download_dir(default_download_dir_from(Some("/home/tester".to_string()), false))
}

#[test]
fn test_app_settings_default_values() {
    let settings = default_settings();
    assert_eq!(settings.check_interval_minutes, 60);
    assert_eq!(settings.yt_dlp_path, "yt-dlp");
    assert_eq!(settings.quality_preset, "1080p");
    assert!(!settings.notifications_enabled);
    assert!(!settings.dark_mode);
    assert_eq!(settings.proxy_url, "");
    assert_eq!(settings.cookie_file, "");
    assert!(settings.minimize_to_tray);
    assert!(settings.close_to_tray);
    assert!(!settings.start_in_tray);
    assert!(!settings.scheduler_paused);
}

#[test]
fn test_app_settings_default_download_dir_not_empty() {
    let settings = default_settings();
    assert!(!settings.download_dir.is_empty(), "download_dir should not be empty");
    let without_home = AppSettings::with_download_dir(default_download_dir_from(None, false));
    assert!(!without_home.download_dir.is_empty());
}

#[test]
fn test_default_download_dir_per_platform() {
    assert_eq!(default_download_dir_from(Some("/home/u".to_string()), false), "/home/u/Videos/yt-dlp");
    assert_eq!(default_download_dir_from(Some("C:\\Users\\u".to_string()), true), "C:\\Users\\u\\Videos\\yt-dlp");
    assert_eq!(default_download_dir_from(None, true), "./downloads");
    assert_eq!(default_download_dir_from(None, false), "./downloads");
}

#[test]
fn test_max_concurrent_downloads_default() {
    let settings = default_settings();
    assert_eq!(settings.max_concurrent_downloads, 1);
    assert_eq!(default_max_concurrent_downloads(), 1);
    assert!(default_true());
}

#[test]
fn test_app_settings_clone_equality() {
    let s1 = default_settings();
    let s2 = s1.clone();
    assert_eq!(s1.download_dir, s2.download_dir);
    assert_eq!(s1.check_interval_minutes, s2.check_interval_minutes);
    assert_eq!(s1.quality_preset, s2.quality_preset);
}

#[test]
fn test_tray_settings_defaults() {
    let settings = default_settings();
    assert!(settings.minimize_to_tray, "minimize_to_tray should default to true");
    assert!(settings.close_to_tray, "close_to_tray should default to true");
    assert!(!settings.start_in_tray, "start_in_tray should default to false");
    assert!(!settings.scheduler_paused, "scheduler_paused should default to false");
}

#[test]
fn test_app_state_default_values() {
    let state = AppState::default();
    assert_eq!(state.last_check_time, None);
    assert_eq!(state.total_downloads, 0);
}

#[test]
fn test_detect_interval_change_same() {
    assert!(!detect_interval_change(60, 60));
    assert!(!detect_interval_change(0, 0));
    assert!(!detect_interval_change(1440, 1440));
}

#[test]
fn test_detect_interval_change_different() {
    assert!(detect_interval_change(60, 30));
    assert!(detect_interval_change(30, 60));
    assert!(detect_interval_change(1440, 0));
    assert!(detect_interval_change(0, 60));
}

#[test]
fn test_detect_called_for_all_frequency_options() {
    let options: Vec<(&str, u32)> = vec![("手动", 0), ("30分钟", 30), ("每小时", 60), ("每天", 1440)];
    for (i, (_, v1)) in options.iter().enumerate() {
        for (j, (_, v2)) in options.iter().enumerate() {
            let expected = i != j;
            assert_eq!(
                detect_interval_change(*v1, *v2),
                expected,
                "detect_interval_change({}, {}) should be {}",
                v1,
                v2,
                expected
            );
        }
    }
}

#[test]
fn test_scheduler_notify_sent_on_change() {
    let old_settings = default_settings();
    let mut new_settings = default_settings();
    new_settings.check_interval_minutes = 30;
    let change = settings_change(&old_settings, &new_settings);
    assert!(change.interval_changed);
    assert!(!change.concurrency_changed);
}

#[test]
fn test_scheduler_notify_not_sent_when_unchanged() {
    let old_settings = default_settings();
    let mut new_settings = default_settings();
    new_settings.max_concurrent_downloads = 3;
    let change = settings_change(&old_settings, &new_settings);
    assert!(!change.interval_changed);
    assert!(change.concurrency_changed);
}

#[test]
fn test_scheduler_waits() {
    assert_eq!(SchedulerService::interval_secs(60), 3600);
    assert_eq!(SchedulerService::initial_delay(0), None);
    assert_eq!(SchedulerService::initial_delay(30), Some(1800));
    assert_eq!(SchedulerService::wait_after_round(0), SchedulerWait::ForSettingsChange);
    assert_eq!(SchedulerService::wait_after_round(1440), SchedulerWait::ForTimeoutOrChange(86400));
}
