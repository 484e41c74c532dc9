//! Application settings and persisted runtime state.

use vstd::prelude::*;
use vstd::string::*;

verus! {

/// Settings persisted in settings.json.
#[derive(Debug, Clone)]
pub struct AppSettings {
    pub download_dir: String,
    pub check_interval_minutes: u32,
    pub yt_dlp_path: String,
    pub quality_preset: String,
    pub notifications_enabled: bool,
    pub dark_mode: bool,
    /// Empty means no proxy.
    pub proxy_url: String,
    pub cookie_file: String,
    pub max_concurrent_downloads: u32,
    pub minimize_to_tray: bool,
    pub close_to_tray: bool,
    pub start_in_tray: bool,
    pub scheduler_paused: bool,
}

/// The concurrency limit a settings file without one gets.
pub fn default_max_concurrent_downloads() -> (n: u32)
    ensures
        n == 1,
{
    1
}

/// The value a missing tray setting that defaults to on gets.
pub fn default_true() -> (b: bool)
    ensures
        b,
{
    true
}

impl AppSettings {
    /// The default settings, downloading into `download_dir`: hourly checks,
    /// `yt-dlp` from the search path, 1080p, one download at a time, no proxy,
    /// no cookies, tray on minimize and close, scheduler running.
    pub fn with_download_dir(download_dir: String) -> (s: Self)
        ensures
            s.download_dir == download_dir,
            s.check_interval_minutes == 60,
            s.yt_dlp_path@ == "yt-dlp"@,
            s.quality_preset@ == "1080p"@,
            !s.notifications_enabled,
            !s.dark_mode,
            s.proxy_url@.len() == 0,
            s.cookie_file@.len() == 0,
            s.max_concurrent_downloads == 1,
            s.minimize_to_tray,
            s.close_to_tray,
            !s.start_in_tray,
            !s.scheduler_paused,
    {
        AppSettings {
            download_dir,
            check_interval_minutes: 60,
            yt_dlp_path: String::from_str("yt-dlp"),
            quality_preset: String::from_str("1080p"),
            notifications_enabled: false,
            dark_mode: false,
            proxy_url: String::new(),
            cookie_file: String::new(),
            max_concurrent_downloads: default_max_concurrent_downloads(),
            minimize_to_tray: default_true(),
            close_to_tray: default_true(),
            start_in_tray: false,
            scheduler_paused: false,
        }
    }
}

/// The default download directory below a home directory: `<home>/Videos/yt-dlp`
/// (with backslashes on Windows), or `./downloads` when no home is known.
pub open spec fn download_dir_under(home: Option<Seq<char>>, windows: bool) -> Seq<char> {
    match home {
        Some(h) => if windows { h + "\\Videos\\yt-dlp"@ } else { h + "/Videos/yt-dlp"@ },
        None => "./downloads"@,
    }
}

/// Computes the default download directory from the user's home directory
/// (`HOME`, or `USERPROFILE` on Windows).
pub fn default_download_dir_from(home: Option<String>, windows: bool) -> (d: String)
    ensures
        d@ == download_dir_under(match home { Some(h) => Some(h@), None => None }, windows),
{
    match home {
        Some(h) => {
            let mut d = h;
            if windows {
                d.append("\\Videos\\yt-dlp");
            } else {
                d.append("/Videos/yt-dlp");
            }
            d
        },
        None => String::from_str("./downloads"),
    }
}

/// Runtime state persisted in state.json.
#[derive(Debug, Clone)]
pub struct AppState {
    pub last_check_time: Option<String>,
    pub total_downloads: u32,
}

impl Default for AppState {
    fn default() -> (s: Self)
        ensures
            s.last_check_time is None,
            s.total_downloads == 0,
    {
        AppState { last_check_time: None, total_downloads: 0 }
    }
}

} // verus!
