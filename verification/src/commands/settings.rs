//! Decisions taken when settings change.

use vstd::prelude::*;

use crate::models::AppSettings;

verus! {

/// The scheduler must be woken when the check interval changed.
pub fn detect_interval_change(old_interval: u32, new_interval: u32) -> (changed: bool)
    ensures
        changed == (old_interval != new_interval),
{
    old_interval != new_interval
}

/// What a settings update sets in motion.
#[derive(Debug, Clone, Copy)]
pub struct SettingsChange {
    /// The check interval changed: wake the scheduler.
    pub interval_changed: bool,
    /// The concurrency limit changed: hand it to the download queue.
    pub concurrency_changed: bool,
}

/// Compares the settings before and after an update.
pub fn settings_change(old: &AppSettings, new: &AppSettings) -> (c: SettingsChange)
    ensures
        c.interval_changed == (old.check_interval_minutes != new.check_interval_minutes),
        c.concurrency_changed == (old.max_concurrent_downloads != new.max_concurrent_downloads),
{
    SettingsChange {
        interval_changed: detect_interval_change(old.check_interval_minutes, new.check_interval_minutes),
        concurrency_changed: old.max_concurrent_downloads != new.max_concurrent_downloads,
    }
}

} // verus!
