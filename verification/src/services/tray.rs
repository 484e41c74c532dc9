//! State of the system tray icon: its status machine and the texts it shows.
//! Creating the icon and its menu is done by the caller.

use vstd::prelude::*;
use vstd::string::*;

use crate::text::{decimal, push_decimal, str_eq};

verus! {

/// What the tray icon currently shows.
#[derive(Debug, Clone, Copy, PartialEq, Eq, Structural)]
pub enum TrayStatus {
    Idle,
    Downloading { active_count: u32 },
    Checking,
}

/// Runtime state of the tray icon.
#[derive(Debug, Clone, Copy)]
pub struct TrayState {
    pub status: TrayStatus,
    pub window_visible: bool,
    pub tray_supported: bool,
    pub active_downloads: u32,
}

impl Default for TrayState {
    fn default() -> (s: Self)
        ensures
            s.status == TrayStatus::Idle,
            s.window_visible,
            s.tray_supported,
            s.active_downloads == 0,
    {
        TrayState { status: TrayStatus::Idle, window_visible: true, tray_supported: true, active_downloads: 0 }
    }
}

/// The tray may move from `from` to `to`: every move is allowed except between
/// downloading and checking, in either direction. Returning to idle is always allowed.
pub open spec fn transition_allowed(from: TrayStatus, to: TrayStatus) -> bool {
    !(from is Downloading && to is Checking) && !(from is Checking && to is Downloading)
}

/// Number of active downloads a status announces.
pub open spec fn downloads_of(s: TrayStatus) -> u32 {
    match s {
        TrayStatus::Downloading { active_count } => active_count,
        _ => 0,
    }
}

/// The tooltip shown for a status.
pub open spec fn tooltip(s: TrayStatus) -> Seq<char> {
    match s {
        TrayStatus::Idle => "yt-dlp 订阅管理器 - 空闲"@,
        TrayStatus::Downloading { active_count } => "正在下载 "@ + decimal(active_count as nat)
            + " 个视频"@,
        TrayStatus::Checking => "正在检查订阅更新..."@,
    }
}

/// The error text of a refused move.
pub open spec fn refusal_text(from: TrayStatus) -> Seq<char> {
    if from is Downloading {
        "Cannot transition from Downloading to Checking"@
    } else {
        "Cannot transition from Checking to Downloading"@
    }
}

impl TrayState {
    /// The active-download counter agrees with the status.
    pub open spec fn consistent(self) -> bool {
        self.active_downloads == downloads_of(self.status)
    }

    /// Moves to `new_status` when the move is allowed, setting the active-download
    /// counter from the new status; otherwise leaves the state unchanged and reports why.
    pub fn set_status(&mut self, new_status: TrayStatus) -> (r: Result<(), String>)
        ensures
            transition_allowed(old(self).status, new_status) ==> {
                &&& r is Ok
                &&& final(self).status == new_status
                &&& final(self).active_downloads == downloads_of(new_status)
                &&& final(self).window_visible == old(self).window_visible
                &&& final(self).tray_supported == old(self).tray_supported
            },
            !transition_allowed(old(self).status, new_status) ==> {
                &&& *final(self) == *old(self)
                &&& r matches Err(e) && e@ == refusal_text(old(self).status)
            },
            final(self).consistent() || *final(self) == *old(self),
    {
        match (self.status, new_status) {
            (TrayStatus::Downloading { .. }, TrayStatus::Checking) => {
                return Err(String::from_str("Cannot transition from Downloading to Checking"));
            },
            (TrayStatus::Checking, TrayStatus::Downloading { .. }) => {
                return Err(String::from_str("Cannot transition from Checking to Downloading"));
            },
            _ => {},
        }
        match new_status {
            TrayStatus::Downloading { active_count } => {
                self.active_downloads = active_count;
            },
            _ => {
                self.active_downloads = 0;
            },
        }
        self.status = new_status;
        Ok(())
    }

    /// The tooltip for the current status.
    pub fn tooltip_text(&self) -> (t: String)
        ensures
            t@ == tooltip(self.status),
    {
        match self.status {
            TrayStatus::Idle => String::from_str("yt-dlp 订阅管理器 - 空闲"),
            TrayStatus::Downloading { active_count } => {
                let mut t = String::from_str("正在下载 ");
                push_decimal(&mut t, active_count as u64);
                t.append(" 个视频");
                t
            },
            TrayStatus::Checking => String::from_str("正在检查订阅更新..."),
        }
    }

    /// The label of the show/hide menu entry: "hide" while the window is visible.
    pub fn window_menu_text(&self) -> (t: &'static str)
        ensures
            t@ == if self.window_visible {
                "隐藏主窗口"@
            } else {
                "显示主窗口"@
            },
    {
        if self.window_visible {
            "隐藏主窗口"
        } else {
            "显示主窗口"
        }
    }

    /// The label of the scheduler menu entry: "resume" while paused, "pause" otherwise.
    pub fn scheduler_menu_text(scheduler_paused: bool) -> (t: &'static str)
        ensures
            t@ == if scheduler_paused {
                "恢复定时检查"@
            } else {
                "暂停定时检查"@
            },
    {
        if scheduler_paused {
            "恢复定时检查"
        } else {
            "暂停定时检查"
        }
    }
}

/// What a tray menu entry asks for.
#[derive(Debug, Clone, Copy, PartialEq, Eq, Structural)]
pub enum TrayMenuAction {
    /// Show or hide the main window.
    ToggleWindow,
    /// Check all subscriptions now.
    CheckAll,
    /// Pause or resume the scheduler.
    ToggleScheduler,
    /// Quit the application.
    Quit,
    /// An entry the tray does not know.
    Unknown,
}

/// The action of the menu entry with id `id`.
pub open spec fn action_of(id: Seq<char>) -> TrayMenuAction {
    if id == "tray_show"@ {
        TrayMenuAction::ToggleWindow
    } else if id == "tray_check_all"@ {
        TrayMenuAction::CheckAll
    } else if id == "tray_toggle_scheduler"@ {
        TrayMenuAction::ToggleScheduler
    } else if id == "tray_quit"@ {
        TrayMenuAction::Quit
    } else {
        TrayMenuAction::Unknown
    }
}

/// The action of a tray menu entry.
pub fn menu_action(id: &str) -> (a: TrayMenuAction)
    ensures
        a == action_of(id@),
{
    if str_eq(id, "tray_show") {
        TrayMenuAction::ToggleWindow
    } else if str_eq(id, "tray_check_all") {
        TrayMenuAction::CheckAll
    } else if str_eq(id, "tray_toggle_scheduler") {
        TrayMenuAction::ToggleScheduler
    } else if str_eq(id, "tray_quit") {
        TrayMenuAction::Quit
    } else {
        TrayMenuAction::Unknown
    }
}

impl TrayState {
    /// Records that the window was shown or hidden, and returns the new label of the
    /// show/hide entry.
    pub fn set_window_visible(&mut self, visible: bool) -> (t: &'static str)
        ensures
            final(self).window_visible == visible,
            final(self).status == old(self).status,
            final(self).active_downloads == old(self).active_downloads,
            final(self).tray_supported == old(self).tray_supported,
            t@ == if visible {
                "隐藏主窗口"@
            } else {
                "显示主窗口"@
            },
    {
        self.window_visible = visible;
        self.window_menu_text()
    }
}

/// The moves the tray refuses are exactly those between downloading and checking: a
/// download count can always be updated while downloading (and the count announced is
/// the new one), idle can be left and reached from everywhere, and checking can be
/// repeated.
pub proof fn law_only_downloading_checking_moves_refused(a: u32, b: u32, s: TrayStatus)
    ensures
        transition_allowed(TrayStatus::Downloading { active_count: a }, TrayStatus::Downloading { active_count: b }),
        downloads_of(TrayStatus::Downloading { active_count: b }) == b,
        transition_allowed(TrayStatus::Idle, s),
        transition_allowed(s, TrayStatus::Idle),
        transition_allowed(TrayStatus::Checking, TrayStatus::Checking),
        !transition_allowed(TrayStatus::Downloading { active_count: a }, TrayStatus::Checking),
        !transition_allowed(TrayStatus::Checking, TrayStatus::Downloading { active_count: b }),
{
}

/// Returning to idle is allowed from every status, and afterwards no download is
/// announced.
pub proof fn law_idle_always_reachable(from: TrayStatus)
    ensures
        transition_allowed(from, TrayStatus::Idle),
        downloads_of(TrayStatus::Idle) == 0,
{
}

} // verus!
