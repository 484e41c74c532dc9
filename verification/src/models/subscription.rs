//! Channel subscriptions.

use vstd::prelude::*;
use vstd::string::*;

use crate::models::health::HealthStatus;
use crate::stamp::{new_uuid, now_rfc3339};

verus! {

/// A subscribed channel or playlist with its bookkeeping.
#[derive(Debug, Clone)]
pub struct Subscription {
    pub id: String,
    pub url: String,
    /// "youtube", "bilibili", ... as reported by yt-dlp.
    pub platform: String,
    pub channel_name: String,
    pub channel_avatar_url: String,
    /// Paused subscriptions are skipped during checks.
    pub paused: bool,
    pub quality_preset: String,
    pub group_name: String,
    pub created_at: String,
    pub last_checked_at: Option<String>,
    /// Number of videos downloaded from this subscription.
    pub download_count: u32,
    /// "success" or "failed".
    pub last_check_status: Option<String>,
    pub last_check_error: Option<String>,
    pub tags: Vec<String>,
    pub health_status: Option<HealthStatus>,
    pub last_health_check: Option<String>,
}

/// Quality preset given to new subscriptions.
pub open spec fn default_quality() -> Seq<char> {
    "1080p"@
}

/// Group given to new subscriptions ("ungrouped").
pub open spec fn default_group() -> Seq<char> {
    "未分组"@
}

impl Subscription {
    /// A new, unpaused subscription with a fresh id, the current time as creation time,
    /// quality "1080p", group "未分组" and no check or health history.
    pub fn new(url: String, platform: String, channel_name: String, channel_avatar_url: String) -> (s: Self)
        ensures
            s.id@.len() == 36,
            s.url == url,
            s.platform == platform,
            s.channel_name == channel_name,
            s.channel_avatar_url == channel_avatar_url,
            !s.paused,
            s.quality_preset@ == default_quality(),
            s.group_name@ == default_group(),
            s.last_checked_at is None,
            s.download_count == 0,
            s.last_check_status is None,
            s.last_check_error is None,
            s.tags@.len() == 0,
            s.health_status is None,
            s.last_health_check is None,
    {
        Subscription {
            id: new_uuid(),
            url,
            platform,
            channel_name,
            channel_avatar_url,
            paused: false,
            quality_preset: String::from_str("1080p"),
            group_name: String::from_str("未分组"),
            created_at: now_rfc3339(),
            last_checked_at: None,
            download_count: 0,
            last_check_status: None,
            last_check_error: None,
            tags: Vec::new(),
            health_status: None,
            last_health_check: None,
        }
    }
}

} // verus!
