//! Channel details shown in the detail panel.

use vstd::prelude::*;

verus! {

/// Extended channel information.
#[derive(Debug, Clone)]
pub struct ChannelInfo {
    pub channel_name: String,
    pub description: Option<String>,
    /// Formatted follower count such as "12.3K".
    pub subscriber_count: Option<String>,
    pub video_count: Option<u64>,
    pub thumbnail_url: Option<String>,
    /// ISO 8601 time of the last refresh.
    pub last_refreshed: String,
}

} // verus!
