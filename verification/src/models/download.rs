//! Download records.

use vstd::prelude::*;
use vstd::string::*;

use crate::stamp::{new_uuid, now_rfc3339};

verus! {

/// The persisted record of one video download.
#[derive(Debug, Clone)]
pub struct DownloadRecord {
    pub id: String,
    pub subscription_id: String,
    pub video_title: String,
    pub video_url: String,
    /// Where the file was saved; empty until the download completes.
    pub file_path: String,
    pub file_size: u64,
    /// "downloading", "completed", "failed", "paused", "cancelled", "waiting" or "deleted".
    pub status: String,
    pub downloaded_at: String,
    /// Platform video id used for deduplication; may be empty.
    pub video_id: String,
    pub error_message: Option<String>,
}

impl DownloadRecord {
    /// A record in state "downloading" with a fresh id, the current time,
    /// no file yet and no error.
    pub fn new(subscription_id: String, video_title: String, video_url: String, video_id: String) -> (r: Self)
        ensures
            r.id@.len() == 36,
            r.subscription_id == subscription_id,
            r.video_title == video_title,
            r.video_url == video_url,
            r.file_path@.len() == 0,
            r.file_size == 0,
            r.status@ == "downloading"@,
            r.video_id == video_id,
            r.error_message is None,
    {
        DownloadRecord {
            id: new_uuid(),
            subscription_id,
            video_title,
            video_url,
            file_path: String::new(),
            file_size: 0,
            status: String::from_str("downloading"),
            downloaded_at: now_rfc3339(),
            video_id,
            error_message: None,
        }
    }

    /// A field-by-field copy of the record.
    pub fn duplicate(&self) -> (r: Self)
        ensures
            r == *self,
    {
        DownloadRecord {
            id: self.id.clone(),
            subscription_id: self.subscription_id.clone(),
            video_title: self.video_title.clone(),
            video_url: self.video_url.clone(),
            file_path: self.file_path.clone(),
            file_size: self.file_size,
            status: self.status.clone(),
            downloaded_at: self.downloaded_at.clone(),
            video_id: self.video_id.clone(),
            error_message: match &self.error_message {
                Some(e) => Some(e.clone()),
                None => None,
            },
        }
    }
}

} // verus!
