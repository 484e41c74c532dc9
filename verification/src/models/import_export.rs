//! Batch import and OPML export records.

use vstd::prelude::*;

use crate::models::subscription::Subscription;

verus! {

/// Where a batch import takes its URLs from.
#[derive(Debug, Clone)]
pub enum ImportSource {
    OpmlFile { path: String },
    TxtFile { path: String },
    UrlList { urls: Vec<String> },
}

/// One candidate URL in an import preview.
#[derive(Debug, Clone)]
pub struct ImportPreviewItem {
    pub url: String,
    pub title: Option<String>,
    pub is_duplicate: bool,
    pub error: Option<String>,
}

/// Parsed import source before anything is resolved.
#[derive(Debug, Clone)]
pub struct ImportPreview {
    pub items: Vec<ImportPreviewItem>,
    pub total: usize,
    pub duplicates: usize,
}

/// Progress report of a running import.
#[derive(Debug, Clone)]
pub struct ImportProgressEvent {
    pub task_id: String,
    pub completed: usize,
    pub total: usize,
    pub current_url: String,
    pub current_title: String,
}

/// Final report of an import task.
#[derive(Debug, Clone)]
pub struct ImportCompleteEvent {
    pub task_id: String,
    pub total: usize,
    pub success: usize,
    pub failed: usize,
    pub skipped: usize,
    pub errors: Vec<ImportErrorItem>,
}

/// A URL that could not be imported and why.
#[derive(Debug, Clone)]
pub struct ImportErrorItem {
    pub url: String,
    pub reason: String,
}

/// Result of a synchronous batch import.
#[derive(Debug, Clone)]
pub struct ImportResult {
    pub imported: Vec<Subscription>,
    pub skipped_duplicates: Vec<String>,
    pub skipped_invalid: Vec<String>,
    pub total: usize,
    pub success_count: usize,
}

/// An `<outline>` element of an OPML document.
#[derive(Debug, Clone)]
pub struct OpmlOutline {
    pub title: String,
    pub xml_url: String,
    pub description: Option<String>,
}

} // verus!
