//! The error type shared by all layers.

use vstd::prelude::*;
use vstd::string::*;

verus! {

/// Errors of the application, each carrying its detail text.
#[derive(Debug, Clone)]
pub enum AppError {
    /// A file could not be read or written.
    Io(String),
    /// Stored JSON could not be read or written.
    Serde(String),
    /// yt-dlp could not be run or reported a failure.
    YtDlp(String),
    /// A requested item does not exist.
    NotFound(String),
    /// The item exists already.
    Duplicate(String),
    /// A download path is unusable.
    InvalidPath(String),
    /// A proxy address is malformed.
    InvalidProxy(String),
}

/// The user-facing text of an error: a category prefix followed by the detail.
pub open spec fn error_text(e: AppError) -> Seq<char> {
    match e {
        AppError::Io(d) => "IO error: "@ + d@,
        AppError::Serde(d) => "Serialization error: "@ + d@,
        AppError::YtDlp(d) => "yt-dlp error: "@ + d@,
        AppError::NotFound(d) => "Not found: "@ + d@,
        AppError::Duplicate(d) => "Duplicate: "@ + d@,
        AppError::InvalidPath(d) => "Invalid path: "@ + d@,
        AppError::InvalidProxy(d) => "Invalid proxy: "@ + d@,
    }
}

impl AppError {
    /// The user-facing text of the error.
    pub fn message(&self) -> (m: String)
        ensures
            m@ == error_text(*self),
    {
        let (prefix, detail) = match self {
            AppError::Io(d) => ("IO error: ", d),
            AppError::Serde(d) => ("Serialization error: ", d),
            AppError::YtDlp(d) => ("yt-dlp error: ", d),
            AppError::NotFound(d) => ("Not found: ", d),
            AppError::Duplicate(d) => ("Duplicate: ", d),
            AppError::InvalidPath(d) => ("Invalid path: ", d),
            AppError::InvalidProxy(d) => ("Invalid proxy: ", d),
        };
        let mut m = String::from_str(prefix);
        m.append(detail.as_str());
        m
    }
}

} // verus!
