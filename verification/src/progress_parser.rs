//! Reading the progress lines that yt-dlp prints while downloading.

use vstd::prelude::*;
use vstd::string::*;

use crate::text::{parse_u64, parse_u64_str, split_char, split_on, trim, trimmed};

verus! {

/// The fields of a progress line `percent|speed|downloaded_bytes|total_bytes|eta`.
/// The percentage is kept as its text; reading it as a floating-point number is left
/// to the caller, and a line whose percentage does not read is no progress line.
#[derive(Debug, Clone)]
pub struct ProgressFields {
    pub percent_text: String,
    pub speed: String,
    pub downloaded_bytes: u64,
    pub total_bytes: u64,
    pub eta: String,
}

/// A byte count field: its value when it reads as an unsigned integer, else 0.
pub open spec fn count_or_zero(s: Seq<char>) -> u64 {
    match parse_u64(s) {
        Some(n) => n,
        None => 0,
    }
}

/// The pieces of a trimmed, non-empty line split at `|`, when there are exactly five.
pub open spec fn progress_parts(line: Seq<char>) -> Option<Seq<Seq<char>>> {
    let t = trimmed(line);
    if t.len() > 0 && split_on(t, '|').len() == 5 {
        Some(split_on(t, '|'))
    } else {
        None
    }
}

/// `f` holds the five fields of the parts `p`.
pub open spec fn fields_of(f: ProgressFields, p: Seq<Seq<char>>) -> bool {
    &&& f.percent_text@ == p[0]
    &&& f.speed@ == p[1]
    &&& f.downloaded_bytes == count_or_zero(p[2])
    &&& f.total_bytes == count_or_zero(p[3])
    &&& f.eta@ == p[4]
}

/// Splits a progress line into its fields; `None` for a blank line or one that does
/// not have exactly five `|`-separated parts.
pub fn parse_progress_fields(line: &str) -> (r: Option<ProgressFields>)
    ensures
        match progress_parts(line@) {
            Some(p) => r matches Some(f) && fields_of(f, p),
            None => r is None,
        },
{
    let t = trim(line);
    if t.unicode_len() == 0 {
        return None;
    }
    let parts = split_char(t.as_str(), '|');
    if parts.len() != 5 {
        return None;
    }
    let downloaded_bytes = match parse_u64_str(parts[2].as_str()) {
        Some(n) => n,
        None => 0,
    };
    let total_bytes = match parse_u64_str(parts[3].as_str()) {
        Some(n) => n,
        None => 0,
    };
    Some(
        ProgressFields {
            percent_text: parts[0].clone(),
            speed: parts[1].clone(),
            downloaded_bytes,
            total_bytes,
            eta: parts[4].clone(),
        },
    )
}

} // verus!
