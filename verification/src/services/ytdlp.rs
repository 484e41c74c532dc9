//! What the library asks of yt-dlp and how it reads the answers: the command lines
//! for reading a channel, listing its videos and downloading one, and the reading of
//! exit status, standard output and standard error. Running the process is done by
//! the caller.

use vstd::prelude::*;
use vstd::string::*;

use crate::error::AppError;
use crate::models::video;
use crate::text::{lines, lines_of, push_decimal, decimal, str_eq, trim, trimmed};

verus! {

/// Channel metadata as yt-dlp's JSON for a channel's first item gives it.
#[derive(Debug, Clone)]
pub struct ChannelInfo {
    pub channel_name: String,
    pub channel_url: String,
    pub channel_avatar_url: String,
    /// The extractor key, such as "Youtube".
    pub platform: String,
}

/// One video of a channel listing.
#[derive(Debug, Clone)]
pub struct VideoInfo {
    pub title: String,
    pub url: String,
    /// The platform's video id, used to recognise a video again.
    pub id: Option<String>,
    /// Upload date as YYYYMMDD.
    pub upload_date: Option<String>,
}

/// A finished download.
#[derive(Debug, Clone)]
pub struct DownloadResult {
    pub file_path: String,
    pub file_size: u64,
}

/// The views of a sequence of strings.
pub open spec fn texts(v: Seq<String>) -> Seq<Seq<char>> {
    v.map_values(|s: String| s@)
}

fn push_arg(args: &mut Vec<String>, a: &str)
    ensures
        texts(final(args)@) == texts(old(args)@).push(a@),
{
    args.push(String::from_str(a));
}

/// The yt-dlp format selection for a quality preset; presets other than the known ones
/// get 1080p.
pub open spec fn format_for(quality: Seq<char>) -> Seq<char> {
    if quality == "best"@ {
        "best"@
    } else if quality == "2160p"@ {
        "bestvideo[height<=2160]+bestaudio/best[height<=2160]"@
    } else if quality == "1440p"@ {
        "bestvideo[height<=1440]+bestaudio/best[height<=1440]"@
    } else if quality == "720p"@ {
        "bestvideo[height<=720]+bestaudio/best[height<=720]"@
    } else if quality == "480p"@ {
        "bestvideo[height<=480]+bestaudio/best[height<=480]"@
    } else {
        "bestvideo[height<=1080]+bestaudio/best[height<=1080]"@
    }
}

/// The flag and value for an optional setting, present only when the value is set and
/// not empty.
pub open spec fn optional_flag(flag: Seq<char>, value: Option<String>) -> Seq<Seq<char>> {
    match value {
        Some(v) => if v@.len() > 0 {
            seq![flag, v@]
        } else {
            seq![]
        },
        None => seq![],
    }
}

/// The network arguments every invocation ends with: `--proxy` and `--cookies` when set.
pub open spec fn network_args(proxy: Option<String>, cookie_file: Option<String>) -> Seq<Seq<char>> {
    optional_flag("--proxy"@, proxy) + optional_flag("--cookies"@, cookie_file)
}

/// The progress line yt-dlp is asked to print while downloading:
/// `percent|speed|downloaded|total|eta`.
pub open spec fn progress_template() -> Seq<char> {
    "%(progress._percent_str)s|%(progress._speed_str)s|%(progress._downloaded_bytes_str)s|%(progress._total_bytes_estimate)s|%(progress._eta_str)s"@
}

/// The arguments that read a channel's metadata from its first item.
pub open spec fn channel_info_argv(url: Seq<char>, proxy: Option<String>, cookie_file: Option<String>) -> Seq<Seq<char>> {
    seq!["--dump-json"@, "--playlist-items"@, "1"@, url] + network_args(proxy, cookie_file)
}

/// The arguments that list a channel's videos, uploaded after `since` when given.
pub open spec fn new_videos_argv(
    url: Seq<char>,
    since: Option<Seq<char>>,
    proxy: Option<String>,
    cookie_file: Option<String>,
) -> Seq<Seq<char>> {
    seq!["--flat-playlist"@, "--dump-json"@] + (match since {
        Some(d) => seq!["--dateafter"@, d],
        None => seq![],
    }) + seq![url] + network_args(proxy, cookie_file)
}

/// The arguments that download one video into `output_template`, printing the final
/// path; with `progress`, also printing progress lines.
pub open spec fn download_argv(
    url: Seq<char>,
    quality: Seq<char>,
    output_template: Seq<char>,
    progress: bool,
    proxy: Option<String>,
    cookie_file: Option<String>,
) -> Seq<Seq<char>> {
    seq!["-f"@, format_for(quality), "-o"@, output_template, "--no-playlist"@] + (if progress {
        seq!["--progress-template"@, progress_template()]
    } else {
        seq![]
    }) + seq!["--print"@, "after_move:filepath"@, url] + network_args(proxy, cookie_file)
}

/// The arguments that list the entries `start..=end` of a channel.
pub open spec fn page_argv(
    url: Seq<char>,
    start: u32,
    end: u32,
    proxy: Option<String>,
    cookie_file: Option<String>,
) -> Seq<Seq<char>> {
    seq![
        "--flat-playlist"@,
        "--dump-json"@,
        "--playlist-start"@,
        decimal(start as nat),
        "--playlist-end"@,
        decimal(end as nat),
        url,
    ] + network_args(proxy, cookie_file)
}

fn push_optional_flag(args: &mut Vec<String>, flag: &str, value: &Option<String>)
    ensures
        texts(final(args)@) == texts(old(args)@) + optional_flag(flag@, *value),
{
    match value {
        Some(v) => {
            if v.unicode_len() > 0 {
                push_arg(args, flag);
                push_arg(args, v.as_str());
            }
        },
        None => {},
    }
}

fn push_network_args(args: &mut Vec<String>, proxy: &Option<String>, cookie_file: &Option<String>)
    ensures
        texts(final(args)@) == texts(old(args)@) + network_args(*proxy, *cookie_file),
{
    push_optional_flag(args, "--proxy", proxy);
    push_optional_flag(args, "--cookies", cookie_file);
}

/// The stateless service that speaks to yt-dlp.
pub struct YtDlpService;

impl YtDlpService {
    /// The format selection for a quality preset (see `format_for`).
    pub fn format_for_quality(quality: &str) -> (f: String)
        ensures
            f@ == format_for(quality@),
    {
        if str_eq(quality, "best") {
            String::from_str("best")
        } else if str_eq(quality, "2160p") {
            String::from_str("bestvideo[height<=2160]+bestaudio/best[height<=2160]")
        } else if str_eq(quality, "1440p") {
            String::from_str("bestvideo[height<=1440]+bestaudio/best[height<=1440]")
        } else if str_eq(quality, "720p") {
            String::from_str("bestvideo[height<=720]+bestaudio/best[height<=720]")
        } else if str_eq(quality, "480p") {
            String::from_str("bestvideo[height<=480]+bestaudio/best[height<=480]")
        } else {
            String::from_str("bestvideo[height<=1080]+bestaudio/best[height<=1080]")
        }
    }

    /// `--proxy` and `--cookies` with their values, each only when set and not empty.
    pub fn network_args(proxy: &Option<String>, cookie_file: &Option<String>) -> (args: Vec<String>)
        ensures
            texts(args@) == network_args(*proxy, *cookie_file),
    {
        let mut args: Vec<String> = Vec::new();
        push_network_args(&mut args, proxy, cookie_file);
        args
    }

    /// The command line of `parse_channel_info` (see `channel_info_argv`).
    pub fn channel_info_args(url: &str, proxy: &Option<String>, cookie_file: &Option<String>) -> (args: Vec<
        String,
    >)
        ensures
            texts(args@) == channel_info_argv(url@, *proxy, *cookie_file),
    {
        let mut args: Vec<String> = Vec::new();
        push_arg(&mut args, "--dump-json");
        push_arg(&mut args, "--playlist-items");
        push_arg(&mut args, "1");
        push_arg(&mut args, url);
        push_network_args(&mut args, proxy, cookie_file);
        args
    }

    /// The command line of `check_new_videos` (see `new_videos_argv`).
    pub fn new_videos_args(
        url: &str,
        since: Option<&str>,
        proxy: &Option<String>,
        cookie_file: &Option<String>,
    ) -> (args: Vec<String>)
        ensures
            texts(args@) == new_videos_argv(
                url@,
                match since {
                    Some(d) => Some(d@),
                    None => None,
                },
                *proxy,
                *cookie_file,
            ),
    {
        let mut args: Vec<String> = Vec::new();
        push_arg(&mut args, "--flat-playlist");
        push_arg(&mut args, "--dump-json");
        match since {
            Some(d) => {
                push_arg(&mut args, "--dateafter");
                push_arg(&mut args, d);
            },
            None => {},
        }
        push_arg(&mut args, url);
        push_network_args(&mut args, proxy, cookie_file);
        assert(texts(args@) =~= new_videos_argv(
            url@,
            match since {
                Some(d) => Some(d@),
                None => None,
            },
            *proxy,
            *cookie_file,
        ));
        args
    }

    /// The command line of a download (see `download_argv`).
    pub fn download_args(
        url: &str,
        quality: &str,
        output_template: &str,
        progress: bool,
        proxy: &Option<String>,
        cookie_file: &Option<String>,
    ) -> (args: Vec<String>)
        ensures
            texts(args@) == download_argv(
                url@,
                quality@,
                output_template@,
                progress,
                *proxy,
                *cookie_file,
            ),
    {
        let mut args: Vec<String> = Vec::new();
        push_arg(&mut args, "-f");
        let f = Self::format_for_quality(quality);
        push_arg(&mut args, f.as_str());
        push_arg(&mut args, "-o");
        push_arg(&mut args, output_template);
        push_arg(&mut args, "--no-playlist");
        if progress {
            push_arg(&mut args, "--progress-template");
            push_arg(
                &mut args,
                "%(progress._percent_str)s|%(progress._speed_str)s|%(progress._downloaded_bytes_str)s|%(progress._total_bytes_estimate)s|%(progress._eta_str)s",
            );
        }
        push_arg(&mut args, "--print");
        push_arg(&mut args, "after_move:filepath");
        push_arg(&mut args, url);
        push_network_args(&mut args, proxy, cookie_file);
        assert(texts(args@) =~= download_argv(
            url@,
            quality@,
            output_template@,
            progress,
            *proxy,
            *cookie_file,
        ));
        args
    }

    /// The command line of `get_channel_videos_paginated` (see `page_argv`).
    pub fn page_args(
        url: &str,
        start: u32,
        end: u32,
        proxy: &Option<String>,
        cookie_file: &Option<String>,
    ) -> (args: Vec<String>)
        ensures
            texts(args@) == page_argv(url@, start, end, *proxy, *cookie_file),
    {
        let mut args: Vec<String> = Vec::new();
        push_arg(&mut args, "--flat-playlist");
        push_arg(&mut args, "--dump-json");
        push_arg(&mut args, "--playlist-start");
        let mut s = String::new();
        push_decimal(&mut s, start as u64);
        push_arg(&mut args, s.as_str());
        push_arg(&mut args, "--playlist-end");
        let mut e = String::new();
        push_decimal(&mut e, end as u64);
        push_arg(&mut args, e.as_str());
        push_arg(&mut args, url);
        push_network_args(&mut args, proxy, cookie_file);
        args
    }
}


// ── Reading yt-dlp's answers ────────────────────────────────────────

/// The lines of `ls`, trimmed, without the blank ones.
pub open spec fn trimmed_nonblank(ls: Seq<Seq<char>>) -> Seq<Seq<char>>
    decreases ls.len(),
{
    if ls.len() == 0 {
        seq![]
    } else {
        let rest = trimmed_nonblank(ls.drop_last());
        let t = trimmed(ls.last());
        if t.len() > 0 {
            rest.push(t)
        } else {
            rest
        }
    }
}

/// The JSON documents of a listing: one per non-blank line of standard output.
pub open spec fn json_lines_of(stdout: Seq<char>) -> Seq<Seq<char>> {
    trimmed_nonblank(lines_of(stdout))
}

/// The last line of `out`, or the empty text when there is none.
pub open spec fn last_line(out: Seq<char>) -> Seq<char> {
    if lines_of(out).len() > 0 {
        lines_of(out).last()
    } else {
        seq![]
    }
}

/// The error of a yt-dlp run that exited with failure: `prefix` and the trimmed
/// standard error.
pub open spec fn is_exit_error(r: AppError, prefix: Seq<char>, stderr: Seq<char>) -> bool {
    r matches AppError::YtDlp(m) && m@ == prefix + trimmed(stderr)
}

/// The message when the channel JSON is empty.
pub open spec fn empty_channel_message() -> Seq<char> {
    "yt-dlp returned empty output — YouTube may require authentication. Try adding a cookie file in Settings."@
}

/// The message when a download printed no path.
pub open spec fn no_path_message() -> Seq<char> {
    "yt-dlp completed but no output file path was returned"@
}

fn exit_error(prefix: &str, stderr: &str) -> (e: AppError)
    ensures
        is_exit_error(e, prefix@, stderr@),
{
    let mut m = String::from_str(prefix);
    let t = trim(stderr);
    m.append(t.as_str());
    AppError::YtDlp(m)
}

fn single_document(success: bool, stdout: &str, stderr: &str, empty_message: &str) -> (r: Result<
    String,
    AppError,
>)
    ensures
        !success ==> (r matches Err(e) && is_exit_error(e, "yt-dlp exited with error: "@, stderr@)),
        success && trimmed(stdout@).len() == 0 ==> (r matches Err(AppError::YtDlp(m)) && m@
            == empty_message@),
        success && trimmed(stdout@).len() > 0 ==> (r matches Ok(d) && d@ == trimmed(stdout@)),
{
    if !success {
        return Err(exit_error("yt-dlp exited with error: ", stderr));
    }
    let t = trim(stdout);
    if t.unicode_len() == 0 {
        return Err(AppError::YtDlp(String::from_str(empty_message)));
    }
    Ok(t)
}

/// Non-blank lines, trimmed.
pub fn json_lines(stdout: &str) -> (ls: Vec<String>)
    ensures
        texts(ls@) == json_lines_of(stdout@),
{
    let all = lines(stdout);
    let ghost src = texts(all@);
    let mut out: Vec<String> = Vec::new();
    let mut i: usize = 0;
    while i < all.len()
        invariant
            src == texts(all@),
            i <= all@.len(),
            texts(out@) == trimmed_nonblank(src.take(i as int)),
        decreases all@.len() - i,
    {
        let t = trim(all[i].as_str());
        assert(src.take(i + 1).drop_last() =~= src.take(i as int));
        if t.unicode_len() > 0 {
            out.push(t);
        }
        i += 1;
    }
    assert(src.take(i as int) =~= src);
    out
}

impl YtDlpService {
    /// Reads the answer to `channel_info_args`: the channel's JSON document, or the
    /// error of a failed run or of an empty answer.
    pub fn channel_json(success: bool, stdout: &str, stderr: &str) -> (r: Result<String, AppError>)
        ensures
            !success ==> (r matches Err(e) && is_exit_error(e, "yt-dlp exited with error: "@, stderr@)),
            success && trimmed(stdout@).len() == 0 ==> (r matches Err(AppError::YtDlp(m)) && m@
                == empty_channel_message()),
            success && trimmed(stdout@).len() > 0 ==> (r matches Ok(d) && d@ == trimmed(stdout@)),
    {
        single_document(
            success,
            stdout,
            stderr,
            "yt-dlp returned empty output — YouTube may require authentication. Try adding a cookie file in Settings.",
        )
    }

    /// Reads the answer to the full channel query: its JSON document, or the error of a
    /// failed run or of an empty answer.
    pub fn channel_details_json(success: bool, stdout: &str, stderr: &str) -> (r: Result<
        String,
        AppError,
    >)
        ensures
            !success ==> (r matches Err(e) && is_exit_error(e, "yt-dlp exited with error: "@, stderr@)),
            success && trimmed(stdout@).len() == 0 ==> (r matches Err(AppError::YtDlp(m)) && m@
                == "yt-dlp returned empty output"@),
            success && trimmed(stdout@).len() > 0 ==> (r matches Ok(d) && d@ == trimmed(stdout@)),
    {
        single_document(success, stdout, stderr, "yt-dlp returned empty output")
    }

    /// Reads the answer to a listing: one JSON document per non-blank line, or the
    /// error of a failed run.
    pub fn listing_json(success: bool, stdout: &str, stderr: &str) -> (r: Result<Vec<String>, AppError>)
        ensures
            !success ==> (r matches Err(e) && is_exit_error(e, "yt-dlp exited with error: "@, stderr@)),
            success ==> (r matches Ok(ls) && texts(ls@) == json_lines_of(stdout@)),
    {
        if !success {
            return Err(exit_error("yt-dlp exited with error: ", stderr));
        }
        Ok(json_lines(stdout))
    }

    /// The end of a download whose last printed line (the file path) was
    /// `path_line`: the trimmed path, or the error of a failed run or of a missing path.
    pub fn finish_download(success: bool, path_line: &str, stderr: &str) -> (r: Result<String, AppError>)
        ensures
            !success ==> (r matches Err(e) && is_exit_error(e, "yt-dlp download failed: "@, stderr@)),
            success && trimmed(path_line@).len() == 0 ==> (r matches Err(AppError::YtDlp(m)) && m@
                == no_path_message()),
            success && trimmed(path_line@).len() > 0 ==> (r matches Ok(p) && p@ == trimmed(path_line@)),
    {
        if !success {
            return Err(exit_error("yt-dlp download failed: ", stderr));
        }
        let p = trim(path_line);
        if p.unicode_len() == 0 {
            return Err(AppError::YtDlp(String::from_str("yt-dlp completed but no output file path was returned")));
        }
        Ok(p)
    }

    /// Reads the answer to a download without progress: the path on the last line of
    /// standard output (see `finish_download`).
    pub fn download_output(success: bool, stdout: &str, stderr: &str) -> (r: Result<String, AppError>)
        ensures
            !success ==> (r matches Err(e) && is_exit_error(e, "yt-dlp download failed: "@, stderr@)),
            success && trimmed(last_line(stdout@)).len() == 0 ==> (r matches Err(AppError::YtDlp(m))
                && m@ == no_path_message()),
            success && trimmed(last_line(stdout@)).len() > 0 ==> (r matches Ok(p) && p@ == trimmed(
                last_line(stdout@),
            )),
    {
        let ls = lines(stdout);
        let n = ls.len();
        if n == 0 {
            proof {
                reveal_strlit("");
            }
            Self::finish_download(success, "", stderr)
        } else {
            Self::finish_download(success, ls[n - 1].as_str(), stderr)
        }
    }
}

/// A JSON member as the channel query reads it: absent, a string, an unsigned integer,
/// or anything else (including `null`).
#[derive(Debug, Clone)]
pub enum JsonField {
    Missing,
    Text(String),
    Count(u64),
    Other,
}

/// The members of yt-dlp's channel JSON that the channel details come from. Of the
/// thumbnail: whether a `thumbnail` member exists, the `url` member inside it, and the
/// `url` member of the first element of `thumbnails` (`None` when there is no such
/// element).
#[derive(Debug, Clone)]
pub struct ChannelJson {
    pub channel: JsonField,
    pub uploader: JsonField,
    pub description: JsonField,
    pub channel_follower_count: JsonField,
    pub subscriber_count: JsonField,
    pub playlist_count: JsonField,
    pub n_entries: JsonField,
    pub has_thumbnail: bool,
    pub thumbnail_url: JsonField,
    pub first_thumbnail_url: Option<JsonField>,
}

/// What a JSON member is, as the library reads it.
pub ghost enum JsonFieldView {
    Missing,
    Text(Seq<char>),
    Count(u64),
    Other,
}

/// The view of a member that was read.
pub open spec fn field_view(f: JsonField) -> JsonFieldView {
    match f {
        JsonField::Missing => JsonFieldView::Missing,
        JsonField::Text(s) => JsonFieldView::Text(s@),
        JsonField::Count(n) => JsonFieldView::Count(n),
        JsonField::Other => JsonFieldView::Other,
    }
}

/// What `serde_json` finds in the text `doc` at the JSON pointer `pointer`
/// (`Value::pointer`, RFC 6901): `None` when `doc` is not a JSON document, else the
/// member there (`Missing` when the pointer leads nowhere).
pub uninterp spec fn json_member(doc: Seq<char>, pointer: Seq<char>) -> Option<JsonFieldView>;

/// `doc` is a JSON document: the empty pointer, which names the whole document, finds
/// something.
pub open spec fn is_json(doc: Seq<char>) -> bool {
    json_member(doc, Seq::empty()) is Some
}

/// The member of a JSON document at `pointer`, `Missing` when there is none.
pub open spec fn member_at(doc: Seq<char>, pointer: Seq<char>) -> JsonFieldView {
    match json_member(doc, pointer) {
        Some(v) => v,
        None => JsonFieldView::Missing,
    }
}

/// Parses `doc` with `serde_json::from_str::<serde_json::Value>` and looks up
/// `pointer` with `Value::pointer`: a string member becomes `Text`, one that
/// `as_u64` reads becomes `Count`, any other `Other`, and no member `Missing`. On a parse
/// error the error's `Display` text comes back; that text is not stated. Whether the
/// parse succeeds does not depend on the pointer, and the empty pointer names the
/// whole document (serde_json's `pointer` returns `Some(self)` for it).
#[verifier::external_body]
fn json_field(doc: &str, pointer: &str) -> (r: Result<JsonField, String>)
    ensures
        r is Ok <==> is_json(doc@),
        r matches Ok(f) ==> json_member(doc@, pointer@) == Some(field_view(f)),
        r is Err ==> json_member(doc@, pointer@) is None,
{
    let value: serde_json::Value = serde_json::from_str(doc).map_err(|e| e.to_string())?;
    Ok(match value.pointer(pointer) {
        None => JsonField::Missing,
        Some(serde_json::Value::String(s)) => JsonField::Text(s.clone()),
        Some(m) => match m.as_u64() {
            Some(n) => JsonField::Count(n),
            None => JsonField::Other,
        },
    })
}

/// The member of a JSON document at `pointer`.
fn member(doc: &str, pointer: &str) -> (f: JsonField)
    requires
        is_json(doc@),
    ensures
        field_view(f) == member_at(doc@, pointer@),
{
    match json_field(doc, pointer) {
        Ok(f) => f,
        Err(_) => {
            proof {
                assert(false);
            }
            JsonField::Missing
        },
    }
}

/// The prefix of the error for a channel document that is not JSON.
pub open spec fn channel_parse_prefix() -> Seq<char> {
    "Failed to parse channel info JSON: "@
}

/// `j` holds the members of the channel document `doc` that the channel details
/// come from.
pub open spec fn channel_json_matches(doc: Seq<char>, j: ChannelJson) -> bool {
    &&& field_view(j.channel) == member_at(doc, "/channel"@)
    &&& field_view(j.uploader) == member_at(doc, "/uploader"@)
    &&& field_view(j.description) == member_at(doc, "/description"@)
    &&& field_view(j.channel_follower_count) == member_at(doc, "/channel_follower_count"@)
    &&& field_view(j.subscriber_count) == member_at(doc, "/subscriber_count"@)
    &&& field_view(j.playlist_count) == member_at(doc, "/playlist_count"@)
    &&& field_view(j.n_entries) == member_at(doc, "/n_entries"@)
    &&& j.has_thumbnail == !(member_at(doc, "/thumbnail"@) is Missing)
    &&& field_view(j.thumbnail_url) == member_at(doc, "/thumbnail/url"@)
    &&& match j.first_thumbnail_url {
        Some(f) => !(member_at(doc, "/thumbnails/0"@) is Missing) && field_view(f) == member_at(
            doc,
            "/thumbnails/0/url"@,
        ),
        None => member_at(doc, "/thumbnails/0"@) is Missing,
    }
}

/// `a` where it is present, else `b`.
pub open spec fn present_or(a: JsonField, b: JsonField) -> JsonField {
    match a {
        JsonField::Missing => b,
        _ => a,
    }
}

/// The text of a string member.
pub open spec fn text_of(f: JsonField) -> Option<Seq<char>> {
    match f {
        JsonField::Text(s) => Some(s@),
        _ => None,
    }
}

/// The value of an unsigned integer member.
pub open spec fn count_of(f: JsonField) -> Option<u64> {
    match f {
        JsonField::Count(n) => Some(n),
        _ => None,
    }
}

/// The thumbnail member: inside `thumbnail` when it exists, else inside the first of
/// `thumbnails`.
pub open spec fn thumbnail_field(j: ChannelJson) -> JsonField {
    if j.has_thumbnail {
        j.thumbnail_url
    } else {
        match j.first_thumbnail_url {
            Some(f) => f,
            None => JsonField::Missing,
        }
    }
}

fn field_text(f: &JsonField) -> (r: Option<String>)
    ensures
        match r {
            Some(s) => text_of(*f) == Some(s@),
            None => text_of(*f) is None,
        },
{
    match f {
        JsonField::Text(s) => Some(s.clone()),
        _ => None,
    }
}

fn field_count(f: &JsonField) -> (r: Option<u64>)
    ensures
        r == count_of(*f),
{
    match f {
        JsonField::Count(n) => Some(*n),
        _ => None,
    }
}

fn first_present<'a>(a: &'a JsonField, b: &'a JsonField) -> (r: &'a JsonField)
    ensures
        *r == present_or(*a, *b),
{
    match a {
        JsonField::Missing => b,
        _ => a,
    }
}

impl YtDlpService {
    /// Reads the members of yt-dlp's channel document `doc` that the channel details
    /// come from; fails, with "Failed to parse channel info JSON: " and the parser's
    /// message, when `doc` is not JSON.
    pub fn channel_json_of(doc: &str) -> (r: Result<ChannelJson, AppError>)
        ensures
            r is Ok <==> is_json(doc@),
            r matches Ok(j) ==> channel_json_matches(doc@, j),
            r matches Err(e) ==> (e matches AppError::YtDlp(m) && m@.len() >= channel_parse_prefix().len()
                && m@.take(channel_parse_prefix().len() as int) == channel_parse_prefix()),
    {
        match json_field(doc, "") {
            Err(msg) => {
                let mut m = String::from_str("Failed to parse channel info JSON: ");
                proof {
                    reveal_strlit("Failed to parse channel info JSON: ");
                }
                let ghost prefix = m@;
                m.append(msg.as_str());
                assert(m@.take(prefix.len() as int) =~= prefix);
                return Err(AppError::YtDlp(m));
            },
            Ok(_) => {},
        }
        proof {
            reveal_strlit("");
            assert(""@ =~= Seq::<char>::empty());
        }
        let thumbnail = member(doc, "/thumbnail");
        let has_thumbnail = match thumbnail {
            JsonField::Missing => false,
            _ => true,
        };
        let first = member(doc, "/thumbnails/0");
        let first_thumbnail_url = match first {
            JsonField::Missing => None,
            _ => Some(member(doc, "/thumbnails/0/url")),
        };
        Ok(ChannelJson {
            channel: member(doc, "/channel"),
            uploader: member(doc, "/uploader"),
            description: member(doc, "/description"),
            channel_follower_count: member(doc, "/channel_follower_count"),
            subscriber_count: member(doc, "/subscriber_count"),
            playlist_count: member(doc, "/playlist_count"),
            n_entries: member(doc, "/n_entries"),
            has_thumbnail,
            thumbnail_url: member(doc, "/thumbnail/url"),
            first_thumbnail_url,
        })
    }

    /// The follower count of the channel JSON: `channel_follower_count`, else
    /// `subscriber_count`, when that is an unsigned integer.
    pub fn follower_count(j: &ChannelJson) -> (r: Option<u64>)
        ensures
            r == count_of(present_or(j.channel_follower_count, j.subscriber_count)),
    {
        field_count(first_present(&j.channel_follower_count, &j.subscriber_count))
    }

    /// The channel details from the channel JSON: the name from `channel`, else
    /// `uploader` ("未知频道" when that is no string), the description, the video count
    /// from `playlist_count`, else `n_entries`, the thumbnail URL; with the formatted
    /// follower count and refresh time given.
    pub fn channel_details(
        j: &ChannelJson,
        subscriber_count: Option<String>,
        last_refreshed: String,
    ) -> (c: video::ChannelInfo)
        ensures
            c.channel_name@ == (match text_of(present_or(j.channel, j.uploader)) {
                Some(s) => s,
                None => "未知频道"@,
            }),
            match c.description {
                Some(d) => text_of(j.description) == Some(d@),
                None => text_of(j.description) is None,
            },
            c.subscriber_count == subscriber_count,
            c.video_count == count_of(present_or(j.playlist_count, j.n_entries)),
            match c.thumbnail_url {
                Some(t) => text_of(thumbnail_field(*j)) == Some(t@),
                None => text_of(thumbnail_field(*j)) is None,
            },
            c.last_refreshed == last_refreshed,
    {
        let channel_name = match field_text(first_present(&j.channel, &j.uploader)) {
            Some(s) => s,
            None => String::from_str("未知频道"),
        };
        let thumb = if j.has_thumbnail {
            field_text(&j.thumbnail_url)
        } else {
            match &j.first_thumbnail_url {
                Some(f) => field_text(f),
                None => None,
            }
        };
        video::ChannelInfo {
            channel_name,
            description: field_text(&j.description),
            subscriber_count,
            video_count: field_count(first_present(&j.playlist_count, &j.n_entries)),
            thumbnail_url: thumb,
            last_refreshed,
        }
    }
}

} // verus!
