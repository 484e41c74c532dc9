//! What the JSON persistence files mean, and the repairs made to them:
//! deduplication of download records and recounting of completed downloads.
//! Reading and writing the files themselves is done by the caller.

use vstd::prelude::*;
use vstd::string::*;

use crate::error::AppError;
use crate::models::{AppSettings, AppState, DownloadRecord, Subscription};
use crate::text::{
    lemma_seq_lt_irreflexive, lemma_seq_lt_total, lemma_seq_lt_transitive, seq_lt, str_eq, str_lt,
};

verus! {

/// What reading one persistence file produced.
#[derive(Debug, Clone)]
pub enum ReadOutcome<T> {
    /// The file does not exist.
    Missing,
    /// The file exists but could not be read; the I/O error text.
    Unreadable(String),
    /// The file was read but is not valid JSON of the expected shape; the parser's error text.
    Malformed(String),
    /// The file was read and parsed.
    Parsed(T),
}

/// Stateless service for the persisted subscriptions, download records, settings and state.
pub struct StorageService;

// ── Status ranking used to pick one record per video ─────────────────

/// Rank of a download status when choosing among duplicate records (lower is better):
/// completed, downloading, failed, paused, cancelled, anything else.
pub open spec fn status_rank(s: Seq<char>) -> nat {
    if s == "completed"@ {
        0
    } else if s == "downloading"@ {
        1
    } else if s == "failed"@ {
        2
    } else if s == "paused"@ {
        3
    } else if s == "cancelled"@ {
        4
    } else {
        9
    }
}

/// `a` is strictly preferred to `b`: a better status, or the same status and a later
/// download time.
pub open spec fn preferred(a: DownloadRecord, b: DownloadRecord) -> bool {
    status_rank(a.status@) < status_rank(b.status@) || (status_rank(a.status@) == status_rank(
        b.status@,
    ) && seq_lt(b.downloaded_at@, a.downloaded_at@))
}

/// The record carries a platform video id.
pub open spec fn has_id(r: DownloadRecord) -> bool {
    r.video_id@.len() > 0
}

/// `recs[k]` is the record kept for its video id: no record of that id is preferred
/// to it, and it is preferred to every earlier record of that id.
#[verifier::opaque]
pub open spec fn kept_for_id(recs: Seq<DownloadRecord>, k: int) -> bool {
    &&& 0 <= k < recs.len()
    &&& has_id(recs[k])
    &&& forall|j: int|
        0 <= j < recs.len() && #[trigger] recs[j].video_id@ == recs[k].video_id@ ==> !preferred(
            recs[j],
            recs[k],
        )
    &&& forall|j: int|
        0 <= j < k && #[trigger] recs[j].video_id@ == recs[k].video_id@ ==> preferred(recs[k], recs[j])
}

/// `r` is the record kept for its video id in `recs`.
pub open spec fn is_kept_record(recs: Seq<DownloadRecord>, r: DownloadRecord) -> bool {
    exists|k: int| kept_for_id(recs, k) && r == recs[k]
}

/// `d` holds exactly the kept record of every video id occurring in `recs`, once each.
pub open spec fn dedup_by_id(recs: Seq<DownloadRecord>, d: Seq<DownloadRecord>) -> bool {
    &&& forall|i: int| 0 <= i < d.len() ==> is_kept_record(recs, #[trigger] d[i])
    &&& forall|i: int, j: int|
        0 <= i < j < d.len() ==> #[trigger] d[i].video_id@ != #[trigger] d[j].video_id@
    &&& forall|k: int|
        0 <= k < recs.len() && has_id(#[trigger] recs[k]) ==> exists|i: int|
            0 <= i < d.len() && d[i].video_id@ == recs[k].video_id@
}

/// The records without a video id, in their original order.
pub open spec fn records_without_id(recs: Seq<DownloadRecord>) -> Seq<DownloadRecord> {
    recs.filter(|r: DownloadRecord| !has_id(r))
}

/// `out` is a deduplication of `recs`: one kept record per video id (in some order),
/// followed by all records without a video id in their original order.
pub open spec fn dedup_result(recs: Seq<DownloadRecord>, out: Seq<DownloadRecord>) -> bool {
    let m = out.len() - records_without_id(recs).len();
    &&& 0 <= m
    &&& dedup_by_id(recs, out.subrange(0, m))
    &&& out.subrange(m, out.len() as int) == records_without_id(recs)
}

/// The video ids of some records, in order.
pub open spec fn ids_of(d: Seq<DownloadRecord>) -> Seq<Seq<char>> {
    d.map_values(|r: DownloadRecord| r.video_id@)
}

/// Filtering keeps a sequence whose elements all pass, and empties one whose
/// elements all fail.
proof fn lemma_filter_uniform(s: Seq<DownloadRecord>, keep: bool)
    requires
        forall|i: int| 0 <= i < s.len() ==> !has_id(#[trigger] s[i]) == keep,
    ensures
        records_without_id(s) == (if keep { s } else { Seq::<DownloadRecord>::empty() }),
    decreases s.len(),
{
    reveal(Seq::filter);
    if s.len() > 0 {
        lemma_filter_uniform(s.drop_last(), keep);
        assert(!has_id(s[s.len() - 1]) == keep);
        if keep {
            assert(s.drop_last().push(s.last()) =~= s);
        }
    } else {
        assert(s =~= Seq::<DownloadRecord>::empty());
    }
}

/// Deduplicating a deduplicated list removes nothing: it keeps as many records, and the
/// same records without a video id.
pub proof fn law_dedup_is_idempotent(recs: Seq<DownloadRecord>, out: Seq<DownloadRecord>, again: Seq<DownloadRecord>)
    requires
        dedup_result(recs, out),
        dedup_result(out, again),
    ensures
        again.len() == out.len(),
        records_without_id(again) == records_without_id(out),
        records_without_id(out) == records_without_id(recs),
{
    let nid = records_without_id(recs);
    let m = out.len() - nid.len();
    let d = out.subrange(0, m);
    assert(out =~= d + nid);
    assert forall|i: int| 0 <= i < d.len() implies has_id(#[trigger] d[i]) by {
        assert(is_kept_record(recs, d[i]));
        let k = choose|k: int| kept_for_id(recs, k) && d[i] == recs[k];
        reveal(kept_for_id);
    }
    recs.filter_lemma(|r: DownloadRecord| !has_id(r));
    assert forall|i: int| 0 <= i < nid.len() implies !has_id(#[trigger] nid[i]) by {
        assert((|r: DownloadRecord| !has_id(r))(nid[i]));
    }
    lemma_filter_uniform(d, false);
    lemma_filter_uniform(nid, true);
    Seq::filter_distributes_over_add(d, nid, |r: DownloadRecord| !has_id(r));
    assert(records_without_id(out) == records_without_id(d) + records_without_id(nid));
    assert(records_without_id(out) =~= nid);

    let m2 = again.len() - nid.len();
    let d2 = again.subrange(0, m2);
    let a = ids_of(d);
    let b = ids_of(d2);
    assert(a.no_duplicates()) by {
        assert forall|i: int, j: int| 0 <= i < a.len() && 0 <= j < a.len() && i != j implies a[i] != a[j] by {
            if i < j {
                assert(d[i].video_id@ != d[j].video_id@);
            } else {
                assert(d[j].video_id@ != d[i].video_id@);
            }
        }
    }
    assert(b.no_duplicates()) by {
        assert forall|i: int, j: int| 0 <= i < b.len() && 0 <= j < b.len() && i != j implies b[i] != b[j] by {
            if i < j {
                assert(d2[i].video_id@ != d2[j].video_id@);
            } else {
                assert(d2[j].video_id@ != d2[i].video_id@);
            }
        }
    }
    assert forall|x: Seq<char>| a.to_set().contains(x) implies b.to_set().contains(x) by {
        let i = choose|i: int| 0 <= i < a.len() && a[i] == x;
        assert(out[i] == d[i]);
        assert(has_id(out[i]));
        let j = choose|j: int| 0 <= j < d2.len() && d2[j].video_id@ == out[i].video_id@;
        assert(b[j] == x);
    }
    assert forall|x: Seq<char>| b.to_set().contains(x) implies a.to_set().contains(x) by {
        let j = choose|j: int| 0 <= j < b.len() && b[j] == x;
        assert(is_kept_record(out, d2[j]));
        let k = choose|k: int| kept_for_id(out, k) && d2[j] == out[k];
        reveal(kept_for_id);
        if k >= m {
            assert(out[k] == nid[k - m]);
        }
        assert(a[k] == x);
    }
    assert(a.to_set() =~= b.to_set());
    a.unique_seq_to_set();
    b.unique_seq_to_set();
    assert forall|j: int| 0 <= j < d2.len() implies has_id(#[trigger] d2[j]) by {
        assert(is_kept_record(out, d2[j]));
        let k = choose|k: int| kept_for_id(out, k) && d2[j] == out[k];
        reveal(kept_for_id);
    }
    assert(again =~= d2 + nid);
    lemma_filter_uniform(d2, false);
    Seq::filter_distributes_over_add(d2, nid, |r: DownloadRecord| !has_id(r));
    assert(records_without_id(again) == records_without_id(d2) + records_without_id(nid));
    assert(records_without_id(again) =~= nid);
}

/// The video ids that occur in some records (records without one left out).
pub open spec fn id_set(recs: Seq<DownloadRecord>) -> Set<Seq<char>> {
    Set::new(|x: Seq<char>| exists|k: int| 0 <= k < recs.len() && has_id(recs[k]) && recs[k].video_id@ == x)
}

/// A deduplication holds one record per video id of its input and all records without
/// one, so its length is fixed by the input.
proof fn lemma_dedup_len(recs: Seq<DownloadRecord>, out: Seq<DownloadRecord>)
    requires
        dedup_result(recs, out),
    ensures
        out.len() == id_set(recs).len() + records_without_id(recs).len(),
{
    let nid = records_without_id(recs);
    let m = out.len() - nid.len();
    let d = out.subrange(0, m);
    let a = ids_of(d);
    assert(a.no_duplicates()) by {
        assert forall|i: int, j: int| 0 <= i < a.len() && 0 <= j < a.len() && i != j implies a[i] != a[j] by {
            if i < j {
                assert(d[i].video_id@ != d[j].video_id@);
            } else {
                assert(d[j].video_id@ != d[i].video_id@);
            }
        }
    }
    assert forall|x: Seq<char>| a.to_set().contains(x) implies id_set(recs).contains(x) by {
        let i = choose|i: int| 0 <= i < a.len() && a[i] == x;
        assert(is_kept_record(recs, d[i]));
        let k = choose|k: int| kept_for_id(recs, k) && d[i] == recs[k];
        reveal(kept_for_id);
    }
    assert forall|x: Seq<char>| id_set(recs).contains(x) implies a.to_set().contains(x) by {
        let k = choose|k: int| 0 <= k < recs.len() && has_id(recs[k]) && recs[k].video_id@ == x;
        let i = choose|i: int| 0 <= i < d.len() && d[i].video_id@ == recs[k].video_id@;
        assert(a[i] == x);
    }
    assert(a.to_set() =~= id_set(recs));
    a.unique_seq_to_set();
}

/// Two deduplications of one list are equally long: when a first run removed nothing
/// and the list was kept as it was, a second run removes nothing either.
pub proof fn law_dedup_length_is_determined(recs: Seq<DownloadRecord>, first: Seq<DownloadRecord>, second: Seq<DownloadRecord>)
    requires
        dedup_result(recs, first),
        dedup_result(recs, second),
    ensures
        first.len() == second.len(),
{
    lemma_dedup_len(recs, first);
    lemma_dedup_len(recs, second);
}

/// A record with a video id in a deduplication is the record kept for that id.
proof fn lemma_kept_source(recs: Seq<DownloadRecord>, out: Seq<DownloadRecord>, i: int) -> (k: int)
    requires
        dedup_result(recs, out),
        0 <= i < out.len(),
        out[i].video_id@.len() > 0,
    ensures
        kept_for_id(recs, k),
        out[i] == recs[k],
{
    let nid = records_without_id(recs);
    let m = out.len() - nid.len();
    let d = out.subrange(0, m);
    recs.filter_lemma(|r: DownloadRecord| !has_id(r));
    if i >= m {
        assert(out[i] == nid[i - m]);
        assert((|r: DownloadRecord| !has_id(r))(nid[i - m]));
    }
    assert(out[i] == d[i]);
    assert(is_kept_record(recs, d[i]));
    choose|k: int| kept_for_id(recs, k) && d[i] == recs[k]
}

/// Among records of one video with the same status, deduplication keeps the latest:
/// no record of that video and status has a later download time than the kept one.
pub proof fn law_dedup_keeps_latest_of_a_status(recs: Seq<DownloadRecord>, out: Seq<DownloadRecord>, i: int, j: int)
    requires
        dedup_result(recs, out),
        0 <= i < out.len(),
        out[i].video_id@.len() > 0,
        0 <= j < recs.len(),
        recs[j].video_id@ == out[i].video_id@,
        recs[j].status@ == out[i].status@,
    ensures
        !seq_lt(out[i].downloaded_at@, recs[j].downloaded_at@),
{
    let k = lemma_kept_source(recs, out, i);
    reveal(kept_for_id);
    assert(!preferred(recs[j], recs[k]));
}

/// The statuses in the order deduplication prefers them, best first.
pub open spec fn status_priority() -> Seq<Seq<char>> {
    seq!["completed"@, "downloading"@, "failed"@, "paused"@, "cancelled"@]
}

/// Deduplication keeps the record with the best status: when some record of a video
/// has the status at position `a` of "completed", "downloading", "failed", "paused",
/// "cancelled", the record kept for that video has one of the statuses up to `a`. So a
/// retry that is downloading wins over the failed attempt before it.
pub proof fn law_dedup_keeps_best_status(recs: Seq<DownloadRecord>, out: Seq<DownloadRecord>, i: int, j: int, a: int)
    requires
        dedup_result(recs, out),
        0 <= i < out.len(),
        out[i].video_id@.len() > 0,
        0 <= j < recs.len(),
        recs[j].video_id@ == out[i].video_id@,
        0 <= a < 5,
        recs[j].status@ == status_priority()[a],
    ensures
        exists|b: int| 0 <= b <= a && out[i].status@ == status_priority()[b],
{
    reveal_strlit("completed");
    reveal_strlit("downloading");
    reveal_strlit("failed");
    reveal_strlit("paused");
    reveal_strlit("cancelled");
    let k = lemma_kept_source(recs, out, i);
    reveal(kept_for_id);
    assert(!preferred(recs[j], recs[k]));
    let pr = status_priority();
    assert(pr[0] == "completed"@ && pr[1] == "downloading"@ && pr[2] == "failed"@ && pr[3] == "paused"@
        && pr[4] == "cancelled"@);
    assert("completed"@.len() == 9 && "downloading"@.len() == 11 && "failed"@.len() == 6
        && "paused"@.len() == 6 && "cancelled"@.len() == 9);
    assert("completed"@ != "cancelled"@) by {
        assert("completed"@[1] != "cancelled"@[1]);
    }
    assert("failed"@ != "paused"@) by {
        assert("failed"@[0] != "paused"@[0]);
    }
    assert(status_rank("completed"@) == 0);
    assert(status_rank("downloading"@) == 1);
    assert(status_rank("failed"@) == 2);
    assert(status_rank("paused"@) == 3);
    assert(status_rank("cancelled"@) == 4);
    assert(status_rank(pr[a]) == a) by {
        if a == 0 {} else if a == 1 {} else if a == 2 {} else if a == 3 {} else {}
    }
    let b = status_rank(out[i].status@) as int;
    assert(b <= a);
    assert(out[i].status@ == pr[b]) by {
        let st = out[i].status@;
        if st == "completed"@ {} else if st == "downloading"@ {} else if st == "failed"@ {}
        else if st == "paused"@ {} else if st == "cancelled"@ {} else {}
    }
}

/// The record has status "completed".
pub open spec fn is_completed(r: DownloadRecord) -> bool {
    r.status@ == "completed"@
}

/// Number of completed records.
pub open spec fn completed_count(recs: Seq<DownloadRecord>) -> nat
    decreases recs.len(),
{
    if recs.len() == 0 {
        0
    } else {
        completed_count(recs.drop_last()) + if is_completed(recs.last()) {
            1nat
        } else {
            0nat
        }
    }
}

/// Number of completed records of subscription `sub_id`.
pub open spec fn completed_count_for(recs: Seq<DownloadRecord>, sub_id: Seq<char>) -> nat
    decreases recs.len(),
{
    if recs.len() == 0 {
        0
    } else {
        completed_count_for(recs.drop_last(), sub_id) + if is_completed(recs.last())
            && recs.last().subscription_id@ == sub_id {
            1nat
        } else {
            0nat
        }
    }
}

proof fn lemma_preferred_irreflexive(a: DownloadRecord)
    ensures
        !preferred(a, a),
{
    lemma_seq_lt_irreflexive(a.downloaded_at@);
}

proof fn lemma_preferred_transitive(a: DownloadRecord, b: DownloadRecord, c: DownloadRecord)
    requires
        preferred(a, b),
        preferred(b, c),
    ensures
        preferred(a, c),
{
    if status_rank(a.status@) == status_rank(b.status@) && status_rank(b.status@) == status_rank(
        c.status@,
    ) {
        lemma_seq_lt_transitive(c.downloaded_at@, b.downloaded_at@, a.downloaded_at@);
    }
}

/// If `a` beats `b` and `c` does not beat `b`, then `a` beats `c`.
proof fn lemma_preferred_over_weaker(a: DownloadRecord, b: DownloadRecord, c: DownloadRecord)
    requires
        preferred(a, b),
        !preferred(c, b),
    ensures
        preferred(a, c),
{
    lemma_seq_lt_total(b.downloaded_at@, c.downloaded_at@);
    if status_rank(a.status@) == status_rank(b.status@) && status_rank(b.status@) == status_rank(
        c.status@,
    ) {
        if c.downloaded_at@ != b.downloaded_at@ {
            lemma_seq_lt_transitive(c.downloaded_at@, b.downloaded_at@, a.downloaded_at@);
        }
    }
}

fn rank_of(s: &str) -> (r: u8)
    ensures
        r == status_rank(s@),
{
    if str_eq(s, "completed") {
        0
    } else if str_eq(s, "downloading") {
        1
    } else if str_eq(s, "failed") {
        2
    } else if str_eq(s, "paused") {
        3
    } else if str_eq(s, "cancelled") {
        4
    } else {
        9
    }
}

fn is_preferred(a: &DownloadRecord, b: &DownloadRecord) -> (r: bool)
    ensures
        r == preferred(*a, *b),
{
    let ra = rank_of(a.status.as_str());
    let rb = rank_of(b.status.as_str());
    ra < rb || (ra == rb && str_lt(b.downloaded_at.as_str(), a.downloaded_at.as_str()))
}

proof fn lemma_dedup_from_index(recs: Seq<DownloadRecord>, d: Seq<DownloadRecord>, idx: Seq<int>)
    requires
        idx.len() == d.len(),
        forall|q: int|
            0 <= q < idx.len() ==> kept_for_id(recs, #[trigger] idx[q]) && d[q] == recs[idx[q]],
        forall|p: int, q: int|
            0 <= p < q < d.len() ==> #[trigger] d[p].video_id@ != #[trigger] d[q].video_id@,
        forall|k: int|
            0 <= k < recs.len() && has_id(#[trigger] recs[k]) ==> exists|p: int|
                0 <= p < d.len() && d[p].video_id@ == recs[k].video_id@,
    ensures
        dedup_by_id(recs, d),
{
    assert forall|i: int| 0 <= i < d.len() implies is_kept_record(recs, #[trigger] d[i]) by {
        let k = idx[i];
    }
}

proof fn lemma_take_filter_step(recs: Seq<DownloadRecord>, i: int)
    requires
        0 <= i < recs.len(),
    ensures
        records_without_id(recs.take(i + 1)) == if has_id(recs[i]) {
            records_without_id(recs.take(i))
        } else {
            records_without_id(recs.take(i)).push(recs[i])
        },
{
    reveal_with_fuel(Seq::filter, 1);
    assert(recs.take(i + 1).drop_last() =~= recs.take(i));
}

impl StorageService {
    // ── Loading ─────────────────────────────────────────────────────

    /// The subscriptions stored in subscriptions.json: none when the file is missing,
    /// an I/O error when it cannot be read, a serialization error when it does not parse.
    pub fn load_subscriptions(file: ReadOutcome<Vec<Subscription>>) -> (r: Result<
        Vec<Subscription>,
        AppError,
    >)
        ensures
            match file {
                ReadOutcome::Missing => r matches Ok(v) && v@.len() == 0,
                ReadOutcome::Unreadable(e) => r == Err::<Vec<Subscription>, AppError>(AppError::Io(e)),
                ReadOutcome::Malformed(e) => r == Err::<Vec<Subscription>, AppError>(AppError::Serde(e)),
                ReadOutcome::Parsed(v) => r == Ok::<Vec<Subscription>, AppError>(v),
            },
    {
        match file {
            ReadOutcome::Missing => Ok(Vec::new()),
            ReadOutcome::Unreadable(e) => Err(AppError::Io(e)),
            ReadOutcome::Malformed(e) => Err(AppError::Serde(e)),
            ReadOutcome::Parsed(v) => Ok(v),
        }
    }

    /// The records stored in download_records.json, read as `load_subscriptions` reads
    /// subscriptions.
    pub fn load_download_records(file: ReadOutcome<Vec<DownloadRecord>>) -> (r: Result<
        Vec<DownloadRecord>,
        AppError,
    >)
        ensures
            match file {
                ReadOutcome::Missing => r matches Ok(v) && v@.len() == 0,
                ReadOutcome::Unreadable(e) => r == Err::<Vec<DownloadRecord>, AppError>(AppError::Io(e)),
                ReadOutcome::Malformed(e) => r == Err::<Vec<DownloadRecord>, AppError>(
                    AppError::Serde(e),
                ),
                ReadOutcome::Parsed(v) => r == Ok::<Vec<DownloadRecord>, AppError>(v),
            },
    {
        match file {
            ReadOutcome::Missing => Ok(Vec::new()),
            ReadOutcome::Unreadable(e) => Err(AppError::Io(e)),
            ReadOutcome::Malformed(e) => Err(AppError::Serde(e)),
            ReadOutcome::Parsed(v) => Ok(v),
        }
    }

    /// The settings stored in settings.json, or the defaults (downloading into
    /// `default_download_dir`) when the file is missing, unreadable or corrupt.
    pub fn load_settings(file: ReadOutcome<AppSettings>, default_download_dir: String) -> (s:
        AppSettings)
        ensures
            match file {
                ReadOutcome::Parsed(v) => s == v,
                _ => {
                    &&& s.download_dir == default_download_dir
                    &&& s.check_interval_minutes == 60
                    &&& s.yt_dlp_path@ == "yt-dlp"@
                    &&& s.quality_preset@ == "1080p"@
                    &&& !s.notifications_enabled
                    &&& !s.dark_mode
                    &&& s.proxy_url@.len() == 0
                    &&& s.cookie_file@.len() == 0
                    &&& s.max_concurrent_downloads == 1
                    &&& s.minimize_to_tray
                    &&& s.close_to_tray
                    &&& !s.start_in_tray
                    &&& !s.scheduler_paused
                },
            },
    {
        match file {
            ReadOutcome::Parsed(v) => v,
            _ => AppSettings::with_download_dir(default_download_dir),
        }
    }

    /// The state stored in state.json, or the default state (never checked, no
    /// downloads) when the file is missing, unreadable or corrupt. Never fails.
    pub fn load_state(file: ReadOutcome<AppState>) -> (r: Result<AppState, AppError>)
        ensures
            match file {
                ReadOutcome::Parsed(v) => r == Ok::<AppState, AppError>(v),
                _ => r matches Ok(s) && s.last_check_time is None && s.total_downloads == 0,
            },
    {
        match file {
            ReadOutcome::Parsed(v) => Ok(v),
            _ => Ok(AppState::default()),
        }
    }

    // ── Deduplication ───────────────────────────────────────────────

    /// Keeps one record per video id: the one with the best status (completed,
    /// downloading, failed, paused, cancelled, others) and, among equal statuses, the
    /// latest download time; among full ties the earliest. Records without a video id
    /// are all kept, after the others, in their original order.
    pub fn deduplicate_vec(records: Vec<DownloadRecord>) -> (out: Vec<DownloadRecord>)
        ensures
            dedup_result(records@, out@),
            out@.len() <= records@.len(),
    {
        let ghost recs = records@;
        let n = records.len();
        let mut ids: Vec<DownloadRecord> = Vec::new();
        let mut no_id: Vec<DownloadRecord> = Vec::new();
        let ghost mut idx: Seq<int> = seq![];
        let mut i: usize = 0;
        assert(records_without_id(recs.take(0)) =~= seq![]) by {
            reveal_with_fuel(Seq::filter, 1);
        }
        while i < n
            invariant
                n == recs.len(),
                records@ == recs,
                i <= n,
                ids@.len() == idx.len(),
                ids@.len() + no_id@.len() <= i,
                no_id@ == records_without_id(recs.take(i as int)),
                forall|p: int|
                    0 <= p < idx.len() ==> 0 <= #[trigger] idx[p] < i && ids@[p] == recs[idx[p]]
                        && kept_for_id(recs.take(i as int), idx[p]),
                forall|p: int, q: int|
                    0 <= p < q < ids@.len() ==> #[trigger] ids@[p].video_id@
                        != #[trigger] ids@[q].video_id@,
                forall|k: int|
                    0 <= k < i && has_id(#[trigger] recs[k]) ==> exists|p: int|
                        0 <= p < ids@.len() && ids@[p].video_id@ == recs[k].video_id@,
            decreases n - i,
        {
            let ghost post = recs.take(i + 1);
            let ghost ids0 = ids@;
            proof {
                reveal(kept_for_id);
            }
            proof {
                lemma_take_filter_step(recs, i as int);
            }
            let r = records[i].duplicate();
            if r.video_id.unicode_len() == 0 {
                no_id.push(r);
                proof {
                    assert forall|p: int| 0 <= p < idx.len() implies kept_for_id(post, idx[p]) by {
                    }
                }
            } else {
                // Look for the slot of this video id.
                let mut p: usize = 0;
                let mut found = false;
                while p < ids.len()
                    invariant
                        p <= ids@.len(),
                        forall|q: int| 0 <= q < p ==> ids@[q].video_id@ != r.video_id@,
                        found ==> p < ids@.len() && ids@[p as int].video_id@ == r.video_id@,
                    ensures
                        !found ==> p == ids@.len(),
                        found ==> p < ids@.len() && ids@[p as int].video_id@ == r.video_id@,
                        forall|q: int| 0 <= q < p ==> ids@[q].video_id@ != r.video_id@,
                    decreases ids@.len() - p,
                {
                    if str_eq(ids[p].video_id.as_str(), r.video_id.as_str()) {
                        found = true;
                        break;
                    }
                    p += 1;
                }
                if !found {
                    proof {
                        assert forall|q: int| 0 <= q < idx.len() implies kept_for_id(post, idx[q]) by {
                        }
                        assert forall|j: int|
                            0 <= j < post.len() && #[trigger] post[j].video_id@
                                == post[i as int].video_id@ implies !preferred(
                            post[j],
                            post[i as int],
                        ) by {
                            if j < i {
                                let pp = choose|pp: int|
                                    0 <= pp < ids@.len() && ids@[pp].video_id@ == recs[j].video_id@;
                            } else {
                                lemma_preferred_irreflexive(r);
                            }
                        }
                        assert forall|j: int|
                            0 <= j < i && #[trigger] post[j].video_id@ == post[i as int].video_id@ implies preferred(
                            post[i as int],
                            post[j],
                        ) by {
                            let pp = choose|pp: int|
                                0 <= pp < ids@.len() && ids@[pp].video_id@ == recs[j].video_id@;
                        }
                    }
                    ids.push(r);
                    proof {
                        idx = idx.push(i as int);
                    }
                } else {
                    let ghost kp = idx[p as int];
                    if is_preferred(&r, &ids[p]) {
                        proof {
                            assert forall|q: int|
                                0 <= q < idx.len() && q != p implies kept_for_id(post, idx[q]) by {
                            }
                            assert forall|j: int|
                                0 <= j < post.len() && #[trigger] post[j].video_id@
                                    == post[i as int].video_id@ implies !preferred(
                                post[j],
                                post[i as int],
                            ) by {
                                if j < i {
                                    if preferred(recs[j], r) {
                                        lemma_preferred_transitive(recs[j], r, recs[kp]);
                                    }
                                } else {
                                    lemma_preferred_irreflexive(r);
                                }
                            }
                            assert forall|j: int|
                                0 <= j < i && #[trigger] post[j].video_id@
                                    == post[i as int].video_id@ implies preferred(
                                post[i as int],
                                post[j],
                            ) by {
                                lemma_preferred_over_weaker(r, recs[kp], recs[j]);
                            }
                        }
                        ids.set(p, r);
                        proof {
                            idx = idx.update(p as int, i as int);
                        }
                    } else {
                        proof {
                            assert forall|q: int| 0 <= q < idx.len() implies kept_for_id(
                                post,
                                idx[q],
                            ) by {
                                if q != p {
                                }
                            }
                        }
                    }
                    assert(ids@[p as int].video_id@ == recs[i as int].video_id@);
                }
            }
            proof {
                assert(forall|q: int|
                    0 <= q < ids0.len() ==> #[trigger] ids@[q].video_id@ == ids0[q].video_id@);
                assert forall|k: int|
                    0 <= k < i + 1 && has_id(#[trigger] recs[k]) implies exists|q: int|
                        0 <= q < ids@.len() && ids@[q].video_id@ == recs[k].video_id@ by {
                    if k < i {
                        let pp = choose|pp: int|
                            0 <= pp < ids0.len() && ids0[pp].video_id@ == recs[k].video_id@;
                        assert(ids@[pp].video_id@ == ids0[pp].video_id@);
                    } else {
                        if has_id(recs[i as int]) {
                            let pp = choose|pp: int|
                                0 <= pp < ids@.len() && ids@[pp].video_id@ == recs[i as int].video_id@;
                        }
                    }
                }
            }
            i += 1;
        }
        assert(recs.take(n as int) =~= recs);
        let ghost id_part = ids@;
        let mut out = ids;
        let mut j: usize = 0;
        while j < no_id.len()
            invariant
                j <= no_id@.len(),
                out@ == id_part + no_id@.take(j as int),
            decreases no_id@.len() - j,
        {
            out.push(no_id[j].duplicate());
            j += 1;
        }
        proof {
            let m = out@.len() - records_without_id(recs).len();
            assert(out@.subrange(0, m) =~= id_part);
            assert(out@.subrange(m, out@.len() as int) =~= no_id@);
            assert forall|q: int| 0 <= q < idx.len() implies kept_for_id(recs, #[trigger] idx[q])
                && id_part[q] == recs[idx[q]] by {
            }
            lemma_dedup_from_index(recs, id_part, idx);
        }
        out
    }

    /// Deduplicates the records as `deduplicate_vec` does and returns the deduplicated
    /// records with the number of records removed; the caller saves them when that
    /// number is not zero.
    pub fn deduplicate_records(records: Vec<DownloadRecord>) -> (r: (Vec<DownloadRecord>, usize))
        ensures
            dedup_result(records@, r.0@),
            r.1 == records@.len() - r.0@.len(),
    {
        let original_count = records.len();
        let deduped = Self::deduplicate_vec(records);
        let removed = original_count - deduped.len();
        (deduped, removed)
    }

    // ── Recounting ──────────────────────────────────────────────────

    /// The number of completed records (as a `u32`, wrapping like the stored counter)
    /// and, when the stored state disagrees with it, the state to save instead.
    pub fn recompute_total_downloads(records: &Vec<DownloadRecord>, state: &AppState) -> (r: (
        u32,
        Option<AppState>,
    ))
        ensures
            r.0 == completed_count(records@) as u32,
            state.total_downloads == r.0 ==> r.1 is None,
            state.total_downloads != r.0 ==> (r.1 matches Some(s) && s.total_downloads == r.0
                && s.last_check_time == state.last_check_time),
    {
        let actual = Self::count_completed(records);
        if state.total_downloads != actual {
            let last = match &state.last_check_time {
                Some(t) => Some(t.clone()),
                None => None,
            };
            (actual, Some(AppState { last_check_time: last, total_downloads: actual }))
        } else {
            (actual, None)
        }
    }

    fn count_completed(records: &Vec<DownloadRecord>) -> (c: u32)
        ensures
            c == completed_count(records@) as u32,
    {
        let mut c: usize = 0;
        let mut i: usize = 0;
        while i < records.len()
            invariant
                i <= records@.len(),
                c == completed_count(records@.take(i as int)),
                c <= i,
            decreases records@.len() - i,
        {
            assert(records@.take(i + 1).drop_last() =~= records@.take(i as int));
            if str_eq(records[i].status.as_str(), "completed") {
                c = c + 1;
            }
            i += 1;
        }
        assert(records@.take(records@.len() as int) =~= records@);
        #[verifier::truncate]
        (c as u32)
    }

    fn count_completed_for(records: &Vec<DownloadRecord>, sub_id: &str) -> (c: u32)
        ensures
            c == completed_count_for(records@, sub_id@) as u32,
    {
        let mut c: usize = 0;
        let mut i: usize = 0;
        while i < records.len()
            invariant
                i <= records@.len(),
                c == completed_count_for(records@.take(i as int), sub_id@),
                c <= i,
            decreases records@.len() - i,
        {
            assert(records@.take(i + 1).drop_last() =~= records@.take(i as int));
            if str_eq(records[i].subscription_id.as_str(), sub_id) && str_eq(
                records[i].status.as_str(),
                "completed",
            ) {
                c = c + 1;
            }
            i += 1;
        }
        assert(records@.take(records@.len() as int) =~= records@);
        #[verifier::truncate]
        (c as u32)
    }

    /// Sets every subscription's download count to the number of its completed records
    /// (as a `u32`) and reports whether any count changed; the caller saves the
    /// subscriptions when it did. Nothing else of a subscription changes.
    pub fn recompute_subscription_download_counts(
        subs: &mut Vec<Subscription>,
        records: &Vec<DownloadRecord>,
    ) -> (changed: bool)
        ensures
            final(subs)@.len() == old(subs)@.len(),
            forall|i: int|
                0 <= i < old(subs)@.len() ==> #[trigger] final(subs)@[i] == (Subscription {
                    download_count: completed_count_for(records@, old(subs)@[i].id@) as u32,
                    ..old(subs)@[i]
                }),
            changed == exists|i: int|
                0 <= i < old(subs)@.len() && #[trigger] old(subs)@[i].download_count
                    != completed_count_for(records@, old(subs)@[i].id@) as u32,
    {
        let ghost old_subs = subs@;
        let mut changed = false;
        let mut i: usize = 0;
        while i < subs.len()
            invariant
                subs@.len() == old_subs.len(),
                i <= subs@.len(),
                forall|j: int|
                    0 <= j < i ==> #[trigger] subs@[j] == (Subscription {
                        download_count: completed_count_for(records@, old_subs[j].id@) as u32,
                        ..old_subs[j]
                    }),
                forall|j: int| i <= j < subs@.len() ==> #[trigger] subs@[j] == old_subs[j],
                changed == exists|j: int|
                    0 <= j < i && #[trigger] old_subs[j].download_count != completed_count_for(
                        records@,
                        old_subs[j].id@,
                    ) as u32,
            decreases subs@.len() - i,
        {
            let count = Self::count_completed_for(records, subs[i].id.as_str());
            if subs[i].download_count != count {
                changed = true;
            }
            let mut sub = subs.remove(i);
            sub.download_count = count;
            subs.insert(i, sub);
            i += 1;
        }
        changed
    }
}

} // verus!
