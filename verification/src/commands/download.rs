//! Repairs of download records across application restarts.

use vstd::prelude::*;
use vstd::string::*;
use vstd::utf8::{decode_utf8, encode_utf8, is_char_boundary};

use crate::error::AppError;
use crate::find::{first_where, lemma_first_where_none, lemma_first_where_some};
use crate::models::{DownloadRecord, HealthStatus, Subscription};
use crate::services::download_queue::has_subscription_id;
use crate::services::ytdlp::VideoInfo;
use crate::stamp::{naive_date_parse, naive_datetime_parse, parse_naive_date, parse_naive_datetime};
use crate::text::{decimal, push_char, push_decimal, str_eq};

verus! {

/// The record belongs to a download that was running or paused.
pub open spec fn interrupted(r: DownloadRecord) -> bool {
    r.status@ == "downloading"@ || r.status@ == "paused"@
}

/// `b` is `a` after recovery: an interrupted record becomes "failed" with the error
/// "Application restarted"; any other record stays as it was.
pub open spec fn recovered(a: DownloadRecord, b: DownloadRecord) -> bool {
    if interrupted(a) {
        &&& b.status@ == "failed"@
        &&& b.error_message matches Some(e) && e@ == "Application restarted"@
        &&& b.id == a.id
        &&& b.subscription_id == a.subscription_id
        &&& b.video_title == a.video_title
        &&& b.video_url == a.video_url
        &&& b.file_path == a.file_path
        &&& b.file_size == a.file_size
        &&& b.downloaded_at == a.downloaded_at
        &&& b.video_id == a.video_id
    } else {
        b == a
    }
}

/// `after` is `before` with every record recovered; `changed` tells whether any record
/// was interrupted.
pub open spec fn recovery(before: Seq<DownloadRecord>, after: Seq<DownloadRecord>, changed: bool) -> bool {
    &&& after.len() == before.len()
    &&& forall|i: int| 0 <= i < before.len() ==> recovered(before[i], #[trigger] after[i])
    &&& changed == exists|i: int| 0 <= i < before.len() && interrupted(#[trigger] before[i])
}

/// Marks the downloads that were running or paused when the application stopped as
/// failed ("Application restarted"), since their processes are gone. Reports whether
/// any record changed; the caller saves the records when one did.
pub fn recover_state(records: &mut Vec<DownloadRecord>) -> (changed: bool)
    ensures
        recovery(old(records)@, final(records)@, changed),
{
    let ghost before = records@;
    let mut changed = false;
    let mut i: usize = 0;
    while i < records.len()
        invariant
            records@.len() == before.len(),
            i <= records@.len(),
            forall|j: int| 0 <= j < i ==> recovered(before[j], #[trigger] records@[j]),
            forall|j: int| i <= j < records@.len() ==> #[trigger] records@[j] == before[j],
            changed == exists|j: int| 0 <= j < i && interrupted(#[trigger] before[j]),
        decreases records@.len() - i,
    {
        let st = records[i].status.as_str();
        if str_eq(st, "downloading") || str_eq(st, "paused") {
            let mut r = records.remove(i);
            r.status = String::from_str("failed");
            r.error_message = Some(String::from_str("Application restarted"));
            records.insert(i, r);
            changed = true;
        }
        i += 1;
    }
    changed
}

/// After a recovery no record is left running or paused, so recovering again changes
/// nothing.
pub proof fn law_recovery_is_idempotent(
    a: Seq<DownloadRecord>,
    b: Seq<DownloadRecord>,
    c: Seq<DownloadRecord>,
    changed1: bool,
    changed2: bool,
)
    requires
        recovery(a, b, changed1),
        recovery(b, c, changed2),
    ensures
        forall|i: int| 0 <= i < b.len() ==> !interrupted(#[trigger] b[i]),
        !changed2,
        c == b,
{
    assert forall|i: int| 0 <= i < b.len() implies !interrupted(#[trigger] b[i]) by {
        if interrupted(a[i]) {
            reveal_strlit("failed");
            reveal_strlit("downloading");
            reveal_strlit("paused");
            assert("failed"@[0] != "paused"@[0]);
        }
    }
    assert(c =~= b) by {
        assert forall|i: int| 0 <= i < b.len() implies c[i] == b[i] by {
        }
    }
}


// ── The date from which a check asks yt-dlp for videos ───────────────

/// `n` zeros.
pub open spec fn zeros(n: nat) -> Seq<char>
    decreases n,
{
    if n == 0 {
        seq![]
    } else {
        zeros((n - 1) as nat).push('0')
    }
}

/// The decimal notation of `n`, zero-padded on the left to `width` digits.
pub open spec fn padded(n: nat, width: nat) -> Seq<char> {
    let d = decimal(n);
    if d.len() < width {
        zeros((width - d.len()) as nat) + d
    } else {
        d
    }
}

/// A year as chrono's `%Y` writes it: four digits, zero-padded, with a sign before
/// years outside 0..=9999.
pub open spec fn year_text(y: int) -> Seq<char> {
    if 0 <= y <= 9999 {
        padded(y as nat, 4)
    } else if y > 9999 {
        seq!['+'] + padded(y as nat, 4)
    } else {
        seq!['-'] + padded((-y) as nat, 4)
    }
}

/// A date as chrono's `%Y%m%d` writes it.
pub open spec fn compact_date(d: (i32, u32, u32)) -> Seq<char> {
    year_text(d.0 as int) + padded(d.1 as nat, 2) + padded(d.2 as nat, 2)
}

fn push_padded(s: &mut String, n: u64, width: usize)
    ensures
        final(s)@ == old(s)@ + padded(n as nat, width as nat),
{
    let mut t = String::new();
    push_decimal(&mut t, n);
    let len = t.unicode_len();
    if len < width {
        let mut k: usize = 0;
        let ghost start = s@;
        while k < width - len
            invariant
                len < width,
                k <= width - len,
                s@ == start + zeros(k as nat),
            decreases width - len - k,
        {
            push_char(s, '0');
            k += 1;
        }
    }
    s.append(t.as_str());
}

fn compact_date_text(d: (i32, u32, u32)) -> (r: String)
    ensures
        r@ == compact_date(d),
{
    let (y, m, dd) = d;
    let mut r = String::new();
    if 0 <= y && y <= 9999 {
        push_padded(&mut r, y as u64, 4);
    } else if y > 9999 {
        push_char(&mut r, '+');
        push_padded(&mut r, y as u64, 4);
    } else {
        push_char(&mut r, '-');
        let a: i64 = -(y as i64);
        push_padded(&mut r, a as u64, 4);
    }
    push_padded(&mut r, m as u64, 2);
    push_padded(&mut r, dd as u64, 2);
    r
}

/// The first ten bytes of `t` end on a character boundary.
pub open spec fn has_ten_byte_prefix(t: Seq<char>) -> bool {
    is_char_boundary(encode_utf8(t), 10)
}

/// The characters of the first ten bytes of `t`.
pub open spec fn ten_byte_prefix(t: Seq<char>) -> Seq<char> {
    decode_utf8(encode_utf8(t).subrange(0, 10))
}

/// The date filter a check uses for the last check time `t`: its date read as a
/// date-time with fractional seconds and a `Z`, else without fractions, else from its
/// first ten bytes as a plain date, written as `YYYYMMDD`; no filter where none of
/// these reads. Outside result `None`: the first ten bytes do not end on a character
/// boundary (or there are fewer), where slicing them fails.
pub open spec fn since_date_of(t: Seq<char>) -> Option<Option<Seq<char>>> {
    match naive_datetime_parse(t, "%Y-%m-%dT%H:%M:%S%.fZ"@) {
        Some(d) => Some(Some(compact_date(d))),
        None => match naive_datetime_parse(t, "%Y-%m-%dT%H:%M:%SZ"@) {
            Some(d) => Some(Some(compact_date(d))),
            None => if has_ten_byte_prefix(t) {
                match naive_date_parse(ten_byte_prefix(t), "%Y-%m-%d"@) {
                    Some(d) => Some(Some(compact_date(d))),
                    None => Some(None),
                }
            } else {
                None
            },
        },
    }
}

/// Computes `since_date_of(t)`. `None` marks the inputs whose first ten bytes cannot
/// be sliced off, on which the check fails.
pub fn since_date(t: &str) -> (r: Option<Option<String>>)
    ensures
        match since_date_of(t@) {
            Some(Some(x)) => r matches Some(Some(s)) && s@ == x,
            Some(None) => r == Some(None::<String>),
            None => r is None,
        },
{
    if let Some(d) = parse_naive_datetime(t, "%Y-%m-%dT%H:%M:%S%.fZ") {
        return Some(Some(compact_date_text(d)));
    }
    if let Some(d) = parse_naive_datetime(t, "%Y-%m-%dT%H:%M:%SZ") {
        return Some(Some(compact_date_text(d)));
    }
    if !t.is_char_boundary(10) {
        return None;
    }
    let (head, _rest) = t.split_at(10);
    proof {
        vstd::utf8::encode_utf8_decode_utf8(head@);
    }
    match parse_naive_date(head, "%Y-%m-%d") {
        Some(d) => Some(Some(compact_date_text(d))),
        None => Some(None),
    }
}


// ── Which videos of a check are new ─────────────────────────────────

/// A record that counts as downloaded already: any but a failed one, which may be
/// retried.
pub open spec fn blocks_retry(r: DownloadRecord) -> bool {
    r.status@ != "failed"@
}

/// The video ids of the records that count as downloaded (empty ids left out).
pub open spec fn seen_ids_of(recs: Seq<DownloadRecord>) -> Set<Seq<char>> {
    Set::new(
        |v: Seq<char>|
            exists|i: int|
                0 <= i < recs.len() && blocks_retry(#[trigger] recs[i]) && recs[i].video_id@.len() > 0
                    && recs[i].video_id@ == v,
    )
}

/// The video URLs of the records that count as downloaded.
pub open spec fn seen_urls_of(recs: Seq<DownloadRecord>) -> Set<Seq<char>> {
    Set::new(
        |u: Seq<char>|
            exists|i: int| 0 <= i < recs.len() && blocks_retry(#[trigger] recs[i]) && recs[i].video_url@ == u,
    )
}

/// The id of a listed video, empty when it has none.
pub open spec fn video_key(v: VideoInfo) -> Seq<char> {
    match v.id {
        Some(id) => id@,
        None => seq![],
    }
}

/// A video counts as seen when its id is among `ids`, or, for a video without id,
/// when its URL is among `urls`.
pub open spec fn is_seen(ids: Set<Seq<char>>, urls: Set<Seq<char>>, video_id: Seq<char>, url: Seq<char>) -> bool {
    if video_id.len() > 0 {
        ids.contains(video_id)
    } else {
        urls.contains(url)
    }
}

/// Walks `vs` in order: a video that is not seen is new and is then seen (by its id,
/// or by its URL when it has no id). Gives the seen ids and URLs after the walk and
/// the new videos in order.
pub open spec fn scan_new(ids: Set<Seq<char>>, urls: Set<Seq<char>>, vs: Seq<VideoInfo>) -> (
    Set<Seq<char>>,
    Set<Seq<char>>,
    Seq<VideoInfo>,
)
    decreases vs.len(),
{
    if vs.len() == 0 {
        (ids, urls, seq![])
    } else {
        let (i0, u0, new0) = scan_new(ids, urls, vs.drop_last());
        let v = vs.last();
        let k = video_key(v);
        if is_seen(i0, u0, k, v.url@) {
            (i0, u0, new0)
        } else if k.len() > 0 {
            (i0.insert(k), u0, new0.push(v))
        } else {
            (i0, u0.insert(v.url@), new0.push(v))
        }
    }
}

/// The ids and URLs of downloads seen so far during a check.
pub struct SeenVideos {
    ids: Vec<String>,
    urls: Vec<String>,
}

/// The texts held by `v`, as a set.
pub open spec fn text_set(v: Seq<String>) -> Set<Seq<char>> {
    Set::new(|x: Seq<char>| exists|i: int| 0 <= i < v.len() && (#[trigger] v[i])@ == x)
}

fn holds_text(v: &Vec<String>, x: &str) -> (r: bool)
    ensures
        r == text_set(v@).contains(x@),
{
    let mut i: usize = 0;
    while i < v.len()
        invariant
            i <= v@.len(),
            forall|j: int| 0 <= j < i ==> (#[trigger] v@[j])@ != x@,
        decreases v@.len() - i,
    {
        if str_eq(v[i].as_str(), x) {
            assert(text_set(v@).contains(x@));
            return true;
        }
        i += 1;
    }
    false
}

impl SeenVideos {
    /// The seen ids.
    pub closed spec fn id_set(&self) -> Set<Seq<char>> {
        text_set(self.ids@)
    }

    /// The seen URLs.
    pub closed spec fn url_set(&self) -> Set<Seq<char>> {
        text_set(self.urls@)
    }

    /// What the existing records have downloaded already: the ids and URLs of every
    /// record that is not failed (empty ids left out).
    pub fn from_records(existing: &Vec<DownloadRecord>) -> (s: Self)
        ensures
            s.id_set() == seen_ids_of(existing@),
            s.url_set() == seen_urls_of(existing@),
    {
        let mut ids: Vec<String> = Vec::new();
        let mut urls: Vec<String> = Vec::new();
        let mut i: usize = 0;
        while i < existing.len()
            invariant
                i <= existing@.len(),
                text_set(ids@) == seen_ids_of(existing@.take(i as int)),
                text_set(urls@) == seen_urls_of(existing@.take(i as int)),
            decreases existing@.len() - i,
        {
            let r = &existing[i];
            let ghost before_ids = ids@;
            let ghost before_urls = urls@;
            let ghost pre = existing@.take(i as int);
            let ghost post = existing@.take(i + 1);
            if !str_eq(r.status.as_str(), "failed") {
                if r.video_id.unicode_len() > 0 {
                    ids.push(r.video_id.clone());
                }
                urls.push(r.video_url.clone());
            }
            assert(text_set(ids@) =~= seen_ids_of(post)) by {
                assert forall|x: Seq<char>| text_set(ids@).contains(x) implies seen_ids_of(post).contains(x) by {
                    let j = choose|j: int| 0 <= j < ids@.len() && (#[trigger] ids@[j])@ == x;
                    if j < before_ids.len() {
                        assert(text_set(before_ids).contains(x));
                        let k = choose|k: int|
                            0 <= k < pre.len() && blocks_retry(#[trigger] pre[k]) && pre[k].video_id@.len() > 0
                                && pre[k].video_id@ == x;
                    } else {
                    }
                }
                assert forall|x: Seq<char>| seen_ids_of(post).contains(x) implies text_set(ids@).contains(x) by {
                    let k = choose|k: int|
                        0 <= k < post.len() && blocks_retry(#[trigger] post[k]) && post[k].video_id@.len() > 0
                            && post[k].video_id@ == x;
                    if k < i {
                        assert(seen_ids_of(pre).contains(x));
                        let j = choose|j: int| 0 <= j < before_ids.len() && (#[trigger] before_ids[j])@ == x;
                        assert(ids@[j] == before_ids[j]);
                    } else {
                        assert(ids@.last()@ == x);
                    }
                }
            }
            assert(text_set(urls@) =~= seen_urls_of(post)) by {
                assert forall|x: Seq<char>| text_set(urls@).contains(x) implies seen_urls_of(post).contains(x) by {
                    let j = choose|j: int| 0 <= j < urls@.len() && (#[trigger] urls@[j])@ == x;
                    if j < before_urls.len() {
                        assert(text_set(before_urls).contains(x));
                        let k = choose|k: int|
                            0 <= k < pre.len() && blocks_retry(#[trigger] pre[k]) && pre[k].video_url@ == x;
                    } else {
                        assert(post[i as int] == *r);
                    }
                }
                assert forall|x: Seq<char>| seen_urls_of(post).contains(x) implies text_set(urls@).contains(x) by {
                    let k = choose|k: int|
                        0 <= k < post.len() && blocks_retry(#[trigger] post[k]) && post[k].video_url@ == x;
                    if k < i {
                        assert(seen_urls_of(pre).contains(x));
                        let j = choose|j: int| 0 <= j < before_urls.len() && (#[trigger] before_urls[j])@ == x;
                        assert(urls@[j] == before_urls[j]);
                    } else {
                        assert(urls@.last()@ == x);
                    }
                }
            }
            i += 1;
        }
        assert(existing@.take(i as int) =~= existing@);
        SeenVideos { ids, urls }
    }

    /// Whether a video with id `video_id` (empty for none) and URL `video_url` counts
    /// as downloaded already.
    pub fn is_seen(&self, video_id: &str, video_url: &str) -> (r: bool)
        ensures
            r == is_seen(self.id_set(), self.url_set(), video_id@, video_url@),
    {
        if video_id.unicode_len() > 0 {
            holds_text(&self.ids, video_id)
        } else {
            holds_text(&self.urls, video_url)
        }
    }

    /// Admits a video unless it is seen; an admitted video is seen from now on, by its
    /// id, or by its URL when it has none. Returns whether it was admitted.
    pub fn take_if_new(&mut self, video_id: &str, video_url: &str) -> (admitted: bool)
        ensures
            admitted == !is_seen(old(self).id_set(), old(self).url_set(), video_id@, video_url@),
            admitted && video_id@.len() > 0 ==> final(self).id_set() == old(self).id_set().insert(
                video_id@,
            ) && final(self).url_set() == old(self).url_set(),
            admitted && video_id@.len() == 0 ==> final(self).url_set() == old(self).url_set().insert(
                video_url@,
            ) && final(self).id_set() == old(self).id_set(),
            !admitted ==> final(self).id_set() == old(self).id_set() && final(self).url_set()
                == old(self).url_set(),
    {
        if self.is_seen(video_id, video_url) {
            return false;
        }
        if video_id.unicode_len() > 0 {
            let ghost before = self.ids@;
            self.ids.push(String::from_str(video_id));
            assert(text_set(self.ids@) =~= text_set(before).insert(video_id@)) by {
                assert forall|x: Seq<char>| text_set(self.ids@).contains(x) implies text_set(before).insert(video_id@).contains(x) by {
                    let j = choose|j: int| 0 <= j < self.ids@.len() && (#[trigger] self.ids@[j])@ == x;
                    if j < before.len() {
                    }
                }
                assert forall|x: Seq<char>| text_set(before).insert(video_id@).contains(x) implies text_set(self.ids@).contains(x) by {
                    if x == video_id@ {
                        assert(self.ids@.last()@ == x);
                    } else {
                        let j = choose|j: int| 0 <= j < before.len() && (#[trigger] before[j])@ == x;
                        assert(self.ids@[j] == before[j]);
                    }
                }
            }
        } else {
            let ghost before = self.urls@;
            self.urls.push(String::from_str(video_url));
            assert(text_set(self.urls@) =~= text_set(before).insert(video_url@)) by {
                assert forall|x: Seq<char>| text_set(self.urls@).contains(x) implies text_set(before).insert(video_url@).contains(x) by {
                    let j = choose|j: int| 0 <= j < self.urls@.len() && (#[trigger] self.urls@[j])@ == x;
                    if j < before.len() {
                    }
                }
                assert forall|x: Seq<char>| text_set(before).insert(video_url@).contains(x) implies text_set(self.urls@).contains(x) by {
                    if x == video_url@ {
                        assert(self.urls@.last()@ == x);
                    } else {
                        let j = choose|j: int| 0 <= j < before.len() && (#[trigger] before[j])@ == x;
                        assert(self.urls@[j] == before[j]);
                    }
                }
            }
        }
        true
    }
}

/// Whether a video counts as downloaded already by the existing records (a failed
/// record does not count, so the video is retried).
pub fn already_downloaded(existing: &Vec<DownloadRecord>, video_id: &str, video_url: &str) -> (r: bool)
    ensures
        r == is_seen(seen_ids_of(existing@), seen_urls_of(existing@), video_id@, video_url@),
{
    let seen = SeenVideos::from_records(existing);
    seen.is_seen(video_id, video_url)
}

/// The videos of a check that are new: in listing order, those not downloaded already
/// and not listed before in the same check (see `scan_new`).
pub fn new_videos(existing: &Vec<DownloadRecord>, videos: Vec<VideoInfo>) -> (out: Vec<VideoInfo>)
    ensures
        out@ == scan_new(seen_ids_of(existing@), seen_urls_of(existing@), videos@).2,
{
    let mut seen = SeenVideos::from_records(existing);
    let ghost ids0 = seen_ids_of(existing@);
    let ghost urls0 = seen_urls_of(existing@);
    let ghost vs = videos@;
    let total = videos.len();
    let mut out: Vec<VideoInfo> = Vec::new();
    let mut videos = videos;
    let mut rest: Vec<VideoInfo> = Vec::new();
    while videos.len() > 0
        invariant
            videos@.len() + rest@.len() == vs.len(),
            forall|i: int| 0 <= i < videos@.len() ==> #[trigger] videos@[i] == vs[i],
            forall|j: int| 0 <= j < rest@.len() ==> #[trigger] rest@[j] == vs[vs.len() - 1 - j],
        decreases videos@.len(),
    {
        let v = videos.pop().unwrap();
        rest.push(v);
    }
    let mut k: usize = 0;
    while rest.len() > 0
        invariant
            k + rest@.len() == vs.len(),
            vs.len() == total,
            forall|j: int| 0 <= j < rest@.len() ==> #[trigger] rest@[j] == vs[vs.len() - 1 - j],
            seen.id_set() == scan_new(ids0, urls0, vs.take(k as int)).0,
            seen.url_set() == scan_new(ids0, urls0, vs.take(k as int)).1,
            out@ == scan_new(ids0, urls0, vs.take(k as int)).2,
        decreases rest@.len(),
    {
        let v = rest.pop().unwrap();
        assert(vs.take(k + 1).drop_last() =~= vs.take(k as int));
        let admitted = match &v.id {
            Some(id) => seen.take_if_new(id.as_str(), v.url.as_str()),
            None => seen.take_if_new("", v.url.as_str()),
        };
        proof {
            reveal_strlit("");
        }
        if admitted {
            out.push(v);
        }
        k += 1;
    }
    assert(vs.take(k as int) =~= vs);
    out
}

/// A video the walk reports as new was not seen at the start: by its id when it has
/// one, else by its URL; and what was seen at the start stays seen.
proof fn lemma_scan_new_unseen(ids: Set<Seq<char>>, urls: Set<Seq<char>>, vs: Seq<VideoInfo>)
    ensures
        ids.subset_of(scan_new(ids, urls, vs).0),
        urls.subset_of(scan_new(ids, urls, vs).1),
        forall|j: int|
            0 <= j < scan_new(ids, urls, vs).2.len() ==> {
                let v = #[trigger] scan_new(ids, urls, vs).2[j];
                &&& video_key(v).len() > 0 ==> !ids.contains(video_key(v))
                &&& video_key(v).len() == 0 ==> !urls.contains(v.url@)
            },
    decreases vs.len(),
{
    if vs.len() > 0 {
        lemma_scan_new_unseen(ids, urls, vs.drop_last());
    }
}

/// The keys the walk has seen at its end: those seen at the start and the id of every
/// listed video that has one.
proof fn lemma_scan_new_ids(ids: Set<Seq<char>>, urls: Set<Seq<char>>, vs: Seq<VideoInfo>)
    ensures
        forall|x: Seq<char>|
            #[trigger] scan_new(ids, urls, vs).0.contains(x) <==> ids.contains(x) || exists|q: int|
                0 <= q < vs.len() && video_key(vs[q]).len() > 0 && video_key(vs[q]) == x,
        forall|x: Seq<char>|
            #[trigger] scan_new(ids, urls, vs).1.contains(x) ==> urls.contains(x) || exists|q: int|
                0 <= q < vs.len() && video_key(vs[q]).len() == 0 && vs[q].url@ == x,
        forall|x: Seq<char>| urls.contains(x) ==> #[trigger] scan_new(ids, urls, vs).1.contains(x),
        forall|q: int|
            0 <= q < vs.len() && video_key(vs[q]).len() == 0 ==> #[trigger] scan_new(ids, urls, vs).1.contains(
                vs[q].url@,
            ),
    decreases vs.len(),
{
    if vs.len() > 0 {
        let pre = vs.drop_last();
        lemma_scan_new_ids(ids, urls, pre);
        let (i0, u0, n0) = scan_new(ids, urls, pre);
        let v = vs.last();
        let k = video_key(v);
        assert(vs[vs.len() - 1] == v);
        assert(forall|x: Seq<char>| #[trigger] scan_new(ids, urls, vs).0.contains(x) <==> i0.contains(x) || (
        k.len() > 0 && x == k));
        assert(forall|x: Seq<char>| u0.contains(x) ==> #[trigger] scan_new(ids, urls, vs).1.contains(x));
        assert forall|x: Seq<char>|
            #[trigger] scan_new(ids, urls, vs).0.contains(x) <==> ids.contains(x) || exists|q: int|
                0 <= q < vs.len() && video_key(vs[q]).len() > 0 && video_key(vs[q]) == x by {
            if exists|q: int| 0 <= q < vs.len() && video_key(vs[q]).len() > 0 && video_key(vs[q]) == x {
                let q = choose|q: int| 0 <= q < vs.len() && video_key(vs[q]).len() > 0 && video_key(vs[q]) == x;
                if q < pre.len() {
                    assert(pre[q] == vs[q]);
                }
            }
            if exists|q: int| 0 <= q < pre.len() && video_key(pre[q]).len() > 0 && video_key(pre[q]) == x {
                let q = choose|q: int| 0 <= q < pre.len() && video_key(pre[q]).len() > 0 && video_key(pre[q]) == x;
                assert(vs[q] == pre[q]);
            }
        }
        assert forall|x: Seq<char>| #[trigger] scan_new(ids, urls, vs).1.contains(x) implies urls.contains(x)
            || exists|q: int| 0 <= q < vs.len() && video_key(vs[q]).len() == 0 && vs[q].url@ == x by {
            if scan_new(ids, urls, pre).1.contains(x) {
                if !urls.contains(x) {
                    let q = choose|q: int| 0 <= q < pre.len() && video_key(pre[q]).len() == 0 && pre[q].url@ == x;
                    assert(vs[q] == pre[q]);
                }
            } else {
                assert(vs[vs.len() - 1] == vs.last());
            }
        }
        assert forall|q: int| 0 <= q < vs.len() && video_key(vs[q]).len() == 0 implies #[trigger] scan_new(
            ids,
            urls,
            vs,
        ).1.contains(vs[q].url@) by {
            if q < pre.len() {
                assert(pre[q] == vs[q]);
                assert(scan_new(ids, urls, pre).1.contains(pre[q].url@));
            }
        }
    }
}

/// The new videos of a longer listing begin with those of its first part.
proof fn lemma_scan_new_prefix(ids: Set<Seq<char>>, urls: Set<Seq<char>>, vs: Seq<VideoInfo>, n: int)
    requires
        0 <= n <= vs.len(),
    ensures
        scan_new(ids, urls, vs.take(n)).2.is_prefix_of(scan_new(ids, urls, vs).2),
    decreases vs.len() - n,
{
    if n < vs.len() {
        lemma_scan_new_prefix(ids, urls, vs, n + 1);
        assert(vs.take(n + 1).drop_last() =~= vs.take(n));
    } else {
        assert(vs.take(n) =~= vs);
    }
}

/// A listed video is reported as new when nothing blocks it: by id, when no record other
/// than a failed one has its id and no earlier listed video has it; without an id, when
/// no record other than a failed one has its URL and no earlier video without an id has
/// it. So a video whose only records failed is fetched again.
pub proof fn law_unblocked_video_is_new(existing: Seq<DownloadRecord>, videos: Seq<VideoInfo>, j: int)
    requires
        0 <= j < videos.len(),
        video_key(videos[j]).len() > 0 ==> {
            &&& forall|i: int|
                0 <= i < existing.len() && existing[i].video_id@ == video_key(videos[j]) ==> existing[i].status@
                    == "failed"@
            &&& forall|q: int| 0 <= q < j ==> video_key(videos[q]) != video_key(videos[j])
        },
        video_key(videos[j]).len() == 0 ==> {
            &&& forall|i: int|
                0 <= i < existing.len() && existing[i].video_url@ == videos[j].url@ ==> existing[i].status@
                    == "failed"@
            &&& forall|q: int|
                0 <= q < j && video_key(videos[q]).len() == 0 ==> videos[q].url@ != videos[j].url@
        },
    ensures
        exists|o: int|
            0 <= o < scan_new(seen_ids_of(existing), seen_urls_of(existing), videos).2.len()
                && scan_new(seen_ids_of(existing), seen_urls_of(existing), videos).2[o] == videos[j],
{
    let ids = seen_ids_of(existing);
    let urls = seen_urls_of(existing);
    let pre = videos.take(j);
    let upto = videos.take(j + 1);
    assert(upto.drop_last() =~= pre);
    let v = videos[j];
    let k = video_key(v);
    lemma_scan_new_ids(ids, urls, pre);
    let (i0, u0, new0) = scan_new(ids, urls, pre);
    if k.len() > 0 {
        assert(!ids.contains(k));
        if exists|q: int| 0 <= q < pre.len() && video_key(pre[q]).len() > 0 && video_key(pre[q]) == k {
            let q = choose|q: int| 0 <= q < pre.len() && video_key(pre[q]).len() > 0 && video_key(pre[q]) == k;
            assert(pre[q] == videos[q]);
        }
        assert(!i0.contains(k));
    } else {
        assert(!urls.contains(v.url@));
        if u0.contains(v.url@) {
            let q = choose|q: int| 0 <= q < pre.len() && video_key(pre[q]).len() == 0 && pre[q].url@ == v.url@;
            assert(pre[q] == videos[q]);
        }
    }
    assert(scan_new(ids, urls, upto).2 == new0.push(v));
    lemma_scan_new_prefix(ids, urls, videos, j + 1);
    let out = scan_new(ids, urls, videos).2;
    assert(out[new0.len() as int] == scan_new(ids, urls, upto).2[new0.len() as int]);
}

/// No video that an existing record other than a failed one has downloaded, or is
/// downloading, paused or cancelled, is reported as new: neither one with the record's
/// (non-empty) video id, nor, among videos without an id, one with the record's URL.
/// Only a failed record lets its video be fetched again.
pub proof fn law_only_failed_records_allow_retry(existing: Seq<DownloadRecord>, videos: Seq<VideoInfo>, i: int, j: int)
    requires
        0 <= i < existing.len(),
        existing[i].status@ != "failed"@,
        0 <= j < scan_new(seen_ids_of(existing), seen_urls_of(existing), videos).2.len(),
    ensures
        ({
            let v = scan_new(seen_ids_of(existing), seen_urls_of(existing), videos).2[j];
            &&& existing[i].video_id@.len() > 0 ==> video_key(v) != existing[i].video_id@
            &&& video_key(v).len() == 0 ==> v.url@ != existing[i].video_url@
        }),
{
    let ids = seen_ids_of(existing);
    let urls = seen_urls_of(existing);
    lemma_scan_new_unseen(ids, urls, videos);
    let v = scan_new(ids, urls, videos).2[j];
    if existing[i].video_id@.len() > 0 {
        assert(ids.contains(existing[i].video_id@));
    }
    assert(urls.contains(existing[i].video_url@));
}

// ── Bookkeeping of a check ──────────────────────────────────────────

/// Finds the subscription to check; fails with "not found" when no subscription has
/// that id.
pub fn find_subscription(subs: &Vec<Subscription>, id: &str) -> (r: Result<usize, AppError>)
    ensures
        match first_where(subs@, has_subscription_id(id@)) {
            Some(p) => r == Ok::<usize, AppError>(p as usize),
            None => r matches Err(AppError::NotFound(m)) && m@ == "Subscription not found: "@ + id@,
        },
{
    let ghost pred = has_subscription_id(id@);
    let mut p: usize = 0;
    while p < subs.len()
        invariant
            pred == has_subscription_id(id@),
            p <= subs@.len(),
            forall|q: int| 0 <= q < p ==> !pred(#[trigger] subs@[q]),
        decreases subs@.len() - p,
    {
        if str_eq(subs[p].id.as_str(), id) {
            proof {
                lemma_first_where_some(subs@, pred, p as int);
            }
            return Ok(p);
        }
        p += 1;
    }
    proof {
        lemma_first_where_none(subs@, pred);
    }
    let mut m = String::from_str("Subscription not found: ");
    m.append(id);
    Err(AppError::NotFound(m))
}

/// `b` is `a` after a check at `now` that ended with status `status` and error
/// `error`; nothing else changed.
pub open spec fn checked(a: Subscription, b: Subscription, now: String, status: Seq<char>, error: Option<String>) -> bool {
    &&& b == Subscription {
        last_checked_at: Some(now),
        last_check_status: b.last_check_status,
        last_check_error: error,
        ..a
    }
    &&& b.last_check_status matches Some(st) && st@ == status
}

/// Records the outcome of checking `sub` at `now`: "success" and no error, or
/// "failed" with the error's text.
pub fn record_check_outcome(sub: &mut Subscription, outcome: &Result<usize, AppError>, now: String)
    ensures
        outcome is Ok ==> checked(*old(sub), *final(sub), now, "success"@, None),
        outcome matches Err(e) ==> exists|m: String|
            m@ == crate::error::error_text(*e) && checked(*old(sub), *final(sub), now, "failed"@, Some(m)),
{
    sub.last_checked_at = Some(now);
    match outcome {
        Ok(_) => {
            sub.last_check_status = Some(String::from_str("success"));
            sub.last_check_error = None;
        },
        Err(e) => {
            let m = e.message();
            let ghost gm = m;
            sub.last_check_status = Some(String::from_str("failed"));
            sub.last_check_error = Some(m);
            assert(checked(*old(sub), *sub, now, "failed"@, Some(gm)));
        },
    }
}

// ── Pages of a channel's videos ─────────────────────────────────────

/// The playlist entries (1-based, inclusive) to fetch for page `page` of size
/// `page_size`: one more than a page, to learn whether another page follows.
pub fn playlist_range(page: u32, page_size: u32) -> (r: (u32, u32))
    requires
        page * page_size + 1 <= u32::MAX,
    ensures
        r.0 == (if page > 0 { page - 1 } else { 0 }) * page_size + 1,
        r.1 == page * page_size + 1,
{
    let before: u32 = if page > 0 {
        page - 1
    } else {
        0
    };
    assert(before * page_size <= page * page_size) by (nonlinear_arith)
        requires
            before <= page,
    ;
    (before * page_size + 1, page * page_size + 1)
}

/// Whether a page is followed by another: more entries came back than a page holds.
pub fn has_more_pages(fetched: usize, page_size: u32) -> (r: bool)
    ensures
        r == (fetched > page_size),
{
    fetched as u64 > page_size as u64
}

/// What a page shows: whether more follow, how many of the fetched entries to keep,
/// and the total to report (at least one past this page when more follow, else the
/// entries before this page and those fetched).
pub struct PageSummary {
    pub has_more: bool,
    pub keep: usize,
    pub total: usize,
}

/// Summarises a fetched page.
pub fn page_summary(page: u32, page_size: u32, fetched: usize) -> (s: PageSummary)
    requires
        page * page_size + 1 <= usize::MAX,
        (if page > 0 { page - 1 } else { 0 }) * page_size + fetched <= usize::MAX,
    ensures
        s.has_more == (fetched > page_size),
        s.keep == (if fetched > page_size { page_size as int } else { fetched as int }),
        s.total == (if fetched > page_size {
            page * page_size + 1
        } else {
            (if page > 0 { page - 1 } else { 0 }) * page_size + fetched
        }),
{
    let has_more = has_more_pages(fetched, page_size);
    let before: u64 = if page > 0 {
        (page - 1) as u64
    } else {
        0
    };
    assert(before * page_size <= page * page_size) by (nonlinear_arith)
        requires
            before <= page,
    ;
    assert(page * page_size <= 0xffff_ffff * 0xffff_ffff) by (nonlinear_arith)
        requires
            page <= 0xffff_ffff,
            page_size <= 0xffff_ffff,
    ;
    if has_more {
        let t: u64 = page as u64 * page_size as u64 + 1;
        PageSummary { has_more, keep: page_size as usize, total: t as usize }
    } else {
        let t: u64 = before * page_size as u64;
        PageSummary { has_more, keep: fetched, total: t as usize + fetched }
    }
}

/// The video list of a subscription whose channel is dead is refused.
pub fn ensure_listable(sub: &Subscription) -> (r: Result<(), String>)
    ensures
        sub.health_status == Some(HealthStatus::Dead) ==> (r matches Err(m) && m@
            == "此频道已失效，无法获取视频列表"@),
        sub.health_status != Some(HealthStatus::Dead) ==> r is Ok,
{
    match sub.health_status {
        Some(HealthStatus::Dead) => Err(String::from_str("此频道已失效，无法获取视频列表")),
        _ => Ok(()),
    }
}

/// The records of one subscription, or all records when none is named, in order.
pub fn records_of_subscription(records: Vec<DownloadRecord>, subscription_id: Option<String>) -> (out: Vec<
    DownloadRecord,
>)
    ensures
        match subscription_id {
            Some(sid) => out@ == records@.filter(|r: DownloadRecord| r.subscription_id@ == sid@),
            None => out@ == records@,
        },
{
    match subscription_id {
        None => records,
        Some(sid) => {
            let ghost pred = |r: DownloadRecord| r.subscription_id@ == sid@;
            let mut out: Vec<DownloadRecord> = Vec::new();
            let mut i: usize = 0;
            let ghost src = records@;
            let total = records.len();
            let mut records = records;
            let mut rest: Vec<DownloadRecord> = Vec::new();
            while records.len() > 0
                invariant
                    records@.len() + rest@.len() == src.len(),
                    forall|k: int| 0 <= k < records@.len() ==> #[trigger] records@[k] == src[k],
                    forall|j: int| 0 <= j < rest@.len() ==> #[trigger] rest@[j] == src[src.len() - 1 - j],
                decreases records@.len(),
            {
                let r = records.pop().unwrap();
                rest.push(r);
            }
            while rest.len() > 0
                invariant
                    pred == (|r: DownloadRecord| r.subscription_id@ == sid@),
                    i + rest@.len() == src.len(),
                    src.len() == total,
                    forall|j: int| 0 <= j < rest@.len() ==> #[trigger] rest@[j] == src[src.len() - 1 - j],
                    out@ == src.take(i as int).filter(pred),
                decreases rest@.len(),
            {
                let r = rest.pop().unwrap();
                assert(src.take(i + 1).drop_last() =~= src.take(i as int));
                reveal(Seq::filter);
                if str_eq(r.subscription_id.as_str(), sid.as_str()) {
                    out.push(r);
                }
                i += 1;
            }
            assert(src.take(i as int) =~= src);
            out
        },
    }
}

} // verus!
