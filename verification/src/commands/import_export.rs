//! Batch import of subscriptions: reading the candidate URLs from a text list, an OPML
//! outline list or a plain list, previewing them, and the bookkeeping of an import run.
//! Reading files, asking yt-dlp about each channel and reporting events are done by the
//! caller.

use vstd::prelude::*;
use vstd::string::*;
use vstd::utf8::encode_utf8;

use crate::commands::subscription::{is_subscribed, subscription_from_channel};
use crate::find::{last_where, lemma_last_where_none, lemma_last_where_some};
use crate::models::{
    ImportCompleteEvent, ImportErrorItem, ImportPreview, ImportPreviewItem, ImportProgressEvent,
    ImportResult, OpmlOutline, Subscription,
};
use crate::services::ytdlp::{texts, trimmed_nonblank, ChannelInfo};
use crate::text::{lines, lines_of, str_eq, trim, trimmed};
use crate::web::{parse_url, url_accepts};

verus! {

/// The predicate "is the character `c`".
pub open spec fn is_char(c: char) -> spec_fn(char) -> bool {
    |x: char| x == c
}

/// The file name of a `/`-separated path: what follows its last `/`.
pub open spec fn file_name_of(path: Seq<char>) -> Seq<char> {
    match last_where(path, is_char('/')) {
        Some(k) => path.skip(k + 1),
        None => path,
    }
}

/// `ext` is "opml" in any mix of upper and lower case.
pub open spec fn is_opml_text(ext: Seq<char>) -> bool {
    &&& ext.len() == 4
    &&& (ext[0] == 'o' || ext[0] == 'O')
    &&& (ext[1] == 'p' || ext[1] == 'P')
    &&& (ext[2] == 'm' || ext[2] == 'M')
    &&& (ext[3] == 'l' || ext[3] == 'L')
}

/// The file name has the extension "opml", in any case: the text after its last dot,
/// where that dot is not the name's first character (as `Path::extension` reads it).
pub open spec fn has_opml_extension(name: Seq<char>) -> bool {
    match last_where(name, is_char('.')) {
        Some(d) => d > 0 && is_opml_text(name.skip(d + 1)),
        None => false,
    }
}

/// The last position at or after `from` where `s` holds `c`.
fn last_char_at_or_after(s: &str, c: char, from: usize) -> (r: Option<usize>)
    requires
        from <= s@.len(),
    ensures
        match r {
            Some(k) => from <= k < s@.len() && s@[k as int] == c && forall|q: int| k < q < s@.len() ==> s@[q] != c,
            None => forall|q: int| from <= q < s@.len() ==> s@[q] != c,
        },
{
    let n = s.unicode_len();
    let mut i = n;
    while i > from
        invariant
            n == s@.len(),
            from <= i <= n,
            forall|q: int| i <= q < n ==> s@[q] != c,
        decreases i,
    {
        if s.get_char(i - 1) == c {
            return Some(i - 1);
        }
        i -= 1;
    }
    None
}

/// Whether an import file is read as OPML: its name has the extension "opml" in any
/// case (see `has_opml_extension`); any other file is read as a text list.
pub fn is_opml_file(path: &str) -> (r: bool)
    ensures
        r == has_opml_extension(file_name_of(path@)),
{
    let ghost p = path@;
    let _n = path.unicode_len();
    let start: usize = match last_char_at_or_after(path, '/', 0) {
        Some(k) => {
            proof {
                lemma_last_where_some(p, is_char('/'), k as int);
            }
            k + 1
        },
        None => {
            proof {
                lemma_last_where_none(p, is_char('/'));
            }
            0
        },
    };
    let ghost name = p.skip(start as int);
    assert(file_name_of(p) == name);
    match last_char_at_or_after(path, '.', start) {
        None => {
            proof {
                assert forall|q: int| 0 <= q < name.len() implies !is_char('.')(#[trigger] name[q]) by {
                    assert(name[q] == p[start + q]);
                }
                lemma_last_where_none(name, is_char('.'));
            }
            false
        },
        Some(g) => {
            let d = g - start;
            proof {
                assert(name[d as int] == p[g as int]);
                assert forall|q: int| d < q < name.len() implies !is_char('.')(#[trigger] name[q]) by {
                    assert(name[q] == p[start + q]);
                }
                lemma_last_where_some(name, is_char('.'), d as int);
            }
            let n = path.unicode_len();
            if d == 0 || n - g - 1 != 4 {
                return false;
            }
            let ext = name_ext_is_opml(path, g + 1);
            proof {
                let e = name.skip(d + 1);
                assert forall|q: int| 0 <= q < 4 implies e[q] == p[g + 1 + q] by {}
            }
            ext
        },
    }
}

/// The four characters of `s` from `at`, in lower case, spell "opml".
fn name_ext_is_opml(s: &str, at: usize) -> (r: bool)
    requires
        at + 4 == s@.len(),
    ensures
        r == is_opml_text(s@.skip(at as int)),
{
    let _n = s.unicode_len();
    let a = s.get_char(at);
    let b = s.get_char(at + 1);
    let c = s.get_char(at + 2);
    let d = s.get_char(at + 3);
    (a == 'o' || a == 'O') && (b == 'p' || b == 'P') && (c == 'm' || c == 'M') && (d == 'l' || d == 'L')
}

/// The longest URL accepted, in bytes.
pub const MAX_URL_LENGTH: usize = 2048;

/// The length of `s` in UTF-8 bytes.
pub open spec fn byte_len(s: Seq<char>) -> nat {
    encode_utf8(s).len()
}

/// The length of `s` in UTF-8 bytes.
pub fn utf8_len(s: &str) -> (n: usize)
    ensures
        n == byte_len(s@),
{
    s.as_bytes().len()
}

/// Whether `url::Url::parse` accepts `s`.
pub fn url_is_valid(s: &str) -> (r: bool)
    ensures
        r == url_accepts(s@),
{
    match parse_url(s) {
        Ok(_) => true,
        Err(_) => false,
    }
}

/// A trimmed line of a text list that is taken as a URL: not empty, not a `#`
/// comment, at most 2048 bytes, and accepted by the URL parser.
pub open spec fn is_listed_url(l: Seq<char>) -> bool {
    &&& l.len() > 0
    &&& l[0] != '#'
    &&& byte_len(l) <= MAX_URL_LENGTH
    &&& url_accepts(l)
}

/// The URLs of the lines `ls` of a text list, trimmed, in order.
pub open spec fn listed_urls(ls: Seq<Seq<char>>) -> Seq<Seq<char>>
    decreases ls.len(),
{
    if ls.len() == 0 {
        seq![]
    } else {
        let rest = listed_urls(ls.drop_last());
        let t = trimmed(ls.last());
        if is_listed_url(t) {
            rest.push(t)
        } else {
            rest
        }
    }
}

/// The URLs of a text list, one per line (see `is_listed_url`).
pub fn parse_txt_url_list(content: &str) -> (urls: Vec<String>)
    ensures
        texts(urls@) == listed_urls(lines_of(content@)),
{
    let all = lines(content);
    let ghost src = texts(all@);
    let mut out: Vec<String> = Vec::new();
    let mut i: usize = 0;
    while i < all.len()
        invariant
            src == texts(all@),
            src == lines_of(content@),
            i <= all@.len(),
            texts(out@) == listed_urls(src.take(i as int)),
        decreases all@.len() - i,
    {
        let t = trim(all[i].as_str());
        assert(src.take(i + 1).drop_last() =~= src.take(i as int));
        let keep = t.unicode_len() > 0 && t.get_char(0) != '#' && utf8_len(t.as_str()) <= MAX_URL_LENGTH
            && url_is_valid(t.as_str());
        if keep {
            out.push(t);
        }
        i += 1;
    }
    assert(src.take(i as int) =~= src);
    out
}

/// The candidates of a plain URL list: trimmed, the blank ones left out, without
/// titles.
pub fn items_from_urls(urls: Vec<String>) -> (items: Vec<(String, Option<String>)>)
    ensures
        items@.len() == trimmed_nonblank(texts(urls@)).len(),
        forall|i: int|
            0 <= i < items@.len() ==> (#[trigger] items@[i]).0@ == trimmed_nonblank(texts(urls@))[i]
                && items@[i].1 is None,
{
    let ghost src = texts(urls@);
    let mut items: Vec<(String, Option<String>)> = Vec::new();
    let mut i: usize = 0;
    while i < urls.len()
        invariant
            src == texts(urls@),
            i <= urls@.len(),
            items@.len() == trimmed_nonblank(src.take(i as int)).len(),
            forall|k: int|
                0 <= k < items@.len() ==> (#[trigger] items@[k]).0@ == trimmed_nonblank(src.take(i as int))[k]
                    && items@[k].1 is None,
        decreases urls@.len() - i,
    {
        let t = trim(urls[i].as_str());
        assert(src.take(i + 1).drop_last() =~= src.take(i as int));
        if t.unicode_len() > 0 {
            items.push((t, None));
        }
        i += 1;
    }
    assert(src.take(i as int) =~= src);
    items
}

/// The candidates of a text list, without titles.
pub fn items_from_txt(content: &str) -> (items: Vec<(String, Option<String>)>)
    ensures
        items@.len() == listed_urls(lines_of(content@)).len(),
        forall|i: int|
            0 <= i < items@.len() ==> (#[trigger] items@[i]).0@ == listed_urls(lines_of(content@))[i]
                && items@[i].1 is None,
{
    let urls = parse_txt_url_list(content);
    let mut items: Vec<(String, Option<String>)> = Vec::new();
    let mut i: usize = 0;
    while i < urls.len()
        invariant
            texts(urls@) == listed_urls(lines_of(content@)),
            i <= urls@.len(),
            items@.len() == i,
            forall|k: int| 0 <= k < i ==> (#[trigger] items@[k]).0@ == urls@[k]@ && items@[k].1 is None,
        decreases urls@.len() - i,
    {
        items.push((urls[i].clone(), None));
        i += 1;
    }
    items
}

/// The candidates of an OPML outline list: each outline's feed URL, with its title
/// when that is not empty.
pub fn items_from_outlines(outlines: Vec<OpmlOutline>) -> (items: Vec<(String, Option<String>)>)
    ensures
        items@.len() == outlines@.len(),
        forall|i: int|
            0 <= i < outlines@.len() ==> (#[trigger] items@[i]).0 == outlines@[i].xml_url && match items@[i].1 {
                Some(t) => t == outlines@[i].title && t@.len() > 0,
                None => outlines@[i].title@.len() == 0,
            },
{
    let mut items: Vec<(String, Option<String>)> = Vec::new();
    let mut i: usize = 0;
    while i < outlines.len()
        invariant
            i <= outlines@.len(),
            items@.len() == i,
            forall|k: int|
                0 <= k < i ==> (#[trigger] items@[k]).0 == outlines@[k].xml_url && match items@[k].1 {
                    Some(t) => t == outlines@[k].title && t@.len() > 0,
                    None => outlines@[k].title@.len() == 0,
                },
        decreases outlines@.len() - i,
    {
        let o = &outlines[i];
        let title = if o.title.unicode_len() == 0 {
            None
        } else {
            Some(o.title.clone())
        };
        items.push((o.xml_url.clone(), title));
        i += 1;
    }
    items
}

// ── Preview ─────────────────────────────────────────────────────────

/// What is wrong with a candidate URL, if anything: it is empty, longer than 2048
/// bytes, or not a URL.
pub open spec fn url_problem(url: Seq<char>) -> Option<Seq<char>> {
    if url.len() == 0 {
        Some("Empty URL"@)
    } else if byte_len(url) > MAX_URL_LENGTH {
        Some("URL exceeds 2048 characters"@)
    } else if !url_accepts(url) {
        Some("Invalid URL format"@)
    } else {
        None
    }
}

/// Finds what is wrong with a candidate URL (see `url_problem`).
pub fn check_url(url: &str) -> (r: Option<String>)
    ensures
        match url_problem(url@) {
            Some(p) => r matches Some(m) && m@ == p,
            None => r is None,
        },
{
    if url.unicode_len() == 0 {
        Some(String::from_str("Empty URL"))
    } else if utf8_len(url) > MAX_URL_LENGTH {
        Some(String::from_str("URL exceeds 2048 characters"))
    } else if !url_is_valid(url) {
        Some(String::from_str("Invalid URL format"))
    } else {
        None
    }
}

fn subscribed(subs: &Vec<Subscription>, url: &str) -> (r: bool)
    ensures
        r == is_subscribed(subs@, url@),
{
    let mut i: usize = 0;
    while i < subs.len()
        invariant
            i <= subs@.len(),
            forall|j: int| 0 <= j < i ==> (#[trigger] subs@[j]).url@ != url@,
        decreases subs@.len() - i,
    {
        if str_eq(subs[i].url.as_str(), url) {
            return true;
        }
        i += 1;
    }
    false
}

/// How many of the candidates are subscribed already.
pub open spec fn duplicate_count(subs: Seq<Subscription>, items: Seq<(String, Option<String>)>) -> nat
    decreases items.len(),
{
    if items.len() == 0 {
        0
    } else {
        duplicate_count(subs, items.drop_last()) + if is_subscribed(subs, items.last().0@) {
            1nat
        } else {
            0nat
        }
    }
}

/// `p` previews candidate `item` against the subscriptions `subs`.
pub open spec fn previews(p: ImportPreviewItem, item: (String, Option<String>), subs: Seq<Subscription>) -> bool {
    &&& p.url == item.0
    &&& p.title == item.1
    &&& p.is_duplicate == is_subscribed(subs, item.0@)
    &&& match url_problem(item.0@) {
        Some(e) => p.error matches Some(m) && m@ == e,
        None => p.error is None,
    }
}

/// Previews the candidates: for each, whether it is subscribed already and what is
/// wrong with its URL; and the count of those subscribed already.
pub fn build_preview(items: Vec<(String, Option<String>)>, subs: &Vec<Subscription>) -> (pv: ImportPreview)
    ensures
        pv.items@.len() == items@.len(),
        pv.total == items@.len(),
        forall|i: int| 0 <= i < items@.len() ==> previews(#[trigger] pv.items@[i], items@[i], subs@),
        pv.duplicates == duplicate_count(subs@, items@),
{
    let ghost src = items@;
    let total = items.len();
    let mut items = items;
    let mut rest: Vec<(String, Option<String>)> = Vec::new();
    while items.len() > 0
        invariant
            items@.len() + rest@.len() == src.len(),
            forall|k: int| 0 <= k < items@.len() ==> #[trigger] items@[k] == src[k],
            forall|j: int| 0 <= j < rest@.len() ==> #[trigger] rest@[j] == src[src.len() - 1 - j],
        decreases items@.len(),
    {
        let it = items.pop().unwrap();
        rest.push(it);
    }
    let mut out: Vec<ImportPreviewItem> = Vec::new();
    let mut dups: usize = 0;
    let mut i: usize = 0;
    while rest.len() > 0
        invariant
            i + rest@.len() == src.len(),
            src.len() == total,
            forall|j: int| 0 <= j < rest@.len() ==> #[trigger] rest@[j] == src[src.len() - 1 - j],
            out@.len() == i,
            forall|k: int| 0 <= k < i ==> previews(#[trigger] out@[k], src[k], subs@),
            dups == duplicate_count(subs@, src.take(i as int)),
            dups <= i,
        decreases rest@.len(),
    {
        let (url, title) = rest.pop().unwrap();
        assert(src.take(i + 1).drop_last() =~= src.take(i as int));
        let is_duplicate = subscribed(subs, url.as_str());
        if is_duplicate {
            dups += 1;
        }
        let error = check_url(url.as_str());
        out.push(ImportPreviewItem { url, title, is_duplicate, error });
        i += 1;
    }
    assert(src.take(i as int) =~= src);
    ImportPreview { items: out, total, duplicates: dups }
}


// ── An import run ───────────────────────────────────────────────────

fn text_in(v: &Vec<String>, x: &str) -> (r: bool)
    ensures
        r == (exists|i: int| 0 <= i < v@.len() && (#[trigger] v@[i])@ == x@),
{
    let mut i: usize = 0;
    while i < v.len()
        invariant
            i <= v@.len(),
            forall|j: int| 0 <= j < i ==> (#[trigger] v@[j])@ != x@,
        decreases v@.len() - i,
    {
        if str_eq(v[i].as_str(), x) {
            return true;
        }
        i += 1;
    }
    false
}

/// Some text of `v` equals `x`.
pub open spec fn has_text(v: Seq<String>, x: Seq<char>) -> bool {
    exists|i: int| 0 <= i < v.len() && (#[trigger] v[i])@ == x
}

fn subscription_urls(subs: &Vec<Subscription>) -> (urls: Vec<String>)
    ensures
        forall|x: Seq<char>| has_text(urls@, x) <==> is_subscribed(subs@, x),
{
    let mut urls: Vec<String> = Vec::new();
    let mut i: usize = 0;
    while i < subs.len()
        invariant
            i <= subs@.len(),
            urls@.len() == i,
            forall|k: int| 0 <= k < i ==> (#[trigger] urls@[k])@ == subs@[k].url@,
        decreases subs@.len() - i,
    {
        urls.push(subs[i].url.clone());
        i += 1;
    }
    assert forall|x: Seq<char>| has_text(urls@, x) <==> is_subscribed(subs@, x) by {
        if has_text(urls@, x) {
            let k = choose|k: int| 0 <= k < urls@.len() && (#[trigger] urls@[k])@ == x;
        }
        if is_subscribed(subs@, x) {
            let k = choose|k: int| 0 <= k < subs@.len() && (#[trigger] subs@[k]).url@ == x;
            assert(urls@[k]@ == x);
        }
    }
    urls
}

/// A background import of candidates (URL and optional title), one at a time. Each
/// step reports progress for the next candidate and either settles it (a duplicate
/// when duplicates are skipped, or an invalid URL) or asks the caller to resolve its
/// channel with yt-dlp. A cancellation skips all that are left.
pub struct ImportRun {
    pub task_id: String,
    pub items: Vec<(String, Option<String>)>,
    pub skip_duplicates: bool,
    pub existing_urls: Vec<String>,
    pub next: usize,
    pub pending: bool,
    pub finished: bool,
    pub imported: Vec<Subscription>,
    pub skipped: usize,
    pub errors: Vec<ImportErrorItem>,
    /// How many candidates were skipped as invalid (they are among `errors` too).
    pub invalid: usize,
}

/// What the caller does for one step of an import run.
pub enum ImportStep {
    /// Report the progress event; the candidate is settled.
    Settled(ImportProgressEvent),
    /// Report the progress event, then resolve the URL with yt-dlp and hand the outcome
    /// to `resolved`.
    Resolve(ImportProgressEvent, String),
    /// The run has ended.
    Done,
}

/// The progress event for candidate `i` of `items`.
pub open spec fn progress_for(e: ImportProgressEvent, task_id: String, items: Seq<(String, Option<String>)>, i: int) -> bool {
    &&& e.task_id == task_id
    &&& e.completed == i
    &&& e.total == items.len()
    &&& e.current_url == items[i].0
    &&& match items[i].1 {
        Some(t) => e.current_title == t,
        None => e.current_title@.len() == 0,
    }
}

impl ImportRun {
    /// The run's bookkeeping is consistent: every candidate before `next` is counted
    /// once as imported, skipped or failed (invalid ones both as skipped and failed).
    pub open spec fn wf(&self) -> bool {
        &&& self.next <= self.items@.len()
        &&& self.pending ==> self.next < self.items@.len() && !self.finished
        &&& self.finished ==> self.next == self.items@.len()
        &&& self.invalid <= self.skipped
        &&& self.invalid <= self.errors@.len()
        &&& self.imported@.len() + self.skipped + (self.errors@.len() - self.invalid) == self.next
    }

    /// A run over `items` that has not started.
    pub fn start(
        task_id: String,
        items: Vec<(String, Option<String>)>,
        skip_duplicates: bool,
        subs: &Vec<Subscription>,
    ) -> (run: Self)
        ensures
            run.wf(),
            run.task_id == task_id,
            run.items == items,
            run.skip_duplicates == skip_duplicates,
            forall|x: Seq<char>| has_text(run.existing_urls@, x) <==> is_subscribed(subs@, x),
            run.next == 0,
            !run.pending,
            !run.finished,
            run.imported@.len() == 0,
            run.skipped == 0,
            run.errors@.len() == 0,
    {
        ImportRun {
            task_id,
            items,
            skip_duplicates,
            existing_urls: subscription_urls(subs),
            next: 0,
            pending: false,
            finished: false,
            imported: Vec::new(),
            skipped: 0,
            errors: Vec::new(),
            invalid: 0,
        }
    }

    fn progress_event(&self) -> (e: ImportProgressEvent)
        requires
            self.next < self.items@.len(),
        ensures
            progress_for(e, self.task_id, self.items@, self.next as int),
    {
        let (url, title) = &self.items[self.next];
        ImportProgressEvent {
            task_id: self.task_id.clone(),
            completed: self.next,
            total: self.items.len(),
            current_url: url.clone(),
            current_title: match title {
                Some(t) => t.clone(),
                None => String::new(),
            },
        }
    }

    /// Takes the next step; `cancelled` tells whether the user asked to stop.
    pub fn step(&mut self, cancelled: bool) -> (st: ImportStep)
        requires
            old(self).wf(),
            !old(self).pending,
        ensures
            final(self).wf(),
            final(self).task_id == old(self).task_id,
            final(self).items == old(self).items,
            final(self).skip_duplicates == old(self).skip_duplicates,
            final(self).existing_urls == old(self).existing_urls,
            final(self).imported == old(self).imported,
            ({
                let s0 = *old(self);
                let s1 = *final(self);
                if s0.finished || s0.next == s0.items@.len() {
                    st is Done && s1.finished && s1.skipped == s0.skipped && s1.errors == s0.errors
                        && s1.invalid == s0.invalid
                } else if cancelled {
                    &&& st is Done
                    &&& s1.finished
                    &&& s1.skipped == s0.skipped + (s0.items@.len() - s0.next)
                    &&& s1.errors == s0.errors
                    &&& s1.invalid == s0.invalid
                } else {
                    let url = s0.items@[s0.next as int].0@;
                    if s0.skip_duplicates && has_text(s0.existing_urls@, url) {
                        &&& st matches ImportStep::Settled(e) && progress_for(e, s0.task_id, s0.items@, s0.next as int)
                        &&& s1.next == s0.next + 1 && !s1.pending && !s1.finished
                        &&& s1.skipped == s0.skipped + 1
                        &&& s1.errors == s0.errors
                        &&& s1.invalid == s0.invalid
                    } else if url_problem(url) is Some {
                        &&& st matches ImportStep::Settled(e) && progress_for(e, s0.task_id, s0.items@, s0.next as int)
                        &&& s1.next == s0.next + 1 && !s1.pending && !s1.finished
                        &&& s1.skipped == s0.skipped + 1
                        &&& s1.invalid == s0.invalid + 1
                        &&& s1.errors@.len() == s0.errors@.len() + 1
                        &&& s1.errors@.drop_last() == s0.errors@
                        &&& s1.errors@.last().url@ == url
                        &&& s1.errors@.last().reason@ == "Invalid URL format"@
                    } else {
                        &&& st matches ImportStep::Resolve(e, u) && progress_for(e, s0.task_id, s0.items@, s0.next as int)
                            && u@ == url
                        &&& s1.next == s0.next && s1.pending && !s1.finished
                        &&& s1.skipped == s0.skipped
                        &&& s1.errors == s0.errors
                        &&& s1.invalid == s0.invalid
                    }
                }
            }),
    {
        let n = self.items.len();
        if self.finished || self.next == n {
            self.next = n;
            self.finished = true;
            return ImportStep::Done;
        }
        if cancelled {
            self.skipped = self.skipped + (n - self.next);
            self.next = n;
            self.finished = true;
            return ImportStep::Done;
        }
        let e = self.progress_event();
        let i = self.next;
        if self.skip_duplicates && text_in(&self.existing_urls, self.items[i].0.as_str()) {
            self.skipped = self.skipped + 1;
            self.next = i + 1;
            return ImportStep::Settled(e);
        }
        if check_url(self.items[i].0.as_str()).is_some() {
            self.skipped = self.skipped + 1;
            self.invalid = self.invalid + 1;
            let url = self.items[i].0.clone();
            self.errors.push(ImportErrorItem { url, reason: String::from_str("Invalid URL format") });
            self.next = i + 1;
            return ImportStep::Settled(e);
        }
        self.pending = true;
        let url = self.items[i].0.clone();
        ImportStep::Resolve(e, url)
    }

    /// Hands over what yt-dlp reported for the candidate being resolved: its channel,
    /// which is imported, or `None` when resolution failed, which is an error.
    pub fn resolved(&mut self, info: Option<ChannelInfo>)
        requires
            old(self).wf(),
            old(self).pending,
        ensures
            final(self).wf(),
            final(self).task_id == old(self).task_id,
            final(self).items == old(self).items,
            final(self).skip_duplicates == old(self).skip_duplicates,
            final(self).existing_urls == old(self).existing_urls,
            final(self).next == old(self).next + 1,
            !final(self).pending,
            !final(self).finished,
            final(self).skipped == old(self).skipped,
            final(self).invalid == old(self).invalid,
            ({
                let url = old(self).items@[old(self).next as int].0;
                match info {
                    Some(c) => {
                        &&& final(self).errors == old(self).errors
                        &&& final(self).imported@.len() == old(self).imported@.len() + 1
                        &&& final(self).imported@.drop_last() == old(self).imported@
                        &&& final(self).imported@.last().url == url
                        &&& final(self).imported@.last().platform == c.platform
                        &&& final(self).imported@.last().channel_name == c.channel_name
                        &&& final(self).imported@.last().channel_avatar_url == c.channel_avatar_url
                    },
                    None => {
                        &&& final(self).imported == old(self).imported
                        &&& final(self).errors@.len() == old(self).errors@.len() + 1
                        &&& final(self).errors@.drop_last() == old(self).errors@
                        &&& final(self).errors@.last().url == url
                        &&& final(self).errors@.last().reason@ == "yt-dlp channel resolution failed"@
                    },
                }
            }),
    {
        let i = self.next;
        let _n = self.items.len();
        let url = self.items[i].0.clone();
        match info {
            Some(c) => {
                let sub = subscription_from_channel(url, c);
                self.imported.push(sub);
            },
            None => {
                self.errors.push(
                    ImportErrorItem { url, reason: String::from_str("yt-dlp channel resolution failed") },
                );
            },
        }
        self.next = i + 1;
        self.pending = false;
    }

    /// The completion event of a finished run.
    pub fn complete_event(&self) -> (e: ImportCompleteEvent)
        requires
            self.wf(),
            self.finished,
        ensures
            e.task_id == self.task_id,
            e.total == self.items@.len(),
            e.success == self.imported@.len(),
            e.failed == self.errors@.len(),
            e.skipped == self.skipped,
            e.errors@.len() == self.errors@.len(),
            forall|i: int| 0 <= i < e.errors@.len() ==> (#[trigger] e.errors@[i]).url == self.errors@[i].url
                && e.errors@[i].reason == self.errors@[i].reason,
            e.success + e.skipped + e.failed == e.total + self.invalid,
    {
        let mut errors: Vec<ImportErrorItem> = Vec::new();
        let mut i: usize = 0;
        while i < self.errors.len()
            invariant
                i <= self.errors@.len(),
                errors@.len() == i,
                forall|k: int| 0 <= k < i ==> (#[trigger] errors@[k]).url == self.errors@[k].url
                    && errors@[k].reason == self.errors@[k].reason,
            decreases self.errors@.len() - i,
        {
            let it = &self.errors[i];
            errors.push(ImportErrorItem { url: it.url.clone(), reason: it.reason.clone() });
            i += 1;
        }
        ImportCompleteEvent {
            task_id: self.task_id.clone(),
            total: self.items.len(),
            success: self.imported.len(),
            failed: self.errors.len(),
            skipped: self.skipped,
            errors,
        }
    }
}

/// Every candidate of a finished run is accounted for once: imported, skipped (as a
/// duplicate, invalid, or after a cancellation) or failed to resolve.
pub proof fn law_import_run_accounts_for_every_item(run: ImportRun)
    requires
        run.wf(),
        run.finished,
    ensures
        run.imported@.len() + run.skipped + (run.errors@.len() - run.invalid) == run.items@.len(),
{
}

/// The cancellation state of the import that runs now.
pub struct ImportContext {
    /// The id of the import task that a cancellation applies to, if any.
    pub running: Option<String>,
}

impl ImportContext {
    /// No import registered.
    pub fn new() -> (c: Self)
        ensures
            c.running is None,
    {
        ImportContext { running: None }
    }

    /// Registers `task_id` as the running import.
    pub fn register(&mut self, task_id: String)
        ensures
            final(self).running == Some(task_id),
    {
        self.running = Some(task_id);
    }

    /// A request to cancel import `task_id`: tells whether it is the registered one
    /// (whose flag the caller then raises), and then forgets the registration. A
    /// request for any other id changes nothing, so the running import can still be
    /// cancelled.
    pub fn cancel(&mut self, task_id: &str) -> (matched: bool)
        ensures
            matched == (old(self).running matches Some(id) && id@ == task_id@),
            matched ==> final(self).running is None,
            !matched ==> final(self).running == old(self).running,
    {
        let matched = match &self.running {
            Some(id) => str_eq(id.as_str(), task_id),
            None => false,
        };
        if matched {
            self.running = None;
        }
        matched
    }
}

// ── A synchronous batch import ──────────────────────────────────────

/// A URL is a duplicate when it is subscribed already or was imported earlier in the
/// same batch.
pub open spec fn is_batch_duplicate(existing: Seq<String>, imported: Seq<Subscription>, url: Seq<char>) -> bool {
    has_text(existing, url) || is_subscribed(imported, url)
}

/// A batch import of URLs, one at a time: a duplicate is skipped, every other URL is
/// resolved by the caller with yt-dlp and imported, or skipped as invalid when that
/// fails.
pub struct BatchImport {
    pub urls: Vec<String>,
    pub existing_urls: Vec<String>,
    pub next: usize,
    pub pending: bool,
    pub imported: Vec<Subscription>,
    pub skipped_duplicates: Vec<String>,
    pub skipped_invalid: Vec<String>,
}

impl BatchImport {
    /// Every URL before `next` is counted once.
    pub open spec fn wf(&self) -> bool {
        &&& self.next <= self.urls@.len()
        &&& self.pending ==> self.next < self.urls@.len()
        &&& self.imported@.len() + self.skipped_duplicates@.len() + self.skipped_invalid@.len() == self.next
        &&& forall|i: int| 0 <= i < self.imported@.len() ==> !has_text(self.existing_urls@, (#[trigger] self.imported@[i]).url@)
        &&& forall|i: int, j: int| 0 <= i < j < self.imported@.len() ==> (#[trigger] self.imported@[i]).url@ != (#[trigger] self.imported@[j]).url@
    }

    /// A batch over `urls` against the subscriptions `subs`.
    pub fn new(urls: Vec<String>, subs: &Vec<Subscription>) -> (b: Self)
        ensures
            b.wf(),
            b.urls == urls,
            forall|x: Seq<char>| has_text(b.existing_urls@, x) <==> is_subscribed(subs@, x),
            b.next == 0,
            !b.pending,
    {
        BatchImport {
            urls,
            existing_urls: subscription_urls(subs),
            next: 0,
            pending: false,
            imported: Vec::new(),
            skipped_duplicates: Vec::new(),
            skipped_invalid: Vec::new(),
        }
    }

    /// Skips the duplicates that come next and hands back the next URL to resolve,
    /// or `None` when all URLs are done.
    pub fn next_to_resolve(&mut self) -> (r: Option<String>)
        requires
            old(self).wf(),
            !old(self).pending,
        ensures
            final(self).wf(),
            final(self).urls == old(self).urls,
            final(self).existing_urls == old(self).existing_urls,
            final(self).imported == old(self).imported,
            final(self).skipped_invalid == old(self).skipped_invalid,
            old(self).next <= final(self).next,
            forall|i: int| old(self).next <= i < final(self).next ==> is_batch_duplicate(
                old(self).existing_urls@,
                old(self).imported@,
                #[trigger] old(self).urls@[i]@,
            ),
            final(self).skipped_duplicates@ == old(self).skipped_duplicates@ + old(self).urls@.subrange(
                old(self).next as int,
                final(self).next as int,
            ),
            match r {
                Some(u) => final(self).pending && u == final(self).urls@[final(self).next as int]
                    && !is_batch_duplicate(final(self).existing_urls@, final(self).imported@, u@),
                None => !final(self).pending && final(self).next == final(self).urls@.len(),
            },
    {
        let ghost start = self.next;
        let ghost dups0 = self.skipped_duplicates@;
        while self.next < self.urls.len()
            invariant
                self.wf(),
                !self.pending,
                self.urls == old(self).urls,
                self.existing_urls == old(self).existing_urls,
                self.imported == old(self).imported,
                self.skipped_invalid == old(self).skipped_invalid,
                start == old(self).next,
                dups0 == old(self).skipped_duplicates@,
                start <= self.next,
                forall|i: int| start <= i < self.next ==> is_batch_duplicate(
                    old(self).existing_urls@,
                    old(self).imported@,
                    #[trigger] old(self).urls@[i]@,
                ),
                self.skipped_duplicates@ == dups0 + self.urls@.subrange(start as int, self.next as int),
            decreases self.urls@.len() - self.next,
        {
            let i = self.next;
            let dup = text_in(&self.existing_urls, self.urls[i].as_str()) || imported_has(&self.imported, self.urls[i].as_str());
            if !dup {
                self.pending = true;
                return Some(self.urls[i].clone());
            }
            let u = self.urls[i].clone();
            self.skipped_duplicates.push(u);
            self.next = i + 1;
        }
        None
    }

    /// Hands over what yt-dlp reported for the URL being resolved: its channel, which is
    /// imported, or `None`, which skips the URL as invalid.
    pub fn resolved(&mut self, info: Option<ChannelInfo>)
        requires
            old(self).wf(),
            old(self).pending,
            !is_batch_duplicate(old(self).existing_urls@, old(self).imported@, old(self).urls@[old(self).next as int]@),
        ensures
            final(self).wf(),
            final(self).urls == old(self).urls,
            final(self).existing_urls == old(self).existing_urls,
            final(self).next == old(self).next + 1,
            !final(self).pending,
            final(self).skipped_duplicates == old(self).skipped_duplicates,
            ({
                let url = old(self).urls@[old(self).next as int];
                match info {
                    Some(c) => {
                        &&& final(self).skipped_invalid == old(self).skipped_invalid
                        &&& final(self).imported@.len() == old(self).imported@.len() + 1
                        &&& final(self).imported@.drop_last() == old(self).imported@
                        &&& final(self).imported@.last().url == url
                        &&& final(self).imported@.last().platform == c.platform
                        &&& final(self).imported@.last().channel_name == c.channel_name
                        &&& final(self).imported@.last().channel_avatar_url == c.channel_avatar_url
                    },
                    None => {
                        &&& final(self).imported == old(self).imported
                        &&& final(self).skipped_invalid@ == old(self).skipped_invalid@.push(url)
                    },
                }
            }),
    {
        let i = self.next;
        let _n = self.urls.len();
        let url = self.urls[i].clone();
        match info {
            Some(c) => {
                let ghost before = self.imported@;
                let sub = subscription_from_channel(url, c);
                self.imported.push(sub);
                assert forall|a: int, b: int| 0 <= a < b < self.imported@.len() implies (#[trigger] self.imported@[a]).url@ != (#[trigger] self.imported@[b]).url@ by {
                    if b == before.len() {
                    }
                }
            },
            None => {
                self.skipped_invalid.push(url);
            },
        }
        self.next = i + 1;
        self.pending = false;
    }

    /// The outcome of a finished batch.
    pub fn finish(self) -> (r: ImportResult)
        requires
            self.wf(),
            !self.pending,
            self.next == self.urls@.len(),
        ensures
            r.imported == self.imported,
            r.skipped_duplicates == self.skipped_duplicates,
            r.skipped_invalid == self.skipped_invalid,
            r.total == self.urls@.len(),
            r.success_count == self.imported@.len(),
            r.success_count + r.skipped_duplicates@.len() + r.skipped_invalid@.len() == r.total,
    {
        let total = self.urls.len();
        let success_count = self.imported.len();
        ImportResult {
            imported: self.imported,
            skipped_duplicates: self.skipped_duplicates,
            skipped_invalid: self.skipped_invalid,
            total,
            success_count,
        }
    }
}

fn imported_has(imported: &Vec<Subscription>, url: &str) -> (r: bool)
    ensures
        r == is_subscribed(imported@, url@),
{
    let mut i: usize = 0;
    while i < imported.len()
        invariant
            i <= imported@.len(),
            forall|j: int| 0 <= j < i ==> (#[trigger] imported@[j]).url@ != url@,
        decreases imported@.len() - i,
    {
        if str_eq(imported[i].url.as_str(), url) {
            return true;
        }
        i += 1;
    }
    false
}

/// In a finished batch every URL is counted once (imported, duplicate or invalid), no
/// imported URL was subscribed already, and no URL is imported twice.
pub proof fn law_batch_import_counts_add_up(b: BatchImport)
    requires
        b.wf(),
        b.next == b.urls@.len(),
    ensures
        b.imported@.len() + b.skipped_duplicates@.len() + b.skipped_invalid@.len() == b.urls@.len(),
        forall|i: int| 0 <= i < b.imported@.len() ==> !has_text(b.existing_urls@, (#[trigger] b.imported@[i]).url@),
        forall|i: int, j: int| 0 <= i < j < b.imported@.len() ==> (#[trigger] b.imported@[i]).url@ != (#[trigger] b.imported@[j]).url@,
{
}

} // verus!
