//! Bookkeeping of downloaded files. Checking and deleting the files on disk is done
//! by the caller.

use vstd::prelude::*;
use vstd::string::*;

use crate::error::AppError;
use crate::find::{is_first_where, lemma_first_unique};
use crate::models::DownloadRecord;
use crate::text::str_eq;

verus! {

/// Whether one file exists on disk.
#[derive(Debug, Clone)]
pub struct FileExistenceResult {
    pub file_path: String,
    pub exists: bool,
}

/// The record with id `id`.
pub open spec fn has_record_id(id: Seq<char>) -> spec_fn(DownloadRecord) -> bool {
    |r: DownloadRecord| r.id@ == id
}

/// `b` is `a` with status `status` and nothing else changed.
pub open spec fn with_status(a: DownloadRecord, b: DownloadRecord, status: Seq<char>) -> bool {
    &&& b.status@ == status
    &&& b.id == a.id
    &&& b.subscription_id == a.subscription_id
    &&& b.video_title == a.video_title
    &&& b.video_url == a.video_url
    &&& b.file_path == a.file_path
    &&& b.file_size == a.file_size
    &&& b.downloaded_at == a.downloaded_at
    &&& b.video_id == a.video_id
    &&& b.error_message == a.error_message
}

/// Marks the first record with id `record_id` as "deleted" and returns it; the caller
/// moves its file to the trash and saves the records. Fails with "not found" when no
/// record has that id, leaving the records unchanged.
pub fn delete_file_and_update_record(records: &mut Vec<DownloadRecord>, record_id: &str) -> (r: Result<
    DownloadRecord,
    AppError,
>)
    ensures
        (exists|p: int| is_first_where(old(records)@, has_record_id(record_id@), p)) ==> {
            let p = choose|p: int| is_first_where(old(records)@, has_record_id(record_id@), p);
            &&& final(records)@.len() == old(records)@.len()
            &&& with_status(old(records)@[p], final(records)@[p], "deleted"@)
            &&& forall|q: int|
                0 <= q < old(records)@.len() && q != p ==> #[trigger] final(records)@[q]
                    == old(records)@[q]
            &&& r == Ok::<DownloadRecord, AppError>(final(records)@[p])
        },
        !(exists|p: int| is_first_where(old(records)@, has_record_id(record_id@), p)) ==> {
            &&& final(records)@ == old(records)@
            &&& r matches Err(AppError::NotFound(m)) && m@ == "下载记录不存在: "@ + record_id@
        },
{
    let ghost pred = has_record_id(record_id@);
    let mut p: usize = 0;
    let mut found = false;
    while p < records.len()
        invariant
            pred == has_record_id(record_id@),
            p <= records@.len(),
            forall|q: int| 0 <= q < p ==> !pred(#[trigger] records@[q]),
            found ==> p < records@.len() && pred(records@[p as int]),
        ensures
            !found ==> p == records@.len(),
            found ==> p < records@.len() && pred(records@[p as int]),
            forall|q: int| 0 <= q < p ==> !pred(#[trigger] records@[q]),
        decreases records@.len() - p,
    {
        if str_eq(records[p].id.as_str(), record_id) {
            found = true;
            break;
        }
        p += 1;
    }
    if !found {
        let mut m = String::from_str("下载记录不存在: ");
        m.append(record_id);
        return Err(AppError::NotFound(m));
    }
    let ghost before = records@;
    assert(is_first_where(before, pred, p as int));
    let mut rec = records.remove(p);
    rec.status = String::from_str("deleted");
    let updated = rec.duplicate();
    records.insert(p, rec);
    proof {
        let c = choose|c: int| is_first_where(before, pred, c);
        lemma_first_unique(before, pred, c, p as int);
    }
    Ok(updated)
}


/// A record whose file is to be looked for on disk: completed, with a path.
pub open spec fn has_file(r: DownloadRecord) -> bool {
    r.status@ == "completed"@ && r.file_path@.len() > 0
}

/// The file paths of the completed records that have one, in order.
pub open spec fn file_paths_of(recs: Seq<DownloadRecord>) -> Seq<Seq<char>>
    decreases recs.len(),
{
    if recs.len() == 0 {
        seq![]
    } else {
        let rest = file_paths_of(recs.drop_last());
        if has_file(recs.last()) {
            rest.push(recs.last().file_path@)
        } else {
            rest
        }
    }
}

/// The paths of the files that a file sync looks for (see `has_file`).
pub fn completed_file_paths(records: &Vec<DownloadRecord>) -> (paths: Vec<String>)
    ensures
        paths@.map_values(|p: String| p@) == file_paths_of(records@),
{
    let mut paths: Vec<String> = Vec::new();
    let mut i: usize = 0;
    while i < records.len()
        invariant
            i <= records@.len(),
            paths@.map_values(|p: String| p@) == file_paths_of(records@.take(i as int)),
        decreases records@.len() - i,
    {
        let r = &records[i];
        assert(records@.take(i + 1).drop_last() =~= records@.take(i as int));
        if str_eq(r.status.as_str(), "completed") && r.file_path.unicode_len() > 0 {
            paths.push(r.file_path.clone());
        }
        i += 1;
    }
    assert(records@.take(i as int) =~= records@);
    paths
}

} // verus!
