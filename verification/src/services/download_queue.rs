//! The bookkeeping of the download queue: which tasks wait, which run, and what
//! pausing, resuming, cancelling and a change of the concurrency limit do to them.
//! Starting, signalling and killing the yt-dlp processes is done by the caller with
//! the process ids that these operations hand back.

use vstd::prelude::*;
use vstd::string::*;

use crate::error::AppError;
use crate::models::{AppState, DownloadRecord, Subscription};
use crate::services::file_manager::has_record_id;
use crate::find::{
    first_where, is_first_where, is_last_where, last_where, lemma_first_where_none,
    lemma_first_where_some, lemma_last_where_none, lemma_last_where_some,
};
use crate::stamp::{new_uuid, now_rfc3339};
use crate::text::str_eq;

verus! {

/// Status of a task in the in-memory queue.
#[derive(Debug, Clone, Copy, PartialEq, Eq, Structural)]
pub enum TaskStatus {
    Waiting,
    Running,
    Paused,
    Completed,
    Failed,
    Cancelled,
}

/// The lower-case name of a status, as it is shown and serialized.
pub open spec fn status_name(s: TaskStatus) -> Seq<char> {
    match s {
        TaskStatus::Waiting => "waiting"@,
        TaskStatus::Running => "running"@,
        TaskStatus::Paused => "paused"@,
        TaskStatus::Completed => "completed"@,
        TaskStatus::Failed => "failed"@,
        TaskStatus::Cancelled => "cancelled"@,
    }
}

impl TaskStatus {
    /// The lower-case name of the status.
    pub fn to_text(&self) -> (r: String)
        ensures
            r@ == status_name(*self),
    {
        match self {
            TaskStatus::Waiting => String::from_str("waiting"),
            TaskStatus::Running => String::from_str("running"),
            TaskStatus::Paused => String::from_str("paused"),
            TaskStatus::Completed => String::from_str("completed"),
            TaskStatus::Failed => String::from_str("failed"),
            TaskStatus::Cancelled => String::from_str("cancelled"),
        }
    }
}

/// Progress of a running download. The percentage is held as the bit pattern of the
/// `f32` that yt-dlp's progress line gave (`f32::to_bits`); for the non-negative
/// percentages yt-dlp reports, these integers are ordered as the percentages are.
#[derive(Debug, Clone)]
pub struct ProgressInfo {
    pub percent_key: u32,
    pub speed: String,
    pub downloaded_bytes: u64,
    pub total_bytes: u64,
    pub eta: String,
}

impl ProgressInfo {
    /// A field-by-field copy.
    pub fn duplicate(&self) -> (r: Self)
        ensures
            r == *self,
    {
        ProgressInfo {
            percent_key: self.percent_key,
            speed: self.speed.clone(),
            downloaded_bytes: self.downloaded_bytes,
            total_bytes: self.total_bytes,
            eta: self.eta.clone(),
        }
    }
}

/// A download task in the in-memory queue.
#[derive(Debug, Clone)]
pub struct DownloadTask {
    pub id: String,
    pub video_id: String,
    pub video_url: String,
    pub video_title: String,
    pub subscription_id: String,
    pub quality: String,
    pub status: TaskStatus,
    pub progress: Option<ProgressInfo>,
    pub error_message: Option<String>,
    pub created_at: String,
    pub completed_at: Option<String>,
}

impl DownloadTask {
    /// A field-by-field copy.
    pub fn duplicate(&self) -> (r: Self)
        ensures
            r == *self,
    {
        DownloadTask {
            id: self.id.clone(),
            video_id: self.video_id.clone(),
            video_url: self.video_url.clone(),
            video_title: self.video_title.clone(),
            subscription_id: self.subscription_id.clone(),
            quality: self.quality.clone(),
            status: self.status,
            progress: match &self.progress {
                Some(p) => Some(p.duplicate()),
                None => None,
            },
            error_message: match &self.error_message {
                Some(e) => Some(e.clone()),
                None => None,
            },
            created_at: self.created_at.clone(),
            completed_at: match &self.completed_at {
                Some(c) => Some(c.clone()),
                None => None,
            },
        }
    }
}

/// Counts of the queue, as shown to the user.
#[derive(Debug, Clone, Copy)]
pub struct QueueState {
    pub active_count: usize,
    pub waiting_count: usize,
    pub max_concurrent: u32,
}

/// What a download needs to know: where yt-dlp is, how to reach the network, and
/// where files and records go.
#[derive(Debug, Clone)]
pub struct DownloadContext {
    pub yt_dlp_path: String,
    pub proxy: Option<String>,
    pub cookie_file: Option<String>,
    pub download_dir: String,
    pub data_dir: String,
}

/// A task whose yt-dlp process runs (or is stopped), with that process's id and the
/// last progress it reported.
#[derive(Debug, Clone)]
pub struct ActiveTask {
    pub task: DownloadTask,
    pub pid: u32,
    pub progress_key: u32,
}

/// The task with id `id`.
pub open spec fn has_task_id(id: Seq<char>) -> spec_fn(DownloadTask) -> bool {
    |t: DownloadTask| t.id@ == id
}

/// The task of video `url`.
pub open spec fn has_task_url(url: Seq<char>) -> spec_fn(DownloadTask) -> bool {
    |t: DownloadTask| t.video_url@ == url
}

/// The paused task with id `id`.
pub open spec fn is_paused_task(id: Seq<char>) -> spec_fn(DownloadTask) -> bool {
    |t: DownloadTask| t.id@ == id && t.status == TaskStatus::Paused
}

/// The active entry whose task has id `id`.
pub open spec fn active_has_id(id: Seq<char>) -> spec_fn(ActiveTask) -> bool {
    |a: ActiveTask| a.task.id@ == id
}

/// The active entry whose task downloads `url`.
pub open spec fn active_has_url(url: Seq<char>) -> spec_fn(ActiveTask) -> bool {
    |a: ActiveTask| a.task.video_url@ == url
}

/// The in-memory download queue: tasks waiting in order of arrival, and the active
/// tasks whose processes have been started.
#[derive(Debug)]
pub struct QueueBook {
    pub waiting: Vec<DownloadTask>,
    pub active: Vec<ActiveTask>,
    pub max_concurrent: u32,
}

/// A task built for a video: a fresh id, "waiting", no progress, no error.
pub open spec fn new_task_for(
    t: DownloadTask,
    video_id: Seq<char>,
    video_title: Seq<char>,
    video_url: Seq<char>,
    subscription_id: Seq<char>,
    quality: Seq<char>,
) -> bool {
    &&& t.id@.len() == 36
    &&& t.video_id@ == video_id
    &&& t.video_title@ == video_title
    &&& t.video_url@ == video_url
    &&& t.subscription_id@ == subscription_id
    &&& t.quality@ == quality
    &&& t.status == TaskStatus::Waiting
    &&& t.progress is None
    &&& t.error_message is None
    &&& t.completed_at is None
}

fn make_task(
    video_id: String,
    video_title: String,
    video_url: String,
    subscription_id: String,
    quality: String,
) -> (t: DownloadTask)
    ensures
        new_task_for(t, video_id@, video_title@, video_url@, subscription_id@, quality@),
{
    DownloadTask {
        id: new_uuid(),
        video_id,
        video_url,
        video_title,
        subscription_id,
        quality,
        status: TaskStatus::Waiting,
        progress: None,
        error_message: None,
        created_at: now_rfc3339(),
        completed_at: None,
    }
}

/// Finds the first task satisfying `has_task_id(id)` in `tasks`.
fn find_task_by_id(tasks: &Vec<DownloadTask>, id: &str) -> (r: Option<usize>)
    ensures
        match r {
            Some(p) => first_where(tasks@, has_task_id(id@)) == Some(p as int),
            None => first_where(tasks@, has_task_id(id@)) is None,
        },
{
    let ghost pred = has_task_id(id@);
    let mut p: usize = 0;
    while p < tasks.len()
        invariant
            pred == has_task_id(id@),
            p <= tasks@.len(),
            forall|q: int| 0 <= q < p ==> !pred(#[trigger] tasks@[q]),
        decreases tasks@.len() - p,
    {
        if str_eq(tasks[p].id.as_str(), id) {
            proof {
                lemma_first_where_some(tasks@, pred, p as int);
            }
            return Some(p);
        }
        p += 1;
    }
    proof {
        lemma_first_where_none(tasks@, pred);
    }
    None
}

/// Finds the first task satisfying `has_task_url(url)` in `tasks`.
fn find_task_by_url(tasks: &Vec<DownloadTask>, url: &str) -> (r: Option<usize>)
    ensures
        match r {
            Some(p) => first_where(tasks@, has_task_url(url@)) == Some(p as int),
            None => first_where(tasks@, has_task_url(url@)) is None,
        },
{
    let ghost pred = has_task_url(url@);
    let mut p: usize = 0;
    while p < tasks.len()
        invariant
            pred == has_task_url(url@),
            p <= tasks@.len(),
            forall|q: int| 0 <= q < p ==> !pred(#[trigger] tasks@[q]),
        decreases tasks@.len() - p,
    {
        if str_eq(tasks[p].video_url.as_str(), url) {
            proof {
                lemma_first_where_some(tasks@, pred, p as int);
            }
            return Some(p);
        }
        p += 1;
    }
    proof {
        lemma_first_where_none(tasks@, pred);
    }
    None
}

/// Finds the first paused task with id `id` in `tasks`.
fn find_paused_task(tasks: &Vec<DownloadTask>, id: &str) -> (r: Option<usize>)
    ensures
        match r {
            Some(p) => first_where(tasks@, is_paused_task(id@)) == Some(p as int),
            None => first_where(tasks@, is_paused_task(id@)) is None,
        },
{
    let ghost pred = is_paused_task(id@);
    let mut p: usize = 0;
    while p < tasks.len()
        invariant
            pred == is_paused_task(id@),
            p <= tasks@.len(),
            forall|q: int| 0 <= q < p ==> !pred(#[trigger] tasks@[q]),
        decreases tasks@.len() - p,
    {
        if str_eq(tasks[p].id.as_str(), id) && tasks[p].status == TaskStatus::Paused {
            proof {
                lemma_first_where_some(tasks@, pred, p as int);
            }
            return Some(p);
        }
        p += 1;
    }
    proof {
        lemma_first_where_none(tasks@, pred);
    }
    None
}

/// Finds the first active entry satisfying `active_has_id(id)`.
fn find_active_by_id(active: &Vec<ActiveTask>, id: &str) -> (r: Option<usize>)
    ensures
        match r {
            Some(p) => first_where(active@, active_has_id(id@)) == Some(p as int),
            None => first_where(active@, active_has_id(id@)) is None,
        },
{
    let ghost pred = active_has_id(id@);
    let mut p: usize = 0;
    while p < active.len()
        invariant
            pred == active_has_id(id@),
            p <= active@.len(),
            forall|q: int| 0 <= q < p ==> !pred(#[trigger] active@[q]),
        decreases active@.len() - p,
    {
        if str_eq(active[p].task.id.as_str(), id) {
            proof {
                lemma_first_where_some(active@, pred, p as int);
            }
            return Some(p);
        }
        p += 1;
    }
    proof {
        lemma_first_where_none(active@, pred);
    }
    None
}

/// Finds the first active entry satisfying `active_has_url(url)`.
fn find_active_by_url(active: &Vec<ActiveTask>, url: &str) -> (r: Option<usize>)
    ensures
        match r {
            Some(p) => first_where(active@, active_has_url(url@)) == Some(p as int),
            None => first_where(active@, active_has_url(url@)) is None,
        },
{
    let ghost pred = active_has_url(url@);
    let mut p: usize = 0;
    while p < active.len()
        invariant
            pred == active_has_url(url@),
            p <= active@.len(),
            forall|q: int| 0 <= q < p ==> !pred(#[trigger] active@[q]),
        decreases active@.len() - p,
    {
        if str_eq(active[p].task.video_url.as_str(), url) {
            proof {
                lemma_first_where_some(active@, pred, p as int);
            }
            return Some(p);
        }
        p += 1;
    }
    proof {
        lemma_first_where_none(active@, pred);
    }
    None
}

/// The status the download records of a paused or resumed task get.
#[derive(Debug, Clone, Copy, PartialEq, Eq, Structural)]
pub enum RecordMark {
    /// "paused"
    Paused,
    /// "downloading"
    Downloading,
}

/// The record status text of a mark.
pub open spec fn mark_text(m: RecordMark) -> Seq<char> {
    match m {
        RecordMark::Paused => "paused"@,
        RecordMark::Downloading => "downloading"@,
    }
}

/// What the caller does after a task was paused or resumed: mark the download records
/// of that video and subscription (see `apply_status_change`), and, for an active
/// task, stop or continue its process.
#[derive(Debug, Clone)]
pub struct StatusChange {
    pub video_url: String,
    pub subscription_id: String,
    pub pid: Option<u32>,
    pub mark: RecordMark,
}

/// A task taken out of the queue by a cancellation: an active one, whose process the
/// caller kills and whose partial files it removes, or a waiting one.
#[derive(Debug)]
pub enum Cancelled {
    Active(ActiveTask),
    Waiting(DownloadTask),
}

/// "Task <id> not found".
pub open spec fn task_not_found(id: Seq<char>) -> Seq<char> {
    "Task "@ + id + " not found"@
}

/// "Task <id> not found or not paused".
pub open spec fn task_not_paused(id: Seq<char>) -> Seq<char> {
    "Task "@ + id + " not found or not paused"@
}

/// "No active task found for url <url>".
pub open spec fn no_task_for_url(url: Seq<char>) -> Seq<char> {
    "No active task found for url "@ + url
}

fn text3(a: &str, b: &str, c: &str) -> (r: String)
    ensures
        r@ == a@ + b@ + c@,
{
    let mut r = String::from_str(a);
    r.append(b);
    r.append(c);
    r
}

/// The active entry `a` with its task set to status `s`.
pub open spec fn active_with_status(a: ActiveTask, s: TaskStatus) -> ActiveTask {
    ActiveTask { task: DownloadTask { status: s, ..a.task }, ..a }
}

/// The waiting task `t` set to status `s`.
pub open spec fn waiting_with_status(t: DownloadTask, s: TaskStatus) -> DownloadTask {
    DownloadTask { status: s, ..t }
}

/// The effect of `QueueBook::pause` on the active entries and the waiting tasks, and
/// its result, for key `key`.
pub open spec fn pause_effect(
    a0: Seq<ActiveTask>,
    w0: Seq<DownloadTask>,
    a1: Seq<ActiveTask>,
    w1: Seq<DownloadTask>,
    key: Seq<char>,
    r: Result<StatusChange, AppError>,
) -> bool {
    match first_where(a0, active_has_id(key)) {
        Some(p) => {
            let a = a0[p];
            &&& a1 == a0.update(
                p,
                active_with_status(a, TaskStatus::Paused),
            )
            &&& w1 == w0
            &&& r matches Ok(c) && c.video_url == a.task.video_url && c.subscription_id
                == a.task.subscription_id && c.pid == Some(a.pid) && c.mark == RecordMark::Paused
        },
        None => match first_where(w0, has_task_id(key)) {
            Some(q) => {
                let t = w0[q];
                &&& w1 == w0.update(
                    q,
                    waiting_with_status(t, TaskStatus::Paused),
                )
                &&& a1 == a0
                &&& r matches Ok(c) && c.video_url == t.video_url && c.subscription_id
                    == t.subscription_id && c.pid is None && c.mark == RecordMark::Paused
            },
            None => {
                &&& w1 == w0
                &&& a1 == a0
                &&& r matches Err(AppError::NotFound(m)) && m@ == task_not_found(key)
            },
        },
    }
}

/// The effect of `QueueBook::resume` on the active entries and the waiting tasks, and
/// its result, for key `key`.
pub open spec fn resume_effect(
    a0: Seq<ActiveTask>,
    w0: Seq<DownloadTask>,
    a1: Seq<ActiveTask>,
    w1: Seq<DownloadTask>,
    key: Seq<char>,
    r: Result<StatusChange, AppError>,
) -> bool {
    match first_where(a0, active_has_id(key)) {
        Some(p) => {
            let a = a0[p];
            &&& a1 == a0.update(
                p,
                active_with_status(a, TaskStatus::Running),
            )
            &&& w1 == w0
            &&& r matches Ok(c) && c.video_url == a.task.video_url && c.subscription_id
                == a.task.subscription_id && c.pid == Some(a.pid) && c.mark == RecordMark::Downloading
        },
        None => match first_where(w0, is_paused_task(key)) {
            Some(q) => {
                let t = w0[q];
                &&& w1 == w0.update(
                    q,
                    waiting_with_status(t, TaskStatus::Waiting),
                )
                &&& a1 == a0
                &&& r matches Ok(c) && c.video_url == t.video_url && c.subscription_id
                    == t.subscription_id && c.pid is None && c.mark == RecordMark::Downloading
            },
            None => {
                &&& w1 == w0
                &&& a1 == a0
                &&& r matches Err(AppError::NotFound(m)) && m@ == task_not_paused(key)
            },
        },
    }
}

/// The effect of `QueueBook::pause_by_url` on the active entries and the waiting tasks, and
/// its result, for key `key`.
pub open spec fn pause_by_url_effect(
    a0: Seq<ActiveTask>,
    w0: Seq<DownloadTask>,
    a1: Seq<ActiveTask>,
    w1: Seq<DownloadTask>,
    key: Seq<char>,
    r: Result<StatusChange, AppError>,
) -> bool {
    match first_where(a0, active_has_url(key)) {
        Some(p) => {
            let a = a0[p];
            &&& a1 == a0.update(
                p,
                active_with_status(a, TaskStatus::Paused),
            )
            &&& w1 == w0
            &&& r matches Ok(c) && c.video_url == a.task.video_url && c.subscription_id
                == a.task.subscription_id && c.pid == Some(a.pid) && c.mark == RecordMark::Paused
        },
        None => match first_where(w0, has_task_url(key)) {
            Some(q) => {
                let t = w0[q];
                &&& w1 == w0.update(
                    q,
                    waiting_with_status(t, TaskStatus::Paused),
                )
                &&& a1 == a0
                &&& r matches Ok(c) && c.video_url == t.video_url && c.subscription_id
                    == t.subscription_id && c.pid is None && c.mark == RecordMark::Paused
            },
            None => {
                &&& w1 == w0
                &&& a1 == a0
                &&& r matches Err(AppError::NotFound(m)) && m@ == no_task_for_url(key)
            },
        },
    }
}

/// The effect of `QueueBook::cancel` on the active entries and the waiting tasks, and
/// its result, for key `key`.
pub open spec fn cancel_effect(
    a0: Seq<ActiveTask>,
    w0: Seq<DownloadTask>,
    a1: Seq<ActiveTask>,
    w1: Seq<DownloadTask>,
    key: Seq<char>,
    r: Result<Cancelled, AppError>,
) -> bool {
    match first_where(a0, active_has_id(key)) {
        Some(p) => {
            &&& a1 == a0.remove(p)
            &&& w1 == w0
            &&& r matches Ok(Cancelled::Active(a)) && a == a0[p]
        },
        None => match first_where(w0, has_task_id(key)) {
            Some(q) => {
                &&& w1 == w0.remove(q)
                &&& a1 == a0
                &&& r matches Ok(Cancelled::Waiting(t)) && t == w0[q]
            },
            None => {
                &&& w1 == w0
                &&& a1 == a0
                &&& r matches Err(AppError::NotFound(m)) && m@ == task_not_found(key)
            },
        },
    }
}

/// The effect of `QueueBook::cancel_by_url` on the active entries and the waiting tasks, and
/// its result, for key `key`.
pub open spec fn cancel_by_url_effect(
    a0: Seq<ActiveTask>,
    w0: Seq<DownloadTask>,
    a1: Seq<ActiveTask>,
    w1: Seq<DownloadTask>,
    key: Seq<char>,
    r: Result<Cancelled, AppError>,
) -> bool {
    match first_where(a0, active_has_url(key)) {
        Some(p) => {
            &&& a1 == a0.remove(p)
            &&& w1 == w0
            &&& r matches Ok(Cancelled::Active(a)) && a == a0[p]
        },
        None => match first_where(w0, has_task_url(key)) {
            Some(q) => {
                &&& w1 == w0.remove(q)
                &&& a1 == a0
                &&& r matches Ok(Cancelled::Waiting(t)) && t == w0[q]
            },
            None => {
                &&& w1 == w0
                &&& a1 == a0
                &&& r matches Err(AppError::NotFound(m)) && m@ == no_task_for_url(
                    key,
                )
            },
        },
    }
}

impl QueueBook {
    /// An empty queue allowing `max_concurrent` downloads at once.
    pub fn new(max_concurrent: u32) -> (q: Self)
        ensures
            q.waiting@.len() == 0,
            q.active@.len() == 0,
            q.max_concurrent == max_concurrent,
    {
        QueueBook { waiting: Vec::new(), active: Vec::new(), max_concurrent }
    }

    /// The counts shown to the user.
    pub fn get_state(&self) -> (st: QueueState)
        ensures
            st.active_count == self.active@.len(),
            st.waiting_count == self.waiting@.len(),
            st.max_concurrent == self.max_concurrent,
    {
        QueueState {
            active_count: self.active.len(),
            waiting_count: self.waiting.len(),
            max_concurrent: self.max_concurrent,
        }
    }

    /// Appends a waiting task for each `(video_id, video_title, video_url)`, in order,
    /// and returns how many were added.
    pub fn enqueue_batch(
        &mut self,
        videos: Vec<(String, String, String)>,
        subscription_id: String,
        quality: String,
    ) -> (count: usize)
        ensures
            count == videos@.len(),
            final(self).active@ == old(self).active@,
            final(self).max_concurrent == old(self).max_concurrent,
            final(self).waiting@.len() == old(self).waiting@.len() + videos@.len(),
            final(self).waiting@.subrange(0, old(self).waiting@.len() as int) == old(self).waiting@,
            forall|i: int|
                0 <= i < videos@.len() ==> new_task_for(
                    #[trigger] final(self).waiting@[old(self).waiting@.len() + i],
                    videos@[i].0@,
                    videos@[i].1@,
                    videos@[i].2@,
                    subscription_id@,
                    quality@,
                ),
    {
        let count = videos.len();
        let ghost before = self.waiting@;
        let ghost vs = videos@;
        let mut videos = videos;
        let mut rest: Vec<(String, String, String)> = Vec::new();
        // Take the videos from the back so that each can be moved into its task.
        while videos.len() > 0
            invariant
                videos@.len() + rest@.len() == vs.len(),
                forall|i: int| 0 <= i < videos@.len() ==> #[trigger] videos@[i] == vs[i],
                forall|j: int|
                    0 <= j < rest@.len() ==> #[trigger] rest@[j] == vs[vs.len() - 1 - j],
            decreases videos@.len(),
        {
            let v = videos.pop().unwrap();
            rest.push(v);
        }
        let mut k: usize = 0;
        while rest.len() > 0
            invariant
                k + rest@.len() == vs.len(),
                vs.len() == count,
                forall|j: int|
                    0 <= j < rest@.len() ==> #[trigger] rest@[j] == vs[vs.len() - 1 - j],
                self.waiting@.len() == before.len() + k,
                self.waiting@.subrange(0, before.len() as int) == before,
                self.active@ == old(self).active@,
                self.max_concurrent == old(self).max_concurrent,
                before == old(self).waiting@,
                forall|i: int|
                    0 <= i < k ==> new_task_for(
                        #[trigger] self.waiting@[before.len() + i],
                        vs[i].0@,
                        vs[i].1@,
                        vs[i].2@,
                        subscription_id@,
                        quality@,
                    ),
            decreases rest@.len(),
        {
            let (video_id, video_title, video_url) = rest.pop().unwrap();
            let t = make_task(
                video_id,
                video_title,
                video_url,
                subscription_id.clone(),
                quality.clone(),
            );
            self.waiting.push(t);
            k += 1;
        }
        count
    }

    /// Appends one waiting task for a video found by a subscription check.
    pub fn enqueue_video(
        &mut self,
        subscription_id: String,
        video_title: String,
        video_url: String,
        video_id: String,
        quality: String,
    )
        ensures
            final(self).active@ == old(self).active@,
            final(self).max_concurrent == old(self).max_concurrent,
            final(self).waiting@.len() == old(self).waiting@.len() + 1,
            final(self).waiting@.drop_last() == old(self).waiting@,
            new_task_for(
                final(self).waiting@.last(),
                video_id@,
                video_title@,
                video_url@,
                subscription_id@,
                quality@,
            ),
    {
        let t = make_task(video_id, video_title, video_url, subscription_id, quality);
        self.waiting.push(t);
    }

    /// Takes the oldest waiting task, if any, to start it.
    pub fn take_next(&mut self) -> (t: Option<DownloadTask>)
        ensures
            final(self).active@ == old(self).active@,
            final(self).max_concurrent == old(self).max_concurrent,
            old(self).waiting@.len() == 0 ==> t is None && final(self).waiting@ == old(self).waiting@,
            old(self).waiting@.len() > 0 ==> t == Some(old(self).waiting@[0])
                && final(self).waiting@ == old(self).waiting@.drop_first(),
    {
        if self.waiting.len() == 0 {
            None
        } else {
            Some(self.waiting.remove(0))
        }
    }

    /// Records that `task`'s process `pid` has started.
    pub fn register_active(&mut self, task: DownloadTask, pid: u32)
        ensures
            final(self).waiting@ == old(self).waiting@,
            final(self).max_concurrent == old(self).max_concurrent,
            final(self).active@ == old(self).active@.push(
                (ActiveTask { task, pid, progress_key: 0 }),
            ),
    {
        self.active.push(ActiveTask { task, pid, progress_key: 0 });
    }

    /// Records the progress last reported for the active task `task_id`; returns
    /// whether there is such a task.
    pub fn record_progress(&mut self, task_id: &str, progress: ProgressInfo) -> (found: bool)
        ensures
            final(self).waiting@ == old(self).waiting@,
            final(self).max_concurrent == old(self).max_concurrent,
            match first_where(old(self).active@, active_has_id(task_id@)) {
                Some(p) => found && final(self).active@ == old(self).active@.update(
                    p,
                    (ActiveTask {
                        task: DownloadTask { progress: Some(progress), ..old(self).active@[p].task },
                        progress_key: progress.percent_key,
                        ..old(self).active@[p]
                    }),
                ),
                None => !found && final(self).active@ == old(self).active@,
            },
    {
        match find_active_by_id(&self.active, task_id) {
            Some(p) => {
                let key = progress.percent_key;
                self.active[p].progress_key = key;
                self.active[p].task.progress = Some(progress);
                true
            },
            None => false,
        }
    }

    /// Forgets the active task `task_id` once its process has ended; returns it.
    pub fn finish_active(&mut self, task_id: &str) -> (r: Option<ActiveTask>)
        ensures
            final(self).waiting@ == old(self).waiting@,
            final(self).max_concurrent == old(self).max_concurrent,
            match first_where(old(self).active@, active_has_id(task_id@)) {
                Some(p) => r == Some(old(self).active@[p]) && final(self).active@
                    == old(self).active@.remove(p),
                None => r is None && final(self).active@ == old(self).active@,
            },
    {
        match find_active_by_id(&self.active, task_id) {
            Some(p) => Some(self.active.remove(p)),
            None => None,
        }
    }

    /// Pauses task `task_id`: an active one first (its process is to be stopped), else
    /// the first waiting one with that id. Fails with "not found" when neither exists,
    /// leaving the queue unchanged.
    pub fn pause(&mut self, task_id: &str) -> (r: Result<StatusChange, AppError>)
        ensures
            final(self).max_concurrent == old(self).max_concurrent,
            pause_effect(
                old(self).active@,
                old(self).waiting@,
                final(self).active@,
                final(self).waiting@,
                task_id@,
                r,
            ),
    {
        if let Some(p) = find_active_by_id(&self.active, task_id) {
            self.active[p].task.status = TaskStatus::Paused;
            let a = &self.active[p];
            return Ok(
                StatusChange {
                    video_url: a.task.video_url.clone(),
                    subscription_id: a.task.subscription_id.clone(),
                    pid: Some(a.pid),
                    mark: RecordMark::Paused,
                },
            );
        }
        if let Some(q) = find_task_by_id(&self.waiting, task_id) {
            self.waiting[q].status = TaskStatus::Paused;
            let t = &self.waiting[q];
            return Ok(
                StatusChange {
                    video_url: t.video_url.clone(),
                    subscription_id: t.subscription_id.clone(),
                    pid: None,
                    mark: RecordMark::Paused,
                },
            );
        }
        Err(AppError::NotFound(text3("Task ", task_id, " not found")))
    }

    /// Resumes task `task_id`: an active one first (its process is to be continued and
    /// it runs again), else the first waiting task with that id that is paused (it
    /// waits again). Fails with "not found or not paused" otherwise, leaving the queue
    /// unchanged.
    pub fn resume(&mut self, task_id: &str) -> (r: Result<StatusChange, AppError>)
        ensures
            final(self).max_concurrent == old(self).max_concurrent,
            resume_effect(
                old(self).active@,
                old(self).waiting@,
                final(self).active@,
                final(self).waiting@,
                task_id@,
                r,
            ),
    {
        if let Some(p) = find_active_by_id(&self.active, task_id) {
            self.active[p].task.status = TaskStatus::Running;
            let a = &self.active[p];
            return Ok(
                StatusChange {
                    video_url: a.task.video_url.clone(),
                    subscription_id: a.task.subscription_id.clone(),
                    pid: Some(a.pid),
                    mark: RecordMark::Downloading,
                },
            );
        }
        if let Some(q) = find_paused_task(&self.waiting, task_id) {
            self.waiting[q].status = TaskStatus::Waiting;
            let t = &self.waiting[q];
            return Ok(
                StatusChange {
                    video_url: t.video_url.clone(),
                    subscription_id: t.subscription_id.clone(),
                    pid: None,
                    mark: RecordMark::Downloading,
                },
            );
        }
        Err(AppError::NotFound(text3("Task ", task_id, " not found or not paused")))
    }

    /// Pauses the task of video `video_url`: an active one first (its process is to be
    /// stopped), else the first waiting one. Fails with "no active task" otherwise,
    /// leaving the queue unchanged.
    pub fn pause_by_url(&mut self, video_url: &str) -> (r: Result<StatusChange, AppError>)
        ensures
            final(self).max_concurrent == old(self).max_concurrent,
            pause_by_url_effect(
                old(self).active@,
                old(self).waiting@,
                final(self).active@,
                final(self).waiting@,
                video_url@,
                r,
            ),
    {
        if let Some(p) = find_active_by_url(&self.active, video_url) {
            self.active[p].task.status = TaskStatus::Paused;
            let a = &self.active[p];
            return Ok(
                StatusChange {
                    video_url: a.task.video_url.clone(),
                    subscription_id: a.task.subscription_id.clone(),
                    pid: Some(a.pid),
                    mark: RecordMark::Paused,
                },
            );
        }
        if let Some(q) = find_task_by_url(&self.waiting, video_url) {
            self.waiting[q].status = TaskStatus::Paused;
            let t = &self.waiting[q];
            return Ok(
                StatusChange {
                    video_url: t.video_url.clone(),
                    subscription_id: t.subscription_id.clone(),
                    pid: None,
                    mark: RecordMark::Paused,
                },
            );
        }
        let mut m = String::from_str("No active task found for url ");
        m.append(video_url);
        Err(AppError::NotFound(m))
    }

    /// Takes task `task_id` out of the queue: an active one first, else the first
    /// waiting one with that id. Fails with "not found" when neither exists, leaving
    /// the queue unchanged.
    pub fn cancel(&mut self, task_id: &str) -> (r: Result<Cancelled, AppError>)
        ensures
            final(self).max_concurrent == old(self).max_concurrent,
            cancel_effect(
                old(self).active@,
                old(self).waiting@,
                final(self).active@,
                final(self).waiting@,
                task_id@,
                r,
            ),
    {
        if let Some(p) = find_active_by_id(&self.active, task_id) {
            return Ok(Cancelled::Active(self.active.remove(p)));
        }
        if let Some(q) = find_task_by_id(&self.waiting, task_id) {
            return Ok(Cancelled::Waiting(self.waiting.remove(q)));
        }
        Err(AppError::NotFound(text3("Task ", task_id, " not found")))
    }

    /// Takes the task of video `video_url` out of the queue: the first active one,
    /// else the first waiting one. Fails with "no active task" otherwise, leaving the
    /// queue unchanged.
    pub fn cancel_by_url(&mut self, video_url: &str) -> (r: Result<Cancelled, AppError>)
        ensures
            final(self).max_concurrent == old(self).max_concurrent,
            cancel_by_url_effect(
                old(self).active@,
                old(self).waiting@,
                final(self).active@,
                final(self).waiting@,
                video_url@,
                r,
            ),
    {
        if let Some(p) = find_active_by_url(&self.active, video_url) {
            return Ok(Cancelled::Active(self.active.remove(p)));
        }
        if let Some(q) = find_task_by_url(&self.waiting, video_url) {
            return Ok(Cancelled::Waiting(self.waiting.remove(q)));
        }
        let mut m = String::from_str("No active task found for url ");
        m.append(video_url);
        Err(AppError::NotFound(m))
    }

    /// All tasks: the waiting ones in order, then the active ones.
    pub fn get_tasks(&self) -> (tasks: Vec<DownloadTask>)
        ensures
            tasks@ == self.waiting@ + self.active@.map_values(|a: ActiveTask| a.task),
    {
        let mut tasks: Vec<DownloadTask> = Vec::new();
        let mut i: usize = 0;
        while i < self.waiting.len()
            invariant
                i <= self.waiting@.len(),
                tasks@ == self.waiting@.subrange(0, i as int),
            decreases self.waiting@.len() - i,
        {
            tasks.push(self.waiting[i].duplicate());
            assert(self.waiting@.subrange(0, i + 1) =~= self.waiting@.subrange(0, i as int).push(
                self.waiting@[i as int],
            ));
            i += 1;
        }
        let mut j: usize = 0;
        while j < self.active.len()
            invariant
                j <= self.active@.len(),
                tasks@ == self.waiting@ + self.active@.subrange(0, j as int).map_values(
                    |a: ActiveTask| a.task,
                ),
            decreases self.active@.len() - j,
        {
            tasks.push(self.active[j].task.duplicate());
            assert(self.active@.subrange(0, j + 1).map_values(|a: ActiveTask| a.task)
                =~= self.active@.subrange(0, j as int).map_values(|a: ActiveTask| a.task).push(
                self.active@[j as int].task,
            ));
            j += 1;
        }
        tasks
    }

    /// Sets the concurrency limit to `new_max`. Raising it hands back how many permits
    /// to add; lowering it by `k` pauses the `k` active tasks with the least progress
    /// (the earlier entry first among equal progress), hands back their processes to
    /// stop, and `k` permits to reclaim.
    pub fn update_max_concurrent(&mut self, new_max: u32) -> (ch: ConcurrencyChange)
        ensures
            final(self).max_concurrent == new_max,
            final(self).waiting@ == old(self).waiting@,
            ch.added_permits == (if new_max > old(self).max_concurrent {
                new_max - old(self).max_concurrent
            } else {
                0
            }),
            ch.reclaim == (if new_max < old(self).max_concurrent {
                old(self).max_concurrent - new_max
            } else {
                0
            }),
            final(self).active@.len() == old(self).active@.len(),
            exists|sel: Seq<usize>|
                {
                    &&& is_least_first(active_keys(old(self).active@), ch.reclaim as int, sel)
                    &&& ch.paused_pids@ == sel.map_values(|i: usize| old(self).active@[i as int].pid)
                    &&& forall|i: int|
                        0 <= i < old(self).active@.len() ==> #[trigger] final(self).active@[i] == (
                        if selects(sel, i) {
                            active_with_status(old(self).active@[i], TaskStatus::Paused)
                        } else {
                            old(self).active@[i]
                        })
                },
    {
        let old_max = self.max_concurrent;
        self.max_concurrent = new_max;
        let added = if new_max > old_max {
            new_max - old_max
        } else {
            0
        };
        let reclaim = if new_max < old_max {
            old_max - new_max
        } else {
            0
        };
        let ghost before = self.active@;
        let mut keys: Vec<u32> = Vec::new();
        let mut i: usize = 0;
        while i < self.active.len()
            invariant
                self.active@ == before,
                i <= before.len(),
                keys@ == active_keys(before).subrange(0, i as int),
            decreases before.len() - i,
        {
            keys.push(self.active[i].progress_key);
            assert(active_keys(before).subrange(0, i + 1) =~= active_keys(before).subrange(
                0,
                i as int,
            ).push(before[i as int].progress_key));
            i += 1;
        }
        assert(keys@ =~= active_keys(before));
        let sel = least_progress_first(&keys, reclaim as usize);
        let mut pids: Vec<u32> = Vec::new();
        let mut k: usize = 0;
        while k < sel.len()
            invariant
                is_least_first(active_keys(before), reclaim as int, sel@),
                k <= sel@.len(),
                self.active@.len() == before.len(),
                self.waiting@ == old(self).waiting@,
                self.max_concurrent == new_max,
                pids@ == sel@.take(k as int).map_values(|i: usize| before[i as int].pid),
                forall|j: int|
                    0 <= j < before.len() ==> #[trigger] self.active@[j] == (if selects(
                        sel@.take(k as int),
                        j,
                    ) {
                        active_with_status(before[j], TaskStatus::Paused)
                    } else {
                        before[j]
                    }),
            decreases sel@.len() - k,
        {
            let a = sel[k];
            proof {
                lemma_least_first_distinct(active_keys(before), reclaim as int, sel@, k as int);
            }
            pids.push(self.active[a].pid);
            self.active[a].task.status = TaskStatus::Paused;
            assert forall|j: int| 0 <= j < before.len() implies #[trigger] self.active@[j] == (
            if selects(sel@.take(k + 1), j) {
                active_with_status(before[j], TaskStatus::Paused)
            } else {
                before[j]
            }) by {
                if j == a as int {
                    assert(sel@.take(k + 1)[k as int] == a);
                } else {
                    let t1 = sel@.take(k + 1);
                    let t0 = sel@.take(k as int);
                    if selects(t1, j) {
                        let b = choose|b: int| 0 <= b < t1.len() && #[trigger] t1[b] == j;
                    }
                    if selects(t0, j) {
                        let b = choose|b: int| 0 <= b < t0.len() && #[trigger] t0[b] == j;
                    }
                }
            }
            k += 1;
        }
        assert(sel@.take(k as int) =~= sel@);
        let ch = ConcurrencyChange { added_permits: added, paused_pids: pids, reclaim };
        assert(is_least_first(active_keys(old(self).active@), ch.reclaim as int, sel@));
        assert(forall|i: int|
            0 <= i < old(self).active@.len() ==> #[trigger] self.active@[i] == (if selects(
                sel@,
                i,
            ) {
                active_with_status(old(self).active@[i], TaskStatus::Paused)
            } else {
                old(self).active@[i]
            }));
        ch
    }
}

/// What the caller does to the processes and the semaphore after a change of the
/// concurrency limit.
#[derive(Debug)]
pub struct ConcurrencyChange {
    pub added_permits: u32,
    pub paused_pids: Vec<u32>,
    pub reclaim: u32,
}

/// The progress keys of the active entries, in order.
pub open spec fn active_keys(active: Seq<ActiveTask>) -> Seq<u32> {
    active.map_values(|a: ActiveTask| a.progress_key)
}

/// Position `j` is one of the entries that `sel` lists.
pub open spec fn selects(sel: Seq<usize>, j: int) -> bool {
    exists|a: int| 0 <= a < sel.len() && sel[a] == j
}

/// Entry `i` comes before entry `j` when ordered by key, the earlier entry first among
/// equal keys.
pub open spec fn precedes(keys: Seq<u32>, i: int, j: int) -> bool {
    keys[i] < keys[j] || (keys[i] == keys[j] && i < j)
}

/// `sel` lists the `count` entries (or all, if fewer) that come first in that order,
/// in that order.
pub open spec fn is_least_first(keys: Seq<u32>, count: int, sel: Seq<usize>) -> bool {
    &&& sel.len() == (if count < keys.len() {
        count
    } else {
        keys.len() as int
    })
    &&& forall|a: int| 0 <= a < sel.len() ==> #[trigger] sel[a] < keys.len()
    &&& forall|a: int, b: int| 0 <= a < b < sel.len() ==> precedes(keys, #[trigger] sel[a] as int, #[trigger] sel[b] as int)
    &&& forall|a: int, j: int|
        #![trigger sel[a], keys[j]]
        0 <= a < sel.len() && 0 <= j < keys.len() && !selects(sel, j) ==> precedes(
            keys,
            sel[a] as int,
            j,
        )
}

/// The entries of such a selection are distinct.
pub proof fn lemma_least_first_distinct(keys: Seq<u32>, count: int, sel: Seq<usize>, k: int)
    requires
        is_least_first(keys, count, sel),
        0 <= k < sel.len(),
    ensures
        !selects(sel.take(k), sel[k] as int),
{
    if selects(sel.take(k), sel[k] as int) {
        let a = choose|a: int| 0 <= a < k && sel.take(k)[a] == sel[k];
    }
}

/// The indices of the `count` smallest keys (or all, if fewer), smallest first and
/// the earlier entry first among equal keys, as a stable sort followed by taking
/// `count` gives them.
pub fn least_progress_first(keys: &Vec<u32>, count: usize) -> (sel: Vec<usize>)
    ensures
        is_least_first(keys@, count as int, sel@),
{
    let n = keys.len();
    // Insertion sort of the indices, stable by construction.
    let mut perm: Vec<usize> = Vec::new();
    let mut i: usize = 0;
    while i < n
        invariant
            n == keys@.len(),
            i <= n,
            perm@.len() == i,
            forall|a: int| 0 <= a < perm@.len() ==> #[trigger] perm@[a] < i,
            forall|j: int| 0 <= j < i ==> #[trigger] perm@.contains(j as usize),
            forall|a: int, b: int|
                0 <= a < b < perm@.len() ==> precedes(keys@, #[trigger] perm@[a] as int, #[trigger] perm@[b] as int),
        decreases n - i,
    {
        let mut pos: usize = 0;
        while pos < perm.len() && keys[perm[pos]] <= keys[i]
            invariant
                n == keys@.len(),
                i < n,
                pos <= perm@.len(),
                forall|a: int| 0 <= a < perm@.len() ==> #[trigger] perm@[a] < i,
                forall|a: int| 0 <= a < pos ==> keys@[#[trigger] perm@[a] as int] <= keys@[i as int],
            decreases perm@.len() - pos,
        {
            pos += 1;
        }
        let ghost old_perm = perm@;
        perm.insert(pos, i);
        assert forall|a: int, b: int|
            0 <= a < b < perm@.len() implies precedes(keys@, #[trigger] perm@[a] as int, #[trigger] perm@[b] as int) by {
            if b < pos {
            } else if b == pos {
            } else if a < pos {
            } else if a == pos {
                if pos < b - 1 {
                }
            } else {
            }
        }
        assert forall|j: int| 0 <= j < i + 1 implies #[trigger] perm@.contains(j as usize) by {
            if j == i {
                assert(perm@[pos as int] == i);
            } else {
                assert(old_perm.contains(j as usize));
                let a = choose|a: int| 0 <= a < old_perm.len() && old_perm[a] == j as usize;
                if a < pos {
                    assert(perm@[a] == j as usize);
                } else {
                    assert(perm@[a + 1] == j as usize);
                }
            }
        }
        i += 1;
    }
    let m = if count < n {
        count
    } else {
        n
    };
    let mut sel: Vec<usize> = Vec::new();
    let mut k: usize = 0;
    while k < m
        invariant
            m <= perm@.len(),
            k <= m,
            sel@ == perm@.take(k as int),
        decreases m - k,
    {
        sel.push(perm[k]);
        k += 1;
    }
    assert forall|a: int, j: int|
        #![trigger sel@[a], keys@[j]]
        0 <= a < sel@.len() && 0 <= j < keys@.len() && !selects(sel@, j) implies precedes(
        keys@,
        sel@[a] as int,
        j,
    ) by {
        assert(perm@.contains(j as usize));
        let b = choose|b: int| 0 <= b < perm@.len() && perm@[b] == j as usize;
        if b < m {
            assert(sel@[b] == j as usize);
        }
    }
    sel
}


/// The keys of `(id, key)` entries.
pub open spec fn entry_keys(entries: Seq<(String, u32)>) -> Seq<u32> {
    entries.map_values(|e: (String, u32)| e.1)
}

/// The ids of the `excess` entries with the least progress key, least first and the
/// earlier entry first among equal keys: the tasks to pause when the concurrency limit
/// drops by `excess`.
pub fn select_tasks_to_pause(entries: &Vec<(String, u32)>, excess: usize) -> (ids: Vec<String>)
    ensures
        exists|sel: Seq<usize>|
            {
                &&& is_least_first(entry_keys(entries@), excess as int, sel)
                &&& ids@.len() == sel.len()
                &&& forall|k: int| 0 <= k < sel.len() ==> #[trigger] ids@[k] == entries@[sel[k] as int].0
            },
{
    let mut keys: Vec<u32> = Vec::new();
    let mut i: usize = 0;
    while i < entries.len()
        invariant
            i <= entries@.len(),
            keys@ == entry_keys(entries@).subrange(0, i as int),
        decreases entries@.len() - i,
    {
        keys.push(entries[i].1);
        assert(entry_keys(entries@).subrange(0, i + 1) =~= entry_keys(entries@).subrange(
            0,
            i as int,
        ).push(entries@[i as int].1));
        i += 1;
    }
    assert(keys@ =~= entry_keys(entries@));
    let sel = least_progress_first(&keys, excess);
    let mut ids: Vec<String> = Vec::new();
    let mut k: usize = 0;
    while k < sel.len()
        invariant
            is_least_first(entry_keys(entries@), excess as int, sel@),
            k <= sel@.len(),
            ids@.len() == k,
            forall|j: int| 0 <= j < k ==> #[trigger] ids@[j] == entries@[sel@[j] as int].0,
        decreases sel@.len() - k,
    {
        let e = sel[k];
        ids.push(entries[e].0.clone());
        k += 1;
    }
    ids
}

// ── Download records of queued tasks ────────────────────────────────

/// The records of video `url` from subscription `sub_id`.
pub open spec fn record_of(url: Seq<char>, sub_id: Seq<char>) -> spec_fn(DownloadRecord) -> bool {
    |r: DownloadRecord| r.video_url@ == url && r.subscription_id@ == sub_id
}

/// `b` is `a` with status `status`, error `error` and time `now`.
pub open spec fn restated(
    a: DownloadRecord,
    b: DownloadRecord,
    status: Seq<char>,
    error: Option<String>,
    now: String,
) -> bool {
    b == DownloadRecord { status: b.status, error_message: error, downloaded_at: now, ..a }
        && b.status@ == status
}

/// Sets status, error and time of every record of video `video_url` from subscription
/// `subscription_id`; the other records stay as they were.
pub fn update_record_status(
    records: &mut Vec<DownloadRecord>,
    video_url: &str,
    subscription_id: &str,
    status: &str,
    error_message: Option<String>,
    now: String,
)
    ensures
        final(records)@.len() == old(records)@.len(),
        forall|i: int|
            0 <= i < old(records)@.len() ==> if record_of(video_url@, subscription_id@)(
                old(records)@[i],
            ) {
                restated(old(records)@[i], #[trigger] final(records)@[i], status@, error_message, now)
            } else {
                final(records)@[i] == old(records)@[i]
            },
{
    let ghost before = records@;
    let ghost pred = record_of(video_url@, subscription_id@);
    let mut i: usize = 0;
    while i < records.len()
        invariant
            pred == record_of(video_url@, subscription_id@),
            records@.len() == before.len(),
            i <= before.len(),
            forall|j: int|
                0 <= j < i ==> if pred(before[j]) {
                    restated(before[j], #[trigger] records@[j], status@, error_message, now)
                } else {
                    records@[j] == before[j]
                },
            forall|j: int| i <= j < before.len() ==> #[trigger] records@[j] == before[j],
        decreases before.len() - i,
    {
        if str_eq(records[i].video_url.as_str(), video_url) && str_eq(
            records[i].subscription_id.as_str(),
            subscription_id,
        ) {
            let mut r = records.remove(i);
            r.status = String::from_str(status);
            r.error_message = match &error_message {
                Some(e) => Some(e.clone()),
                None => None,
            };
            r.downloaded_at = now.clone();
            records.insert(i, r);
        }
        i += 1;
    }
}

/// `b` is `a` with status `status`, error `error` (by its text) and time `now`.
pub open spec fn marked(a: DownloadRecord, b: DownloadRecord, status: Seq<char>, error: Option<Seq<char>>, now: String) -> bool {
    &&& b == DownloadRecord { status: b.status, error_message: b.error_message, downloaded_at: now, ..a }
    &&& b.status@ == status
    &&& match b.error_message {
        Some(e) => error == Some(e@),
        None => error is None,
    }
}

/// Every record of video `url` from subscription `sub_id` in `old` is marked in `new`;
/// the others stay as they were.
pub open spec fn records_marked(
    old: Seq<DownloadRecord>,
    new: Seq<DownloadRecord>,
    url: Seq<char>,
    sub_id: Seq<char>,
    status: Seq<char>,
    error: Option<Seq<char>>,
    now: String,
) -> bool {
    &&& new.len() == old.len()
    &&& forall|i: int|
        0 <= i < old.len() ==> if record_of(url, sub_id)(old[i]) {
            marked(old[i], #[trigger] new[i], status, error, now)
        } else {
            new[i] == old[i]
        }
}

/// Marks the download records of a paused or resumed task with the change's status,
/// clearing their error.
pub fn apply_status_change(records: &mut Vec<DownloadRecord>, change: &StatusChange, now: String)
    ensures
        records_marked(
            old(records)@,
            final(records)@,
            change.video_url@,
            change.subscription_id@,
            mark_text(change.mark),
            None,
            now,
        ),
{
    let status = match change.mark {
        RecordMark::Paused => "paused",
        RecordMark::Downloading => "downloading",
    };
    update_record_status(records, change.video_url.as_str(), change.subscription_id.as_str(), status, None, now);
}

/// The task a cancellation took out of the queue.
pub open spec fn cancelled_task(c: Cancelled) -> DownloadTask {
    match c {
        Cancelled::Active(a) => a.task,
        Cancelled::Waiting(t) => t,
    }
}

/// The error text of a cancelled download.
pub open spec fn cancelled_by_user() -> Seq<char> {
    "Cancelled by user"@
}

/// Marks the download records of a cancelled task as "cancelled", with the error
/// "Cancelled by user".
pub fn apply_cancellation(records: &mut Vec<DownloadRecord>, cancelled: &Cancelled, now: String)
    ensures
        records_marked(
            old(records)@,
            final(records)@,
            cancelled_task(*cancelled).video_url@,
            cancelled_task(*cancelled).subscription_id@,
            "cancelled"@,
            Some(cancelled_by_user()),
            now,
        ),
{
    let task = match cancelled {
        Cancelled::Active(a) => &a.task,
        Cancelled::Waiting(t) => t,
    };
    let error = String::from_str("Cancelled by user");
    update_record_status(
        records,
        task.video_url.as_str(),
        task.subscription_id.as_str(),
        "cancelled",
        Some(error),
        now,
    );
}

/// Finds the last record of `url` from `sub_id`.
fn find_last_record_of(records: &Vec<DownloadRecord>, url: &str, sub_id: &str) -> (r: Option<usize>)
    ensures
        match r {
            Some(p) => last_where(records@, record_of(url@, sub_id@)) == Some(p as int),
            None => last_where(records@, record_of(url@, sub_id@)) is None,
        },
{
    let ghost pred = record_of(url@, sub_id@);
    let mut p: usize = records.len();
    while p > 0
        invariant
            pred == record_of(url@, sub_id@),
            p <= records@.len(),
            forall|q: int| p <= q < records@.len() ==> !pred(#[trigger] records@[q]),
        decreases p,
    {
        if str_eq(records[p - 1].video_url.as_str(), url) && str_eq(
            records[p - 1].subscription_id.as_str(),
            sub_id,
        ) {
            proof {
                lemma_last_where_some(records@, pred, p - 1);
            }
            return Some(p - 1);
        }
        p -= 1;
    }
    proof {
        lemma_last_where_none(records@, pred);
    }
    None
}

/// Finds the first record with id `id`.
fn find_record_by_id(records: &Vec<DownloadRecord>, id: &str) -> (r: Option<usize>)
    ensures
        match r {
            Some(p) => first_where(records@, has_record_id(id@)) == Some(p as int),
            None => first_where(records@, has_record_id(id@)) is None,
        },
{
    let ghost pred = has_record_id(id@);
    let mut p: usize = 0;
    while p < records.len()
        invariant
            pred == has_record_id(id@),
            p <= records@.len(),
            forall|q: int| 0 <= q < p ==> !pred(#[trigger] records@[q]),
        decreases records@.len() - p,
    {
        if str_eq(records[p].id.as_str(), id) {
            proof {
                lemma_first_where_some(records@, pred, p as int);
            }
            return Some(p);
        }
        p += 1;
    }
    proof {
        lemma_first_where_none(records@, pred);
    }
    None
}

/// The record that the outcome of a finished download of `url` from `sub_id` is
/// written to: the first record with the id of the last record of that video and
/// subscription.
pub open spec fn outcome_target(recs: Seq<DownloadRecord>, url: Seq<char>, sub_id: Seq<char>) -> Option<int> {
    match last_where(recs, record_of(url, sub_id)) {
        Some(p) => first_where(recs, has_record_id(recs[p].id@)),
        None => None,
    }
}

/// Finds `outcome_target`.
fn find_outcome_target(records: &Vec<DownloadRecord>, url: &str, sub_id: &str) -> (r: Option<usize>)
    ensures
        match r {
            Some(q) => outcome_target(records@, url@, sub_id@) == Some(q as int) && q < records@.len(),
            None => outcome_target(records@, url@, sub_id@) is None,
        },
{
    match find_last_record_of(records, url, sub_id) {
        Some(p) => {
            let id = records[p].id.as_str();
            let r = find_record_by_id(records, id);
            proof {
                if r is None {
                }
            }
            r
        },
        None => None,
    }
}

/// Writes a successful download into its record (see `outcome_target`): the file's
/// path and size, and status "completed". Nothing happens when yt-dlp reported no
/// path or there is no such record. Returns whether a record changed.
pub fn complete_download_record(
    records: &mut Vec<DownloadRecord>,
    video_url: &str,
    subscription_id: &str,
    file_path: &str,
    file_size: u64,
) -> (changed: bool)
    ensures
        match outcome_target(old(records)@, video_url@, subscription_id@) {
            Some(q) if file_path@.len() > 0 => {
                &&& changed
                &&& final(records)@ == old(records)@.update(
                    q,
                    (DownloadRecord {
                        file_path: final(records)@[q].file_path,
                        file_size,
                        status: final(records)@[q].status,
                        ..old(records)@[q]
                    }),
                )
                &&& final(records)@[q].file_path@ == file_path@
                &&& final(records)@[q].status@ == "completed"@
            },
            _ => !changed && final(records)@ == old(records)@,
        },
{
    if file_path.unicode_len() == 0 {
        return false;
    }
    match find_outcome_target(records, video_url, subscription_id) {
        Some(q) => {
            let mut r = records.remove(q);
            r.file_path = String::from_str(file_path);
            r.file_size = file_size;
            r.status = String::from_str("completed");
            records.insert(q, r);
            true
        },
        None => false,
    }
}

/// The error written to a failed download: a proxy failure when a proxy is set,
/// else a failed process.
pub open spec fn failure_text(has_proxy: bool) -> Seq<char> {
    if has_proxy {
        "代理连接失败"@
    } else {
        "yt-dlp process exited with error"@
    }
}

/// Writes a failed download into its record (see `outcome_target`): status "failed"
/// with `failure_text`, unless the record was cancelled meanwhile. Returns whether a
/// record changed.
pub fn fail_download_record(
    records: &mut Vec<DownloadRecord>,
    video_url: &str,
    subscription_id: &str,
    has_proxy: bool,
) -> (changed: bool)
    ensures
        match outcome_target(old(records)@, video_url@, subscription_id@) {
            Some(q) if old(records)@[q].status@ != "cancelled"@ => {
                &&& changed
                &&& final(records)@ == old(records)@.update(
                    q,
                    (DownloadRecord {
                        status: final(records)@[q].status,
                        error_message: final(records)@[q].error_message,
                        ..old(records)@[q]
                    }),
                )
                &&& final(records)@[q].status@ == "failed"@
                &&& final(records)@[q].error_message matches Some(e) && e@ == failure_text(has_proxy)
            },
            _ => !changed && final(records)@ == old(records)@,
        },
{
    match find_outcome_target(records, video_url, subscription_id) {
        Some(q) => {
            if str_eq(records[q].status.as_str(), "cancelled") {
                return false;
            }
            let mut r = records.remove(q);
            r.status = String::from_str("failed");
            r.error_message = Some(
                if has_proxy {
                    String::from_str("代理连接失败")
                } else {
                    String::from_str("yt-dlp process exited with error")
                },
            );
            records.insert(q, r);
            true
        },
        None => false,
    }
}


/// Counts one more completed download in the application state.
pub fn count_completed_download(state: &mut AppState)
    requires
        old(state).total_downloads < u32::MAX,
    ensures
        final(state).total_downloads == old(state).total_downloads + 1,
        final(state).last_check_time == old(state).last_check_time,
{
    state.total_downloads = state.total_downloads + 1;
}

/// The subscription with id `id`.
pub open spec fn has_subscription_id(id: Seq<char>) -> spec_fn(Subscription) -> bool {
    |s: Subscription| s.id@ == id
}

/// Counts one more download for the first subscription with id `subscription_id`;
/// returns whether there is one.
pub fn count_subscription_download(subs: &mut Vec<Subscription>, subscription_id: &str) -> (found: bool)
    requires
        match first_where(old(subs)@, has_subscription_id(subscription_id@)) {
            Some(p) => old(subs)@[p].download_count < u32::MAX,
            None => true,
        },
    ensures
        match first_where(old(subs)@, has_subscription_id(subscription_id@)) {
            Some(p) => found && final(subs)@ == old(subs)@.update(
                p,
                (Subscription { download_count: (old(subs)@[p].download_count + 1) as u32, ..old(subs)@[p] }),
            ),
            None => !found && final(subs)@ == old(subs)@,
        },
{
    let ghost pred = has_subscription_id(subscription_id@);
    let mut p: usize = 0;
    while p < subs.len()
        invariant
            pred == has_subscription_id(subscription_id@),
            p <= subs@.len(),
            subs@ == old(subs)@,
            match first_where(subs@, pred) {
                Some(k) => subs@[k].download_count < u32::MAX,
                None => true,
            },
            forall|q: int| 0 <= q < p ==> !pred(#[trigger] subs@[q]),
        decreases subs@.len() - p,
    {
        if str_eq(subs[p].id.as_str(), subscription_id) {
            proof {
                lemma_first_where_some(subs@, pred, p as int);
            }
            let c = subs[p].download_count;
            subs[p].download_count = c + 1;
            return true;
        }
        p += 1;
    }
    proof {
        lemma_first_where_none(subs@, pred);
    }
    false
}

// ── Laws of the queue ───────────────────────────────────────────────

/// Both operations succeeded on the same task: the same video, subscription and
/// process, the first marking the records paused and the second downloading.
pub open spec fn same_target(r1: Result<StatusChange, AppError>, r2: Result<StatusChange, AppError>) -> bool {
    &&& r1 matches Ok(c1)
    &&& r2 matches Ok(c2)
    &&& c1.video_url == c2.video_url
    &&& c1.subscription_id == c2.subscription_id
    &&& c1.pid == c2.pid
    &&& c1.mark == RecordMark::Paused
    &&& c2.mark == RecordMark::Downloading
}

/// A pause marks the paused video's records "paused" and a resume marks them
/// "downloading", whichever task (active or waiting) the operation found: the mark of a
/// successful change agrees with the task's new status.
pub proof fn law_marks_follow_the_operation(
    a0: Seq<ActiveTask>,
    w0: Seq<DownloadTask>,
    a1: Seq<ActiveTask>,
    w1: Seq<DownloadTask>,
    key: Seq<char>,
    r: Result<StatusChange, AppError>,
)
    ensures
        pause_effect(a0, w0, a1, w1, key, r) && r is Ok ==> mark_text(r->Ok_0.mark) == "paused"@,
        pause_by_url_effect(a0, w0, a1, w1, key, r) && r is Ok ==> mark_text(r->Ok_0.mark) == "paused"@,
        resume_effect(a0, w0, a1, w1, key, r) && r is Ok ==> mark_text(r->Ok_0.mark) == "downloading"@,
        pause_by_url_effect(a0, w0, a1, w1, key, r) && r is Ok && first_where(a0, active_has_url(key)) is Some
            ==> a1[first_where(a0, active_has_url(key))->0].task.status == TaskStatus::Paused,
{
}

/// Pausing an active task and then resuming it leaves that task running and the rest
/// of the queue as it was.
pub proof fn law_pause_then_resume_active_runs(
    a0: Seq<ActiveTask>,
    w0: Seq<DownloadTask>,
    a1: Seq<ActiveTask>,
    w1: Seq<DownloadTask>,
    a2: Seq<ActiveTask>,
    w2: Seq<DownloadTask>,
    id: Seq<char>,
    r1: Result<StatusChange, AppError>,
    r2: Result<StatusChange, AppError>,
)
    requires
        pause_effect(a0, w0, a1, w1, id, r1),
        resume_effect(a1, w1, a2, w2, id, r2),
        first_where(a0, active_has_id(id)) is Some,
    ensures
        ({
            let p = first_where(a0, active_has_id(id))->0;
            &&& a2 == a0.update(p, active_with_status(a0[p], TaskStatus::Running))
            &&& w2 == w0
            &&& same_target(r1, r2)
        }),
{
    let p = first_where(a0, active_has_id(id))->0;
    let pred = active_has_id(id);
    assert(is_first_where(a1, pred, p)) by {
        assert forall|q: int| 0 <= q < p implies !pred(#[trigger] a1[q]) by {
        }
    }
    lemma_first_where_some(a1, pred, p);
}

/// Pausing a waiting task and then resuming it gives back the queue as it was.
pub proof fn law_pause_then_resume_waiting_restores(
    a0: Seq<ActiveTask>,
    w0: Seq<DownloadTask>,
    a1: Seq<ActiveTask>,
    w1: Seq<DownloadTask>,
    a2: Seq<ActiveTask>,
    w2: Seq<DownloadTask>,
    id: Seq<char>,
    r1: Result<StatusChange, AppError>,
    r2: Result<StatusChange, AppError>,
)
    requires
        pause_effect(a0, w0, a1, w1, id, r1),
        resume_effect(a1, w1, a2, w2, id, r2),
        first_where(a0, active_has_id(id)) is None,
        first_where(w0, has_task_id(id)) matches Some(q) && w0[q].status == TaskStatus::Waiting,
    ensures
        a2 == a0,
        w2 == w0,
        same_target(r1, r2),
{
    let q = first_where(w0, has_task_id(id))->0;
    let pred = is_paused_task(id);
    assert(is_first_where(w1, pred, q)) by {
        assert forall|k: int| 0 <= k < q implies !pred(#[trigger] w1[k]) by {
        }
    }
    lemma_first_where_some(w1, pred, q);
}

/// When the limit does not drop there is nothing to reclaim, and a selection of no
/// entries selects none: raising the limit or keeping it pauses no task.
pub proof fn law_no_drop_pauses_nothing(keys: Seq<u32>, sel: Seq<usize>)
    requires
        is_least_first(keys, 0, sel),
    ensures
        sel.len() == 0,
        forall|j: int| !selects(sel, j),
{
}

/// The selection for a drop of `count` holds exactly `count` entries when there are
/// that many, and never one with more progress than an entry left running.
pub proof fn law_paused_have_least_progress(keys: Seq<u32>, count: int, sel: Seq<usize>, a: int, j: int)
    requires
        is_least_first(keys, count, sel),
        0 <= count <= keys.len(),
        0 <= a < sel.len(),
        0 <= j < keys.len(),
        !selects(sel, j),
    ensures
        sel.len() == count,
        keys[sel[a] as int] <= keys[j],
{
}

} // verus!
