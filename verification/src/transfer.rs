//! The copy/move transfer queue: jobs with status, progress and timing, looked up
//! by the id that the queue hands out.

use vstd::prelude::*;
use crate::model::FileCommand;
use std::collections::VecDeque;

verus! {

#[derive(Debug, Clone, Copy, PartialEq, Eq, Structural, Hash)]
pub enum ConflictPolicy {
    Skip,
    Overwrite,
    Rename,
}

#[derive(Debug, Clone, Copy, PartialEq, Eq, Structural, Hash)]
pub enum JobStatus {
    Pending,
    Running,
    Paused,
    Completed,
    Failed,
    Conflict,
    Canceled,
}

#[derive(Debug, Clone, PartialEq, Eq)]
pub struct TransferJob {
    pub id: u64,
    pub command: FileCommand,
    pub status: JobStatus,
    pub bytes_done: u64,
    pub bytes_total: u64,
    pub destination: String,
    pub started_at_unix_secs: Option<u64>,
    pub finished_at_unix_secs: Option<u64>,
    pub speed_bytes_per_sec: Option<u64>,
    pub eta_seconds: Option<u64>,
    pub last_error: Option<String>,
}

#[derive(Debug, Clone, Copy, PartialEq, Eq, Structural, Hash)]
pub enum QueueError {
    InvalidCommand,
    JobNotFound(u64),
}

impl QueueError {
    /// The text shown for this error.
    pub fn message(&self) -> (s: String)
        ensures
            s@ == match *self {
                QueueError::InvalidCommand => "invalid command for transfer queue"@,
                QueueError::JobNotFound(id) => "transfer job not found: "@ + crate::text::decimal(id as nat),
            },
    {
        match self {
            QueueError::InvalidCommand => "invalid command for transfer queue".to_owned(),
            QueueError::JobNotFound(id) => {
                let mut s = "transfer job not found: ".to_owned();
                crate::text::push_decimal(&mut s, *id);
                s
            },
        }
    }
}

/// The queue. `next_id` is the id the next enqueued job receives.
#[derive(Debug)]
pub struct TransferQueue {
    next_id: u64,
    pub default_policy: ConflictPolicy,
    pub jobs: VecDeque<TransferJob>,
}

/// `k` is the first position of a job with this id.
pub open spec fn is_first_with_id(jobs: Seq<TransferJob>, id: u64, k: int) -> bool {
    &&& 0 <= k < jobs.len()
    &&& jobs[k].id == id
    &&& forall|j: int| 0 <= j < k ==> (#[trigger] jobs[j]).id != id
}

/// Some job has this id.
pub open spec fn has_job(jobs: Seq<TransferJob>, id: u64) -> bool {
    exists|k: int| 0 <= k < jobs.len() && (#[trigger] jobs[k]).id == id
}

/// The first position of a job with this id (meaningful when [`has_job`]).
pub open spec fn first_with_id(jobs: Seq<TransferJob>, id: u64) -> int {
    choose|k: int| is_first_with_id(jobs, id, k)
}

/// The job list after `f` is applied to the first job with this id.
pub open spec fn update_first(jobs: Seq<TransferJob>, id: u64, f: spec_fn(TransferJob) -> TransferJob) -> Seq<TransferJob> {
    let k = first_with_id(jobs, id);
    jobs.update(k, f(jobs[k]))
}

/// A job that has started running at `now`.
pub open spec fn running(j: TransferJob, now: u64) -> TransferJob {
    TransferJob {
        status: JobStatus::Running,
        started_at_unix_secs: Some(now),
        finished_at_unix_secs: None,
        last_error: None,
        ..j
    }
}

/// A job whose expected size is now known.
pub open spec fn with_expected_bytes(j: TransferJob, total: u64) -> TransferJob {
    TransferJob { bytes_total: total, eta_seconds: None, ..j }
}

/// Seconds between `start` and `end`, at least one.
pub open spec fn elapsed_secs(start: u64, end: u64) -> u64 {
    if end > start + 1 {
        (end - start) as u64
    } else {
        1
    }
}

/// A job that completed at `now` after transferring `done` bytes: the total is
/// set to `done` when it was unknown (zero), and for a started job the average
/// speed is `done` over the elapsed whole seconds (at least one) with nothing left.
pub open spec fn completed(j: TransferJob, done: u64, now: u64) -> TransferJob {
    TransferJob {
        status: JobStatus::Completed,
        bytes_done: done,
        bytes_total: if j.bytes_total == 0 { done } else { j.bytes_total },
        finished_at_unix_secs: Some(now),
        speed_bytes_per_sec: match j.started_at_unix_secs {
            Some(s) => Some((done / elapsed_secs(s, now)) as u64),
            None => j.speed_bytes_per_sec,
        },
        eta_seconds: match j.started_at_unix_secs {
            Some(s) => Some(0),
            None => j.eta_seconds,
        },
        last_error: None,
        ..j
    }
}

/// A job that failed at `now` with this message.
pub open spec fn failed(j: TransferJob, message: String, now: u64) -> TransferJob {
    TransferJob {
        status: JobStatus::Failed,
        finished_at_unix_secs: Some(now),
        last_error: Some(message),
        ..j
    }
}

/// A job put back to pending, with its timing and error cleared.
pub open spec fn retry_pending(j: TransferJob) -> TransferJob {
    TransferJob {
        status: JobStatus::Pending,
        started_at_unix_secs: None,
        finished_at_unix_secs: None,
        speed_bytes_per_sec: None,
        eta_seconds: None,
        last_error: None,
        ..j
    }
}

/// A job as it is after canceling everything pending.
pub open spec fn canceled_if_pending(j: TransferJob) -> TransferJob {
    if j.status == JobStatus::Pending {
        TransferJob { status: JobStatus::Canceled, ..j }
    } else {
        j
    }
}

pub open spec fn is_pending(j: TransferJob) -> bool {
    j.status == JobStatus::Pending
}

pub open spec fn is_failed(j: TransferJob) -> bool {
    j.status == JobStatus::Failed
}

/// The failed jobs, in order.
pub open spec fn failed_of(jobs: Seq<TransferJob>) -> Seq<TransferJob> {
    jobs.filter(|j: TransferJob| is_failed(j))
}

/// A job that `clear_completed` keeps: neither completed nor canceled.
pub open spec fn is_unfinished(j: TransferJob) -> bool {
    j.status != JobStatus::Completed && j.status != JobStatus::Canceled
}

/// A command that the queue accepts.
pub open spec fn is_transfer(c: FileCommand) -> bool {
    c is Copy || c is Move
}

/// The job a freshly enqueued command becomes.
pub open spec fn new_job(id: u64, command: FileCommand, destination: String) -> TransferJob {
    TransferJob {
        id,
        command,
        status: JobStatus::Pending,
        bytes_done: 0,
        bytes_total: 0,
        destination,
        started_at_unix_secs: None,
        finished_at_unix_secs: None,
        speed_bytes_per_sec: None,
        eta_seconds: None,
        last_error: None,
    }
}

/// A lookup outcome: `Err(JobNotFound)` exactly when no job has the id, in which
/// case the jobs are unchanged; otherwise `Ok` and the first job with the id is
/// replaced by `f` of it.
pub open spec fn lookup_update(
    before: Seq<TransferJob>,
    after: Seq<TransferJob>,
    id: u64,
    r: Result<(), QueueError>,
    f: spec_fn(TransferJob) -> TransferJob,
) -> bool {
    if has_job(before, id) {
        r is Ok && after == update_first(before, id, f)
    } else {
        r == Err::<(), QueueError>(QueueError::JobNotFound(id)) && after == before
    }
}

/// The outcome of marking a job running at `now`.
pub open spec fn marked_running(before: Seq<TransferJob>, after: Seq<TransferJob>, id: u64, r: Result<(), QueueError>, now: u64) -> bool {
    lookup_update(before, after, id, r, |j: TransferJob| running(j, now))
}

/// The outcome of marking a job completed at `now`.
pub open spec fn marked_completed(before: Seq<TransferJob>, after: Seq<TransferJob>, id: u64, r: Result<(), QueueError>, done: u64, now: u64) -> bool {
    lookup_update(before, after, id, r, |j: TransferJob| completed(j, done, now))
}

/// The outcome of marking a job failed at `now`.
pub open spec fn marked_failed(before: Seq<TransferJob>, after: Seq<TransferJob>, id: u64, r: Result<(), QueueError>, message: String, now: u64) -> bool {
    lookup_update(before, after, id, r, |j: TransferJob| failed(j, message, now))
}

/// The current time in whole seconds since the Unix epoch (zero if the clock is
/// before the epoch), from `SystemTime::now`. Nothing is stated of the value.
#[verifier::external_body]
pub(crate) fn now_unix_secs() -> u64 {
    std::time::SystemTime::now().duration_since(std::time::UNIX_EPOCH).map(|d| d.as_secs()).unwrap_or(0)
}

/// The abstract state of the queue.
pub struct QueueView {
    pub next_id: u64,
    pub default_policy: ConflictPolicy,
    pub jobs: Seq<TransferJob>,
}

impl View for TransferQueue {
    type V = QueueView;

    closed spec fn view(&self) -> QueueView {
        QueueView { next_id: self.next_id, default_policy: self.default_policy, jobs: self.jobs@ }
    }
}

impl Default for TransferQueue {
    fn default() -> (q: Self)
        ensures
            q@.next_id == 1,
            q@.default_policy == ConflictPolicy::Rename,
            q@.jobs.len() == 0,
    {
        TransferQueue { next_id: 1, default_policy: ConflictPolicy::Rename, jobs: VecDeque::new() }
    }
}

impl TransferQueue {
    /// Every job id is below the next id to hand out.
    pub open spec fn ids_fresh(&self) -> bool {
        forall|k: int| 0 <= k < self@.jobs.len() ==> (#[trigger] self@.jobs[k]).id < self@.next_id
    }

    /// No two jobs share an id.
    pub open spec fn ids_unique(&self) -> bool {
        forall|i: int, j: int| 0 <= i < j < self@.jobs.len() ==> (#[trigger] self@.jobs[i]).id != (#[trigger] self@.jobs[j]).id
    }

    pub fn set_default_policy(&mut self, policy: ConflictPolicy)
        ensures
            final(self)@.default_policy == policy,
            final(self)@.jobs == old(self)@.jobs,
            final(self)@.next_id == old(self)@.next_id,
    {
        self.default_policy = policy;
    }

    /// Append a pending job for a copy or move command and return its id; any
    /// other command is refused with `InvalidCommand` and changes nothing.
    pub fn enqueue(&mut self, command: FileCommand, destination: String) -> (r: Result<u64, QueueError>)
        requires
            is_transfer(command) ==> old(self)@.next_id < u64::MAX,
        ensures
            is_transfer(command) ==> r == Ok::<u64, QueueError>(old(self)@.next_id)
                && final(self)@.jobs == old(self)@.jobs.push(new_job(old(self)@.next_id, command, destination))
                && final(self)@.next_id == old(self)@.next_id + 1,
            !is_transfer(command) ==> r == Err::<u64, QueueError>(QueueError::InvalidCommand)
                && final(self)@.jobs == old(self)@.jobs
                && final(self)@.next_id == old(self)@.next_id,
            final(self)@.default_policy == old(self)@.default_policy,
            old(self).ids_fresh() ==> final(self).ids_fresh(),
            old(self).ids_fresh() && old(self).ids_unique() ==> final(self).ids_unique(),
    {
        match command {
            FileCommand::Copy { .. } | FileCommand::Move { .. } => {
                let id = self.next_id;
                self.next_id = self.next_id + 1;
                self.jobs.push_back(TransferJob {
                    id,
                    command,
                    status: JobStatus::Pending,
                    bytes_done: 0,
                    bytes_total: 0,
                    destination,
                    started_at_unix_secs: None,
                    finished_at_unix_secs: None,
                    speed_bytes_per_sec: None,
                    eta_seconds: None,
                    last_error: None,
                });
                Ok(id)
            },
            _ => Err(QueueError::InvalidCommand),
        }
    }

    /// The position of the first job with this id.
    fn find(&self, id: u64) -> (r: Option<usize>)
        ensures
            match r {
                Some(k) => is_first_with_id(self.jobs@, id, k as int) && has_job(self.jobs@, id)
                    && first_with_id(self.jobs@, id) == k as int,
                None => !has_job(self.jobs@, id),
            },
    {
        let mut k: usize = 0;
        while k < self.jobs.len()
            invariant
                k <= self.jobs@.len(),
                forall|j: int| 0 <= j < k ==> (#[trigger] self.jobs@[j]).id != id,
            decreases self.jobs@.len() - k,
        {
            if self.jobs[k].id == id {
                assert(is_first_with_id(self.jobs@, id, k as int));
                let ghost c = first_with_id(self.jobs@, id);
                assert(is_first_with_id(self.jobs@, id, c));
                assert(c == k as int) by {
                    if c < k as int {
                        assert(self.jobs@[c].id != id);
                    }
                    if c > k as int {
                        assert(self.jobs@[k as int].id != id);
                    }
                }
                return Some(k);
            }
            k += 1;
        }
        None
    }

    /// Mark the job running, starting at `now`.
    pub fn mark_running_at(&mut self, id: u64, now: u64) -> (r: Result<(), QueueError>)
        ensures
            lookup_update(old(self)@.jobs, final(self)@.jobs, id, r, |j: TransferJob| running(j, now)),
            final(self)@.next_id == old(self)@.next_id,
            final(self)@.default_policy == old(self)@.default_policy,
    {
        match self.find(id) {
            Some(k) => {
                let mut job = self.jobs.remove(k).unwrap();
                job.status = JobStatus::Running;
                job.started_at_unix_secs = Some(now);
                job.finished_at_unix_secs = None;
                job.last_error = None;
                self.jobs.insert(k, job);
                assert(self.jobs@ =~= update_first(old(self)@.jobs, id, |j: TransferJob| running(j, now)));
                Ok(())
            },
            None => Err(QueueError::JobNotFound(id)),
        }
    }

    /// Mark the job running, starting now.
    pub fn mark_running(&mut self, id: u64) -> (r: Result<(), QueueError>)
        ensures
            exists|now: u64| #[trigger] marked_running(old(self)@.jobs, final(self)@.jobs, id, r, now),
            final(self)@.next_id == old(self)@.next_id,
            final(self)@.default_policy == old(self)@.default_policy,
    {
        let now = now_unix_secs();
        let r = self.mark_running_at(id, now);
        assert(marked_running(old(self)@.jobs, self@.jobs, id, r, now));
        r
    }

    /// Record the expected total size of the job.
    pub fn set_expected_bytes(&mut self, id: u64, bytes_total: u64) -> (r: Result<(), QueueError>)
        ensures
            lookup_update(old(self)@.jobs, final(self)@.jobs, id, r, |j: TransferJob| with_expected_bytes(j, bytes_total)),
            final(self)@.next_id == old(self)@.next_id,
            final(self)@.default_policy == old(self)@.default_policy,
    {
        match self.find(id) {
            Some(k) => {
                let mut job = self.jobs.remove(k).unwrap();
                job.bytes_total = bytes_total;
                job.eta_seconds = None;
                self.jobs.insert(k, job);
                assert(self.jobs@ =~= update_first(old(self)@.jobs, id, |j: TransferJob| with_expected_bytes(j, bytes_total)));
                Ok(())
            },
            None => Err(QueueError::JobNotFound(id)),
        }
    }

    /// Mark the job completed at `now` with `bytes_done` bytes transferred.
    pub fn mark_completed_at(&mut self, id: u64, bytes_done: u64, now: u64) -> (r: Result<(), QueueError>)
        ensures
            lookup_update(old(self)@.jobs, final(self)@.jobs, id, r, |j: TransferJob| completed(j, bytes_done, now)),
            final(self)@.next_id == old(self)@.next_id,
            final(self)@.default_policy == old(self)@.default_policy,
    {
        match self.find(id) {
            Some(k) => {
                let mut job = self.jobs.remove(k).unwrap();
                job.status = JobStatus::Completed;
                job.bytes_done = bytes_done;
                if job.bytes_total == 0 {
                    job.bytes_total = bytes_done;
                }
                job.finished_at_unix_secs = Some(now);
                match job.started_at_unix_secs {
                    Some(started) => {
                        let diff = now.saturating_sub(started);
                        let elapsed = if diff > 1 { diff } else { 1 };
                        let speed = bytes_done / elapsed;
                        job.speed_bytes_per_sec = Some(speed);
                        job.eta_seconds = Some(0);
                    },
                    None => {},
                }
                job.last_error = None;
                self.jobs.insert(k, job);
                assert(self.jobs@ =~= update_first(old(self)@.jobs, id, |j: TransferJob| completed(j, bytes_done, now)));
                Ok(())
            },
            None => Err(QueueError::JobNotFound(id)),
        }
    }

    /// Mark the job completed now with `bytes_done` bytes transferred.
    pub fn mark_completed(&mut self, id: u64, bytes_done: u64) -> (r: Result<(), QueueError>)
        ensures
            exists|now: u64| #[trigger] marked_completed(old(self)@.jobs, final(self)@.jobs, id, r, bytes_done, now),
            final(self)@.next_id == old(self)@.next_id,
            final(self)@.default_policy == old(self)@.default_policy,
    {
        let now = now_unix_secs();
        let r = self.mark_completed_at(id, bytes_done, now);
        assert(marked_completed(old(self)@.jobs, self@.jobs, id, r, bytes_done, now));
        r
    }

    /// Mark the job failed at `now` with this message.
    pub fn mark_failed_at(&mut self, id: u64, message: String, now: u64) -> (r: Result<(), QueueError>)
        ensures
            lookup_update(old(self)@.jobs, final(self)@.jobs, id, r, |j: TransferJob| failed(j, message, now)),
            final(self)@.next_id == old(self)@.next_id,
            final(self)@.default_policy == old(self)@.default_policy,
    {
        match self.find(id) {
            Some(k) => {
                let mut job = self.jobs.remove(k).unwrap();
                job.status = JobStatus::Failed;
                job.finished_at_unix_secs = Some(now);
                job.last_error = Some(message);
                self.jobs.insert(k, job);
                assert(self.jobs@ =~= update_first(old(self)@.jobs, id, |j: TransferJob| failed(j, message, now)));
                Ok(())
            },
            None => Err(QueueError::JobNotFound(id)),
        }
    }

    /// Mark the job failed now with this message.
    pub fn mark_failed(&mut self, id: u64, message: String) -> (r: Result<(), QueueError>)
        ensures
            exists|now: u64| #[trigger] marked_failed(old(self)@.jobs, final(self)@.jobs, id, r, message, now),
            final(self)@.next_id == old(self)@.next_id,
            final(self)@.default_policy == old(self)@.default_policy,
    {
        let now = now_unix_secs();
        let ghost m = message;
        let r = self.mark_failed_at(id, message, now);
        assert(marked_failed(old(self)@.jobs, self@.jobs, id, r, m, now));
        r
    }

    /// Cancel every pending job; returns how many were canceled.
    pub fn cancel_pending(&mut self) -> (n: usize)
        ensures
            final(self)@.jobs == old(self)@.jobs.map_values(|j: TransferJob| canceled_if_pending(j)),
            n == old(self)@.jobs.filter(|j: TransferJob| is_pending(j)).len(),
            final(self)@.next_id == old(self)@.next_id,
            final(self)@.default_policy == old(self)@.default_policy,
    {
        let ghost orig = self.jobs@;
        let mut canceled: usize = 0;
        let mut k: usize = 0;
        while k < self.jobs.len()
            invariant
                k <= self.jobs@.len(),
                self.jobs@.len() == orig.len(),
                self@.next_id == old(self)@.next_id,
                self@.default_policy == old(self)@.default_policy,
                orig == old(self)@.jobs,
                forall|j: int| 0 <= j < k ==> #[trigger] self.jobs@[j] == canceled_if_pending(orig[j]),
                forall|j: int| k <= j < orig.len() ==> #[trigger] self.jobs@[j] == orig[j],
                canceled as int == orig.take(k as int).filter(|j: TransferJob| is_pending(j)).len(),
                canceled <= k,
            decreases orig.len() - k,
        {
            let ghost before = orig.take(k as int);
            assert(orig.take(k as int + 1).drop_last() =~= before);
            reveal_with_fuel(Seq::filter, 1);
            if self.jobs[k].status == JobStatus::Pending {
                let mut job = self.jobs.remove(k).unwrap();
                job.status = JobStatus::Canceled;
                self.jobs.insert(k, job);
                canceled = canceled + 1;
            }
            k += 1;
        }
        assert(orig.take(orig.len() as int) =~= orig);
        assert(self.jobs@ =~= orig.map_values(|j: TransferJob| canceled_if_pending(j)));
        canceled
    }

    /// The ids and commands of the failed jobs, in queue order.
    pub fn failed_jobs(&self) -> (v: Vec<(u64, FileCommand)>)
        ensures
            v@.len() == failed_of(self@.jobs).len(),
            forall|i: int| 0 <= i < v@.len() ==>
                v@[i].0 == (#[trigger] failed_of(self@.jobs)[i]).id && v@[i].1.same_as(failed_of(self@.jobs)[i].command),
    {
        let mut v: Vec<(u64, FileCommand)> = Vec::new();
        let mut k: usize = 0;
        while k < self.jobs.len()
            invariant
                k <= self.jobs@.len(),
                v@.len() == failed_of(self.jobs@.take(k as int)).len(),
                forall|i: int| 0 <= i < v@.len() ==>
                    v@[i].0 == (#[trigger] failed_of(self.jobs@.take(k as int))[i]).id
                    && v@[i].1.same_as(failed_of(self.jobs@.take(k as int))[i].command),
            decreases self.jobs@.len() - k,
        {
            let ghost before = self.jobs@.take(k as int);
            assert(self.jobs@.take(k as int + 1).drop_last() =~= before);
            reveal_with_fuel(Seq::filter, 1);
            if self.jobs[k].status == JobStatus::Failed {
                let c = self.jobs[k].command.duplicate();
                v.push((self.jobs[k].id, c));
            }
            k += 1;
        }
        assert(self.jobs@.take(self.jobs@.len() as int) =~= self.jobs@);
        v
    }

    /// Drop the completed and canceled jobs; returns how many were dropped.
    pub fn clear_completed(&mut self) -> (n: usize)
        ensures
            final(self)@.jobs == old(self)@.jobs.filter(|j: TransferJob| is_unfinished(j)),
            n == old(self)@.jobs.len() - final(self)@.jobs.len(),
            final(self)@.next_id == old(self)@.next_id,
            final(self)@.default_policy == old(self)@.default_policy,
    {
        let before_len = self.jobs.len();
        let ghost orig = self.jobs@;
        let ghost keep = |j: TransferJob| is_unfinished(j);
        let mut k: usize = 0;
        let ghost mut i: int = 0;
        while k < self.jobs.len()
            invariant
                0 <= i <= orig.len(),
                orig == old(self)@.jobs,
                self@.next_id == old(self)@.next_id,
                self@.default_policy == old(self)@.default_policy,
                self.jobs@ == orig.take(i).filter(|j: TransferJob| is_unfinished(j)) + orig.skip(i),
                k as int == orig.take(i).filter(|j: TransferJob| is_unfinished(j)).len(),
            decreases self.jobs@.len() - k,
        {
            let ghost done = orig.take(i).filter(|j: TransferJob| is_unfinished(j));
            assert(self.jobs@[k as int] == orig[i]);
            assert(orig.take(i + 1).drop_last() =~= orig.take(i));
            reveal_with_fuel(Seq::filter, 1);
            let status = self.jobs[k].status;
            if status == JobStatus::Completed || status == JobStatus::Canceled {
                let _ = self.jobs.remove(k);
                assert(self.jobs@ =~= done + orig.skip(i + 1));
            } else {
                k += 1;
                assert(self.jobs@ =~= done.push(orig[i]) + orig.skip(i + 1));
            }
            proof {
                i = i + 1;
            }
        }
        assert(orig.take(i) =~= orig);
        assert(orig.skip(i) =~= Seq::<TransferJob>::empty());
        assert(self.jobs@ =~= orig.filter(|j: TransferJob| is_unfinished(j)));
        proof {
            orig.lemma_filter_len(|j: TransferJob| is_unfinished(j));
        }
        before_len - self.jobs.len()
    }

    /// Put the job back to pending, clearing its timing and error.
    pub fn mark_retry_pending(&mut self, id: u64) -> (r: Result<(), QueueError>)
        ensures
            lookup_update(old(self)@.jobs, final(self)@.jobs, id, r, |j: TransferJob| retry_pending(j)),
            final(self)@.next_id == old(self)@.next_id,
            final(self)@.default_policy == old(self)@.default_policy,
    {
        match self.find(id) {
            Some(k) => {
                let mut job = self.jobs.remove(k).unwrap();
                job.status = JobStatus::Pending;
                job.started_at_unix_secs = None;
                job.finished_at_unix_secs = None;
                job.speed_bytes_per_sec = None;
                job.eta_seconds = None;
                job.last_error = None;
                self.jobs.insert(k, job);
                assert(self.jobs@ =~= update_first(old(self)@.jobs, id, |j: TransferJob| retry_pending(j)));
                Ok(())
            },
            None => Err(QueueError::JobNotFound(id)),
        }
    }
}

/// An enqueued job's id is new: while every id is below the next one, no job
/// already has the id that `enqueue` hands out.
pub proof fn law_enqueued_id_is_new(q: TransferQueue)
    requires
        q.ids_fresh(),
    ensures
        !has_job(q@.jobs, q@.next_id),
{
    assert forall|k: int| 0 <= k < q@.jobs.len() implies (#[trigger] q@.jobs[k]).id != q@.next_id by {
        assert(q@.jobs[k].id < q@.next_id);
    }
}

/// The jobs after canceling every pending one (what `cancel_pending` leaves).
pub open spec fn cancel_all(jobs: Seq<TransferJob>) -> Seq<TransferJob> {
    jobs.map_values(|j: TransferJob| canceled_if_pending(j))
}

/// The jobs that `clear_completed` keeps.
pub open spec fn clear_finished(jobs: Seq<TransferJob>) -> Seq<TransferJob> {
    jobs.filter(|j: TransferJob| is_unfinished(j))
}

/// Clearing drops exactly the completed and canceled jobs: every job left is
/// neither, every job that is neither (pending, running, paused, failed or in
/// conflict) is kept, in order, and the failed jobs, which can still be retried,
/// are the same before and after.
pub proof fn law_clear_keeps_unfinished_and_failed(jobs: Seq<TransferJob>)
    ensures
        clear_finished(jobs) == jobs.filter(
            |j: TransferJob| j.status != JobStatus::Completed && j.status != JobStatus::Canceled,
        ),
        forall|k: int| 0 <= k < clear_finished(jobs).len() ==> {
            let st = (#[trigger] clear_finished(jobs)[k]).status;
            st != JobStatus::Completed && st != JobStatus::Canceled
        },
        forall|i: int|
            0 <= i < jobs.len() && (#[trigger] jobs[i]).status != JobStatus::Completed && jobs[i].status
                != JobStatus::Canceled ==> clear_finished(jobs).contains(jobs[i]),
        failed_of(clear_finished(jobs)) == failed_of(jobs),
        jobs.len() - clear_finished(jobs).len() == jobs.filter(
            |j: TransferJob| j.status == JobStatus::Completed || j.status == JobStatus::Canceled,
        ).len(),
    decreases jobs.len(),
{
    broadcast use vstd::seq_lib::group_filter_ensures;

    reveal_with_fuel(Seq::filter, 1);
    let keep = |j: TransferJob| j.status != JobStatus::Completed && j.status != JobStatus::Canceled;
    let drop = |j: TransferJob| j.status == JobStatus::Completed || j.status == JobStatus::Canceled;
    if jobs.len() > 0 {
        law_clear_keeps_unfinished_and_failed(jobs.drop_last());
        let d = jobs.drop_last();
        let c = clear_finished(d);
        if is_unfinished(jobs.last()) {
            assert(clear_finished(jobs) == c.push(jobs.last()));
            assert(c.push(jobs.last()).drop_last() =~= c);
            assert(failed_of(c.push(jobs.last())) == if is_failed(jobs.last()) {
                failed_of(c).push(jobs.last())
            } else {
                failed_of(c)
            });
        } else {
            assert(clear_finished(jobs) == c);
            assert(!is_failed(jobs.last()));
        }
    }
    assert(clear_finished(jobs) =~= jobs.filter(keep)) by {
        lemma_filter_same(jobs, |j: TransferJob| is_unfinished(j), keep);
    }
}

/// Filtering by two predicates that agree everywhere gives the same sequence.
proof fn lemma_filter_same(s: Seq<TransferJob>, p: spec_fn(TransferJob) -> bool, q: spec_fn(TransferJob) -> bool)
    requires
        forall|j: TransferJob| #[trigger] p(j) == q(j),
    ensures
        s.filter(p) == s.filter(q),
    decreases s.len(),
{
    reveal_with_fuel(Seq::filter, 1);
    if s.len() > 0 {
        lemma_filter_same(s.drop_last(), p, q);
    }
}

/// Canceling the pending jobs and then clearing the finished ones leaves no
/// pending job, and only unfinished ones.
pub proof fn law_cancel_then_clear_leaves_nothing_pending(jobs: Seq<TransferJob>)
    ensures
        forall|k: int| 0 <= k < clear_finished(cancel_all(jobs)).len() ==> !is_pending(
            #[trigger] clear_finished(cancel_all(jobs))[k],
        ) && is_unfinished(clear_finished(cancel_all(jobs))[k]),
{
    let c = cancel_all(jobs);
    let f = clear_finished(c);
    assert forall|k: int| 0 <= k < f.len() implies !is_pending(#[trigger] f[k]) && is_unfinished(f[k]) by {
        broadcast use vstd::seq_lib::group_filter_ensures;
        assert(f.contains(f[k]));
        c.lemma_filter_contains_rev(|j: TransferJob| is_unfinished(j), f[k]);
        let i = choose|i: int| 0 <= i < c.len() && c[i] == f[k];
        assert(c[i] == canceled_if_pending(jobs[i]));
    }
}

/// Canceling the pending jobs twice is the same as canceling them once.
pub proof fn law_cancel_pending_idempotent(jobs: Seq<TransferJob>)
    ensures
        cancel_all(cancel_all(jobs)) == cancel_all(jobs),
{
    assert(cancel_all(cancel_all(jobs)) =~= cancel_all(jobs));
}

/// Putting a job back to pending forgets a run or a failure: a job retried after
/// being started or after failing is the job retried directly.
pub proof fn law_retry_forgets_run_and_failure(j: TransferJob, now: u64, message: String)
    ensures
        retry_pending(running(j, now)) == retry_pending(j),
        retry_pending(failed(j, message, now)) == retry_pending(j),
{
}

} // verus!
