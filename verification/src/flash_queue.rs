//! The flash queue: a FIFO waiting list, one current slot for the job that
//! drives the display, and a short list of recently finished jobs that stay
//! visible to status polling.
//!
//! Every operation that stamps a time exists in two forms. The form whose
//! name ends in `_at` takes the time as an argument and has an exact
//! contract over [`QueueView`]; the other reads the wall clock and calls it.

use std::collections::VecDeque;
use vstd::prelude::*;

use crate::clock::current_time_millis;
use crate::queue_proofs::{law_apply_preserves_wf, QueueOp};

verus! {

/// How long a finished job stays visible, in milliseconds.
pub const FINISHED_JOB_RETENTION_MS: u64 = 30_000;

/// Status of a flash job.
#[derive(Debug, Clone, Copy, PartialEq, Eq, Structural)]
pub enum FlashJobStatus {
    /// Job is waiting in queue.
    Queued,
    /// Job is currently being flashed to display.
    Flashing,
    /// Job completed successfully.
    Completed,
    /// Job failed with error.
    Failed,
}

/// A status from which a job never moves again.
pub open spec fn is_terminal(status: FlashJobStatus) -> bool {
    status == FlashJobStatus::Completed || status == FlashJobStatus::Failed
}

/// True once more than the retention window lies between `finished_at` and `now`.
pub open spec fn retention_elapsed(finished_at: u64, now: u64) -> bool {
    now > finished_at && now - finished_at > FINISHED_JOB_RETENTION_MS
}

/// A single flash job.
#[derive(Debug)]
pub struct FlashJob {
    /// Unique job identifier.
    pub job_id: u64,
    /// Original filename (for display).
    pub filename: String,
    /// Path to dithered image file.
    pub dithered_path: String,
    /// Whether to flash twice.
    pub flash_twice: bool,
    /// Display rotation to apply at flash time.
    pub rotation_degrees: u16,
    /// Job state.
    pub status: FlashJobStatus,
    /// When the job was created (Unix timestamp in milliseconds).
    pub created_at: u64,
    /// When the job started processing (Unix timestamp in milliseconds).
    pub started_at: Option<u64>,
    /// When the job finished (Unix timestamp in milliseconds).
    pub finished_at: Option<u64>,
    /// Error message (if job failed).
    pub error_message: Option<String>,
}

/// The mathematical value of a [`FlashJob`].
pub struct JobView {
    pub job_id: nat,
    pub filename: Seq<char>,
    pub dithered_path: Seq<char>,
    pub flash_twice: bool,
    pub rotation_degrees: u16,
    pub status: FlashJobStatus,
    pub created_at: u64,
    pub started_at: Option<u64>,
    pub finished_at: Option<u64>,
    pub error_message: Option<Seq<char>>,
}

impl View for FlashJob {
    type V = JobView;

    open spec fn view(&self) -> JobView {
        JobView {
            job_id: self.job_id as nat,
            filename: self.filename@,
            dithered_path: self.dithered_path@,
            flash_twice: self.flash_twice,
            rotation_degrees: self.rotation_degrees,
            status: self.status,
            created_at: self.created_at,
            started_at: self.started_at,
            finished_at: self.finished_at,
            error_message: match self.error_message {
                Some(message) => Some(message@),
                None => None,
            },
        }
    }
}

impl Clone for FlashJob {
    fn clone(&self) -> (copy: Self)
        ensures
            copy == *self,
    {
        let error_message = match &self.error_message {
            Some(message) => Some(message.clone()),
            None => None,
        };
        FlashJob {
            job_id: self.job_id,
            filename: self.filename.clone(),
            dithered_path: self.dithered_path.clone(),
            flash_twice: self.flash_twice,
            rotation_degrees: self.rotation_degrees,
            status: self.status,
            created_at: self.created_at,
            started_at: self.started_at,
            finished_at: self.finished_at,
            error_message,
        }
    }
}

/// The view of an optional job.
pub open spec fn job_view(job: Option<FlashJob>) -> Option<JobView> {
    match job {
        Some(j) => Some(j@),
        None => None,
    }
}

/// The views of a list of jobs, in order.
pub open spec fn job_views(jobs: Seq<FlashJob>) -> Seq<JobView> {
    jobs.map_values(|j: FlashJob| j@)
}

/// The job that `enqueue` builds.
pub open spec fn queued_job(
    job_id: nat,
    filename: Seq<char>,
    dithered_path: Seq<char>,
    flash_twice: bool,
    rotation_degrees: u16,
    now: u64,
) -> JobView {
    JobView {
        job_id,
        filename,
        dithered_path,
        flash_twice,
        rotation_degrees,
        status: FlashJobStatus::Queued,
        created_at: now,
        started_at: None,
        finished_at: None,
        error_message: None,
    }
}

/// The position of the first job in `jobs` whose id is `job_id`.
pub open spec fn index_of_id(jobs: Seq<JobView>, job_id: nat) -> Option<nat>
    decreases jobs.len(),
{
    if jobs.len() == 0 {
        None
    } else if jobs[0].job_id == job_id {
        Some(0)
    } else {
        match index_of_id(jobs.drop_first(), job_id) {
            Some(i) => Some(i + 1),
            None => None,
        }
    }
}

/// The number of leading jobs of `jobs` whose retention window is over at
/// `now`. A job without a finish time counts as over.
pub open spec fn expired_prefix_len(jobs: Seq<JobView>, now: u64) -> nat
    decreases jobs.len(),
{
    if jobs.len() == 0 {
        0
    } else if job_expired(jobs[0], now) {
        1 + expired_prefix_len(jobs.drop_first(), now)
    } else {
        0
    }
}

/// Whether a retained job may be dropped at `now`.
pub open spec fn job_expired(job: JobView, now: u64) -> bool {
    match job.finished_at {
        Some(finished_at) => retention_elapsed(finished_at, now),
        None => true,
    }
}

/// The mathematical state of a [`FlashQueue`].
pub struct QueueView {
    /// The job in the current slot.
    pub current: Option<JobView>,
    /// The waiting jobs, head first.
    pub waiting: Seq<JobView>,
    /// Finished jobs that left the current slot, oldest first.
    pub recent: Seq<JobView>,
    /// The id that the next enqueue hands out.
    pub next_job_id: nat,
}

impl QueueView {
    /// The empty queue, whose first job gets id 1.
    pub open spec fn empty() -> QueueView {
        QueueView { current: None, waiting: Seq::empty(), recent: Seq::empty(), next_job_id: 1 }
    }

    /// The state after a job is appended to the waiting list.
    pub open spec fn enqueue(
        self,
        filename: Seq<char>,
        dithered_path: Seq<char>,
        flash_twice: bool,
        rotation_degrees: u16,
        now: u64,
    ) -> QueueView {
        QueueView {
            waiting: self.waiting.push(
                queued_job(
                    self.next_job_id,
                    filename,
                    dithered_path,
                    flash_twice,
                    rotation_degrees,
                    now,
                ),
            ),
            next_job_id: self.next_job_id + 1,
            ..self
        }
    }

    /// True while the current slot holds a job that has not finished.
    pub open spec fn busy(self) -> bool {
        self.current is Some && !is_terminal(self.current->0.status)
    }

    /// The head of the waiting list as it enters the current slot at `now`.
    pub open spec fn started_head(self, now: u64) -> JobView {
        JobView { status: FlashJobStatus::Flashing, started_at: Some(now), ..self.waiting[0] }
    }

    /// The job that a dequeue at `now` hands to the worker, if any.
    pub open spec fn dequeued(self, now: u64) -> Option<JobView> {
        if self.busy() || self.waiting.len() == 0 {
            None
        } else {
            Some(self.started_head(now))
        }
    }

    /// The state after a dequeue at `now`: nothing changes while a job is
    /// active; otherwise a finished current job moves to the retained list
    /// and the head of the waiting list, if there is one, becomes current.
    pub open spec fn dequeue(self, now: u64) -> QueueView {
        if self.busy() {
            self
        } else {
            let recent = match self.current {
                Some(done) => self.recent.push(done),
                None => self.recent,
            };
            if self.waiting.len() == 0 {
                QueueView { current: None, recent, ..self }
            } else {
                QueueView {
                    current: Some(self.started_head(now)),
                    waiting: self.waiting.drop_first(),
                    recent,
                    ..self
                }
            }
        }
    }

    /// The state after the current job, if any, is marked completed at `now`.
    pub open spec fn mark_completed(self, now: u64) -> QueueView {
        match self.current {
            Some(job) => QueueView {
                current: Some(
                    JobView { status: FlashJobStatus::Completed, finished_at: Some(now), ..job },
                ),
                ..self
            },
            None => self,
        }
    }

    /// The state after the current job, if any, is marked failed at `now`.
    pub open spec fn mark_failed(self, error: Seq<char>, now: u64) -> QueueView {
        match self.current {
            Some(job) => QueueView {
                current: Some(
                    JobView {
                        status: FlashJobStatus::Failed,
                        finished_at: Some(now),
                        error_message: Some(error),
                        ..job
                    },
                ),
                ..self
            },
            None => self,
        }
    }

    /// The state after the expired head of the retained list is dropped.
    pub open spec fn prune_recent_jobs(self, now: u64) -> QueueView {
        QueueView {
            recent: self.recent.skip(expired_prefix_len(self.recent, now) as int),
            ..self
        }
    }

    /// Whether the current slot holds a finished job whose window is over.
    pub open spec fn current_expired(self, now: u64) -> bool {
        &&& self.current is Some
        &&& is_terminal(self.current->0.status)
        &&& self.current->0.finished_at is Some
        &&& retention_elapsed(self.current->0.finished_at->0, now)
    }

    /// The state after pruning and after an expired finished job left the
    /// current slot.
    pub open spec fn clear_current_if_finished(self, now: u64) -> QueueView {
        let pruned = self.prune_recent_jobs(now);
        if pruned.current_expired(now) {
            QueueView { current: None, ..pruned }
        } else {
            pruned
        }
    }

    /// Queue position of a job: 0 for the current job, 1 and up for the
    /// waiting jobs, none for any other id.
    pub open spec fn position(self, job_id: nat) -> Option<nat> {
        if self.current is Some && self.current->0.job_id == job_id {
            Some(0)
        } else {
            match index_of_id(self.waiting, job_id) {
                Some(i) => Some(i + 1),
                None => None,
            }
        }
    }

    /// The job with the given id: the current job first, then the waiting
    /// jobs, then the retained ones.
    pub open spec fn find(self, job_id: nat) -> Option<JobView> {
        if self.current is Some && self.current->0.job_id == job_id {
            self.current
        } else {
            match index_of_id(self.waiting, job_id) {
                Some(i) => Some(self.waiting[i as int]),
                None => match index_of_id(self.recent, job_id) {
                    Some(i) => Some(self.recent[i as int]),
                    None => None,
                },
            }
        }
    }

    /// Whether any job of the queue has the given id.
    pub open spec fn holds(self, job_id: nat) -> bool {
        ||| (self.current is Some && self.current->0.job_id == job_id)
        ||| (exists|i: int| 0 <= i < self.waiting.len() && #[trigger] self.waiting[i].job_id == job_id)
        ||| (exists|i: int| 0 <= i < self.recent.len() && #[trigger] self.recent[i].job_id == job_id)
    }
}

/// The flash queue and current job state.
#[derive(Debug)]
pub struct FlashQueue {
    /// Current job being processed (if any).
    pub current_job: Option<FlashJob>,
    /// Queued jobs waiting to be processed.
    pub queue: VecDeque<FlashJob>,
    /// Recently finished jobs retained briefly for status polling.
    pub recent_jobs: VecDeque<FlashJob>,
    /// Monotonically increasing job ID counter.
    pub next_job_id: u64,
}

impl View for FlashQueue {
    type V = QueueView;

    open spec fn view(&self) -> QueueView {
        QueueView {
            current: job_view(self.current_job),
            waiting: job_views(self.queue@),
            recent: job_views(self.recent_jobs@),
            next_job_id: self.next_job_id as nat,
        }
    }
}

impl FlashQueue {
    /// Creates a new empty flash queue.
    pub fn new() -> (queue: Self)
        ensures
            queue@ == QueueView::empty(),
            queue@.wf(),
    {
        let queue = FlashQueue {
            current_job: None,
            queue: VecDeque::new(),
            recent_jobs: VecDeque::new(),
            next_job_id: 1,
        };
        assert(queue@.waiting =~= Seq::empty());
        assert(queue@.recent =~= Seq::empty());
        queue
    }

    /// Adds a job created at `now` to the tail of the waiting list and
    /// returns its id.
    pub fn enqueue_at(
        &mut self,
        filename: String,
        dithered_path: String,
        flash_twice: bool,
        rotation_degrees: u16,
        now: u64,
    ) -> (job_id: u64)
        requires
            old(self).next_job_id < u64::MAX,
        ensures
            job_id == old(self)@.next_job_id,
            final(self)@ == old(self)@.enqueue(
                filename@,
                dithered_path@,
                flash_twice,
                rotation_degrees,
                now,
            ),
            old(self)@.wf() ==> final(self)@.wf(),
    {
        let job_id = self.next_job_id;
        self.next_job_id = job_id + 1;
        let job = FlashJob {
            job_id,
            filename,
            dithered_path,
            flash_twice,
            rotation_degrees,
            status: FlashJobStatus::Queued,
            created_at: now,
            started_at: None,
            finished_at: None,
            error_message: None,
        };
        self.queue.push_back(job);
        assert(self@.waiting =~= old(self)@.waiting.push(job@));
        proof {
            if old(self)@.wf() {
                law_apply_preserves_wf(
                    old(self)@,
                    QueueOp::Enqueue {
                        filename: filename@,
                        dithered_path: dithered_path@,
                        flash_twice,
                        rotation_degrees,
                        now,
                    },
                );
            }
        }
        job_id
    }

    /// Adds a job to the queue and returns the job ID.
    pub fn enqueue(
        &mut self,
        filename: String,
        dithered_path: String,
        flash_twice: bool,
        rotation_degrees: u16,
    ) -> (job_id: u64)
        requires
            old(self).next_job_id < u64::MAX,
        ensures
            job_id == old(self)@.next_job_id,
            exists|now: u64|
                final(self)@ == old(self)@.enqueue(
                    filename@,
                    dithered_path@,
                    flash_twice,
                    rotation_degrees,
                    now,
                ),
            old(self)@.wf() ==> final(self)@.wf(),
    {
        let now = current_time_millis();
        self.enqueue_at(filename, dithered_path, flash_twice, rotation_degrees, now)
    }

    /// Takes the next job from the queue (if any) and makes it the current
    /// job, started at `now`. Returns nothing while a job is active.
    pub fn dequeue_at(&mut self, now: u64) -> (job: Option<FlashJob>)
        ensures
            final(self)@ == old(self)@.dequeue(now),
            job_view(job) == old(self)@.dequeued(now),
            old(self)@.wf() ==> final(self)@.wf(),
    {
        proof {
            if old(self)@.wf() {
                law_apply_preserves_wf(old(self)@, QueueOp::Dequeue { now });
            }
        }
        let busy = match &self.current_job {
            Some(current) => !status_is_terminal(current.status),
            None => false,
        };
        if busy {
            return None;
        }
        let finished = self.current_job.take();
        match finished {
            Some(done) => {
                self.recent_jobs.push_back(done);
                assert(self@.recent =~= old(self)@.recent.push(done@));
            },
            None => {},
        }
        match self.queue.pop_front() {
            Some(head) => {
                let mut job = head;
                job.status = FlashJobStatus::Flashing;
                job.started_at = Some(now);
                self.current_job = Some(job.clone());
                assert(self@.waiting =~= old(self)@.waiting.drop_first());
                assert(head@ == old(self)@.waiting[0]);
                Some(job)
            },
            None => {
                assert(old(self)@.waiting.len() == 0);
                None
            },
        }
    }

    /// Takes the next job from the queue (if any) and marks it as current.
    pub fn dequeue(&mut self) -> (job: Option<FlashJob>)
        ensures
            exists|now: u64|
                final(self)@ == old(self)@.dequeue(now) && job_view(job) == old(self)@.dequeued(
                    now,
                ),
            old(self)@.wf() ==> final(self)@.wf(),
    {
        let now = current_time_millis();
        self.dequeue_at(now)
    }

    /// Marks the current job as completed at `now`.
    pub fn mark_completed_at(&mut self, now: u64)
        ensures
            final(self)@ == old(self)@.mark_completed(now),
            old(self)@.wf() ==> final(self)@.wf(),
    {
        proof {
            if old(self)@.wf() {
                law_apply_preserves_wf(old(self)@, QueueOp::MarkCompleted { now });
            }
        }
        match self.current_job.take() {
            Some(current) => {
                let mut job = current;
                job.status = FlashJobStatus::Completed;
                job.finished_at = Some(now);
                self.current_job = Some(job);
            },
            None => {},
        }
    }

    /// Marks the current job as completed.
    pub fn mark_completed(&mut self)
        ensures
            exists|now: u64| final(self)@ == old(self)@.mark_completed(now),
            old(self)@.wf() ==> final(self)@.wf(),
    {
        let now = current_time_millis();
        self.mark_completed_at(now)
    }

    /// Marks the current job as failed at `now`, with the given message.
    pub fn mark_failed_at(&mut self, error: String, now: u64)
        ensures
            final(self)@ == old(self)@.mark_failed(error@, now),
            old(self)@.wf() ==> final(self)@.wf(),
    {
        proof {
            if old(self)@.wf() {
                law_apply_preserves_wf(old(self)@, QueueOp::MarkFailed { error: error@, now });
            }
        }
        match self.current_job.take() {
            Some(current) => {
                let mut job = current;
                job.status = FlashJobStatus::Failed;
                job.finished_at = Some(now);
                job.error_message = Some(error);
                self.current_job = Some(job);
            },
            None => {},
        }
    }

    /// Marks the current job as failed.
    pub fn mark_failed(&mut self, error: String)
        ensures
            exists|now: u64| final(self)@ == old(self)@.mark_failed(error@, now),
            old(self)@.wf() ==> final(self)@.wf(),
    {
        let now = current_time_millis();
        self.mark_failed_at(error, now)
    }

    /// Drops retained jobs from the head of the list while their retention
    /// window is over at `now`.
    pub fn prune_recent_jobs_at(&mut self, now: u64)
        ensures
            final(self)@ == old(self)@.prune_recent_jobs(now),
            old(self)@.wf() ==> final(self)@.wf(),
    {
        proof {
            if old(self)@.wf() {
                law_apply_preserves_wf(old(self)@, QueueOp::PruneRecentJobs { now });
            }
        }
        let ghost start = self@.recent;
        let ghost mut dropped: nat = 0;
        loop
            invariant
                self.current_job == old(self).current_job,
                self.queue == old(self).queue,
                self.next_job_id == old(self).next_job_id,
                start == old(self)@.recent,
                dropped <= start.len(),
                self@.recent == start.skip(dropped as int),
                expired_prefix_len(start, now) == dropped + expired_prefix_len(
                    self@.recent,
                    now,
                ),
            ensures
                self@ == old(self)@.prune_recent_jobs(now),
            decreases self.recent_jobs@.len(),
        {
            if self.recent_jobs.len() == 0 {
                assert(self@.recent.len() == 0);
                break;
            }
            let expired = match self.recent_jobs[0].finished_at {
                Some(finished_at) => now > finished_at && now - finished_at
                    > FINISHED_JOB_RETENTION_MS,
                None => true,
            };
            assert(expired == job_expired(self@.recent[0], now));
            if !expired {
                break;
            }
            let ghost before = self@.recent;
            self.recent_jobs.pop_front();
            proof {
                assert(self@.recent =~= before.drop_first());
                assert(before.drop_first() =~= start.skip(dropped as int + 1));
                dropped = dropped + 1;
            }
        }
    }

    /// Drops retained jobs whose retention window is over.
    pub fn prune_recent_jobs(&mut self)
        ensures
            exists|now: u64| final(self)@ == old(self)@.prune_recent_jobs(now),
            old(self)@.wf() ==> final(self)@.wf(),
    {
        let now = current_time_millis();
        self.prune_recent_jobs_at(now)
    }

    /// Prunes the retained jobs, then empties the current slot if it holds a
    /// finished job whose retention window is over at `now`.
    pub fn clear_current_if_finished_at(&mut self, now: u64)
        ensures
            final(self)@ == old(self)@.clear_current_if_finished(now),
            old(self)@.wf() ==> final(self)@.wf(),
    {
        proof {
            if old(self)@.wf() {
                law_apply_preserves_wf(old(self)@, QueueOp::ClearCurrentIfFinished { now });
            }
        }
        self.prune_recent_jobs_at(now);
        let expired = match &self.current_job {
            Some(job) => status_is_terminal(job.status) && match job.finished_at {
                Some(finished_at) => now > finished_at && now - finished_at
                    > FINISHED_JOB_RETENTION_MS,
                None => false,
            },
            None => false,
        };
        if expired {
            self.current_job = None;
        }
    }

    /// Clears a finished job from the current slot once its retention window
    /// is over.
    pub fn clear_current_if_finished(&mut self)
        ensures
            exists|now: u64| final(self)@ == old(self)@.clear_current_if_finished(now),
            old(self)@.wf() ==> final(self)@.wf(),
    {
        let now = current_time_millis();
        self.clear_current_if_finished_at(now)
    }

    /// Gets the queue position for a job ID (0 = currently flashing, 1+ = queued).
    pub fn get_position(&self, job_id: u64) -> (position: Option<usize>)
        ensures
            match position {
                Some(p) => self@.position(job_id as nat) == Some(p as nat),
                None => self@.position(job_id as nat).is_none(),
            },
    {
        match &self.current_job {
            Some(current) => {
                if current.job_id == job_id {
                    return Some(0);
                }
            },
            None => {},
        }
        let waiting: usize = self.queue.len();
        match find_in(&self.queue, job_id) {
            Some(i) => {
                assert(i < waiting);
                Some(i + 1)
            },
            None => None,
        }
    }

    /// Gets a clone of the current job (if any).
    pub fn get_current_job(&self) -> (job: Option<FlashJob>)
        ensures
            job == self.current_job,
            job_view(job) == self@.current,
    {
        match &self.current_job {
            Some(current) => Some(current.clone()),
            None => None,
        }
    }

    /// Gets a clone of all queued jobs.
    pub fn get_queued_jobs(&self) -> (jobs: Vec<FlashJob>)
        ensures
            jobs@ == self.queue@,
            job_views(jobs@) == self@.waiting,
    {
        let mut jobs: Vec<FlashJob> = Vec::new();
        let mut i: usize = 0;
        while i < self.queue.len()
            invariant
                i <= self.queue@.len(),
                jobs@ == self.queue@.take(i as int),
            decreases self.queue@.len() - i,
        {
            jobs.push(self.queue[i].clone());
            assert(jobs@ =~= self.queue@.take(i as int + 1));
            i += 1;
        }
        assert(jobs@ =~= self.queue@);
        jobs
    }

    /// Finds a job by ID across current, queued, and recently finished jobs.
    pub fn find_job(&self, job_id: u64) -> (job: Option<FlashJob>)
        ensures
            job_view(job) == self@.find(job_id as nat),
    {
        match &self.current_job {
            Some(current) => {
                if current.job_id == job_id {
                    return Some(current.clone());
                }
            },
            None => {},
        }
        match find_in(&self.queue, job_id) {
            Some(i) => {
                return Some(self.queue[i].clone());
            },
            None => {},
        }
        match find_in(&self.recent_jobs, job_id) {
            Some(i) => Some(self.recent_jobs[i].clone()),
            None => None,
        }
    }
}

impl Default for FlashQueue {
    fn default() -> (queue: Self)
        ensures
            queue@ == QueueView::empty(),
    {
        FlashQueue::new()
    }
}

/// Whether a status is `Completed` or `Failed`.
pub fn status_is_terminal(status: FlashJobStatus) -> (terminal: bool)
    ensures
        terminal == is_terminal(status),
{
    match status {
        FlashJobStatus::Completed => true,
        FlashJobStatus::Failed => true,
        FlashJobStatus::Queued => false,
        FlashJobStatus::Flashing => false,
    }
}

/// The index of the first job in `jobs` with the given id.
fn find_in(jobs: &VecDeque<FlashJob>, job_id: u64) -> (index: Option<usize>)
    ensures
        match index {
            Some(i) => i < jobs@.len() && index_of_id(job_views(jobs@), job_id as nat) == Some(
                i as nat,
            ),
            None => index_of_id(job_views(jobs@), job_id as nat).is_none(),
        },
{
    let mut i: usize = 0;
    while i < jobs.len()
        invariant
            i <= jobs@.len(),
            forall|k: int| 0 <= k < i ==> (#[trigger] job_views(jobs@)[k]).job_id != job_id as nat,
        decreases jobs@.len() - i,
    {
        if jobs[i].job_id == job_id {
            proof {
                lemma_index_of_id_first(job_views(jobs@), job_id as nat, i as int);
            }
            return Some(i);
        }
        i += 1;
    }
    proof {
        lemma_index_of_id_absent(job_views(jobs@), job_id as nat);
    }
    None
}

/// `index_of_id` returns `i` when the job at `i` is the first with the id.
pub proof fn lemma_index_of_id_first(jobs: Seq<JobView>, job_id: nat, i: int)
    requires
        0 <= i < jobs.len(),
        jobs[i].job_id == job_id,
        forall|k: int| 0 <= k < i ==> (#[trigger] jobs[k]).job_id != job_id,
    ensures
        index_of_id(jobs, job_id) == Some(i as nat),
    decreases jobs.len(),
{
    if i > 0 {
        assert(jobs[0].job_id != job_id);
        let rest = jobs.drop_first();
        assert forall|k: int| 0 <= k < i - 1 implies (#[trigger] rest[k]).job_id != job_id by {
            assert(rest[k] == jobs[k + 1]);
        }
        lemma_index_of_id_first(rest, job_id, i - 1);
    }
}

/// `index_of_id` returns nothing when no job has the id.
pub proof fn lemma_index_of_id_absent(jobs: Seq<JobView>, job_id: nat)
    requires
        forall|k: int| 0 <= k < jobs.len() ==> (#[trigger] jobs[k]).job_id != job_id,
    ensures
        index_of_id(jobs, job_id).is_none(),
    decreases jobs.len(),
{
    if jobs.len() > 0 {
        assert(jobs[0].job_id != job_id);
        let rest = jobs.drop_first();
        assert forall|k: int| 0 <= k < rest.len() implies (#[trigger] rest[k]).job_id
            != job_id by {
            assert(rest[k] == jobs[k + 1]);
        }
        lemma_index_of_id_absent(rest, job_id);
    }
}

/// What `index_of_id` returns is the index of a job with the id, and no
/// earlier job has it; it returns nothing only if no job has the id.
pub proof fn lemma_index_of_id(jobs: Seq<JobView>, job_id: nat)
    ensures
        match index_of_id(jobs, job_id) {
            Some(i) => i < jobs.len() && jobs[i as int].job_id == job_id && forall|k: int|
                0 <= k < i ==> (#[trigger] jobs[k]).job_id != job_id,
            None => forall|k: int| 0 <= k < jobs.len() ==> (#[trigger] jobs[k]).job_id != job_id,
        },
    decreases jobs.len(),
{
    if jobs.len() > 0 && jobs[0].job_id != job_id {
        let rest = jobs.drop_first();
        lemma_index_of_id(rest, job_id);
        match index_of_id(rest, job_id) {
            Some(i) => {
                assert(jobs[i as int + 1] == rest[i as int]);
                assert forall|k: int| 0 <= k < i + 1 implies (#[trigger] jobs[k]).job_id
                    != job_id by {
                    if k > 0 {
                        assert(jobs[k] == rest[k - 1]);
                    }
                }
            },
            None => {
                assert forall|k: int| 0 <= k < jobs.len() implies (#[trigger] jobs[k]).job_id
                    != job_id by {
                    if k > 0 {
                        assert(jobs[k] == rest[k - 1]);
                    }
                }
            },
        }
    }
}

} // verus!
