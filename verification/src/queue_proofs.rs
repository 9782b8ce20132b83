//! What holds of every flash queue: the invariant that all operations keep,
//! the order of the ids that are handed out, and how long a finished job
//! stays findable.

use vstd::prelude::*;

use crate::flash_queue::{
    expired_prefix_len, index_of_id, is_terminal, job_expired, lemma_index_of_id,
    lemma_index_of_id_absent, lemma_index_of_id_first, retention_elapsed, FlashJobStatus, JobView,
    QueueView,
};

verus! {

/// Ids grow strictly along the list.
pub open spec fn ids_increasing(jobs: Seq<JobView>) -> bool {
    forall|i: int, j: int|
        0 <= i < j < jobs.len() ==> (#[trigger] jobs[i]).job_id < (#[trigger] jobs[j]).job_id
}

/// Every id of the list is at least 1 and below `bound`.
pub open spec fn ids_below(jobs: Seq<JobView>, bound: nat) -> bool {
    forall|i: int| 0 <= i < jobs.len() ==> 1 <= (#[trigger] jobs[i]).job_id < bound
}

/// Every id of the list is above `bound`.
pub open spec fn ids_above(jobs: Seq<JobView>, bound: nat) -> bool {
    forall|i: int| 0 <= i < jobs.len() ==> (#[trigger] jobs[i]).job_id > bound
}

/// Every job of the list is queued and has no finish time.
pub open spec fn all_queued(jobs: Seq<JobView>) -> bool {
    forall|i: int|
        0 <= i < jobs.len() ==> (#[trigger] jobs[i]).status == FlashJobStatus::Queued
            && jobs[i].finished_at is None
}

/// Every job of the list is finished and carries its finish time.
pub open spec fn all_finished(jobs: Seq<JobView>) -> bool {
    forall|i: int|
        0 <= i < jobs.len() ==> is_terminal((#[trigger] jobs[i]).status)
            && jobs[i].finished_at is Some
}

/// One operation on a flash queue, with the time at which it runs.
pub enum QueueOp {
    Enqueue {
        filename: Seq<char>,
        dithered_path: Seq<char>,
        flash_twice: bool,
        rotation_degrees: u16,
        now: u64,
    },
    Dequeue { now: u64 },
    MarkCompleted { now: u64 },
    MarkFailed { error: Seq<char>, now: u64 },
    PruneRecentJobs { now: u64 },
    ClearCurrentIfFinished { now: u64 },
}

impl QueueOp {
    /// The time at which the operation runs.
    pub open spec fn now(self) -> u64 {
        match self {
            QueueOp::Enqueue { now, .. } => now,
            QueueOp::Dequeue { now } => now,
            QueueOp::MarkCompleted { now } => now,
            QueueOp::MarkFailed { now, .. } => now,
            QueueOp::PruneRecentJobs { now } => now,
            QueueOp::ClearCurrentIfFinished { now } => now,
        }
    }
}

impl QueueView {
    /// The invariant of a flash queue: ids are at least 1, below the next id
    /// and nowhere repeated; retained jobs are older than the current job,
    /// which is older than every waiting job; waiting jobs are queued; the
    /// current job has left the queued state and carries a finish time
    /// exactly when it is finished; retained jobs are finished.
    pub open spec fn wf(self) -> bool {
        &&& self.next_job_id >= 1
        &&& ids_below(self.waiting, self.next_job_id)
        &&& ids_below(self.recent, self.next_job_id)
        &&& ids_increasing(self.waiting)
        &&& ids_increasing(self.recent)
        &&& all_queued(self.waiting)
        &&& all_finished(self.recent)
        &&& (self.waiting.len() > 0 ==> ids_below(self.recent, self.waiting[0].job_id))
        &&& (self.current matches Some(current) ==> {
            &&& 1 <= current.job_id < self.next_job_id
            &&& ids_above(self.waiting, current.job_id)
            &&& ids_below(self.recent, current.job_id)
            &&& current.status != FlashJobStatus::Queued
            &&& (is_terminal(current.status) <==> current.finished_at is Some)
        })
    }

    /// The state after one operation.
    pub open spec fn apply(self, op: QueueOp) -> QueueView {
        match op {
            QueueOp::Enqueue { filename, dithered_path, flash_twice, rotation_degrees, now } => {
                self.enqueue(filename, dithered_path, flash_twice, rotation_degrees, now)
            },
            QueueOp::Dequeue { now } => self.dequeue(now),
            QueueOp::MarkCompleted { now } => self.mark_completed(now),
            QueueOp::MarkFailed { error, now } => self.mark_failed(error, now),
            QueueOp::PruneRecentJobs { now } => self.prune_recent_jobs(now),
            QueueOp::ClearCurrentIfFinished { now } => self.clear_current_if_finished(now),
        }
    }

    /// The state after a list of operations, run in order.
    pub open spec fn apply_all(self, ops: Seq<QueueOp>) -> QueueView
        decreases ops.len(),
    {
        if ops.len() == 0 {
            self
        } else {
            self.apply_all(ops.drop_last()).apply(ops.last())
        }
    }

    /// The id that the operation at index `i` of `ops` returns, where that
    /// operation is an enqueue.
    pub open spec fn issued_id(self, ops: Seq<QueueOp>, i: int) -> nat {
        self.apply_all(ops.take(i)).next_job_id
    }
}

/// The expired prefix lies within the list, and every job in it is expired;
/// the job behind it, if there is one, is not.
pub proof fn lemma_expired_prefix(jobs: Seq<JobView>, now: u64)
    ensures
        expired_prefix_len(jobs, now) <= jobs.len(),
        forall|i: int|
            0 <= i < expired_prefix_len(jobs, now) ==> job_expired(#[trigger] jobs[i], now),
        expired_prefix_len(jobs, now) < jobs.len() ==> !job_expired(
            jobs[expired_prefix_len(jobs, now) as int],
            now,
        ),
    decreases jobs.len(),
{
    if jobs.len() > 0 && job_expired(jobs[0], now) {
        let rest = jobs.drop_first();
        lemma_expired_prefix(rest, now);
        assert forall|i: int| 0 <= i < expired_prefix_len(jobs, now) implies job_expired(
            #[trigger] jobs[i],
            now,
        ) by {
            if i > 0 {
                assert(jobs[i] == rest[i - 1]);
            }
        }
        let k = expired_prefix_len(rest, now);
        if k < rest.len() {
            assert(jobs[k as int + 1] == rest[k as int]);
        }
    }
}

/// The empty queue meets the invariant.
pub proof fn law_empty_wf()
    ensures
        QueueView::empty().wf(),
{
}

/// Every operation keeps the invariant.
pub proof fn law_apply_preserves_wf(q: QueueView, op: QueueOp)
    requires
        q.wf(),
    ensures
        q.apply(op).wf(),
{
    let r = q.apply(op);
    match op {
        QueueOp::Enqueue { filename, dithered_path, flash_twice, rotation_degrees, now } => {
            assert forall|i: int, j: int| 0 <= i < j < r.waiting.len() implies (
            #[trigger] r.waiting[i]).job_id < (#[trigger] r.waiting[j]).job_id by {
                if j < q.waiting.len() {
                    assert(r.waiting[i] == q.waiting[i]);
                    assert(r.waiting[j] == q.waiting[j]);
                } else {
                    assert(r.waiting[i] == q.waiting[i]);
                }
            }
            assert forall|i: int| 0 <= i < r.waiting.len() implies 1 <= (
            #[trigger] r.waiting[i]).job_id < r.next_job_id by {
                if i < q.waiting.len() {
                    assert(r.waiting[i] == q.waiting[i]);
                }
            }
            assert forall|i: int| 0 <= i < r.waiting.len() implies (
            #[trigger] r.waiting[i]).status == FlashJobStatus::Queued
                && r.waiting[i].finished_at is None by {
                if i < q.waiting.len() {
                    assert(r.waiting[i] == q.waiting[i]);
                }
            }
            if q.waiting.len() > 0 {
                assert(r.waiting[0] == q.waiting[0]);
            }
            if q.current is Some {
                assert forall|i: int| 0 <= i < r.waiting.len() implies (
                #[trigger] r.waiting[i]).job_id > q.current->0.job_id by {
                    if i < q.waiting.len() {
                        assert(r.waiting[i] == q.waiting[i]);
                    }
                }
            }
        },
        QueueOp::Dequeue { now } => {
            if !q.busy() {
                lemma_dequeue_wf(q, now);
            }
        },
        QueueOp::MarkCompleted { now } => {},
        QueueOp::MarkFailed { error, now } => {},
        QueueOp::PruneRecentJobs { now } => {
            lemma_prune_wf(q, now);
        },
        QueueOp::ClearCurrentIfFinished { now } => {
            lemma_prune_wf(q, now);
        },
    }
}

proof fn lemma_prune_wf(q: QueueView, now: u64)
    requires
        q.wf(),
    ensures
        q.prune_recent_jobs(now).wf(),
        q.clear_current_if_finished(now).wf(),
{
    lemma_expired_prefix(q.recent, now);
    let k = expired_prefix_len(q.recent, now) as int;
    let r = q.prune_recent_jobs(now);
    assert forall|i: int| 0 <= i < r.recent.len() implies #[trigger] r.recent[i] == q.recent[i + k] by {}
    assert(ids_increasing(r.recent)) by {
        assert forall|i: int, j: int| 0 <= i < j < r.recent.len() implies (
        #[trigger] r.recent[i]).job_id < (#[trigger] r.recent[j]).job_id by {
            assert(r.recent[i] == q.recent[i + k]);
            assert(r.recent[j] == q.recent[j + k]);
        }
    }
    assert(all_finished(r.recent)) by {
        assert forall|i: int| 0 <= i < r.recent.len() implies is_terminal(
            (#[trigger] r.recent[i]).status,
        ) && r.recent[i].finished_at is Some by {
            assert(r.recent[i] == q.recent[i + k]);
        }
    }
    lemma_ids_below_skip(q.recent, q.next_job_id, k);
    if q.waiting.len() > 0 {
        lemma_ids_below_skip(q.recent, q.waiting[0].job_id, k);
    }
    if q.current is Some {
        lemma_ids_below_skip(q.recent, q.current->0.job_id, k);
    }
}

proof fn lemma_ids_below_skip(jobs: Seq<JobView>, bound: nat, k: int)
    requires
        ids_below(jobs, bound),
        0 <= k <= jobs.len(),
    ensures
        ids_below(jobs.skip(k), bound),
{
    assert forall|i: int| 0 <= i < jobs.skip(k).len() implies 1 <= (#[trigger] jobs.skip(
        k,
    )[i]).job_id < bound by {
        assert(jobs.skip(k)[i] == jobs[i + k]);
    }
}

proof fn lemma_dequeue_wf(q: QueueView, now: u64)
    requires
        q.wf(),
        !q.busy(),
    ensures
        q.dequeue(now).wf(),
{
    let r = q.dequeue(now);
    // The retained list, with the finished current job behind it.
    assert(ids_increasing(r.recent) && all_finished(r.recent) && ids_below(
        r.recent,
        q.next_job_id,
    )) by {
        if q.current is Some {
            let done = q.current->0;
            assert forall|i: int| 0 <= i < r.recent.len() implies (#[trigger] r.recent[i])
                == (if i < q.recent.len() {
                q.recent[i]
            } else {
                done
            }) by {}
            assert forall|i: int, j: int| 0 <= i < j < r.recent.len() implies (
            #[trigger] r.recent[i]).job_id < (#[trigger] r.recent[j]).job_id by {
                assert(r.recent[i] == q.recent[i]);
                if j < q.recent.len() {
                    assert(r.recent[j] == q.recent[j]);
                }
            }
        }
    }
    if q.waiting.len() > 0 {
        let head = q.waiting[0];
        assert forall|i: int| 0 <= i < r.waiting.len() implies #[trigger] r.waiting[i]
            == q.waiting[i + 1] by {}
        assert(ids_increasing(r.waiting)) by {
            assert forall|i: int, j: int| 0 <= i < j < r.waiting.len() implies (
            #[trigger] r.waiting[i]).job_id < (#[trigger] r.waiting[j]).job_id by {
                assert(r.waiting[i] == q.waiting[i + 1]);
                assert(r.waiting[j] == q.waiting[j + 1]);
            }
        }
        assert(ids_above(r.waiting, head.job_id)) by {
            assert forall|i: int| 0 <= i < r.waiting.len() implies (
            #[trigger] r.waiting[i]).job_id > head.job_id by {
                assert(r.waiting[i] == q.waiting[i + 1]);
            }
        }
        assert(ids_below(r.waiting, r.next_job_id) && all_queued(r.waiting)) by {
            assert forall|i: int| 0 <= i < r.waiting.len() implies 1 <= (
            #[trigger] r.waiting[i]).job_id < r.next_job_id && r.waiting[i].status
                == FlashJobStatus::Queued && r.waiting[i].finished_at is None by {
                assert(r.waiting[i] == q.waiting[i + 1]);
            }
        }
        assert(ids_below(r.recent, head.job_id)) by {
            assert forall|i: int| 0 <= i < r.recent.len() implies 1 <= (
            #[trigger] r.recent[i]).job_id < head.job_id by {
                if i < q.recent.len() {
                    assert(r.recent[i] == q.recent[i]);
                }
            }
        }
        if r.waiting.len() > 0 {
            assert(r.waiting[0] == q.waiting[1]);
            assert(ids_below(r.recent, r.waiting[0].job_id)) by {
                assert forall|i: int| 0 <= i < r.recent.len() implies 1 <= (
                #[trigger] r.recent[i]).job_id < r.waiting[0].job_id by {
                    assert(r.recent[i].job_id < head.job_id);
                }
            }
        }
    }
}

/// A history of operations keeps the invariant.
pub proof fn law_history_wf(q: QueueView, ops: Seq<QueueOp>)
    requires
        q.wf(),
    ensures
        q.apply_all(ops).wf(),
    decreases ops.len(),
{
    if ops.len() > 0 {
        law_history_wf(q, ops.drop_last());
        law_apply_preserves_wf(q.apply_all(ops.drop_last()), ops.last());
    }
}

/// No operation lowers the next id, and an enqueue raises it by one.
pub proof fn law_next_id_never_falls(q: QueueView, op: QueueOp)
    ensures
        q.apply(op).next_job_id >= q.next_job_id,
        op is Enqueue ==> q.apply(op).next_job_id == q.next_job_id + 1,
{
}

proof fn lemma_next_id_monotone(q: QueueView, ops: Seq<QueueOp>, a: int, b: int)
    requires
        0 <= a <= b <= ops.len(),
    ensures
        q.apply_all(ops.take(a)).next_job_id <= q.apply_all(ops.take(b)).next_job_id,
    decreases b - a,
{
    if a < b {
        lemma_next_id_monotone(q, ops, a, b - 1);
        assert(ops.take(b).drop_last() =~= ops.take(b - 1));
        law_next_id_never_falls(q.apply_all(ops.take(b - 1)), ops.take(b).last());
    }
}

/// In any history of operations, whatever else happens between them, a later
/// enqueue returns a larger id than an earlier one: ids strictly increase
/// and none is handed out twice.
pub proof fn law_enqueue_ids_strictly_increase(q: QueueView, ops: Seq<QueueOp>, i: int, j: int)
    requires
        0 <= i < j < ops.len(),
        ops[i] is Enqueue,
        ops[j] is Enqueue,
    ensures
        q.issued_id(ops, i) < q.issued_id(ops, j),
{
    assert(ops.take(i + 1).drop_last() =~= ops.take(i));
    assert(ops.take(i + 1).last() == ops[i]);
    law_next_id_never_falls(q.apply_all(ops.take(i)), ops[i]);
    lemma_next_id_monotone(q, ops, i + 1, j);
}

/// An id that no job of the queue has is not found and has no position; an
/// id that some job has is found.
pub proof fn law_found_iff_held(q: QueueView, job_id: nat)
    ensures
        q.find(job_id) is Some <==> q.holds(job_id),
        !q.holds(job_id) ==> q.position(job_id) is None,
        q.find(job_id) matches Some(job) ==> job.job_id == job_id,
{
    lemma_index_of_id(q.waiting, job_id);
    lemma_index_of_id(q.recent, job_id);
}

/// In an empty queue no id is found.
pub proof fn law_nothing_found_in_empty(job_id: nat)
    ensures
        QueueView::empty().find(job_id) is None,
        QueueView::empty().position(job_id) is None,
{
    law_found_iff_held(QueueView::empty(), job_id);
}

/// A finished job stays findable, and finished, through every operation that
/// runs while its retention window is not over: it can only become
/// unfindable after the window.
pub proof fn law_finished_job_retained_within_window(q: QueueView, op: QueueOp, job_id: nat)
    requires
        q.wf(),
        q.find(job_id) is Some,
        is_terminal(q.find(job_id)->0.status),
        q.find(job_id)->0.finished_at is Some,
        !retention_elapsed(q.find(job_id)->0.finished_at->0, op.now()),
    ensures
        q.apply(op).find(job_id) is Some,
        is_terminal(q.apply(op).find(job_id)->0.status),
{
    if !marks_job(q, op, job_id) {
        law_finished_job_unchanged_within_window(q, op, job_id);
    }
}

proof fn lemma_retained_survives_prune(recent: Seq<JobView>, now: u64, job_id: nat, at: int)
    requires
        0 <= at < recent.len(),
        recent[at].job_id == job_id,
        forall|k: int| 0 <= k < at ==> (#[trigger] recent[k]).job_id != job_id,
        !job_expired(recent[at], now),
    ensures
        expired_prefix_len(recent, now) <= at,
        index_of_id(recent.skip(expired_prefix_len(recent, now) as int), job_id) == Some(
            (at - expired_prefix_len(recent, now)) as nat,
        ),
        recent.skip(expired_prefix_len(recent, now) as int)[at - expired_prefix_len(recent, now)]
            == recent[at],
{
    lemma_expired_prefix(recent, now);
    let k = expired_prefix_len(recent, now) as int;
    if k > at {
        assert(job_expired(recent[at], now));
    }
    let rest = recent.skip(k);
    assert forall|i: int| 0 <= i < at - k implies (#[trigger] rest[i]).job_id != job_id by {
        assert(rest[i] == recent[i + k]);
    }
    lemma_index_of_id_first(rest, job_id, at - k);
}

/// Whether an operation marks the job with the given id, which then sits
/// in the current slot, as completed or failed.
pub open spec fn marks_job(q: QueueView, op: QueueOp, job_id: nat) -> bool {
    (op is MarkCompleted || op is MarkFailed) && q.current is Some && q.current->0.job_id
        == job_id
}

/// A finished job is found unchanged after every operation that runs while
/// its retention window is not over, unless the operation marks that very
/// job again.
pub proof fn law_finished_job_unchanged_within_window(q: QueueView, op: QueueOp, job_id: nat)
    requires
        q.wf(),
        q.find(job_id) is Some,
        is_terminal(q.find(job_id)->0.status),
        q.find(job_id)->0.finished_at is Some,
        !retention_elapsed(q.find(job_id)->0.finished_at->0, op.now()),
        !marks_job(q, op, job_id),
    ensures
        q.apply(op).find(job_id) == q.find(job_id),
{
    let r = q.apply(op);
    let job = q.find(job_id)->0;
    lemma_index_of_id(q.waiting, job_id);
    lemma_index_of_id(q.recent, job_id);
    lemma_index_of_id(r.waiting, job_id);
    lemma_index_of_id(r.recent, job_id);
    if q.current is Some && q.current->0.job_id == job_id {
        match op {
            QueueOp::Dequeue { now } => {
                assert(r.recent == q.recent.push(job));
                lemma_index_of_id_first(r.recent, job_id, q.recent.len() as int);
                if q.waiting.len() > 0 {
                    assert forall|k: int| 0 <= k < r.waiting.len() implies (
                    #[trigger] r.waiting[k]).job_id != job_id by {
                        assert(r.waiting[k] == q.waiting[k + 1]);
                    }
                }
                lemma_index_of_id_absent(r.waiting, job_id);
            },
            _ => {},
        }
    } else {
        let at = index_of_id(q.recent, job_id)->0 as int;
        match op {
            QueueOp::Enqueue { filename, dithered_path, flash_twice, rotation_degrees, now } => {
                assert forall|k: int| 0 <= k < r.waiting.len() implies (
                #[trigger] r.waiting[k]).job_id != job_id by {
                    if k < q.waiting.len() {
                        assert(r.waiting[k] == q.waiting[k]);
                    }
                }
                lemma_index_of_id_absent(r.waiting, job_id);
            },
            QueueOp::Dequeue { now } => {
                if !q.busy() {
                    assert(r.recent[at] == job);
                    assert forall|k: int| 0 <= k < at implies (#[trigger] r.recent[k]).job_id
                        != job_id by {
                        assert(r.recent[k] == q.recent[k]);
                    }
                    lemma_index_of_id_first(r.recent, job_id, at);
                    if q.waiting.len() > 0 {
                        assert forall|k: int| 0 <= k < r.waiting.len() implies (
                        #[trigger] r.waiting[k]).job_id != job_id by {
                            assert(r.waiting[k] == q.waiting[k + 1]);
                        }
                    }
                    lemma_index_of_id_absent(r.waiting, job_id);
                }
            },
            QueueOp::MarkCompleted { now } => {},
            QueueOp::MarkFailed { error, now } => {},
            QueueOp::PruneRecentJobs { now } => {
                lemma_retained_survives_prune(q.recent, now, job_id, at);
            },
            QueueOp::ClearCurrentIfFinished { now } => {
                lemma_retained_survives_prune(q.recent, now, job_id, at);
            },
        }
    }
}

/// Only one job is active at a time: while the current job has not
/// finished, a dequeue hands out nothing and changes nothing.
pub proof fn law_one_active_job(q: QueueView, now: u64)
    requires
        q.busy(),
    ensures
        q.dequeued(now) is None,
        q.dequeue(now) == q,
{
}

/// Jobs are flashed in the order in which they were enqueued: the job that
/// a dequeue hands out is the head of the waiting list, it is older than
/// every job that still waits, and younger than every job that was handed
/// out before it.
pub proof fn law_dequeue_takes_oldest(q: QueueView, now: u64)
    requires
        q.wf(),
        q.dequeued(now) is Some,
    ensures
        q.dequeued(now)->0.job_id == q.waiting[0].job_id,
        q.dequeued(now)->0.status == FlashJobStatus::Flashing,
        q.dequeued(now)->0.started_at == Some(now),
        q.dequeue(now).current == q.dequeued(now),
        ids_above(q.dequeue(now).waiting, q.dequeued(now)->0.job_id),
        ids_below(q.dequeue(now).recent, q.dequeued(now)->0.job_id),
        q.dequeue(now).waiting == q.waiting.drop_first(),
{
    law_apply_preserves_wf(q, QueueOp::Dequeue { now });
}

/// The position of a waiting job is its rank in the line, counted from 1,
/// and the position of the current job is 0.
pub proof fn law_position_is_rank(q: QueueView, i: int)
    requires
        q.wf(),
        0 <= i < q.waiting.len(),
    ensures
        q.position(q.waiting[i].job_id) == Some((i + 1) as nat),
        q.current is Some ==> q.position(q.current->0.job_id) == Some(0nat),
{
    let job_id = q.waiting[i].job_id;
    assert forall|k: int| 0 <= k < i implies (#[trigger] q.waiting[k]).job_id != job_id by {
        assert(q.waiting[k].job_id < q.waiting[i].job_id);
    }
    lemma_index_of_id_first(q.waiting, job_id, i);
}

/// A job that was just enqueued stands at the end of the line: its position
/// is the number of waiting jobs, itself included, and it is found as it was
/// built.
pub proof fn law_enqueued_job_is_last(
    q: QueueView,
    filename: Seq<char>,
    dithered_path: Seq<char>,
    flash_twice: bool,
    rotation_degrees: u16,
    now: u64,
)
    requires
        q.wf(),
    ensures
        q.enqueue(filename, dithered_path, flash_twice, rotation_degrees, now).position(
            q.next_job_id,
        ) == Some((q.waiting.len() + 1) as nat),
        q.enqueue(filename, dithered_path, flash_twice, rotation_degrees, now).find(
            q.next_job_id,
        ) == Some(
            crate::flash_queue::queued_job(
                q.next_job_id,
                filename,
                dithered_path,
                flash_twice,
                rotation_degrees,
                now,
            ),
        ),
{
    let r = q.enqueue(filename, dithered_path, flash_twice, rotation_degrees, now);
    law_apply_preserves_wf(
        q,
        QueueOp::Enqueue { filename, dithered_path, flash_twice, rotation_degrees, now },
    );
    law_position_is_rank(r, q.waiting.len() as int);
}

} // verus!
