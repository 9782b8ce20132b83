//! What the server answers to its clients, as far as it follows from the
//! lock table and the flash queue: the decisions of the request handlers,
//! without the routing, the forms and the disk.

use vstd::prelude::*;
use vstd::string::{StrSliceExecFns, StringExecFns};

use crate::flash_queue::{job_view, FlashJob, FlashQueue, JobView};
use crate::image_locks::{
    acquire_granted, after_acquire, get_lock_remaining_secs, lock_expiry, owns_lock,
    purge_expired, remaining_secs, try_acquire_lock, verify_lock_ownership, ImageLocks,
};
use crate::text::{append_decimal, concat2, concat3, decimal_digits, owned_text_view};

verus! {

/// Whether a character separates the components of an uploaded file name.
pub open spec fn is_separator(c: char) -> bool {
    c == '/' || c == '\\'
}

/// What follows the last separator of a text; the whole text where it has
/// none.
pub open spec fn final_component(text: Seq<char>) -> Seq<char>
    decreases text.len(),
{
    if text.len() == 0 || is_separator(text.last()) {
        Seq::empty()
    } else {
        final_component(text.drop_last()).push(text.last())
    }
}

/// The name under which an upload is stored: the final component of the
/// name that the client sent, unless that is empty or starts with a dot.
pub open spec fn sanitized(filename: Seq<char>) -> Option<Seq<char>> {
    let name = final_component(filename);
    if name.len() == 0 || name[0] == '.' {
        None
    } else {
        Some(name)
    }
}

proof fn lemma_final_component(text: Seq<char>, start: int)
    requires
        0 <= start <= text.len(),
        forall|i: int| start <= i < text.len() ==> !is_separator(#[trigger] text[i]),
        start == 0 || is_separator(text[start - 1]),
    ensures
        final_component(text) == text.skip(start),
    decreases text.len(),
{
    if start == text.len() {
        assert(text.skip(start) =~= Seq::<char>::empty());
    } else {
        let front = text.drop_last();
        assert forall|i: int| start <= i < front.len() implies !is_separator(
            #[trigger] front[i],
        ) by {
            assert(front[i] == text[i]);
        }
        if start > 0 {
            assert(front[start - 1] == text[start - 1]);
        }
        lemma_final_component(front, start);
        assert(front.skip(start).push(text.last()) =~= text.skip(start));
    }
}

/// Sanitizes a filename to prevent path traversal attacks.
/// Strips any directory components and rejects empty or dangerous filenames.
pub fn sanitize_filename(filename: &str) -> (name: Option<String>)
    ensures
        owned_text_view(name) == sanitized(filename@),
{
    let len = filename.unicode_len();
    let mut start: usize = len;
    while start > 0 && !is_separator_char(filename.get_char(start - 1))
        invariant
            len == filename@.len(),
            start <= len,
            forall|i: int| start <= i < len ==> !is_separator(#[trigger] filename@[i]),
        decreases start,
    {
        start -= 1;
    }
    proof {
        lemma_final_component(filename@, start as int);
    }
    let name = filename.substring_char(start, len);
    assert(name@ =~= filename@.skip(start as int));
    if start == len || name.get_char(0) == '.' {
        None
    } else {
        Some(String::from_str(name))
    }
}

/// Whether a character separates the components of an uploaded file name.
pub fn is_separator_char(c: char) -> (separator: bool)
    ensures
        separator == is_separator(c),
{
    c == '/' || c == '\\'
}

/// Response for thumb status requests.
#[derive(Debug)]
pub struct ThumbStatus {
    pub ready: bool,
    pub thumb_path: String,
}

/// Where the thumbnail of an image is looked for on disk.
pub fn thumb_file_path(filename: &str) -> (path: String)
    ensures
        path@ == "static/images/thumbs/"@ + filename@ + ".png"@,
{
    concat3("static/images/thumbs/", filename, ".png")
}

/// The answer to a thumbnail status request; `ready` says whether the file
/// at `thumb_file_path` exists.
pub fn thumb_status(filename: &str, ready: bool) -> (status: ThumbStatus)
    ensures
        status.ready == ready,
        status.thumb_path@ == "images/thumbs/"@ + filename@ + ".png"@,
{
    ThumbStatus { ready, thumb_path: concat3("images/thumbs/", filename, ".png") }
}

/// Response for image lock requests.
#[derive(Debug)]
pub struct LockImageResponse {
    pub locked: bool,
    pub expires_in_secs: Option<u64>,
    pub reason: Option<String>,
}

/// The reason given to a session that is denied a lock.
pub open spec fn busy_reason() -> Seq<char> {
    "Image is being edited by another user"@
}

/// Acquires or refreshes a lock on an image for a client. A granted lock
/// is answered with the seconds it runs; a denied one with the reason and,
/// as a hint for the next try, the seconds that the lock in the way still
/// runs, if there is one.
pub fn lock_image(
    locks: &mut ImageLocks,
    filename: &str,
    session_id: &str,
    refresh_only: bool,
    now: u64,
    duration_secs: u64,
) -> (response: LockImageResponse)
    requires
        old(locks).wf(),
        lock_expiry(now, duration_secs) <= u64::MAX,
    ensures
        final(locks).wf(),
        final(locks)@ == after_acquire(
            old(locks)@,
            filename@,
            session_id@,
            refresh_only,
            now,
            duration_secs,
        ),
        response.locked == acquire_granted(old(locks)@, filename@, session_id@, refresh_only, now),
        response.locked ==> response.expires_in_secs == Some(duration_secs)
            && response.reason is None,
        !response.locked ==> response.expires_in_secs == remaining_secs(
            purge_expired(old(locks)@, now),
            filename@,
            now,
        ) && response.reason is Some && response.reason->0@ == busy_reason(),
{
    let granted = try_acquire_lock(locks, filename, session_id, refresh_only, now, duration_secs);
    let remaining = get_lock_remaining_secs(locks, filename, now);
    if granted {
        assert(remaining == Some(duration_secs)) by {
            assert((duration_secs * 1000) / 1000 == duration_secs) by (nonlinear_arith);
        }
        LockImageResponse { locked: true, expires_in_secs: remaining, reason: None }
    } else {
        LockImageResponse {
            locked: false,
            expires_in_secs: remaining,
            reason: Some(String::from_str("Image is being edited by another user")),
        }
    }
}

/// Simplified job info for queue display.
#[derive(Debug)]
pub struct FlashJobSummary {
    pub job_id: u64,
    pub filename: String,
    pub flash_twice: bool,
    pub queue_position: usize,
}

/// The mathematical value of a [`FlashJobSummary`].
pub struct FlashJobSummaryView {
    pub job_id: nat,
    pub filename: Seq<char>,
    pub flash_twice: bool,
    pub queue_position: nat,
}

impl View for FlashJobSummary {
    type V = FlashJobSummaryView;

    open spec fn view(&self) -> FlashJobSummaryView {
        FlashJobSummaryView {
            job_id: self.job_id as nat,
            filename: self.filename@,
            flash_twice: self.flash_twice,
            queue_position: self.queue_position as nat,
        }
    }
}

/// The summary of the waiting job at index `index`: its place in the line
/// is one more than its index, since 0 is the current job.
pub open spec fn summary_of(job: JobView, index: int) -> FlashJobSummaryView {
    FlashJobSummaryView {
        job_id: job.job_id,
        filename: job.filename,
        flash_twice: job.flash_twice,
        queue_position: (index + 1) as nat,
    }
}

/// Response for flash status requests.
#[derive(Debug)]
pub struct FlashStatusResponse {
    pub current_job: Option<FlashJob>,
    pub queue: Vec<FlashJobSummary>,
    pub queue_length: usize,
}

/// Get flash queue status: the current job and a summary of each waiting
/// job, head first.
pub fn flash_status(queue: &FlashQueue) -> (response: FlashStatusResponse)
    ensures
        job_view(response.current_job) == queue@.current,
        response.queue_length == queue@.waiting.len(),
        response.queue@.len() == queue@.waiting.len(),
        forall|i: int|
            0 <= i < response.queue@.len() ==> (#[trigger] response.queue@[i])@ == summary_of(
                queue@.waiting[i],
                i,
            ),
{
    let jobs = queue.get_queued_jobs();
    let mut summaries: Vec<FlashJobSummary> = Vec::new();
    let mut i: usize = 0;
    while i < jobs.len()
        invariant
            i <= jobs@.len(),
            summaries@.len() == i,
            forall|k: int|
                0 <= k < i ==> (#[trigger] summaries@[k])@ == summary_of(jobs@[k]@, k),
        decreases jobs@.len() - i,
    {
        let job = &jobs[i];
        summaries.push(
            FlashJobSummary {
                job_id: job.job_id,
                filename: job.filename.clone(),
                flash_twice: job.flash_twice,
                queue_position: i + 1,
            },
        );
        i += 1;
    }
    assert forall|k: int| 0 <= k < summaries@.len() implies (#[trigger] summaries@[k])@
        == summary_of(queue@.waiting[k], k) by {
        assert(queue@.waiting[k] == jobs@[k]@);
    }
    FlashStatusResponse {
        current_job: queue.get_current_job(),
        queue: summaries,
        queue_length: jobs.len(),
    }
}

/// Response for flash submission (queue).
#[derive(Debug)]
pub struct FlashResponse {
    pub success: bool,
    pub message: String,
    pub job_id: u64,
    pub queue_position: usize,
}

/// Why a flash submission was turned down.
#[derive(Debug, Clone, Copy, PartialEq, Eq, Structural)]
pub enum FlashRefusal {
    /// The session does not hold the lock on the image.
    Forbidden,
    /// The dithered image is not there.
    NotFound,
}

/// The path of the dithered image that a submission names.
pub fn submitted_image_path(image_file_path: &str) -> (path: String)
    ensures
        path@ == "static/"@ + image_file_path@,
{
    concat2("static/", image_file_path)
}

/// The message that confirms a queued job.
pub open spec fn queued_message(queue_position: nat) -> Seq<char> {
    "Flash job queued (position "@ + decimal_digits(queue_position) + ")"@
}

/// The place in the line that is reported for a job: 0 where it has none.
pub open spec fn reported_position(position: Option<nat>) -> nat {
    match position {
        Some(p) => p,
        None => 0,
    }
}

/// Queues a flash job for a client. The session must hold the live lock on
/// the image, and the dithered image must exist (`dithered_exists` says
/// whether the file at `submitted_image_path` does); otherwise nothing is
/// queued. Expired locks are purged in either case.
pub fn submit_flash_image(
    queue: &mut FlashQueue,
    locks: &mut ImageLocks,
    filename: &str,
    image_file_path: &str,
    session_id: &str,
    flash_twice: bool,
    rotation_degrees: u16,
    dithered_exists: bool,
    lock_now: u64,
    now: u64,
) -> (outcome: Result<FlashResponse, FlashRefusal>)
    requires
        old(locks).wf(),
        old(queue).next_job_id < u64::MAX,
    ensures
        final(locks).wf(),
        final(locks)@ == purge_expired(old(locks)@, lock_now),
        !owns_lock(old(locks)@, filename@, session_id@, lock_now) ==> outcome == Err::<
            FlashResponse,
            FlashRefusal,
        >(FlashRefusal::Forbidden),
        owns_lock(old(locks)@, filename@, session_id@, lock_now) && !dithered_exists ==> outcome
            == Err::<FlashResponse, FlashRefusal>(FlashRefusal::NotFound),
        outcome is Err ==> final(queue)@ == old(queue)@,
        old(queue)@.wf() ==> final(queue)@.wf(),
        owns_lock(old(locks)@, filename@, session_id@, lock_now) && dithered_exists
            ==> outcome is Ok,
        outcome matches Ok(response) ==> {
            &&& final(queue)@ == old(queue)@.enqueue(
                filename@,
                "static/"@ + image_file_path@,
                flash_twice,
                rotation_degrees,
                now,
            )
            &&& response.success
            &&& response.job_id == old(queue)@.next_job_id
            &&& response.queue_position == reported_position(
                final(queue)@.position(response.job_id as nat),
            )
            &&& response.message@ == queued_message(response.queue_position as nat)
        },
{
    let has_lock = verify_lock_ownership(locks, filename, session_id, lock_now);
    if !has_lock {
        return Err(FlashRefusal::Forbidden);
    }
    if !dithered_exists {
        return Err(FlashRefusal::NotFound);
    }
    let dithered_path = submitted_image_path(image_file_path);
    let job_id = queue.enqueue_at(
        String::from_str(filename),
        dithered_path,
        flash_twice,
        rotation_degrees,
        now,
    );
    let queue_position: usize = match queue.get_position(job_id) {
        Some(position) => position,
        None => 0,
    };
    let mut message = String::from_str("Flash job queued (position ");
    append_decimal(&mut message, queue_position as u64);
    message.append(")");
    Ok(FlashResponse { success: true, message, job_id, queue_position })
}

} // verus!
