use upload_server::flash_queue::{
    status_is_terminal, FlashJobStatus, FlashQueue, FINISHED_JOB_RETENTION_MS,
};

#[test]
fn test_enqueue_increments_job_id() {
    let mut queue = FlashQueue::new();
    let id1 = queue.enqueue("a.jpg".into(), "path/a.jpg.png".into(), false, 0);
    let id2 = queue.enqueue("b.jpg".into(), "path/b.jpg.png".into(), false, 90);
    assert_eq!(id1, 1);
    assert_eq!(id2, 2);
}

#[test]
fn test_get_position() {
    let mut queue = FlashQueue::new();
    let id1 = queue.enqueue("a.jpg".into(), "path/a.jpg.png".into(), false, 0);
    let id2 = queue.enqueue("b.jpg".into(), "path/b.jpg.png".into(), false, 0);
    let id3 = queue.enqueue("c.jpg".into(), "path/c.jpg.png".into(), false, 0);

    // All in queue, positions are 1, 2, 3.
    assert_eq!(queue.get_position(id1), Some(1));
    assert_eq!(queue.get_position(id2), Some(2));
    assert_eq!(queue.get_position(id3), Some(3));

    // Dequeue first job - now it's current (position 0).
    queue.dequeue();
    assert_eq!(queue.get_position(id1), Some(0));
    assert_eq!(queue.get_position(id2), Some(1));
    assert_eq!(queue.get_position(id3), Some(2));
}

#[test]
fn test_dequeue_fifo_order() {
    let mut queue = FlashQueue::new();
    queue.enqueue("first.jpg".into(), "path/first.jpg.png".into(), false, 0);
    queue.enqueue("second.jpg".into(), "path/second.jpg.png".into(), true, 270);

    let job1 = queue.dequeue().unwrap();
    assert_eq!(job1.filename, "first.jpg");
    assert!(!job1.flash_twice);

    // First job is now current, clear it.
    queue.current_job = None;

    let job2 = queue.dequeue().unwrap();
    assert_eq!(job2.filename, "second.jpg");
    assert!(job2.flash_twice);
    assert_eq!(job2.rotation_degrees, 270);
}

#[test]
fn test_job_status_transitions() {
    let mut queue = FlashQueue::new();
    queue.enqueue("test.jpg".into(), "path/test.jpg.png".into(), false, 180);

    // Job starts as Queued.
    let queued_job = queue.queue.front().unwrap();
    assert_eq!(queued_job.status, FlashJobStatus::Queued);

    // Dequeue marks as Flashing.
    let job = queue.dequeue().unwrap();
    assert_eq!(job.status, FlashJobStatus::Flashing);

    // Mark completed.
    queue.mark_completed();
    let current = queue.get_current_job().unwrap();
    assert_eq!(current.status, FlashJobStatus::Completed);
}

#[test]
fn test_nonexistent_job_position() {
    let queue = FlashQueue::new();
    assert_eq!(queue.get_position(999), None);
}

#[test]
fn test_finished_job_retained_while_next_job_flashing() {
    let mut queue = FlashQueue::new();
    let first_id = queue.enqueue("first.jpg".into(), "path/first.jpg.png".into(), false, 0);
    let second_id = queue.enqueue("second.jpg".into(), "path/second.jpg.png".into(), false, 90);

    // Start and complete first job.
    queue.dequeue();
    queue.mark_completed();

    // Start second job; first should move to retained jobs.
    let second = queue.dequeue().unwrap();
    assert_eq!(second.job_id, second_id);
    assert_eq!(second.status, FlashJobStatus::Flashing);

    let first = queue
        .find_job(first_id)
        .expect("first job should still be retained");
    assert_eq!(first.status, FlashJobStatus::Completed);
}

#[test]
fn test_ids_strictly_increase_across_other_operations() {
    let mut queue = FlashQueue::new();
    let mut last = 0u64;
    for round in 0..20u64 {
        let id = queue.enqueue_at(format!("{}.jpg", round), format!("p/{}.png", round), false, 0, round);
        assert!(id > last);
        assert_eq!(id, round + 1);
        last = id;
        if round % 3 == 0 {
            queue.dequeue_at(round);
        }
        if round % 3 == 1 {
            queue.mark_completed_at(round);
        }
        if round % 5 == 0 {
            queue.clear_current_if_finished_at(round + 100_000);
        }
    }
    assert_eq!(queue.next_job_id, 21);
}

#[test]
fn test_new_queue_is_empty() {
    let queue = FlashQueue::new();
    assert!(queue.get_current_job().is_none());
    assert!(queue.get_queued_jobs().is_empty());
    assert!(queue.find_job(1).is_none());
    assert_eq!(queue.next_job_id, 1);
    let other = FlashQueue::default();
    assert_eq!(other.next_job_id, 1);
    assert!(other.queue.is_empty());
}

#[test]
fn test_enqueue_builds_a_queued_job() {
    let mut queue = FlashQueue::new();
    let id = queue.enqueue_at("a.jpg".into(), "static/images/dithered/a.jpg.png".into(), true, 90, 1234);
    let jobs = queue.get_queued_jobs();
    assert_eq!(jobs.len(), 1);
    let job = &jobs[0];
    assert_eq!(job.job_id, id);
    assert_eq!(job.filename, "a.jpg");
    assert_eq!(job.dithered_path, "static/images/dithered/a.jpg.png");
    assert!(job.flash_twice);
    assert_eq!(job.rotation_degrees, 90);
    assert_eq!(job.status, FlashJobStatus::Queued);
    assert_eq!(job.created_at, 1234);
    assert_eq!(job.started_at, None);
    assert_eq!(job.finished_at, None);
    assert_eq!(job.error_message, None);
    assert!(queue.get_current_job().is_none());
}

#[test]
fn test_two_enqueues_have_positions_one_and_two() {
    let mut queue = FlashQueue::new();
    let a = queue.enqueue_at("a".into(), "pa".into(), false, 0, 1);
    let b = queue.enqueue_at("b".into(), "pb".into(), false, 0, 2);
    assert_eq!(queue.get_position(a), Some(1));
    assert_eq!(queue.get_position(b), Some(2));
}

#[test]
fn test_dequeue_returns_nothing_while_a_job_is_flashing() {
    let mut queue = FlashQueue::new();
    let a = queue.enqueue_at("a".into(), "pa".into(), false, 0, 1);
    let b = queue.enqueue_at("b".into(), "pb".into(), false, 0, 2);
    let first = queue.dequeue_at(10).unwrap();
    assert_eq!(first.job_id, a);
    assert_eq!(first.started_at, Some(10));
    assert!(queue.dequeue_at(11).is_none());
    assert!(queue.dequeue_at(12).is_none());
    assert_eq!(queue.get_current_job().unwrap().job_id, a);
    assert_eq!(queue.get_position(b), Some(1));
    assert_eq!(queue.get_queued_jobs().len(), 1);
}

#[test]
fn test_dequeue_on_empty_queue_returns_nothing() {
    let mut queue = FlashQueue::new();
    assert!(queue.dequeue_at(5).is_none());
    assert!(queue.get_current_job().is_none());
}

#[test]
fn test_dequeue_with_finished_job_and_nothing_waiting_frees_the_slot() {
    let mut queue = FlashQueue::new();
    let a = queue.enqueue_at("a".into(), "pa".into(), false, 0, 1);
    queue.dequeue_at(2);
    queue.mark_completed_at(3);
    assert!(queue.dequeue_at(4).is_none());
    assert!(queue.get_current_job().is_none());
    assert_eq!(queue.get_position(a), None);
    let found = queue.find_job(a).unwrap();
    assert_eq!(found.status, FlashJobStatus::Completed);
    assert_eq!(found.finished_at, Some(3));
}

#[test]
fn test_mark_failed_records_message_and_time() {
    let mut queue = FlashQueue::new();
    queue.enqueue_at("a".into(), "pa".into(), false, 0, 1);
    queue.dequeue_at(2);
    queue.mark_failed_at("Flash failed (exit code 1): no display".into(), 77);
    let current = queue.get_current_job().unwrap();
    assert_eq!(current.status, FlashJobStatus::Failed);
    assert_eq!(current.finished_at, Some(77));
    assert_eq!(current.error_message.as_deref(), Some("Flash failed (exit code 1): no display"));
    assert_eq!(current.started_at, Some(2));
}

#[test]
fn test_mark_without_current_job_changes_nothing() {
    let mut queue = FlashQueue::new();
    queue.enqueue_at("a".into(), "pa".into(), false, 0, 1);
    queue.mark_completed_at(5);
    queue.mark_failed_at("x".into(), 6);
    assert!(queue.get_current_job().is_none());
    assert_eq!(queue.get_queued_jobs()[0].status, FlashJobStatus::Queued);
}

#[test]
fn test_find_reports_completed_and_flashing() {
    let mut queue = FlashQueue::new();
    let a = queue.enqueue_at("a".into(), "pa".into(), false, 0, 1);
    let started = queue.dequeue_at(2).unwrap();
    assert_eq!(started.job_id, a);
    assert_eq!(queue.get_position(a), Some(0));
    queue.mark_completed_at(3);
    let b = queue.enqueue_at("b".into(), "pb".into(), false, 0, 4);
    let second = queue.dequeue_at(5).unwrap();
    assert_eq!(second.job_id, b);
    assert_eq!(queue.find_job(a).unwrap().status, FlashJobStatus::Completed);
    assert_eq!(queue.find_job(b).unwrap().status, FlashJobStatus::Flashing);
    assert_eq!(queue.get_position(a), None);
    assert_eq!(queue.get_position(b), Some(0));
}

#[test]
fn test_unknown_id_is_not_found() {
    let mut queue = FlashQueue::new();
    assert!(queue.find_job(1).is_none());
    let a = queue.enqueue_at("a".into(), "pa".into(), false, 0, 1);
    queue.dequeue_at(2);
    queue.enqueue_at("b".into(), "pb".into(), false, 0, 3);
    assert!(queue.find_job(a + 5).is_none());
    assert_eq!(queue.get_position(a + 5), None);
    assert!(queue.find_job(0).is_none());
    assert_eq!(queue.get_position(0), None);
}

#[test]
fn test_finished_current_job_is_cleared_only_after_retention() {
    let mut queue = FlashQueue::new();
    let a = queue.enqueue_at("a".into(), "pa".into(), false, 0, 1);
    queue.dequeue_at(2);
    queue.mark_completed_at(1_000);
    queue.clear_current_if_finished_at(1_000);
    assert!(queue.find_job(a).is_some());
    queue.clear_current_if_finished_at(1_000 + FINISHED_JOB_RETENTION_MS);
    assert!(queue.find_job(a).is_some());
    assert_eq!(queue.get_position(a), Some(0));
    queue.clear_current_if_finished_at(1_000 + FINISHED_JOB_RETENTION_MS + 1);
    assert!(queue.find_job(a).is_none());
    assert!(queue.get_current_job().is_none());
}

#[test]
fn test_retained_job_is_pruned_only_after_retention() {
    let mut queue = FlashQueue::new();
    let a = queue.enqueue_at("a".into(), "pa".into(), false, 0, 1);
    let b = queue.enqueue_at("b".into(), "pb".into(), false, 0, 1);
    queue.dequeue_at(2);
    queue.mark_failed_at("broken".into(), 500);
    queue.dequeue_at(600);
    assert_eq!(queue.recent_jobs.len(), 1);
    queue.prune_recent_jobs_at(30_500);
    assert_eq!(queue.find_job(a).unwrap().status, FlashJobStatus::Failed);
    queue.clear_current_if_finished_at(30_500);
    assert!(queue.find_job(a).is_some());
    queue.prune_recent_jobs_at(30_501);
    assert!(queue.find_job(a).is_none());
    assert_eq!(queue.find_job(b).unwrap().status, FlashJobStatus::Flashing);
}

#[test]
fn test_flashing_job_is_never_cleared() {
    let mut queue = FlashQueue::new();
    let a = queue.enqueue_at("a".into(), "pa".into(), false, 0, 1);
    queue.dequeue_at(2);
    queue.clear_current_if_finished_at(u64::MAX);
    assert_eq!(queue.get_position(a), Some(0));
}

#[test]
fn test_clock_earlier_than_finish_time_keeps_the_job() {
    let mut queue = FlashQueue::new();
    let a = queue.enqueue_at("a".into(), "pa".into(), false, 0, 1);
    queue.dequeue_at(2);
    queue.mark_completed_at(90_000);
    queue.clear_current_if_finished_at(10);
    assert!(queue.find_job(a).is_some());
}

#[test]
fn test_prune_stops_at_the_first_unexpired_job() {
    let mut queue = FlashQueue::new();
    let a = queue.enqueue_at("a".into(), "pa".into(), false, 0, 1);
    let b = queue.enqueue_at("b".into(), "pb".into(), false, 0, 1);
    let c = queue.enqueue_at("c".into(), "pc".into(), false, 0, 1);
    queue.dequeue_at(1);
    queue.mark_completed_at(100);
    queue.dequeue_at(101);
    queue.mark_completed_at(50_000);
    queue.dequeue_at(50_001);
    queue.mark_completed_at(200);
    queue.dequeue_at(201);
    assert_eq!(queue.recent_jobs.len(), 3);
    queue.prune_recent_jobs_at(40_000);
    assert!(queue.find_job(a).is_none());
    assert!(queue.find_job(b).is_some());
    assert!(queue.find_job(c).is_some());
    assert_eq!(queue.recent_jobs.len(), 2);
}

#[test]
fn test_clock_reading_operations_stamp_times() {
    let mut queue = FlashQueue::new();
    let a = queue.enqueue("a".into(), "pa".into(), false, 0);
    let job = queue.dequeue().unwrap();
    assert!(job.started_at.is_some());
    queue.mark_failed("no".into());
    let current = queue.get_current_job().unwrap();
    assert_eq!(current.status, FlashJobStatus::Failed);
    assert!(current.finished_at.is_some());
    queue.prune_recent_jobs();
    queue.clear_current_if_finished();
    assert!(queue.find_job(a).is_some());
}

#[test]
fn test_status_is_terminal() {
    assert!(!status_is_terminal(FlashJobStatus::Queued));
    assert!(!status_is_terminal(FlashJobStatus::Flashing));
    assert!(status_is_terminal(FlashJobStatus::Completed));
    assert!(status_is_terminal(FlashJobStatus::Failed));
}
