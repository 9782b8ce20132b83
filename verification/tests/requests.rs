use upload_server::flash_queue::FlashQueue;
use upload_server::image_locks::{get_lock, try_acquire_lock, ImageLocks};
use upload_server::requests::{
    flash_status, is_separator_char, lock_image, sanitize_filename, submit_flash_image,
    submitted_image_path, thumb_file_path, thumb_status, FlashRefusal,
};
use upload_server::text::{ends_with, same_text, starts_with};

#[test]
fn test_sanitize_filename() {
    assert_eq!(sanitize_filename("photo.jpg"), Some("photo.jpg".to_string()));
    assert_eq!(sanitize_filename("../../etc/passwd"), Some("passwd".to_string()));
    assert_eq!(sanitize_filename("C:\\Users\\me\\cat.png"), Some("cat.png".to_string()));
    assert_eq!(sanitize_filename("a/b\\c/d.gif"), Some("d.gif".to_string()));
    assert_eq!(sanitize_filename(""), None);
    assert_eq!(sanitize_filename("."), None);
    assert_eq!(sanitize_filename(".."), None);
    assert_eq!(sanitize_filename("dir/"), None);
    assert_eq!(sanitize_filename("dir/.hidden"), None);
    assert_eq!(sanitize_filename(".hidden"), None);
    assert_eq!(sanitize_filename("a/.."), None);
    assert_eq!(sanitize_filename("bild \u{e4}.png"), Some("bild \u{e4}.png".to_string()));
    assert!(is_separator_char('/'));
    assert!(is_separator_char('\\'));
    assert!(!is_separator_char('.'));
}

#[test]
fn test_text_helpers() {
    assert!(starts_with("static/images", "static/"));
    assert!(starts_with("abc", ""));
    assert!(!starts_with("st", "static/"));
    assert!(ends_with("a.png", ".png"));
    assert!(ends_with(".png", ".png"));
    assert!(!ends_with("png", ".png"));
    assert!(ends_with("\u{e4}\u{f6}.png", ".png"));
    assert!(same_text("a", "a"));
    assert!(!same_text("a", "A"));
}

#[test]
fn test_thumb_status() {
    assert_eq!(thumb_file_path("a.jpg"), "static/images/thumbs/a.jpg.png");
    let status = thumb_status("a.jpg", true);
    assert!(status.ready);
    assert_eq!(status.thumb_path, "images/thumbs/a.jpg.png");
    assert!(!thumb_status("b", false).ready);
}

#[test]
fn test_lock_image_granted() {
    let mut locks = ImageLocks::new();
    let response = lock_image(&mut locks, "img.png", "s1", false, 5_000, 30);
    assert!(response.locked);
    assert_eq!(response.expires_in_secs, Some(30));
    assert_eq!(response.reason, None);
    assert_eq!(get_lock(&locks, "img.png").unwrap().expires_at, 35_000);
}

#[test]
fn test_lock_image_busy_reports_remaining_time() {
    let mut locks = ImageLocks::new();
    assert!(lock_image(&mut locks, "img.png", "s1", false, 5_000, 30).locked);
    let response = lock_image(&mut locks, "img.png", "s2", false, 15_500, 30);
    assert!(!response.locked);
    assert_eq!(response.expires_in_secs, Some(19));
    assert_eq!(response.reason.as_deref(), Some("Image is being edited by another user"));
    assert_eq!(get_lock(&locks, "img.png").unwrap().session_id, "s1");
}

#[test]
fn test_lock_image_keepalive_without_lock() {
    let mut locks = ImageLocks::new();
    let response = lock_image(&mut locks, "img.png", "s1", true, 5_000, 30);
    assert!(!response.locked);
    assert_eq!(response.expires_in_secs, None);
    assert!(response.reason.is_some());
    assert_eq!(locks.len(), 0);
}

#[test]
fn test_flash_status_lists_waiting_jobs() {
    let mut queue = FlashQueue::new();
    let a = queue.enqueue_at("a.jpg".into(), "pa".into(), false, 0, 1);
    let b = queue.enqueue_at("b.jpg".into(), "pb".into(), true, 0, 2);
    let c = queue.enqueue_at("c.jpg".into(), "pc".into(), false, 0, 3);
    queue.dequeue_at(4);
    let status = flash_status(&queue);
    assert_eq!(status.current_job.unwrap().job_id, a);
    assert_eq!(status.queue_length, 2);
    assert_eq!(status.queue.len(), 2);
    assert_eq!(status.queue[0].job_id, b);
    assert_eq!(status.queue[0].filename, "b.jpg");
    assert!(status.queue[0].flash_twice);
    assert_eq!(status.queue[0].queue_position, 1);
    assert_eq!(status.queue[1].job_id, c);
    assert_eq!(status.queue[1].queue_position, 2);
    let empty = flash_status(&FlashQueue::new());
    assert!(empty.current_job.is_none());
    assert_eq!(empty.queue_length, 0);
}

#[test]
fn test_submit_flash_without_lock_is_forbidden() {
    let mut queue = FlashQueue::new();
    let mut locks = ImageLocks::new();
    let outcome = submit_flash_image(
        &mut queue, &mut locks, "a.jpg", "images/dithered/a.jpg.png", "s1", false, 0, true, 10, 20,
    );
    assert_eq!(outcome.unwrap_err(), FlashRefusal::Forbidden);
    assert!(queue.get_queued_jobs().is_empty());
    assert!(try_acquire_lock(&mut locks, "a.jpg", "s2", false, 10, 30));
    let outcome = submit_flash_image(
        &mut queue, &mut locks, "a.jpg", "images/dithered/a.jpg.png", "s1", false, 0, true, 11, 20,
    );
    assert_eq!(outcome.unwrap_err(), FlashRefusal::Forbidden);
    assert_eq!(queue.next_job_id, 1);
}

#[test]
fn test_submit_flash_without_dithered_image_is_not_found() {
    let mut queue = FlashQueue::new();
    let mut locks = ImageLocks::new();
    assert!(try_acquire_lock(&mut locks, "a.jpg", "s1", false, 10, 30));
    let outcome = submit_flash_image(
        &mut queue, &mut locks, "a.jpg", "images/dithered/a.jpg.png", "s1", false, 0, false, 11, 20,
    );
    assert_eq!(outcome.unwrap_err(), FlashRefusal::NotFound);
    assert!(queue.get_queued_jobs().is_empty());
}

#[test]
fn test_submit_flash_queues_the_job() {
    let mut queue = FlashQueue::new();
    let mut locks = ImageLocks::new();
    assert!(try_acquire_lock(&mut locks, "a.jpg", "s1", false, 10, 30));
    assert_eq!(submitted_image_path("images/dithered/a.jpg.png"), "static/images/dithered/a.jpg.png");
    let first = submit_flash_image(
        &mut queue, &mut locks, "a.jpg", "images/dithered/a.jpg.png", "s1", true, 90, true, 11, 20,
    )
    .unwrap();
    assert!(first.success);
    assert_eq!(first.job_id, 1);
    assert_eq!(first.queue_position, 1);
    assert_eq!(first.message, "Flash job queued (position 1)");
    let second = submit_flash_image(
        &mut queue, &mut locks, "a.jpg", "images/dithered/a.jpg.png", "s1", false, 0, true, 12, 21,
    )
    .unwrap();
    assert_eq!(second.job_id, 2);
    assert_eq!(second.queue_position, 2);
    assert_eq!(second.message, "Flash job queued (position 2)");
    let jobs = queue.get_queued_jobs();
    assert_eq!(jobs[0].dithered_path, "static/images/dithered/a.jpg.png");
    assert_eq!(jobs[0].filename, "a.jpg");
    assert!(jobs[0].flash_twice);
    assert_eq!(jobs[0].rotation_degrees, 90);
    assert_eq!(jobs[0].created_at, 20);
}
