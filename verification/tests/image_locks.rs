use upload_server::image_locks::{
    get_lock, get_lock_duration_secs, get_lock_remaining_secs, release_lock, try_acquire_lock,
    verify_lock_ownership, ImageLocks, LOCK_DURATION_SECS,
};

#[test]
fn test_lock_denies_other_session_while_unexpired() {
    let mut locks = ImageLocks::new();
    assert!(try_acquire_lock(&mut locks, "img.png", "s1", false, 1_000, 30));
    assert!(!try_acquire_lock(&mut locks, "img.png", "s2", false, 2_000, 30));
    assert!(!try_acquire_lock(&mut locks, "img.png", "s2", true, 30_999, 30));
    let lock = get_lock(&locks, "img.png").unwrap();
    assert_eq!(lock.session_id, "s1");
    assert_eq!(lock.expires_at, 31_000);
    assert_eq!(locks.len(), 1);
}

#[test]
fn test_refresh_by_owner_extends_expiry() {
    let mut locks = ImageLocks::new();
    assert!(try_acquire_lock(&mut locks, "img.png", "s1", false, 1_000, 30));
    assert_eq!(get_lock(&locks, "img.png").unwrap().expires_at, 31_000);
    assert!(try_acquire_lock(&mut locks, "img.png", "s1", false, 20_000, 30));
    assert_eq!(get_lock(&locks, "img.png").unwrap().expires_at, 50_000);
    assert!(try_acquire_lock(&mut locks, "img.png", "s1", true, 49_999, 30));
    assert_eq!(get_lock(&locks, "img.png").unwrap().expires_at, 79_999);
    assert_eq!(locks.len(), 1);
}

#[test]
fn test_refresh_only_without_lock_is_denied_and_creates_nothing() {
    let mut locks = ImageLocks::new();
    assert!(!try_acquire_lock(&mut locks, "img.png", "s1", true, 1_000, 30));
    assert!(get_lock(&locks, "img.png").is_none());
    assert_eq!(locks.len(), 0);
    assert_eq!(get_lock_remaining_secs(&locks, "img.png", 1_000), None);
}

#[test]
fn test_keepalive_after_expiry_does_not_reacquire() {
    let mut locks = ImageLocks::new();
    assert!(try_acquire_lock(&mut locks, "img.png", "s1", false, 0, 30));
    assert!(!try_acquire_lock(&mut locks, "img.png", "s1", true, 30_000, 30));
    assert_eq!(locks.len(), 0);
    assert!(!verify_lock_ownership(&mut locks, "img.png", "s1", 30_000));
}

#[test]
fn test_expired_lock_can_be_taken_by_another_session() {
    let mut locks = ImageLocks::new();
    assert!(try_acquire_lock(&mut locks, "img.png", "s1", false, 0, 30));
    assert!(!try_acquire_lock(&mut locks, "img.png", "s2", false, 29_999, 30));
    assert!(try_acquire_lock(&mut locks, "img.png", "s2", false, 30_000, 30));
    assert_eq!(get_lock(&locks, "img.png").unwrap().session_id, "s2");
    assert!(!verify_lock_ownership(&mut locks, "img.png", "s1", 30_001));
    assert!(verify_lock_ownership(&mut locks, "img.png", "s2", 30_001));
}

#[test]
fn test_acquire_purges_all_expired_locks() {
    let mut locks = ImageLocks::new();
    assert!(try_acquire_lock(&mut locks, "a.png", "s1", false, 0, 10));
    assert!(try_acquire_lock(&mut locks, "b.png", "s2", false, 0, 20));
    assert!(try_acquire_lock(&mut locks, "c.png", "s3", false, 0, 30));
    assert_eq!(locks.len(), 3);
    assert!(try_acquire_lock(&mut locks, "d.png", "s4", false, 20_000, 30));
    assert_eq!(locks.len(), 2);
    assert!(get_lock(&locks, "a.png").is_none());
    assert!(get_lock(&locks, "b.png").is_none());
    assert_eq!(get_lock(&locks, "c.png").unwrap().session_id, "s3");
    assert_eq!(get_lock(&locks, "d.png").unwrap().expires_at, 50_000);
}

#[test]
fn test_release_by_non_owner_is_refused() {
    let mut locks = ImageLocks::new();
    assert!(try_acquire_lock(&mut locks, "img.png", "s1", false, 0, 30));
    assert!(!release_lock(&mut locks, "img.png", "s2"));
    let lock = get_lock(&locks, "img.png").unwrap();
    assert_eq!(lock.session_id, "s1");
    assert_eq!(lock.expires_at, 30_000);
}

#[test]
fn test_release_by_owner_removes_the_lock() {
    let mut locks = ImageLocks::new();
    assert!(try_acquire_lock(&mut locks, "img.png", "s1", false, 0, 30));
    assert!(try_acquire_lock(&mut locks, "other.png", "s1", false, 0, 30));
    assert!(release_lock(&mut locks, "img.png", "s1"));
    assert!(get_lock(&locks, "img.png").is_none());
    assert!(get_lock(&locks, "other.png").is_some());
    assert_eq!(locks.len(), 1);
    assert!(try_acquire_lock(&mut locks, "img.png", "s2", false, 1, 30));
}

#[test]
fn test_release_of_absent_key_succeeds() {
    let mut locks = ImageLocks::new();
    assert!(release_lock(&mut locks, "img.png", "s1"));
    assert!(release_lock(&mut locks, "img.png", "s1"));
    assert_eq!(locks.len(), 0);
}

#[test]
fn test_release_does_not_purge_expired_locks() {
    let mut locks = ImageLocks::new();
    assert!(try_acquire_lock(&mut locks, "img.png", "s1", false, 0, 1));
    assert!(!release_lock(&mut locks, "img.png", "s2"));
    assert_eq!(get_lock_remaining_secs(&locks, "img.png", 5_000), Some(0));
}

#[test]
fn test_verify_ownership() {
    let mut locks = ImageLocks::new();
    assert!(!verify_lock_ownership(&mut locks, "img.png", "s1", 0));
    assert!(try_acquire_lock(&mut locks, "img.png", "s1", false, 0, 30));
    assert!(verify_lock_ownership(&mut locks, "img.png", "s1", 29_999));
    assert!(!verify_lock_ownership(&mut locks, "img.png", "s2", 29_999));
    assert!(!verify_lock_ownership(&mut locks, "other.png", "s1", 29_999));
    assert_eq!(locks.len(), 1);
    assert!(!verify_lock_ownership(&mut locks, "img.png", "s1", 30_000));
    assert_eq!(locks.len(), 0);
}

#[test]
fn test_remaining_seconds() {
    let mut locks = ImageLocks::new();
    assert!(try_acquire_lock(&mut locks, "img.png", "s1", false, 1_000, 30));
    assert_eq!(get_lock_remaining_secs(&locks, "img.png", 1_000), Some(30));
    assert_eq!(get_lock_remaining_secs(&locks, "img.png", 1_001), Some(29));
    assert_eq!(get_lock_remaining_secs(&locks, "img.png", 30_000), Some(1));
    assert_eq!(get_lock_remaining_secs(&locks, "img.png", 30_001), Some(0));
    assert_eq!(get_lock_remaining_secs(&locks, "img.png", 31_000), Some(0));
    assert_eq!(get_lock_remaining_secs(&locks, "img.png", 99_000), Some(0));
    assert_eq!(get_lock_remaining_secs(&locks, "nothing.png", 1_000), None);
    assert_eq!(locks.len(), 1);
}

#[test]
fn test_lock_duration_from_configuration() {
    assert_eq!(LOCK_DURATION_SECS, 30);
    assert_eq!(get_lock_duration_secs(None), 30);
    assert_eq!(get_lock_duration_secs(Some("45")), 45);
    assert_eq!(get_lock_duration_secs(Some("+7")), 7);
    assert_eq!(get_lock_duration_secs(Some("0")), 0);
    assert_eq!(get_lock_duration_secs(Some("007")), 7);
    assert_eq!(get_lock_duration_secs(Some("18446744073709551615")), u64::MAX);
    assert_eq!(get_lock_duration_secs(Some("18446744073709551616")), 30);
    assert_eq!(get_lock_duration_secs(Some("")), 30);
    assert_eq!(get_lock_duration_secs(Some("+")), 30);
    assert_eq!(get_lock_duration_secs(Some("-5")), 30);
    assert_eq!(get_lock_duration_secs(Some(" 5")), 30);
    assert_eq!(get_lock_duration_secs(Some("5s")), 30);
    assert_eq!(get_lock_duration_secs(Some("1_000")), 30);
}

#[test]
fn test_keys_are_compared_exactly() {
    let mut locks = ImageLocks::new();
    assert!(try_acquire_lock(&mut locks, "img.png", "s1", false, 0, 30));
    assert!(try_acquire_lock(&mut locks, "IMG.png", "s2", false, 0, 30));
    assert!(try_acquire_lock(&mut locks, "", "s3", false, 0, 30));
    assert_eq!(locks.len(), 3);
    assert!(!try_acquire_lock(&mut locks, "", "", false, 1, 30));
}
