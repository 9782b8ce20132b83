//! What holds of every lock table: a live lock shuts out every other
//! session, a keepalive never creates a lock, and only the owner releases.

use vstd::prelude::*;

use crate::image_locks::{
    acquire_granted, after_acquire, after_release, lock_expiry, owns_lock, purge_expired,
    release_allowed, LockView,
};

verus! {

/// A lock that `owner` was granted at `now` denies every other session for
/// as long as it has not expired, keepalive or not, and stays as it was
/// granted.
pub proof fn law_granted_lock_excludes_others(
    locks: Map<Seq<char>, LockView>,
    key: Seq<char>,
    owner: Seq<char>,
    other: Seq<char>,
    refresh_only: bool,
    other_refresh_only: bool,
    now: u64,
    duration_secs: u64,
    later: u64,
)
    requires
        acquire_granted(locks, key, owner, refresh_only, now),
        lock_expiry(now, duration_secs) <= u64::MAX,
        later < lock_expiry(now, duration_secs),
        other != owner,
    ensures
        !acquire_granted(
            after_acquire(locks, key, owner, refresh_only, now, duration_secs),
            key,
            other,
            other_refresh_only,
            later,
        ),
        after_acquire(
            after_acquire(locks, key, owner, refresh_only, now, duration_secs),
            key,
            other,
            other_refresh_only,
            later,
            duration_secs,
        )[key] == (LockView {
            session_id: owner,
            expires_at: lock_expiry(now, duration_secs) as u64,
        }),
        owns_lock(
            after_acquire(locks, key, owner, refresh_only, now, duration_secs),
            key,
            owner,
            later,
        ),
{
}

/// The owner of a live lock is granted it again, keepalive or not, and the
/// lock then runs for the full duration from the time of the new request.
pub proof fn law_owner_refresh_extends_expiry(
    locks: Map<Seq<char>, LockView>,
    key: Seq<char>,
    owner: Seq<char>,
    refresh_only: bool,
    now: u64,
    duration_secs: u64,
)
    requires
        locks.dom().contains(key),
        locks[key].session_id == owner,
        locks[key].expires_at > now,
    ensures
        acquire_granted(locks, key, owner, refresh_only, now),
        after_acquire(locks, key, owner, refresh_only, now, duration_secs)[key] == (LockView {
            session_id: owner,
            expires_at: lock_expiry(now, duration_secs) as u64,
        }),
{
}

/// A keepalive for an image without a live lock is denied and creates
/// nothing: afterwards the table holds the live locks of before and no lock
/// on the image.
pub proof fn law_keepalive_never_creates(
    locks: Map<Seq<char>, LockView>,
    key: Seq<char>,
    owner: Seq<char>,
    now: u64,
    duration_secs: u64,
)
    requires
        !locks.dom().contains(key) || locks[key].expires_at <= now,
    ensures
        !acquire_granted(locks, key, owner, true, now),
        after_acquire(locks, key, owner, true, now, duration_secs) == purge_expired(locks, now),
        !after_acquire(locks, key, owner, true, now, duration_secs).dom().contains(key),
{
}

/// An expired lock is never mistaken for a held one: whoever asks first for
/// a new lock after the expiry is granted it.
pub proof fn law_expired_lock_is_free(
    locks: Map<Seq<char>, LockView>,
    key: Seq<char>,
    owner: Seq<char>,
    now: u64,
    duration_secs: u64,
)
    requires
        locks.dom().contains(key),
        locks[key].expires_at <= now,
    ensures
        acquire_granted(locks, key, owner, false, now),
        !owns_lock(locks, key, locks[key].session_id, now),
        after_acquire(locks, key, owner, false, now, duration_secs)[key].session_id == owner,
{
}

/// A release by a session that does not own the lock is refused and leaves
/// the table as it is.
pub proof fn law_release_by_other_is_refused(
    locks: Map<Seq<char>, LockView>,
    key: Seq<char>,
    other: Seq<char>,
)
    requires
        locks.dom().contains(key),
        locks[key].session_id != other,
    ensures
        !release_allowed(locks, key, other),
        after_release(locks, key, other) == locks,
{
}

/// A release by the owner succeeds and removes the lock, and no other.
pub proof fn law_release_by_owner_removes(
    locks: Map<Seq<char>, LockView>,
    key: Seq<char>,
    owner: Seq<char>,
)
    requires
        locks.dom().contains(key),
        locks[key].session_id == owner,
    ensures
        release_allowed(locks, key, owner),
        !after_release(locks, key, owner).dom().contains(key),
        after_release(locks, key, owner) == locks.remove(key),
{
}

/// A release of an image that has no lock succeeds and changes nothing.
pub proof fn law_release_of_absent_succeeds(
    locks: Map<Seq<char>, LockView>,
    key: Seq<char>,
    owner: Seq<char>,
)
    requires
        !locks.dom().contains(key),
    ensures
        release_allowed(locks, key, owner),
        after_release(locks, key, owner) == locks,
{
}

/// At most one session owns the lock on an image at any time.
pub proof fn law_one_owner(
    locks: Map<Seq<char>, LockView>,
    key: Seq<char>,
    first: Seq<char>,
    second: Seq<char>,
    now: u64,
)
    requires
        owns_lock(locks, key, first, now),
        owns_lock(locks, key, second, now),
    ensures
        first == second,
{
}

} // verus!
