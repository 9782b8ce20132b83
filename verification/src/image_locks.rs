//! Edit locks on images: at most one lock per filename, held by one session
//! and gone once its expiry has passed.
//!
//! Times are milliseconds on a clock that never runs backwards; the caller
//! reads the clock and hands the reading in.

use vstd::prelude::*;
use vstd::string::StringExecFns;

use crate::text::{parse_u64, text_view, unsigned_decimal};

verus! {

/// Seconds that a lock lasts when nothing else is configured.
pub const LOCK_DURATION_SECS: u64 = 30;

/// Represents a lock on a specific image.
#[derive(Debug)]
pub struct ImageLock {
    /// Session ID that owns the lock.
    pub session_id: String,
    /// When the lock expires (auto-released if not refreshed).
    pub expires_at: u64,
}

/// The mathematical value of an [`ImageLock`].
pub struct LockView {
    pub session_id: Seq<char>,
    pub expires_at: u64,
}

impl View for ImageLock {
    type V = LockView;

    open spec fn view(&self) -> LockView {
        LockView { session_id: self.session_id@, expires_at: self.expires_at }
    }
}

impl Clone for ImageLock {
    fn clone(&self) -> (copy: Self)
        ensures
            copy == *self,
    {
        ImageLock { session_id: self.session_id.clone(), expires_at: self.expires_at }
    }
}

/// The locks that are still held at `now`: those whose expiry lies after it.
pub open spec fn purge_expired(locks: Map<Seq<char>, LockView>, now: u64) -> Map<
    Seq<char>,
    LockView,
> {
    Map::new(
        |key: Seq<char>| locks.dom().contains(key) && locks[key].expires_at > now,
        |key: Seq<char>| locks[key],
    )
}

/// The expiry of a lock that is granted or refreshed at `now`.
pub open spec fn lock_expiry(now: u64, duration_secs: u64) -> int {
    now + duration_secs * 1000
}

/// Whether `owner` is granted the lock on `key` at `now`: a live lock is
/// refreshed for its owner and denied to anyone else; without a live lock a
/// new one is granted unless the request is a keepalive.
pub open spec fn acquire_granted(
    locks: Map<Seq<char>, LockView>,
    key: Seq<char>,
    owner: Seq<char>,
    refresh_only: bool,
    now: u64,
) -> bool {
    let live = purge_expired(locks, now);
    if live.dom().contains(key) {
        live[key].session_id == owner
    } else {
        !refresh_only
    }
}

/// The locks after `owner` asked for the lock on `key` at `now`: expired
/// locks are gone, and a granted lock runs until `lock_expiry`.
pub open spec fn after_acquire(
    locks: Map<Seq<char>, LockView>,
    key: Seq<char>,
    owner: Seq<char>,
    refresh_only: bool,
    now: u64,
    duration_secs: u64,
) -> Map<Seq<char>, LockView> {
    let live = purge_expired(locks, now);
    if acquire_granted(locks, key, owner, refresh_only, now) {
        live.insert(
            key,
            LockView { session_id: owner, expires_at: lock_expiry(now, duration_secs) as u64 },
        )
    } else {
        live
    }
}

/// Whether a release of `key` by `owner` succeeds: there is no lock, or
/// `owner` holds it.
pub open spec fn release_allowed(
    locks: Map<Seq<char>, LockView>,
    key: Seq<char>,
    owner: Seq<char>,
) -> bool {
    !locks.dom().contains(key) || locks[key].session_id == owner
}

/// The locks after `owner` asked to release `key`.
pub open spec fn after_release(
    locks: Map<Seq<char>, LockView>,
    key: Seq<char>,
    owner: Seq<char>,
) -> Map<Seq<char>, LockView> {
    if locks.dom().contains(key) && locks[key].session_id == owner {
        locks.remove(key)
    } else {
        locks
    }
}

/// Whether `owner` holds a lock on `key` that is live at `now`.
pub open spec fn owns_lock(
    locks: Map<Seq<char>, LockView>,
    key: Seq<char>,
    owner: Seq<char>,
    now: u64,
) -> bool {
    purge_expired(locks, now).dom().contains(key) && locks[key].session_id == owner
}

/// Whole seconds from `now` to `expires_at`, 0 once it has passed.
pub open spec fn seconds_until(expires_at: u64, now: u64) -> u64 {
    if expires_at > now {
        ((expires_at - now) / 1000) as u64
    } else {
        0
    }
}

/// Seconds that the lock on `key` still runs, if there is one.
pub open spec fn remaining_secs(locks: Map<Seq<char>, LockView>, key: Seq<char>, now: u64) -> Option<
    u64,
> {
    if locks.dom().contains(key) {
        Some(seconds_until(locks[key].expires_at, now))
    } else {
        None
    }
}

/// One lock with the filename it is for.
struct LockEntry {
    filename: String,
    lock: ImageLock,
}

impl Clone for LockEntry {
    fn clone(&self) -> (copy: Self)
        ensures
            copy == *self,
    {
        LockEntry { filename: self.filename.clone(), lock: self.lock.clone() }
    }
}

spec fn has_key(entries: Seq<LockEntry>, key: Seq<char>) -> bool {
    exists|i: int| 0 <= i < entries.len() && (#[trigger] entries[i]).filename@ == key
}

spec fn key_index(entries: Seq<LockEntry>, key: Seq<char>) -> int {
    choose|i: int| 0 <= i < entries.len() && (#[trigger] entries[i]).filename@ == key
}

spec fn distinct_keys(entries: Seq<LockEntry>) -> bool {
    forall|i: int, j: int|
        0 <= i < j < entries.len() ==> (#[trigger] entries[i]).filename@ != (
        #[trigger] entries[j]).filename@
}

spec fn entries_map(entries: Seq<LockEntry>) -> Map<Seq<char>, LockView> {
    Map::new(
        |key: Seq<char>| has_key(entries, key),
        |key: Seq<char>| entries[key_index(entries, key)].lock@,
    )
}

proof fn lemma_entry_in_map(entries: Seq<LockEntry>, i: int)
    requires
        distinct_keys(entries),
        0 <= i < entries.len(),
    ensures
        entries_map(entries).dom().contains(entries[i].filename@),
        entries_map(entries)[entries[i].filename@] == entries[i].lock@,
{
    let key = entries[i].filename@;
    assert(has_key(entries, key));
    let at = key_index(entries, key);
    if at != i {
        if at < i {
            assert(entries[at].filename@ != entries[i].filename@);
        } else {
            assert(entries[i].filename@ != entries[at].filename@);
        }
    }
}

proof fn lemma_key_in_map(entries: Seq<LockEntry>, key: Seq<char>)
    requires
        entries_map(entries).dom().contains(key),
    ensures
        0 <= key_index(entries, key) < entries.len(),
        entries[key_index(entries, key)].filename@ == key,
        entries_map(entries)[key] == entries[key_index(entries, key)].lock@,
{
    assert(has_key(entries, key));
}

/// The table of image locks.
pub struct ImageLocks {
    entries: Vec<LockEntry>,
}

impl View for ImageLocks {
    type V = Map<Seq<char>, LockView>;

    /// The lock of each locked filename.
    closed spec fn view(&self) -> Map<Seq<char>, LockView> {
        entries_map(self.entries@)
    }
}

impl ImageLocks {
    /// No filename has two locks.
    pub closed spec fn wf(&self) -> bool {
        distinct_keys(self.entries@)
    }

    /// An empty table.
    pub fn new() -> (locks: Self)
        ensures
            locks.wf(),
            locks@ == Map::<Seq<char>, LockView>::empty(),
    {
        let locks = ImageLocks { entries: Vec::new() };
        assert(locks@ =~= Map::<Seq<char>, LockView>::empty()) by {
            assert forall|key: Seq<char>| !has_key(locks.entries@, key) by {}
        }
        locks
    }

    /// The number of locks in the table, expired ones included.
    pub fn len(&self) -> (count: usize)
        requires
            self.wf(),
        ensures
            count == self@.dom().len(),
            self@.dom().finite(),
    {
        proof {
            lemma_dom_len(self.entries@);
        }
        self.entries.len()
    }

    fn position_of(&self, key: &String) -> (index: Option<usize>)
        requires
            self.wf(),
        ensures
            match index {
                Some(i) => i < self.entries@.len() && self.entries@[i as int].filename@ == key@
                    && self@.dom().contains(key@) && self@[key@] == self.entries@[i as int].lock@,
                None => !self@.dom().contains(key@),
            },
    {
        let mut i: usize = 0;
        while i < self.entries.len()
            invariant
                self.wf(),
                i <= self.entries@.len(),
                forall|k: int| 0 <= k < i ==> (#[trigger] self.entries@[k]).filename@ != key@,
            decreases self.entries@.len() - i,
        {
            if self.entries[i].filename == *key {
                proof {
                    lemma_entry_in_map(self.entries@, i as int);
                }
                return Some(i);
            }
            i += 1;
        }
        assert(!has_key(self.entries@, key@));
        None
    }

    /// Drops every lock whose expiry is not after `now`.
    fn purge(&mut self, now: u64)
        requires
            old(self).wf(),
        ensures
            final(self).wf(),
            final(self)@ == purge_expired(old(self)@, now),
    {
        let mut kept: Vec<LockEntry> = Vec::new();
        let ghost mut source: Seq<int> = Seq::empty();
        let mut i: usize = 0;
        while i < self.entries.len()
            invariant
                self.entries == old(self).entries,
                i <= self.entries@.len(),
                source.len() == kept@.len(),
                forall|j: int|
                    0 <= j < source.len() ==> 0 <= (#[trigger] source[j]) < i && kept@[j]
                        == self.entries@[source[j]] && self.entries@[source[j]].lock.expires_at
                        > now,
                forall|j: int, k: int|
                    0 <= j < k < source.len() ==> (#[trigger] source[j]) < (#[trigger] source[k]),
                forall|k: int|
                    0 <= k < i && (#[trigger] self.entries@[k]).lock.expires_at > now
                        ==> exists|j: int| 0 <= j < source.len() && #[trigger] source[j] == k,
            decreases self.entries@.len() - i,
        {
            if self.entries[i].lock.expires_at > now {
                let entry = self.entries[i].clone();
                kept.push(entry);
                proof {
                    let ghost before = source;
                    source = source.push(i as int);
                    assert forall|k: int|
                        0 <= k < i + 1 && (#[trigger] self.entries@[k]).lock.expires_at
                            > now implies exists|j: int|
                        0 <= j < source.len() && #[trigger] source[j] == k by {
                        if k < i {
                            let j = choose|j: int| 0 <= j < before.len() && #[trigger] before[j] == k;
                            assert(source[j] == k);
                        } else {
                            assert(source[before.len() as int] == k);
                        }
                    }
                }
            }
            i += 1;
        }
        let ghost entries = self.entries@;
        self.entries = kept;
        proof {
            let kept_entries = self.entries@;
            assert(distinct_keys(kept_entries)) by {
                assert forall|j: int, k: int| 0 <= j < k < kept_entries.len() implies (
                #[trigger] kept_entries[j]).filename@ != (#[trigger] kept_entries[k]).filename@ by {
                    assert(source[j] < source[k]);
                    assert(entries[source[j]].filename@ != entries[source[k]].filename@);
                }
            }
            let wanted = purge_expired(entries_map(entries), now);
            assert forall|key: Seq<char>| #[trigger]
                entries_map(kept_entries).dom().contains(key) implies wanted.dom().contains(key)
                && wanted[key] == entries_map(kept_entries)[key] by {
                lemma_key_in_map(kept_entries, key);
                let j = key_index(kept_entries, key);
                assert(kept_entries[j] == entries[source[j]]);
                lemma_entry_in_map(entries, source[j]);
            }
            assert forall|key: Seq<char>| #[trigger]
                wanted.dom().contains(key) implies entries_map(kept_entries).dom().contains(
                key,
            ) by {
                lemma_key_in_map(entries, key);
                let k = key_index(entries, key);
                assert(entries[k].lock.expires_at > now);
                let j = choose|j: int| 0 <= j < source.len() && #[trigger] source[j] == k;
                assert(kept_entries[j] == entries[k]);
                lemma_entry_in_map(kept_entries, j);
            }
            assert(entries_map(kept_entries) =~= wanted);
        }
    }

    /// Sets the lock on `key`, in place of the one at `found` if there is one.
    fn put(&mut self, found: Option<usize>, key: String, lock: ImageLock)
        requires
            old(self).wf(),
            match found {
                Some(i) => i < old(self).entries@.len() && old(self).entries@[i as int].filename@
                    == key@,
                None => !old(self)@.dom().contains(key@),
            },
        ensures
            final(self).wf(),
            final(self)@ == old(self)@.insert(key@, lock@),
    {
        let ghost before = self.entries@;
        let entry = LockEntry { filename: key, lock };
        match found {
            Some(i) => {
                self.entries.set(i, entry);
            },
            None => {
                self.entries.push(entry);
            },
        }
        proof {
            let after = self.entries@;
            let at: int = match found {
                Some(i) => i as int,
                None => before.len() as int,
            };
            assert(after[at] == entry);
            assert forall|k: int| 0 <= k < after.len() && k != at implies #[trigger] after[k]
                == before[k] && before[k].filename@ != key@ by {
                if found is None {
                    assert(!has_key(before, key@));
                } else if k < at {
                    assert(before[k].filename@ != before[at].filename@);
                } else {
                    assert(before[at].filename@ != before[k].filename@);
                }
            }
            assert(distinct_keys(after)) by {
                assert forall|j: int, k: int| 0 <= j < k < after.len() implies (
                #[trigger] after[j]).filename@ != (#[trigger] after[k]).filename@ by {
                    if j != at && k != at {
                        assert(after[j] == before[j]);
                        assert(after[k] == before[k]);
                    } else if j == at {
                        assert(after[k] == before[k]);
                    } else {
                        assert(after[j] == before[j]);
                    }
                }
            }
            let wanted = entries_map(before).insert(key@, lock@);
            assert forall|name: Seq<char>| #[trigger]
                entries_map(after).dom().contains(name) implies wanted.dom().contains(name)
                && wanted[name] == entries_map(after)[name] by {
                lemma_key_in_map(after, name);
                let k = key_index(after, name);
                if k != at {
                    assert(after[k] == before[k]);
                    lemma_entry_in_map(before, k);
                }
            }
            assert forall|name: Seq<char>| #[trigger]
                wanted.dom().contains(name) implies entries_map(after).dom().contains(name) by {
                if name == key@ {
                    lemma_entry_in_map(after, at);
                } else {
                    lemma_key_in_map(before, name);
                    let k = key_index(before, name);
                    assert(after[k] == before[k]);
                    lemma_entry_in_map(after, k);
                }
            }
            assert(entries_map(after) =~= wanted);
        }
    }

    /// Takes out the lock at index `i`.
    fn take_out(&mut self, i: usize)
        requires
            old(self).wf(),
            i < old(self).entries@.len(),
        ensures
            final(self).wf(),
            final(self)@ == old(self)@.remove(old(self).entries@[i as int].filename@),
    {
        let ghost before = self.entries@;
        let gone = self.entries.remove(i);
        proof {
            let after = self.entries@;
            let key = before[i as int].filename@;
            assert forall|k: int| 0 <= k < after.len() implies #[trigger] after[k] == before[if k
                < i {
                k
            } else {
                k + 1
            }] && after[k].filename@ != key by {
                if k < i {
                    assert(before[k].filename@ != before[i as int].filename@);
                } else {
                    assert(before[i as int].filename@ != before[k + 1].filename@);
                }
            }
            assert(distinct_keys(after)) by {
                assert forall|j: int, k: int| 0 <= j < k < after.len() implies (
                #[trigger] after[j]).filename@ != (#[trigger] after[k]).filename@ by {
                    let bj = if j < i { j } else { j + 1 };
                    let bk = if k < i { k } else { k + 1 };
                    assert(after[j] == before[bj]);
                    assert(after[k] == before[bk]);
                    assert(before[bj].filename@ != before[bk].filename@);
                }
            }
            let wanted = entries_map(before).remove(key);
            assert forall|name: Seq<char>| #[trigger]
                entries_map(after).dom().contains(name) implies wanted.dom().contains(name)
                && wanted[name] == entries_map(after)[name] by {
                lemma_key_in_map(after, name);
                let k = key_index(after, name);
                let bk = if k < i { k } else { k + 1 };
                assert(after[k] == before[bk]);
                lemma_entry_in_map(before, bk);
            }
            assert forall|name: Seq<char>| #[trigger]
                wanted.dom().contains(name) implies entries_map(after).dom().contains(name) by {
                lemma_key_in_map(before, name);
                let bk = key_index(before, name);
                let k = if bk < i { bk } else { bk - 1 };
                assert(after[k] == before[bk]);
                lemma_entry_in_map(after, k);
            }
            assert(entries_map(after) =~= wanted);
        }
    }
}

proof fn lemma_dom_len(entries: Seq<LockEntry>)
    requires
        distinct_keys(entries),
    ensures
        entries_map(entries).dom().finite(),
        entries_map(entries).dom().len() == entries.len(),
    decreases entries.len(),
{
    if entries.len() == 0 {
        assert forall|key: Seq<char>| !has_key(entries, key) by {}
        assert(entries_map(entries).dom() =~= Set::<Seq<char>>::empty());
    } else {
        let front = entries.drop_last();
        let last = entries.last();
        assert forall|i: int, j: int| 0 <= i < j < front.len() implies (
        #[trigger] front[i]).filename@ != (#[trigger] front[j]).filename@ by {
            assert(front[i] == entries[i]);
            assert(front[j] == entries[j]);
        }
        lemma_dom_len(front);
        assert(!has_key(front, last.filename@)) by {
            if has_key(front, last.filename@) {
                let i = key_index(front, last.filename@);
                assert(front[i] == entries[i]);
                assert(entries[i].filename@ != entries[entries.len() - 1].filename@);
            }
        }
        assert(entries_map(entries).dom() =~= entries_map(front).dom().insert(last.filename@)) by {
            assert forall|key: Seq<char>| has_key(entries, key) <==> (has_key(front, key) || key
                == last.filename@) by {
                if has_key(entries, key) {
                    let i = key_index(entries, key);
                    if i < front.len() {
                        assert(front[i] == entries[i]);
                    }
                }
                if has_key(front, key) {
                    let i = key_index(front, key);
                    assert(front[i] == entries[i]);
                }
                if key == last.filename@ {
                    assert(entries[entries.len() - 1].filename@ == key);
                }
            }
        }
    }
}

/// The lock duration for a configured text: the number it stands for, if
/// it stands for one that fits 64 bits, else the default.
pub open spec fn configured_duration_secs(configured: Option<Seq<char>>) -> u64 {
    match configured {
        Some(text) => match unsigned_decimal(text) {
            Some(value) => if value <= u64::MAX {
                value as u64
            } else {
                LOCK_DURATION_SECS
            },
            None => LOCK_DURATION_SECS,
        },
        None => LOCK_DURATION_SECS,
    }
}

/// Lock duration before automatic expiry, for the value that the
/// environment configures, if any: that value where it is a number, else
/// the default.
pub fn get_lock_duration_secs(configured: Option<&str>) -> (secs: u64)
    ensures
        secs == configured_duration_secs(text_view(configured)),
{
    match configured {
        Some(text) => match parse_u64(text) {
            Some(value) => value,
            None => LOCK_DURATION_SECS,
        },
        None => LOCK_DURATION_SECS,
    }
}

/// Attempts to acquire or refresh the lock on `filename` for `session_id` at
/// `now`. Expired locks are purged first. Returns true when the lock is
/// granted: to its owner, who thereby extends it, or to anyone when the
/// image has no live lock and the request is not a keepalive.
pub fn try_acquire_lock(
    locks: &mut ImageLocks,
    filename: &str,
    session_id: &str,
    refresh_only: bool,
    now: u64,
    duration_secs: u64,
) -> (granted: bool)
    requires
        old(locks).wf(),
        lock_expiry(now, duration_secs) <= u64::MAX,
    ensures
        final(locks).wf(),
        granted == acquire_granted(old(locks)@, filename@, session_id@, refresh_only, now),
        final(locks)@ == after_acquire(
            old(locks)@,
            filename@,
            session_id@,
            refresh_only,
            now,
            duration_secs,
        ),
{
    locks.purge(now);
    let key = String::from_str(filename);
    let owner = String::from_str(session_id);
    let found = locks.position_of(&key);
    let granted = match found {
        Some(i) => locks.entries[i].lock.session_id == owner,
        None => !refresh_only,
    };
    if granted {
        assert(duration_secs * 1000 <= u64::MAX) by (nonlinear_arith)
            requires
                now + duration_secs * 1000 <= u64::MAX,
                now >= 0,
        ;
        let expires_at = now + duration_secs * 1000;
        locks.put(found, key, ImageLock { session_id: owner, expires_at });
    }
    granted
}

/// Releases the lock on `filename`. Only the session that owns the lock can
/// release it; releasing an image that has no lock succeeds.
pub fn release_lock(locks: &mut ImageLocks, filename: &str, session_id: &str) -> (released: bool)
    requires
        old(locks).wf(),
    ensures
        final(locks).wf(),
        released == release_allowed(old(locks)@, filename@, session_id@),
        final(locks)@ == after_release(old(locks)@, filename@, session_id@),
{
    let key = String::from_str(filename);
    let owner = String::from_str(session_id);
    match locks.position_of(&key) {
        Some(i) => {
            if locks.entries[i].lock.session_id == owner {
                locks.take_out(i);
                true
            } else {
                false
            }
        },
        None => true,
    }
}

/// Checks whether `session_id` holds a live lock on `filename` at `now`.
/// Expired locks are purged first.
pub fn verify_lock_ownership(
    locks: &mut ImageLocks,
    filename: &str,
    session_id: &str,
    now: u64,
) -> (owned: bool)
    requires
        old(locks).wf(),
    ensures
        final(locks).wf(),
        owned == owns_lock(old(locks)@, filename@, session_id@, now),
        final(locks)@ == purge_expired(old(locks)@, now),
{
    locks.purge(now);
    let key = String::from_str(filename);
    let owner = String::from_str(session_id);
    match locks.position_of(&key) {
        Some(i) => locks.entries[i].lock.session_id == owner,
        None => false,
    }
}

/// Gets the remaining lock time in whole seconds for an image, 0 for a lock
/// that has expired and was not purged yet.
pub fn get_lock_remaining_secs(locks: &ImageLocks, filename: &str, now: u64) -> (remaining: Option<
    u64,
>)
    requires
        locks.wf(),
    ensures
        remaining == remaining_secs(locks@, filename@, now),
{
    let key = String::from_str(filename);
    match locks.position_of(&key) {
        Some(i) => {
            let expires_at = locks.entries[i].lock.expires_at;
            if expires_at > now {
                Some((expires_at - now) / 1000)
            } else {
                Some(0)
            }
        },
        None => None,
    }
}

/// Gets a copy of the lock on an image, if there is one.
pub fn get_lock(locks: &ImageLocks, filename: &str) -> (lock: Option<ImageLock>)
    requires
        locks.wf(),
    ensures
        match lock {
            Some(held) => locks@.dom().contains(filename@) && held@ == locks@[filename@],
            None => !locks@.dom().contains(filename@),
        },
{
    let key = String::from_str(filename);
    match locks.position_of(&key) {
        Some(i) => Some(locks.entries[i].lock.clone()),
        None => None,
    }
}

} // verus!
