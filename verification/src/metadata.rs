//! The metadata coordinator: mutual exclusion over lock keys.
//!
//! A lock key is the inode number of the directory under which a mutation
//! takes place. A coordinator is anything that can lock, unlock and tell
//! whether a key is locked. The local coordinator is a table of held keys.
//! It never waits by itself: `poll_lock` is one look at the table, and says
//! whether the caller holds the key now, should look again after a pause, or
//! has run out of time. The lock service holds the same kind of table, keyed
//! by the text of the key, and answers each request with a flag and a
//! message.

use crate::error::LockError;
use std::collections::HashSet;
use vstd::prelude::*;
use vstd::string::StringExecFns;

verus! {

broadcast use vstd::std_specs::hash::group_hash_axioms;

/// The pause between two looks at the table while waiting for a key.
pub const POLL_INTERVAL_MS: u64 = 10;

/// How long a mutation waits for its lock.
pub const LOCK_TIMEOUT_MS: u64 = 2000;

/// How long the connection to the lock service may take before the local
/// coordinator is used instead.
pub const CONNECT_TIMEOUT_MS: u64 = 1000;

/// What a lock protects: the inode number of a directory.
#[derive(Debug, Clone, Copy, PartialEq, Eq, Hash)]
pub struct LockKey(pub u64);

/// The kind of access a lock is asked for.
#[derive(Debug, Clone, Copy, PartialEq, Eq, Structural)]
pub enum LockType {
    Read,
    Write,
}

/// One call of a coordinator, with what was asked and how the call ended.
pub enum Asked {
    /// `lock` with this key, kind of access and timeout in milliseconds.
    Lock(LockKey, LockType, u64, Result<(), LockError>),
    /// `unlock` with this key.
    Unlock(LockKey, Result<(), LockError>),
}

/// Mutual exclusion over lock keys.
///
/// Whether a call succeeds is for the implementation to decide. What is
/// stated of every coordinator is that each call of `lock` and `unlock` is
/// recorded, so that a caller's contract can say what it asked the
/// coordinator and what it did with each answer. A coordinator that is
/// exclusive, that is in the hands of a single owner who alone locks and
/// unlocks, answers as its set of locked keys demands: a free key is
/// granted, a locked key times out, and only a locked key can be released.
///
/// The spec functions have bodies only so that code outside the verifier
/// can implement the trait without them; every verified implementation
/// states its own.
pub trait MetadataCoordinator {
    /// The calls of `lock` and `unlock` so far, oldest first.
    open spec fn asked(&self) -> Seq<Asked> {
        arbitrary()
    }

    /// The keys that are locked, as far as the coordinator knows.
    open spec fn keys(&self) -> Set<u64> {
        arbitrary()
    }

    /// Whether nobody but the owner of the coordinator locks and unlocks.
    open spec fn exclusive(&self) -> bool {
        false
    }

    /// Obtains the lock on `key`, waiting for at most `timeout_ms`
    /// milliseconds.
    fn lock(&mut self, key: LockKey, lock_type: LockType, timeout_ms: u64) -> (r: Result<
        (),
        LockError,
    >)
        ensures
            final(self).asked() == old(self).asked().push(
                Asked::Lock(key, lock_type, timeout_ms, r),
            ),
            final(self).exclusive() == old(self).exclusive(),
            old(self).exclusive() ==> (final(self).keys(), r) == lock_model(
                old(self).keys(),
                key.0,
            ),
    ;

    /// Releases the lock on `key`.
    fn unlock(&mut self, key: LockKey) -> (r: Result<(), LockError>)
        ensures
            final(self).asked() == old(self).asked().push(Asked::Unlock(key, r)),
            final(self).exclusive() == old(self).exclusive(),
            old(self).exclusive() ==> (final(self).keys(), r) == unlock_model(
                old(self).keys(),
                key.0,
            ),
    ;

    /// Whether `key` is locked.
    fn is_locked(&self, key: &LockKey) -> (r: bool)
        ensures
            self.exclusive() ==> r == self.keys().contains(key.0),
    ;
}

/// What one look at the table of held keys gave.
#[derive(Debug, Clone, Copy, PartialEq, Eq, Structural)]
pub enum LockPoll {
    /// The key was free and is now held by the caller.
    Acquired,
    /// The key is held by another and the deadline has not passed: pause,
    /// then look again.
    Wait,
    /// The key is held by another and the deadline has passed.
    TimedOut,
}

/// What one look at the table does: a free key is taken; a held key is left
/// alone, and the caller waits or gives up according to the deadline.
pub open spec fn poll_model(held: Set<u64>, key: u64, deadline_passed: bool) -> (
    Set<u64>,
    LockPoll,
) {
    if !held.contains(key) {
        (held.insert(key), LockPoll::Acquired)
    } else if deadline_passed {
        (held, LockPoll::TimedOut)
    } else {
        (held, LockPoll::Wait)
    }
}

/// What unlocking does: a held key is released; a key that is not held is
/// an error.
pub open spec fn unlock_model(held: Set<u64>, key: u64) -> (Set<u64>, Result<(), LockError>) {
    if held.contains(key) {
        (held.remove(key), Ok(()))
    } else {
        (held, Err(LockError::NotHeld))
    }
}

/// The coordinator for one process: a table of held keys.
pub struct LocalMetadataCoordinator {
    locks: HashSet<u64>,
    asked: Ghost<Seq<Asked>>,
}

impl LocalMetadataCoordinator {
    /// The keys that are held.
    pub closed spec fn held(&self) -> Set<u64> {
        self.locks@
    }

    /// A coordinator with no key held, of which nothing has been asked.
    pub fn new() -> (c: LocalMetadataCoordinator)
        ensures
            c.held() == Set::<u64>::empty(),
            c.asked() == Seq::<Asked>::empty(),
    {
        LocalMetadataCoordinator { locks: HashSet::new(), asked: Ghost(Seq::empty()) }
    }

    /// One look at the table on behalf of a caller that wants `key`.
    /// `deadline_passed` says whether the caller's time has run out.
    pub fn poll_lock(&mut self, key: &LockKey, deadline_passed: bool) -> (r: LockPoll)
        ensures
            (final(self).held(), r) == poll_model(old(self).held(), key.0, deadline_passed),
            final(self).asked() == old(self).asked(),
    {
        if !self.locks.contains(&key.0) {
            self.locks.insert(key.0);
            LockPoll::Acquired
        } else if deadline_passed {
            LockPoll::TimedOut
        } else {
            LockPoll::Wait
        }
    }

    /// Releases `key`. Fails if the key was not held.
    pub fn unlock(&mut self, key: LockKey) -> (r: Result<(), LockError>)
        ensures
            (final(self).held(), r) == unlock_model(old(self).held(), key.0),
            final(self).asked() == old(self).asked(),
    {
        if self.locks.remove(&key.0) {
            Ok(())
        } else {
            assert(self.held() =~= old(self).held());
            Err(LockError::NotHeld)
        }
    }

    /// Whether `key` is held.
    pub fn is_locked(&self, key: &LockKey) -> (r: bool)
        ensures
            r == self.held().contains(key.0),
    {
        self.locks.contains(&key.0)
    }
}

/// What `lock` does in the hands of a single owner: a free key is taken, a
/// held key times out.
pub open spec fn lock_model(held: Set<u64>, key: u64) -> (Set<u64>, Result<(), LockError>) {
    if held.contains(key) {
        (held, Err(LockError::Timeout))
    } else {
        (held.insert(key), Ok(()))
    }
}

/// The local coordinator in the hands of a single owner. While the owner
/// waits nobody else can reach the table to release a key, so waiting could
/// not change the answer: a held key times out at once.
impl MetadataCoordinator for LocalMetadataCoordinator {
    closed spec fn asked(&self) -> Seq<Asked> {
        self.asked@
    }

    open spec fn keys(&self) -> Set<u64> {
        self.held()
    }

    open spec fn exclusive(&self) -> bool {
        true
    }

    fn lock(&mut self, key: LockKey, lock_type: LockType, timeout_ms: u64) -> (r: Result<
        (),
        LockError,
    >) {
        let r = match self.poll_lock(&key, true) {
            LockPoll::Acquired => Ok(()),
            _ => Err(LockError::Timeout),
        };
        proof {
            self.asked@ = self.asked@.push(Asked::Lock(key, lock_type, timeout_ms, r));
        }
        r
    }

    fn unlock(&mut self, key: LockKey) -> (r: Result<(), LockError>) {
        let r = match LocalMetadataCoordinator::unlock(self, key) {
            Ok(()) => Ok(()),
            Err(e) => Err(e),
        };
        proof {
            self.asked@ = self.asked@.push(Asked::Unlock(key, r));
        }
        r
    }

    fn is_locked(&self, key: &LockKey) -> (r: bool) {
        LocalMetadataCoordinator::is_locked(self, key)
    }
}

/// After a caller has taken a key, a second caller that asks for the same
/// key waits for as long as its deadline has not passed, and times out once
/// it has; neither changes the table.
pub proof fn lemma_held_key_blocks(held: Set<u64>, key: u64)
    ensures
        poll_model(poll_model(held, key, false).0, key, false) == (
            held.insert(key),
            LockPoll::Wait,
        ),
        poll_model(poll_model(held, key, false).0, key, true) == (
            held.insert(key),
            LockPoll::TimedOut,
        ),
{
    assert(held.contains(key) ==> held.insert(key) =~= held);
}

/// Once the holder has released the key, the next look by a waiting caller
/// takes it, whether or not its deadline has passed in the meantime.
pub proof fn lemma_released_key_is_taken(held: Set<u64>, key: u64, deadline_passed: bool)
    requires
        held.contains(key),
    ensures
        unlock_model(held, key).1 is Ok,
        poll_model(unlock_model(held, key).0, key, deadline_passed).1 == LockPoll::Acquired,
{
}

/// Unlocking a key that nobody has locked fails and changes nothing.
/// Unlocking a key that was locked succeeds once: a second unlock fails.
pub proof fn lemma_unlock_needs_lock(held: Set<u64>, key: u64)
    ensures
        !held.contains(key) ==> unlock_model(held, key) == (
            held,
            Err::<(), LockError>(LockError::NotHeld),
        ),
        held.contains(key) ==> unlock_model(unlock_model(held, key).0, key).1 == Err::<
            (),
            LockError,
        >(LockError::NotHeld),
{
}

/// A look at the table for one key leaves every other key as it was.
pub proof fn lemma_poll_keeps_other_keys(
    held: Set<u64>,
    key: u64,
    other: u64,
    deadline_passed: bool,
)
    requires
        other != key,
    ensures
        poll_model(held, key, deadline_passed).0.contains(other) == held.contains(other),
        unlock_model(held, key).0.contains(other) == held.contains(other),
{
}

/// The answer of the lock service to one request.
#[derive(Debug)]
pub struct LockResponse {
    pub success: bool,
    pub message: String,
}

/// How the keys that the lock service holds appear: each by its text.
pub open spec fn keys_view(keys: Seq<String>) -> Seq<Seq<char>> {
    Seq::new(keys.len(), |i: int| keys[i]@)
}

/// The text `before`, the key between single quotes, `after`.
pub open spec fn quoted(before: Seq<char>, key: Seq<char>, after: Seq<char>) -> Seq<char> {
    before + key + after
}

/// The lock service: a table of held keys, each locked for every kind of
/// access and without a time limit.
pub struct MetadataService {
    locked_keys: Vec<String>,
}

impl MetadataService {
    /// The keys that are held.
    pub closed spec fn held(&self) -> Set<Seq<char>> {
        keys_view(self.locked_keys@).to_set()
    }

    /// What holds of every service that this library hands out: no key is
    /// in its table twice.
    pub closed spec fn wf(&self) -> bool {
        keys_view(self.locked_keys@).no_duplicates()
    }

    /// A service that holds no key.
    pub fn new() -> (s: MetadataService)
        ensures
            s.wf(),
            s.held() == Set::<Seq<char>>::empty(),
    {
        let s = MetadataService { locked_keys: Vec::new() };
        assert(s.held() =~= Set::<Seq<char>>::empty());
        s
    }

    /// Position of `key` in the table, if it is held.
    fn position(&self, key: &String) -> (r: Option<usize>)
        ensures
            match r {
                Some(i) => i < self.locked_keys@.len() && keys_view(self.locked_keys@)[i as int]
                    == key@,
                None => !self.held().contains(key@),
            },
    {
        let mut i: usize = 0;
        while i < self.locked_keys.len()
            invariant
                i <= self.locked_keys@.len(),
                forall|j: int| 0 <= j < i ==> keys_view(self.locked_keys@)[j] != key@,
            decreases self.locked_keys@.len() - i,
        {
            if self.locked_keys[i] == *key {
                assert(keys_view(self.locked_keys@)[i as int] == key@);
                return Some(i);
            }
            i = i + 1;
        }
        None
    }

    /// Grants the lock on `key` unless it is held.
    pub fn acquire_lock(&mut self, key: &str) -> (r: LockResponse)
        requires
            old(self).wf(),
        ensures
            final(self).wf(),
            r.success == !old(self).held().contains(key@),
            final(self).held() == old(self).held().insert(key@),
            r.message@ == if r.success {
                quoted("Lock acquired for '"@, key@, "'"@)
            } else {
                quoted("Key '"@, key@, "' is already locked"@)
            },
    {
        let owned = key.to_owned();
        match self.position(&owned) {
            Some(i) => {
                assert(keys_view(self.locked_keys@).contains(key@));
                assert(self.held().insert(key@) =~= self.held());
                let mut message = "Key '".to_owned();
                message.append(key);
                message.append("' is already locked");
                LockResponse { success: false, message }
            },
            None => {
                let ghost before = keys_view(self.locked_keys@);
                self.locked_keys.push(owned);
                proof {
                    let after = keys_view(self.locked_keys@);
                    assert(after =~= before.push(key@));
                    assert forall|k: Seq<char>| after.to_set().contains(k) <==> before.to_set().insert(
                        key@,
                    ).contains(k) by {
                        if after.contains(k) {
                            let j = choose|j: int| 0 <= j < after.len() && after[j] == k;
                            if j < before.len() {
                                assert(before[j] == k);
                            }
                        }
                        if before.contains(k) {
                            let j = choose|j: int| 0 <= j < before.len() && before[j] == k;
                            assert(after[j] == k);
                        }
                        if k == key@ {
                            assert(after[before.len() as int] == k);
                        }
                    }
                    assert(self.held() =~= old(self).held().insert(key@));
                }
                let mut message = "Lock acquired for '".to_owned();
                message.append(key);
                message.append("'");
                LockResponse { success: true, message }
            },
        }
    }

    /// Releases the lock on `key` if it is held.
    pub fn release_lock(&mut self, key: &str) -> (r: LockResponse)
        requires
            old(self).wf(),
        ensures
            final(self).wf(),
            r.success == old(self).held().contains(key@),
            final(self).held() == old(self).held().remove(key@),
            r.message@ == if r.success {
                quoted("Lock released for '"@, key@, "'"@)
            } else {
                quoted("No lock held for '"@, key@, "'"@)
            },
    {
        let owned = key.to_owned();
        match self.position(&owned) {
            Some(i) => {
                let ghost before = keys_view(self.locked_keys@);
                assert(before.contains(key@));
                self.locked_keys.remove(i);
                proof {
                    let after = keys_view(self.locked_keys@);
                    assert(after =~= before.remove(i as int));
                    assert forall|k: Seq<char>| after.to_set().contains(k) <==> before.to_set().remove(
                        key@,
                    ).contains(k) by {
                        if after.contains(k) {
                            let j = choose|j: int| 0 <= j < after.len() && after[j] == k;
                            if j < i {
                                assert(before[j] == k);
                            } else {
                                assert(before[j + 1] == k);
                            }
                        }
                        if before.contains(k) && k != key@ {
                            let j = choose|j: int| 0 <= j < before.len() && before[j] == k;
                            if j < i {
                                assert(after[j] == k);
                            } else {
                                assert(after[j - 1] == k);
                            }
                        }
                    }
                    assert(self.held() =~= old(self).held().remove(key@));
                }
                let mut message = "Lock released for '".to_owned();
                message.append(key);
                message.append("'");
                LockResponse { success: true, message }
            },
            None => {
                assert(self.held().remove(key@) =~= self.held());
                let mut message = "No lock held for '".to_owned();
                message.append(key);
                message.append("'");
                LockResponse { success: false, message }
            },
        }
    }
}

/// What the answer of the lock service means to the caller of `lock` or
/// `unlock`: the lock is granted or released only if the request got
/// through and the service said so.
pub open spec fn response_outcome(answered: Option<bool>) -> Result<(), LockError> {
    match answered {
        None => Err(LockError::Transport),
        Some(false) => Err(LockError::Refused),
        Some(true) => Ok(()),
    }
}

/// Turns the answer to a request into the result of `lock` or `unlock`.
/// `answered` is `None` where the request failed, and otherwise the flag of
/// the answer.
pub fn interpret_response(answered: Option<bool>) -> (r: Result<(), LockError>)
    ensures
        r == response_outcome(answered),
{
    match answered {
        None => Err(LockError::Transport),
        Some(false) => Err(LockError::Refused),
        Some(true) => Ok(()),
    }
}

/// How the attempt to reach the lock service ended.
#[derive(Debug, Clone, Copy, PartialEq, Eq, Structural)]
pub enum ConnectOutcome {
    Connected,
    Failed,
    TimedOut,
}

/// The coordinator that a mount uses.
#[derive(Debug, Clone, Copy, PartialEq, Eq, Structural)]
pub enum CoordinatorChoice {
    /// The lock service: exclusion holds across all hosts that use it.
    Remote,
    /// The local coordinator: exclusion holds within this process only.
    Local,
}

/// Chooses the coordinator once the attempt to reach the lock service has
/// ended: the service if it was reached, the local coordinator otherwise.
pub fn select_coordinator(outcome: ConnectOutcome) -> (choice: CoordinatorChoice)
    ensures
        choice == (if outcome == ConnectOutcome::Connected {
            CoordinatorChoice::Remote
        } else {
            CoordinatorChoice::Local
        }),
{
    match outcome {
        ConnectOutcome::Connected => CoordinatorChoice::Remote,
        ConnectOutcome::Failed => CoordinatorChoice::Local,
        ConnectOutcome::TimedOut => CoordinatorChoice::Local,
    }
}

} // verus!
