//! Cycle locks: a timed throttle on one class of action.
use vstd::prelude::*;

verus! {

/// How long an attack locks its attacker, in milliseconds.
pub const ATTACK_LOCK_MS: u64 = 2000;

/// How long a failed flee locks the one who tried, in milliseconds.
pub const FLEE_LOCK_MS: u64 = 1000;

/// A lock that holds until `expires_at` (exclusive), with the action that set it.
pub struct CycleLock {
    pub expires_at: u64,
    pub action_name: String,
}

/// `now + duration`, capped at the largest time.
pub open spec fn expiry_after(now: u64, duration: u64) -> u64 {
    if now + duration > u64::MAX {
        u64::MAX
    } else {
        (now + duration) as u64
    }
}

impl CycleLock {
    /// The lock is in force at `now`.
    pub open spec fn locked_at(&self, now: u64) -> bool {
        now < self.expires_at
    }

    /// A lock set at `now` that lasts `duration` milliseconds.
    pub fn new(duration: u64, action_name: &str, now: u64) -> (r: CycleLock)
        ensures
            r.expires_at == expiry_after(now, duration),
            r.action_name@ == action_name@,
    {
        CycleLock { expires_at: now.saturating_add(duration), action_name: action_name.to_string() }
    }

    /// Whether the lock is in force at `now`.
    pub fn is_locked(&self, now: u64) -> (r: bool)
        ensures
            r == self.locked_at(now),
    {
        now < self.expires_at
    }

    /// Milliseconds until the lock lapses; zero once it has.
    pub fn remaining(&self, now: u64) -> (r: u64)
        ensures
            self.locked_at(now) ==> r == self.expires_at - now,
            !self.locked_at(now) ==> r == 0,
    {
        if now < self.expires_at {
            self.expires_at - now
        } else {
            0
        }
    }
}

/// Once set, a lock is in force at every time before its expiry and at none
/// from its expiry on: a lapsed lock never comes back on its own.
pub proof fn lemma_lock_monotone(lock: CycleLock, t1: u64, t2: u64)
    requires
        t1 <= t2,
    ensures
        lock.locked_at(t2) ==> lock.locked_at(t1),
        !lock.locked_at(t1) ==> !lock.locked_at(t2),
        lock.locked_at(t1) <==> t1 < lock.expires_at,
{
}

/// A lock set at `now` for a positive duration is in force at `now`.
pub proof fn lemma_fresh_lock_holds(now: u64, duration: u64, lock: CycleLock)
    requires
        0 < duration,
        now < u64::MAX,
        lock.expires_at == expiry_after(now, duration),
    ensures
        lock.locked_at(now),
{
}

} // verus!
