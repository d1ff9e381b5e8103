use vstd::prelude::*;

verus! {

/// Mutual-exclusion flag with a non-blocking acquisition attempt.
///
/// Guarded sections are expected to be tiny and bounded; acquisition never
/// parks a task. The lock is neither fair nor re-entrant: under contention a
/// caller may retry indefinitely. That is a documented property of the
/// design, not an accident.
#[derive(Debug)]
pub struct VLock {
    pub is_locked: bool,
}

/// Witness that the lock was acquired. It is handed back through
/// [`VLock::unlock`] to release the lock; nothing else creates one.
pub struct VLockGuard {
    _token: (),
}

/// How many of `n` successive acquisition attempts succeed when the flag
/// starts at `locked` and no guard is released in between: an attempt
/// succeeds exactly when the flag is clear, and every attempt leaves the
/// flag set.
pub open spec fn acquired_count(n: nat, locked: bool) -> nat
    decreases n,
{
    if n == 0 {
        0
    } else {
        (if !locked {
            1nat
        } else {
            0nat
        }) + acquired_count((n - 1) as nat, true)
    }
}

/// However many attempts contend for a free lock, exactly one of them
/// obtains a guard until that guard is given back.
pub proof fn lemma_exactly_one_acquisition(n: nat)
    requires
        n >= 1,
    ensures
        acquired_count(n, false) == 1,
{
    lemma_held_lock_admits_none((n - 1) as nat);
}

/// No attempt on a held lock succeeds.
pub proof fn lemma_held_lock_admits_none(n: nat)
    ensures
        acquired_count(n, true) == 0,
    decreases n,
{
    if n > 0 {
        lemma_held_lock_admits_none((n - 1) as nat);
    }
}

impl VLock {
    pub fn new() -> (r: Self)
        ensures
            !r.is_locked,
    {
        Self { is_locked: false }
    }

    /// One acquisition attempt: a guard comes back exactly when the lock was
    /// free, and the flag is set afterwards in every case.
    pub fn try_lock(&mut self) -> (r: Option<VLockGuard>)
        ensures
            r is Some <==> !old(self).is_locked,
            final(self).is_locked,
    {
        if self.is_locked {
            None
        } else {
            self.is_locked = true;
            Some(VLockGuard { _token: () })
        }
    }

    /// Acquisition by retry. The retry loop only ever observes the lock held
    /// by another owner; a caller that already holds the lock would spin
    /// forever, so a free flag is demanded here and acquisition completes at
    /// once.
    pub fn lock(&mut self) -> (r: VLockGuard)
        requires
            !old(self).is_locked,
        ensures
            final(self).is_locked,
    {
        let attempt = self.try_lock();
        match attempt {
            Some(guard) => guard,
            None => vstd::pervasive::unreached(),
        }
    }

    /// Release: consumes the guard, clearing the flag so that the next
    /// attempt succeeds.
    pub fn unlock(&mut self, guard: VLockGuard)
        requires
            old(self).is_locked,
        ensures
            !final(self).is_locked,
    {
        let VLockGuard { _token: () } = guard;
        self.is_locked = false;
    }
}

} // verus!
