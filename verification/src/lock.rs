//! The guard against re-entering the library on one thread.
//!
//! All shared state of the symbolizer sits behind one process-wide lock,
//! taken at the outermost public call. The lock is not re-entrant: a
//! thread that already holds it is told so at once instead of being made
//! to wait for itself. What is kept here is the per-thread record of
//! holding the lock; the lock itself belongs to the caller.
use vstd::prelude::*;

verus! {

/// One thread's record of whether it holds the lock.
#[derive(Debug)]
pub struct LockHeld {
    held: bool,
}

/// Proof of having taken the lock; handed back to release it.
#[derive(Debug)]
pub struct LockGuard {
    token: (),
}

impl LockHeld {
    /// The record of a thread that does not hold the lock.
    pub fn new() -> (r: LockHeld)
        ensures
            !r.is_held(),
    {
        LockHeld { held: false }
    }

    pub closed spec fn held_spec(&self) -> bool {
        self.held
    }

    /// Whether the thread holds the lock.
    #[verifier::when_used_as_spec(held_spec)]
    pub fn is_held(&self) -> (r: bool)
        ensures
            r == self.held_spec(),
    {
        self.held
    }
}

/// Records that the thread takes the lock. A thread that holds the lock
/// already gets `None` and must go without; any other thread gets the
/// guard and may then wait for the process-wide lock.
pub fn lock(thread: &mut LockHeld) -> (r: Option<LockGuard>)
    ensures
        final(thread).is_held(),
        r is Some <==> !old(thread).is_held(),
{
    if thread.held {
        return None;
    }
    thread.held = true;
    Some(LockGuard { token: () })
}

impl LockGuard {
    /// Records that the thread gives the lock up.
    pub fn release(self, thread: &mut LockHeld)
        requires
            old(thread).is_held(),
        ensures
            !final(thread).is_held(),
    {
        thread.held = false;
    }
}

} // verus!
