//! Locks for tasks that must not block: a mutex and a reader-writer lock whose
//! guarded value lives in a task of its own.

pub mod sync;

use vstd::prelude::*;

verus! {

/// Something that runs a task in the background.
pub trait Spawn<F> {
    /// Takes the task over; nothing of it comes back to the caller.
    fn spawn_detached(&self, f: F);
}

/// `task` has been handed to `spawn`.
pub open spec fn spawned<S: Spawn<F>, F>(spawn: &S, task: F) -> bool {
    call_ensures(S::spawn_detached, (spawn, task), ())
}

} // verus!
