//! Whether polls may be made.

use crate::sync::exchange::law_may_poll;
use crate::sync::mutex::{Mutex, MutexCompletion, MutexGuard, MutexLock, MutexTask};
use crate::sync::primitives::in_task;
use crate::sync::rwlock::{
    RwLock, RwLockAcquire, RwLockCompletion, RwLockReadGuard, RwLockTask, RwLockWriteGuard,
};
use crate::Spawn;
use vstd::prelude::*;

verus! {

/// Whether a task is being polled. If so, all that a new lock consists of may be
/// polled: its task, its completion, and attempts to lock it that are made with
/// its handle or with a copy.
pub fn within_task<
    T: Send,
    G: From<MutexGuard<T>>,
    W: From<RwLockWriteGuard<T>>,
    R: From<RwLockReadGuard<T>>,
    S: Spawn<MutexTask<T, G>>,
    Z: Spawn<RwLockTask<T, W, R>>,
>() -> (inside: bool)
    ensures
        inside ==> in_task(),
        inside ==> forall|
            value: T,
            mutex: Mutex<G>,
            task: &mut MutexTask<T, G>,
            completion: MutexCompletion<T>,
        | #[trigger]
            call_ensures(
                Mutex::<G>::with_task::<T>,
                (value,),
                (mutex, *task, completion),
            ) ==> call_requires(MutexTask::<T, G>::poll, (task,)),
        inside ==> forall|value: T, spawn: &S, mutex: Mutex<G>, completion: &mut MutexCompletion<T>|
            #[trigger] call_ensures(
                Mutex::<G>::new::<T, S>,
                (value, spawn),
                (mutex, *completion),
            ) ==> call_requires(MutexCompletion::<T>::poll, (completion,)),
        inside ==> forall|mutex: Mutex<G>, copy: Mutex<G>, lock: &mut MutexLock<G>|
            #[trigger] call_ensures(<Mutex<G> as Clone>::clone, (&mutex,), copy)
                && #[trigger] call_ensures(Mutex::<G>::lock, (copy,), *lock) ==> call_requires(
                MutexLock::<G>::poll,
                (lock,),
            ),
        inside ==> forall|
            value: T,
            rwlock: RwLock<W, R>,
            task: &mut RwLockTask<T, W, R>,
            completion: RwLockCompletion<T>,
        | #[trigger]
            call_ensures(
                RwLock::<W, R>::with_task::<T>,
                (value,),
                (rwlock, *task, completion),
            ) ==> call_requires(RwLockTask::<T, W, R>::poll, (task,)),
        inside ==> forall|
            value: T,
            spawn: &Z,
            rwlock: RwLock<W, R>,
            completion: &mut RwLockCompletion<T>,
        | #[trigger]
            call_ensures(
                RwLock::<W, R>::new::<T, Z>,
                (value, spawn),
                (rwlock, *completion),
            ) ==> call_requires(RwLockCompletion::<T>::poll, (completion,)),
        inside ==> forall|
            rwlock: RwLock<W, R>,
            copy: RwLock<W, R>,
            acquire: &mut RwLockAcquire<W, R, W>,
        |
            #[trigger] call_ensures(<RwLock<W, R> as Clone>::clone, (&rwlock,), copy)
                && #[trigger] call_ensures(RwLock::<W, R>::write, (copy,), *acquire)
                ==> call_requires(RwLockAcquire::<W, R, W>::poll, (acquire,)),
        inside ==> forall|
            rwlock: RwLock<W, R>,
            copy: RwLock<W, R>,
            acquire: &mut RwLockAcquire<W, R, R>,
        |
            #[trigger] call_ensures(<RwLock<W, R> as Clone>::clone, (&rwlock,), copy)
                && #[trigger] call_ensures(RwLock::<W, R>::read, (copy,), *acquire)
                ==> call_requires(RwLockAcquire::<W, R, R>::poll, (acquire,)),
{
    let inside = futures::task::is_in_task();
    proof {
        if inside {
            assert forall|mutex: Mutex<G>, copy: Mutex<G>, lock: &mut MutexLock<G>|
                #[trigger] call_ensures(<Mutex<G> as Clone>::clone, (&mutex,), copy)
                    && #[trigger] call_ensures(
                    Mutex::<G>::lock,
                    (copy,),
                    *lock,
                ) implies call_requires(MutexLock::<G>::poll, (lock,)) by {
                law_may_poll(lock.exchange());
            }
            assert forall|
                rwlock: RwLock<W, R>,
                copy: RwLock<W, R>,
                acquire: &mut RwLockAcquire<W, R, W>,
            |
                #[trigger] call_ensures(<RwLock<W, R> as Clone>::clone, (&rwlock,), copy)
                    && #[trigger] call_ensures(
                    RwLock::<W, R>::write,
                    (copy,),
                    *acquire,
                ) implies call_requires(RwLockAcquire::<W, R, W>::poll, (acquire,)) by {
                law_may_poll(acquire.exchange());
            }
            assert forall|
                rwlock: RwLock<W, R>,
                copy: RwLock<W, R>,
                acquire: &mut RwLockAcquire<W, R, R>,
            |
                #[trigger] call_ensures(<RwLock<W, R> as Clone>::clone, (&rwlock,), copy)
                    && #[trigger] call_ensures(
                    RwLock::<W, R>::read,
                    (copy,),
                    *acquire,
                ) implies call_requires(RwLockAcquire::<W, R, R>::poll, (acquire,)) by {
                law_may_poll(acquire.exchange());
            }
        }
    }
    inside
}

} // verus!
