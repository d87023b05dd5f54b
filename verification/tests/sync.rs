#![allow(deprecated)]

use futures::executor::{self, Spawn};
use futures::task::Unpark;
use futures::{Async, Future};
use futures_spawn::sync::{
    Mutex, MutexGuard, MutexTask, RwLock, RwLockReadGuard, RwLockTask, RwLockWriteGuard,
};
use std::cell::RefCell;
use std::ops::{Deref, DerefMut};
use std::sync::atomic::{AtomicBool, Ordering};
use std::sync::Arc;

struct FlagUnpark {
    ready: AtomicBool,
}

impl FlagUnpark {
    fn new() -> FlagUnpark {
        FlagUnpark { ready: AtomicBool::new(false) }
    }

    fn park(&self) {
        assert!(self.ready.swap(false, Ordering::SeqCst), "every task waits");
    }
}

impl Unpark for FlagUnpark {
    fn unpark(&self) {
        self.ready.store(true, Ordering::SeqCst);
    }
}

struct SingleThreadExecutor {
    tasks: RefCell<Vec<Option<Spawn<Box<dyn Future<Item = (), Error = ()>>>>>>,
}

impl SingleThreadExecutor {
    fn new() -> Self {
        SingleThreadExecutor { tasks: RefCell::new(Vec::new()) }
    }

    fn spawn_detached<F: Future<Item = (), Error = ()> + 'static>(&self, f: F) {
        self.tasks.borrow_mut().push(Some(executor::spawn(Box::new(f))));
    }

    fn wait<F: Future>(&self, f: F) -> Result<F::Item, F::Error> {
        let unpark = Arc::new(FlagUnpark::new());
        let mut s = executor::spawn(f);
        loop {
            if let Async::Ready(e) = s.poll_future(unpark.clone())? {
                return Ok(e);
            }

            for maybe_t in &mut *self.tasks.borrow_mut() {
                if let Some(mut t) = maybe_t.take() {
                    match t.poll_future(unpark.clone()) {
                        Ok(Async::NotReady) => *maybe_t = Some(t),
                        _ => {}
                    }
                }
            }

            unpark.park();
        }
    }
}

/// Owns a mutex guard and gives the value back when dropped.
struct Guard<T: Send>(Option<MutexGuard<T>>);

impl<T: Send> From<MutexGuard<T>> for Guard<T> {
    fn from(guard: MutexGuard<T>) -> Self {
        Guard(Some(guard))
    }
}

impl<T: Send> Drop for Guard<T> {
    fn drop(&mut self) {
        self.0.take().unwrap().release(false);
    }
}

impl<T: Send> Deref for Guard<T> {
    type Target = T;

    fn deref(&self) -> &T {
        self.0.as_ref().unwrap()
    }
}

impl<T: Send> DerefMut for Guard<T> {
    fn deref_mut(&mut self) -> &mut T {
        self.0.as_mut().unwrap()
    }
}

/// Owns a write guard and gives the value back when dropped.
struct WriteGuard<T: Send>(Option<RwLockWriteGuard<T>>);

impl<T: Send> From<RwLockWriteGuard<T>> for WriteGuard<T> {
    fn from(guard: RwLockWriteGuard<T>) -> Self {
        WriteGuard(Some(guard))
    }
}

impl<T: Send> Drop for WriteGuard<T> {
    fn drop(&mut self) {
        self.0.take().unwrap().release(false);
    }
}

impl<T: Send> Deref for WriteGuard<T> {
    type Target = T;

    fn deref(&self) -> &T {
        self.0.as_ref().unwrap()
    }
}

impl<T: Send> DerefMut for WriteGuard<T> {
    fn deref_mut(&mut self) -> &mut T {
        self.0.as_mut().unwrap()
    }
}

/// Owns a read guard and leaves the lock when dropped.
struct ReadGuard<T: Send>(Option<RwLockReadGuard<T>>);

impl<T: Send> From<RwLockReadGuard<T>> for ReadGuard<T> {
    fn from(guard: RwLockReadGuard<T>) -> Self {
        ReadGuard(Some(guard))
    }
}

impl<T: Send> Drop for ReadGuard<T> {
    fn drop(&mut self) {
        self.0.take().unwrap().release();
    }
}

impl<T: Send> Deref for ReadGuard<T> {
    type Target = T;

    fn deref(&self) -> &T {
        self.0.as_ref().unwrap()
    }
}

/// Owns a mutex task and completes the mutex when dropped.
struct OwnedMutexTask<T: Send>(MutexTask<T, Guard<T>>);

impl<T: Send> Future for OwnedMutexTask<T> {
    type Item = ();
    type Error = ();

    fn poll(&mut self) -> futures::Poll<(), ()> {
        self.0.poll()
    }
}

impl<T: Send> Drop for OwnedMutexTask<T> {
    fn drop(&mut self) {
        self.0.finish();
    }
}

/// Owns an rwlock task and completes the rwlock when dropped.
struct OwnedRwLockTask<T: Send>(RwLockTask<T, WriteGuard<T>, ReadGuard<T>>);

impl<T: Send> Future for OwnedRwLockTask<T> {
    type Item = ();
    type Error = ();

    fn poll(&mut self) -> futures::Poll<(), ()> {
        self.0.poll()
    }
}

impl<T: Send> Drop for OwnedRwLockTask<T> {
    fn drop(&mut self) {
        self.0.finish();
    }
}

impl<T: Send + 'static> futures_spawn::Spawn<MutexTask<T, Guard<T>>> for SingleThreadExecutor {
    fn spawn_detached(&self, f: MutexTask<T, Guard<T>>) {
        SingleThreadExecutor::spawn_detached(self, OwnedMutexTask(f));
    }
}

impl<T: Send + 'static> futures_spawn::Spawn<RwLockTask<T, WriteGuard<T>, ReadGuard<T>>>
    for SingleThreadExecutor
{
    fn spawn_detached(&self, f: RwLockTask<T, WriteGuard<T>, ReadGuard<T>>) {
        SingleThreadExecutor::spawn_detached(self, OwnedRwLockTask(f));
    }
}

#[test]
fn smoke_mutex() {
    let executor = SingleThreadExecutor::new();
    let (mutex, completion) = Mutex::<Guard<i32>>::new(1, &executor);
    for x in 1..5 {
        executor.spawn_detached(
            mutex
                .clone()
                .lock()
                .map(move |(_, lock_result)| {
                    let mut guard = lock_result.expect("Mutex was poisoned");
                    assert_eq!(*guard, x);
                    *guard += 1;
                })
                .map_err(|_| panic!("Mutex was canceled")),
        );
    }
    drop(mutex);
    let result = executor
        .wait(completion)
        .expect("Mutex did not complete!")
        .expect("Mutex was poisoned");
    assert_eq!(result, 5);
}

#[test]
fn smoke_rwlock() {
    let executor = SingleThreadExecutor::new();
    let (rwlock, completion) = RwLock::<WriteGuard<i32>, ReadGuard<i32>>::new(1, &executor);

    executor.spawn_detached(
        rwlock
            .clone()
            .read()
            .and_then(move |(rwlock, lock_result)| {
                let guard = lock_result.expect("RwLock was poisoned");
                assert_eq!(*guard, 1);

                let write_future = rwlock.clone().write().map(move |(_, lock_result)| {
                    let mut guard = lock_result.expect("RwLock was poisoned");
                    assert_eq!(*guard, 1);
                    *guard += 1;
                });

                let read_future = rwlock.clone().read().map(move |(_, lock_result)| {
                    let guard = lock_result.expect("RwLock was poisoned");
                    assert_eq!(*guard, 2);
                });

                write_future.join(read_future).map(|((), ())| ())
            })
            .map_err(|_| panic!("RwLock was canceled")),
    );

    drop(rwlock);
    let result = executor
        .wait(completion)
        .expect("RwLock did not complete!")
        .expect("RwLock was poisoned");
    assert_eq!(result, 2);
}

#[test]
fn mutex_gets_undelivered_guard_back() {
    let executor = SingleThreadExecutor::new();
    let (mutex, completion) = Mutex::<Guard<i32>>::new(3, &executor);
    let mut lock = executor::spawn(mutex.lock());
    let unpark = Arc::new(FlagUnpark::new());
    assert!(lock.poll_future(unpark.clone()).unwrap().is_not_ready());
    for t in &mut *executor.tasks.borrow_mut() {
        let t = t.as_mut().unwrap();
        assert_eq!(t.poll_future(unpark.clone()), Ok(Async::NotReady));
    }
    // The guard is on its way, and the locker goes away without looking
    drop(lock);
    let result = executor.wait(completion).expect("Mutex did not complete!");
    assert_eq!(result.expect("Mutex was poisoned"), 3);
}

#[test]
fn mutex_lockers_are_served_in_turn() {
    let executor = SingleThreadExecutor::new();
    let (mutex, completion) = Mutex::<Guard<Vec<u32>>>::new(Vec::new(), &executor);
    for x in 0..8 {
        executor.spawn_detached(
            mutex
                .clone()
                .lock()
                .map(move |(_, lock_result)| lock_result.expect("Mutex was poisoned").push(x))
                .map_err(|_| panic!("Mutex was canceled")),
        );
    }
    drop(mutex);
    let result = executor.wait(completion).expect("Mutex did not complete!");
    assert_eq!(result.expect("Mutex was poisoned"), vec![0, 1, 2, 3, 4, 5, 6, 7]);
}

#[test]
fn mutex_handle_can_lock_again() {
    let executor = SingleThreadExecutor::new();
    let (mutex, completion) = Mutex::<Guard<i32>>::new(1, &executor);
    executor.spawn_detached(
        mutex
            .lock()
            .and_then(|(mutex, lock_result)| {
                *lock_result.expect("Mutex was poisoned") *= 10;
                mutex.lock()
            })
            .map(|(_, lock_result)| *lock_result.expect("Mutex was poisoned") += 2)
            .map_err(|_| panic!("Mutex was canceled")),
    );
    let result = executor.wait(completion).expect("Mutex did not complete!");
    assert_eq!(result.expect("Mutex was poisoned"), 12);
}

#[test]
fn rwlock_leaving_readers_wake_the_task() {
    let executor = SingleThreadExecutor::new();
    let (rwlock, completion) = RwLock::<WriteGuard<i32>, ReadGuard<i32>>::new(6, &executor);
    for _ in 0..3 {
        executor.spawn_detached(
            rwlock
                .clone()
                .read()
                .map(|(_, lock_result)| assert_eq!(*lock_result.expect("RwLock was poisoned"), 6))
                .map_err(|_| panic!("RwLock was canceled")),
        );
    }
    drop(rwlock);
    let result = executor.wait(completion).expect("RwLock did not complete!");
    assert_eq!(result.expect("RwLock was poisoned"), 6);
}
