use futures::future::{lazy, Future};
use futures::sync::{mpsc, oneshot};
use futures::{Async, AsyncSink, Poll};
use futures_spawn::sync::exchange::{Exchange, Incoming, Outgoing};
use futures_spawn::sync::mutex::{self, MutexState};
use futures_spawn::sync::primitives::{collect, flush, offer, Inbox, Shared};
use futures_spawn::sync::rwlock::{self, RwLockState};
use futures_spawn::sync::{
    Mutex, MutexCompletion, MutexGuard, MutexLock, MutexTask, RwLock, RwLockAcquire,
    RwLockCompletion, RwLockReadGuard, RwLockTask, RwLockWriteGuard,
};
use std::sync::LockResult;

type RawMutex = Mutex<MutexGuard<i32>>;
type RawMutexTask = MutexTask<i32, MutexGuard<i32>>;
type RawRwLock = RwLock<RwLockWriteGuard<i32>, RwLockReadGuard<i32>>;
type RawRwLockTask = RwLockTask<i32, RwLockWriteGuard<i32>, RwLockReadGuard<i32>>;
type RawWrite = RwLockAcquire<RwLockWriteGuard<i32>, RwLockReadGuard<i32>, RwLockWriteGuard<i32>>;
type RawRead = RwLockAcquire<RwLockWriteGuard<i32>, RwLockReadGuard<i32>, RwLockReadGuard<i32>>;

/// Runs `f` while a task is being polled.
fn in_task<A>(f: impl FnOnce() -> A) -> A {
    lazy(move || Ok::<A, ()>(f())).wait().unwrap()
}

/// Asks a channel for its message, for the last time.
fn receive<M>(receiver: oneshot::Receiver<M>) -> Poll<M, oneshot::Canceled> {
    in_task(|| collect(receiver)).1
}

fn new_mutex(value: i32) -> (RawMutex, RawMutexTask, MutexCompletion<i32>) {
    Mutex::with_task(value)
}

fn new_rwlock(value: i32) -> (RawRwLock, RawRwLockTask, RwLockCompletion<i32>) {
    RwLock::with_task(value)
}

/// Polls a lock that must have its guard, and returns the guard.
fn locked(lock: &mut MutexLock<MutexGuard<i32>>) -> LockResult<MutexGuard<i32>> {
    match in_task(|| lock.poll()) {
        Ok(Async::Ready((_, reply))) => reply,
        _ => panic!("no guard"),
    }
}

fn waits(lock: &mut MutexLock<MutexGuard<i32>>) -> bool {
    matches!(in_task(|| lock.poll()), Ok(Async::NotReady))
}

fn written(acquire: &mut RawWrite) -> LockResult<RwLockWriteGuard<i32>> {
    match in_task(|| acquire.poll()) {
        Ok(Async::Ready((_, reply))) => reply,
        _ => panic!("no guard"),
    }
}

fn read(acquire: &mut RawRead) -> LockResult<RwLockReadGuard<i32>> {
    match in_task(|| acquire.poll()) {
        Ok(Async::Ready((_, reply))) => reply,
        _ => panic!("no guard"),
    }
}

#[test]
fn mutex_completes_with_its_value() {
    let (handle, mut task, mut completion) = new_mutex(7);
    drop(handle);
    assert_eq!(in_task(|| task.poll()), Ok(Async::Ready(())));
    // Polled once more, it says the same
    assert_eq!(in_task(|| task.poll()), Ok(Async::Ready(())));
    assert!(matches!(in_task(|| completion.poll()), Ok(Async::NotReady)));
    task.finish();
    match in_task(|| completion.poll()) {
        Ok(Async::Ready(Ok(value))) => assert_eq!(value, 7),
        _ => panic!("no value"),
    }
}

#[test]
fn mutex_waits_for_requests() {
    let (_handle, mut task, mut completion) = new_mutex(7);
    assert_eq!(in_task(|| task.poll()), Ok(Async::NotReady));
    assert!(matches!(in_task(|| completion.poll()), Ok(Async::NotReady)));
}

#[test]
fn mutex_has_one_holder() {
    let (handle, mut task, _completion) = new_mutex(1);
    let mut first = handle.clone().lock();
    let mut second = handle.lock();
    assert!(waits(&mut first));
    assert!(waits(&mut second));
    assert_eq!(in_task(|| task.poll()), Ok(Async::NotReady));
    let mut guard = locked(&mut first).unwrap();
    assert!(waits(&mut second));
    assert_eq!(in_task(|| task.poll()), Ok(Async::NotReady));
    assert!(waits(&mut second));
    assert_eq!(*guard, 1);
    *guard = 20;
    guard.release(false);
    assert_eq!(in_task(|| task.poll()), Ok(Async::NotReady));
    // The second holder gets what the first gave back
    let guard = locked(&mut second).unwrap();
    assert_eq!(*guard, 20);
}

#[test]
fn mutex_stays_poisoned() {
    let (handle, mut task, mut completion) = new_mutex(4);
    let mut first = handle.clone().lock();
    assert!(waits(&mut first));
    assert_eq!(in_task(|| task.poll()), Ok(Async::NotReady));
    locked(&mut first).unwrap().release(true);
    for _ in 0..2 {
        let mut next = handle.clone().lock();
        assert!(waits(&mut next));
        assert_eq!(in_task(|| task.poll()), Ok(Async::NotReady));
        let mut guard = match locked(&mut next) {
            Ok(_) => panic!("not poisoned"),
            Err(error) => error.into_inner(),
        };
        *guard += 1;
        guard.release(false);
    }
    drop(first);
    drop(handle);
    assert_eq!(in_task(|| task.poll()), Ok(Async::Ready(())));
    task.finish();
    match in_task(|| completion.poll()) {
        Ok(Async::Ready(Err(error))) => assert_eq!(error.into_inner(), 6),
        _ => panic!("not poisoned"),
    }
}

#[test]
fn mutex_without_task_cancels_lockers() {
    let (handle, task, _completion) = new_mutex(1);
    // One locker has asked, the other has not
    let mut early = handle.clone().lock();
    let mut late = handle.lock();
    assert!(waits(&mut early));
    drop(task);
    assert!(matches!(in_task(|| early.poll()), Err(mutex::Canceled)));
    assert!(matches!(in_task(|| late.poll()), Err(mutex::Canceled)));
}

#[test]
fn mutex_finished_while_locked_cancels_completion() {
    let (handle, mut task, mut completion) = new_mutex(1);
    let mut lock = handle.lock();
    assert!(waits(&mut lock));
    assert_eq!(in_task(|| task.poll()), Ok(Async::NotReady));
    task.finish();
    assert!(matches!(in_task(|| completion.poll()), Err(oneshot::Canceled)));
}

#[test]
fn mutex_task_fails_when_the_value_is_lost() {
    let (handle, mut task, _completion) = new_mutex(1);
    let mut lock = handle.lock();
    assert!(waits(&mut lock));
    assert_eq!(in_task(|| task.poll()), Ok(Async::NotReady));
    drop(locked(&mut lock));
    assert_eq!(in_task(|| task.poll()), Err(()));
}

#[test]
fn mutex_steps_on_given_answers() {
    let (_handle, mut task, _completion) = new_mutex(0);
    let (sender, _receiver) = oneshot::channel();
    let (state, outcome) = task.on_requests(5, sender, Ok(Async::Ready(None)));
    assert_eq!(outcome, Ok(Async::Ready(true)));
    let sender = match state {
        MutexState::Unlocked(5, sender) => sender,
        _ => panic!("not unlocked"),
    };
    let (state, outcome) = task.on_requests(6, sender, Ok(Async::NotReady));
    assert_eq!(outcome, Ok(Async::NotReady));
    let sender = match state {
        MutexState::Unlocked(6, sender) => sender,
        _ => panic!("not unlocked"),
    };
    let (reply, guard) = oneshot::channel();
    let request = mutex::LockRequest(reply);
    let (state, outcome) = task.on_requests(7, sender, Ok(Async::Ready(Some(request))));
    assert_eq!(outcome, Ok(Async::Ready(false)));
    let (back, sender) = match state {
        MutexState::Locked(back, sender) => (back, sender),
        _ => panic!("not locked"),
    };
    match receive(guard) {
        Ok(Async::Ready(Ok(guard))) => assert_eq!(*guard, 7),
        _ => panic!("no guard"),
    }
    let (state, outcome) = task.on_unlock(back, sender, Ok(Async::NotReady));
    assert_eq!(outcome, Ok(Async::NotReady));
    let (back, sender) = match state {
        MutexState::Locked(back, sender) => (back, sender),
        _ => panic!("not locked"),
    };
    let (state, outcome) = task.on_unlock(back, sender, Err(oneshot::Canceled));
    assert_eq!(outcome, Err(()));
    let (back, sender) = match state {
        MutexState::Locked(back, sender) => (back, sender),
        _ => panic!("not locked"),
    };
    assert_eq!(task.poison(1).ok(), Some(1));
    let (state, outcome) = task.on_unlock(back, sender, Ok(Async::Ready((8, true))));
    assert_eq!(outcome, Ok(Async::Ready(false)));
    assert!(matches!(state, MutexState::Unlocked(8, _)));
    assert_eq!(task.poison(2).unwrap_err().into_inner(), 2);
}

#[test]
fn mutex_clones_reach_the_same_task() {
    let (handle, mut task, _completion) = new_mutex(9);
    let copy = handle.clone();
    drop(handle);
    assert_eq!(in_task(|| task.poll()), Ok(Async::NotReady));
    let mut lock = copy.clone().lock();
    drop(copy);
    assert!(waits(&mut lock));
    assert_eq!(in_task(|| task.poll()), Ok(Async::NotReady));
    assert_eq!(*locked(&mut lock).unwrap(), 9);
}

#[test]
fn mutex_guard_sends_its_value_and_flag() {
    let (sender, receiver) = oneshot::channel();
    let mut guard = MutexGuard::new(3, sender);
    *guard += 1;
    guard.release(true);
    assert_eq!(receive(receiver), Ok(Async::Ready((4, true))));
}

#[test]
fn descriptions_name_the_lock() {
    assert_eq!(mutex::Canceled.description(), "Mutex canceled");
    assert_eq!(rwlock::Canceled.description(), "RwLock canceled");
}

#[test]
fn rwlock_completes_with_its_value() {
    let (handle, mut task, mut completion) = new_rwlock(7);
    assert_eq!(in_task(|| task.poll()), Ok(Async::NotReady));
    drop(handle);
    assert_eq!(in_task(|| task.poll()), Ok(Async::Ready(())));
    // The task is done, but still there
    assert!(matches!(in_task(|| completion.poll()), Ok(Async::NotReady)));
    task.finish();
    match in_task(|| completion.poll()) {
        Ok(Async::Ready(Ok(value))) => assert_eq!(value, 7),
        _ => panic!("no value"),
    }
}

#[test]
fn rwlock_readers_share_and_writers_wait() {
    let (handle, mut task, _completion) = new_rwlock(1);
    let mut one = handle.clone().read();
    let mut two = handle.clone().read();
    assert!(matches!(in_task(|| one.poll()), Ok(Async::NotReady)));
    assert!(matches!(in_task(|| two.poll()), Ok(Async::NotReady)));
    assert_eq!(in_task(|| task.poll()), Ok(Async::NotReady));
    let one = read(&mut one).unwrap();
    let two = read(&mut two).unwrap();
    assert_eq!((*one, *two), (1, 1));

    // A writer asks, and a reader after it
    let mut writer = handle.clone().write();
    assert!(matches!(in_task(|| writer.poll()), Ok(Async::NotReady)));
    let mut late = handle.clone().read();
    assert!(matches!(in_task(|| late.poll()), Ok(Async::NotReady)));
    assert_eq!(in_task(|| task.poll()), Ok(Async::NotReady));
    assert!(matches!(in_task(|| writer.poll()), Ok(Async::NotReady)));
    assert!(matches!(in_task(|| late.poll()), Ok(Async::NotReady)));
    in_task(|| one.release());
    assert_eq!(in_task(|| task.poll()), Ok(Async::NotReady));
    assert!(matches!(in_task(|| writer.poll()), Ok(Async::NotReady)));
    in_task(|| two.release());
    assert_eq!(in_task(|| task.poll()), Ok(Async::NotReady));

    // The writer comes first, and has the value alone
    let mut guard = written(&mut writer).unwrap();
    assert_eq!(in_task(|| task.poll()), Ok(Async::NotReady));
    assert!(matches!(in_task(|| late.poll()), Ok(Async::NotReady)));
    assert_eq!(*guard, 1);
    *guard = 2;
    guard.release(false);
    assert_eq!(in_task(|| task.poll()), Ok(Async::NotReady));
    assert_eq!(*read(&mut late).unwrap(), 2);
}

#[test]
fn rwlock_finishes_when_readers_have_left() {
    let (handle, mut task, mut completion) = new_rwlock(5);
    let mut reader = handle.read();
    assert!(matches!(in_task(|| reader.poll()), Ok(Async::NotReady)));
    assert_eq!(in_task(|| task.poll()), Ok(Async::NotReady));
    let guard = read(&mut reader).unwrap();
    drop(reader);
    // No handle is left, but a reader is
    assert_eq!(in_task(|| task.poll()), Ok(Async::NotReady));
    in_task(|| guard.release());
    assert_eq!(in_task(|| task.poll()), Ok(Async::Ready(())));
    task.finish();
    match in_task(|| completion.poll()) {
        Ok(Async::Ready(Ok(value))) => assert_eq!(value, 5),
        _ => panic!("no value"),
    }
}

#[test]
fn rwlock_finished_while_read_cancels_completion() {
    let (handle, mut task, mut completion) = new_rwlock(5);
    let mut reader = handle.read();
    assert!(matches!(in_task(|| reader.poll()), Ok(Async::NotReady)));
    assert_eq!(in_task(|| task.poll()), Ok(Async::NotReady));
    let _guard = read(&mut reader).unwrap();
    task.finish();
    assert!(matches!(in_task(|| completion.poll()), Err(oneshot::Canceled)));
}

#[test]
fn rwlock_is_poisoned_by_writers_only() {
    let (handle, mut task, mut completion) = new_rwlock(10);
    let mut reader = handle.clone().read();
    assert!(matches!(in_task(|| reader.poll()), Ok(Async::NotReady)));
    assert_eq!(in_task(|| task.poll()), Ok(Async::NotReady));
    let guard = read(&mut reader).unwrap();
    in_task(|| guard.release());

    let mut writer = handle.clone().write();
    assert!(matches!(in_task(|| writer.poll()), Ok(Async::NotReady)));
    assert_eq!(in_task(|| task.poll()), Ok(Async::NotReady));
    let mut guard = written(&mut writer).unwrap();
    *guard = 11;
    guard.release(true);

    let mut reader = handle.clone().read();
    assert!(matches!(in_task(|| reader.poll()), Ok(Async::NotReady)));
    assert_eq!(in_task(|| task.poll()), Ok(Async::NotReady));
    let guard = match read(&mut reader) {
        Ok(_) => panic!("not poisoned"),
        Err(error) => error.into_inner(),
    };
    assert_eq!(*guard, 11);
    in_task(|| guard.release());

    let mut writer = handle.write();
    assert!(matches!(in_task(|| writer.poll()), Ok(Async::NotReady)));
    assert_eq!(in_task(|| task.poll()), Ok(Async::NotReady));
    match written(&mut writer) {
        Ok(_) => panic!("not poisoned"),
        Err(error) => error.into_inner().release(false),
    }
    assert_eq!(in_task(|| task.poll()), Ok(Async::Ready(())));
    task.finish();
    match in_task(|| completion.poll()) {
        Ok(Async::Ready(Err(error))) => assert_eq!(error.into_inner(), 11),
        _ => panic!("not poisoned"),
    }
}

#[test]
fn rwlock_without_task_cancels_lockers() {
    let (handle, task, _completion) = new_rwlock(1);
    let mut early = handle.clone().write();
    let mut late = handle.read();
    assert!(matches!(in_task(|| early.poll()), Ok(Async::NotReady)));
    drop(task);
    assert!(matches!(in_task(|| early.poll()), Err(rwlock::Canceled)));
    assert!(matches!(in_task(|| late.poll()), Err(rwlock::Canceled)));
}

#[test]
fn rwlock_task_fails_when_the_value_is_lost() {
    let (handle, mut task, _completion) = new_rwlock(1);
    let mut writer = handle.write();
    assert!(matches!(in_task(|| writer.poll()), Ok(Async::NotReady)));
    assert_eq!(in_task(|| task.poll()), Ok(Async::NotReady));
    drop(written(&mut writer));
    assert_eq!(in_task(|| task.poll()), Err(()));
}

#[test]
fn rwlock_steps_on_given_answers() {
    let (_handle, mut task, _completion) = new_rwlock(0);
    let (completion, _receiver) = oneshot::channel();
    let (state, outcome) = task.on_requests(5, completion, Ok(Async::Ready(None)));
    assert_eq!(outcome, Ok(Async::Ready(true)));
    let completion = match state {
        RwLockState::Unlocked { value: 5, completion } => completion,
        _ => panic!("not unlocked"),
    };

    let (reply, guard) = oneshot::channel();
    let request = rwlock::LockRequest::Shared(reply);
    let (state, outcome) =
        in_task(|| task.on_requests(6, completion, Ok(Async::Ready(Some(request)))));
    assert_eq!(outcome, Ok(Async::Ready(false)));
    let (arc, completion) = match state {
        RwLockState::LockedRead { arc, completion } => (arc, completion),
        _ => panic!("not read locked"),
    };
    let guard = match receive(guard) {
        Ok(Async::Ready(Ok(guard))) => guard,
        _ => panic!("no guard"),
    };
    assert_eq!((*arc.get(), *guard), (6, 6));

    // The reader is still there
    let (state, outcome) = task.on_reading(arc, completion, Ok(Async::Ready(None)));
    assert_eq!(outcome, Ok(Async::NotReady));
    let (arc, completion) = match state {
        RwLockState::LockedRead { arc, completion } => (arc, completion),
        _ => panic!("not read locked"),
    };
    let (reply, writer) = oneshot::channel();
    let request = rwlock::LockRequest::Exclusive(reply);
    let (state, outcome) = task.on_reading(arc, completion, Ok(Async::Ready(Some(request))));
    assert_eq!(outcome, Ok(Async::Ready(false)));
    let (arc, req, completion) = match state {
        RwLockState::LockedReadPendingWrite { arc, req, completion } => (arc, req, completion),
        _ => panic!("no writer waits"),
    };
    let (state, outcome) = task.on_draining(Err(arc), req, completion);
    assert_eq!(outcome, Ok(Async::NotReady));
    let (arc, req, completion) = match state {
        RwLockState::LockedReadPendingWrite { arc, req, completion } => (arc, req, completion),
        _ => panic!("no writer waits"),
    };

    // The reader leaves
    in_task(|| guard.release());
    let (state, outcome) = task.on_draining(arc.try_unwrap(), req, completion);
    assert_eq!(outcome, Ok(Async::Ready(false)));
    let (unlock, completion) = match state {
        RwLockState::LockedWrite { unlock, completion } => (unlock, completion),
        _ => panic!("not write locked"),
    };
    match receive(writer) {
        Ok(Async::Ready(Ok(guard))) => assert_eq!(*guard, 6),
        _ => panic!("no guard"),
    }
    let (state, outcome) = task.on_unlock(unlock, completion, Ok(Async::Ready((9, false))));
    assert_eq!(outcome, Ok(Async::Ready(false)));
    let completion = match state {
        RwLockState::Unlocked { value: 9, completion } => completion,
        _ => panic!("not unlocked"),
    };
    assert_eq!(task.poison(1).ok(), Some(1));

    // With nobody else pointing to the value, it comes back at once
    let (state, outcome) = task.on_reading(Shared::new(4), completion, Ok(Async::NotReady));
    assert_eq!(outcome, Ok(Async::Ready(false)));
    let completion = match state {
        RwLockState::Unlocked { value: 4, completion } => completion,
        _ => panic!("not unlocked"),
    };
    let (state, outcome) = task.poll_read_unlocked(Shared::new(3), completion, true);
    assert_eq!(outcome, Ok(Async::Ready(true)));
    assert!(matches!(state, RwLockState::Unlocked { value: 3, .. }));
}

#[test]
fn exchange_acts_on_given_answers() {
    let (sender, _queue) = mpsc::channel::<u8>(0);
    let sender = Outgoing::on_offer(sender, Ok(AsyncSink::Ready)).ok().unwrap();
    let (outgoing, progress) =
        Outgoing::on_offer(sender, Ok(AsyncSink::NotReady(5))).err().unwrap();
    assert_eq!(progress, Ok(false));
    let sender = match outgoing {
        Outgoing::Offering(sender, 5) => sender,
        _ => panic!("not offering"),
    };
    let (outgoing, progress) = Outgoing::on_flush(sender, Ok(Async::NotReady));
    assert_eq!(progress, Ok(false));
    let sender = match outgoing {
        Outgoing::Flushing(sender) => sender,
        _ => panic!("not flushing"),
    };
    let (outgoing, progress) = Outgoing::on_flush(sender, Ok(Async::Ready(())));
    assert_eq!(progress, Ok(true));

    let (_reply, receiver) = oneshot::channel::<u16>();
    let (incoming, progress) = Incoming::on_poll(receiver, Ok(Async::NotReady));
    assert_eq!(progress, Ok(false));
    let receiver = match incoming {
        Incoming::Waiting(receiver) => receiver,
        _ => panic!("not waiting"),
    };
    let (incoming, progress) = Incoming::on_poll(receiver, Ok(Async::Ready(77)));
    assert_eq!(progress, Ok(true));
    let (_reply, receiver) = oneshot::channel::<u16>();
    let (gone, progress) = Incoming::on_poll(receiver, Err(oneshot::Canceled));
    assert_eq!(progress, Err(()));
    assert!(matches!(gone, Incoming::Gone));

    let mut exchange = Exchange { outgoing: Outgoing::Gone, incoming: Incoming::Gone };
    match exchange.settle(outgoing, incoming) {
        Ok(Async::Ready((_, reply))) => assert_eq!(reply, 77),
        _ => panic!("not settled"),
    }
    assert!(matches!(exchange.outgoing, Outgoing::Gone));
}

#[test]
fn exchange_keeps_an_early_reply() {
    let (sender, queue) = mpsc::channel::<u8>(0);
    let mut queue = Inbox::new(queue);
    let (reply, receiver) = oneshot::channel::<u16>();
    let mut exchange = Exchange::new(sender, 1, receiver);
    reply.send(300).unwrap();
    // The queue has the message but is full, the reply is there
    assert!(matches!(in_task(|| exchange.poll()), Ok(Async::NotReady)));
    assert!(matches!(exchange.incoming, Incoming::Done(300)));
    assert!(matches!(exchange.outgoing, Outgoing::Flushing(_)));
    assert_eq!(in_task(|| queue.poll()), Ok(Async::Ready(Some(1))));
    match in_task(|| exchange.poll()) {
        Ok(Async::Ready((_, reply))) => assert_eq!(reply, 300),
        _ => panic!("not settled"),
    }
}

#[test]
fn queue_takes_one_message_at_a_time() {
    let (sender, queue) = mpsc::channel::<u8>(0);
    let mut queue = Inbox::new(queue);
    assert_eq!(in_task(|| queue.poll()), Ok(Async::NotReady));
    let (sender, answer) = in_task(|| offer(sender, 1));
    assert_eq!(answer, Ok(AsyncSink::Ready));
    let (sender, answer) = in_task(|| offer(sender, 2));
    assert_eq!(answer, Ok(AsyncSink::NotReady(2)));
    let (sender, answer) = in_task(|| flush(sender));
    assert_eq!(answer, Ok(Async::NotReady));
    assert_eq!(in_task(|| queue.poll()), Ok(Async::Ready(Some(1))));
    let (sender, answer) = in_task(|| flush(sender));
    assert_eq!(answer, Ok(Async::Ready(())));
    drop(queue);
    let (_sender, answer) = in_task(|| offer(sender, 3));
    assert_eq!(answer.unwrap_err().into_inner(), 3);
}

#[test]
fn closed_queue_stays_closed() {
    let (sender, queue) = mpsc::channel::<u8>(0);
    let mut queue = Inbox::new(queue);
    drop(sender);
    assert_eq!(in_task(|| queue.poll()), Ok(Async::Ready(None)));
    assert_eq!(in_task(|| queue.poll()), Ok(Async::Ready(None)));
}

#[test]
fn channel_delivers_or_cancels() {
    let (sender, receiver) = oneshot::channel();
    let (receiver, polled) = in_task(|| collect(receiver));
    assert_eq!(polled, Ok(Async::NotReady));
    sender.send(8).unwrap();
    let (receiver, polled) = in_task(|| collect(receiver));
    assert_eq!(polled, Ok(Async::Ready(8)));
    // There is no second message
    assert_eq!(receive(receiver), Err(oneshot::Canceled));
    let (sender, receiver) = oneshot::channel::<u8>();
    drop(sender);
    assert_eq!(receive(receiver), Err(oneshot::Canceled));
}

#[test]
fn shared_pointer_is_not_unwrapped() {
    let one = Shared::new(5);
    let two = one.copy();
    assert_eq!((*one.get(), *two.get()), (5, 5));
    let back = match one.try_unwrap() {
        Ok(_) => panic!("unwrapped"),
        Err(back) => back,
    };
    assert_eq!(*back.get(), 5);
    drop(two);
    assert_eq!(back.try_unwrap().ok(), Some(5));
}

#[test]
fn queue_keeps_its_messages_in_order() {
    let (sender, queue) = mpsc::channel::<u8>(2);
    let mut queue = Inbox::new(queue);
    let (sender, answer) = in_task(|| offer(sender, 1));
    assert_eq!(answer, Ok(AsyncSink::Ready));
    let (_sender, answer) = in_task(|| offer(sender, 2));
    assert_eq!(answer, Ok(AsyncSink::Ready));
    assert_eq!(in_task(|| queue.poll()), Ok(Async::Ready(Some(1))));
    assert_eq!(in_task(|| queue.poll()), Ok(Async::Ready(Some(2))));
    assert_eq!(in_task(|| queue.poll()), Ok(Async::NotReady));
}

#[test]
fn mutex_finished_while_locked_hands_back_its_state() {
    let (handle, mut task, mut completion) = new_mutex(1);
    let mut lock = handle.lock();
    assert!(waits(&mut lock));
    assert_eq!(in_task(|| task.poll()), Ok(Async::NotReady));
    let rest = task.finish();
    // Nothing was sent
    assert!(matches!(in_task(|| completion.poll()), Ok(Async::NotReady)));
    let (back, sender) = match rest {
        MutexState::Locked(back, sender) => (back, sender),
        _ => panic!("not locked"),
    };
    locked(&mut lock).unwrap().release(false);
    assert_eq!(receive(back), Ok(Async::Ready((1, false))));
    drop(sender);
    assert!(matches!(in_task(|| completion.poll()), Err(oneshot::Canceled)));
    // A second time there is nothing to hand back
    assert!(matches!(task.finish(), MutexState::Invalid));
}

#[test]
fn rwlock_finished_with_a_writer_waiting_cancels_both() {
    let (handle, mut task, mut completion) = new_rwlock(5);
    let mut reader = handle.clone().read();
    assert!(matches!(in_task(|| reader.poll()), Ok(Async::NotReady)));
    assert_eq!(in_task(|| task.poll()), Ok(Async::NotReady));
    let guard = read(&mut reader).unwrap();
    let mut writer = handle.write();
    assert!(matches!(in_task(|| writer.poll()), Ok(Async::NotReady)));
    assert_eq!(in_task(|| task.poll()), Ok(Async::NotReady));
    let rest = task.finish();
    assert!(matches!(rest, RwLockState::LockedReadPendingWrite { .. }));
    // Nothing was sent, to the one or to the other
    assert!(matches!(in_task(|| completion.poll()), Ok(Async::NotReady)));
    assert!(matches!(in_task(|| writer.poll()), Ok(Async::NotReady)));
    drop(rest);
    assert!(matches!(in_task(|| completion.poll()), Err(oneshot::Canceled)));
    assert!(matches!(in_task(|| writer.poll()), Err(rwlock::Canceled)));
    // The reader still has the value
    assert_eq!(*guard, 5);
}

#[test]
fn rwlock_finished_while_written_hands_back_its_state() {
    let (handle, mut task, mut completion) = new_rwlock(5);
    let mut writer = handle.write();
    assert!(matches!(in_task(|| writer.poll()), Ok(Async::NotReady)));
    assert_eq!(in_task(|| task.poll()), Ok(Async::NotReady));
    let back = match task.finish() {
        RwLockState::LockedWrite { unlock, .. } => unlock,
        _ => panic!("not write locked"),
    };
    assert!(matches!(in_task(|| completion.poll()), Err(oneshot::Canceled)));
    let mut guard = written(&mut writer).unwrap();
    *guard = 6;
    guard.release(true);
    assert_eq!(receive(back), Ok(Async::Ready((6, true))));
}

#[test]
fn rwlock_requests_are_served_in_order() {
    let (handle, mut task, _completion) = new_rwlock(0);
    let mut first = handle.clone().write();
    assert!(matches!(in_task(|| first.poll()), Ok(Async::NotReady)));
    let mut second = handle.clone().read();
    assert!(matches!(in_task(|| second.poll()), Ok(Async::NotReady)));
    let mut third = handle.clone().write();
    assert!(matches!(in_task(|| third.poll()), Ok(Async::NotReady)));
    let mut fourth = handle.read();
    assert!(matches!(in_task(|| fourth.poll()), Ok(Async::NotReady)));

    // The writer has the value, and the queue is left alone
    assert_eq!(in_task(|| task.poll()), Ok(Async::NotReady));
    let mut guard = written(&mut first).unwrap();
    assert_eq!(in_task(|| task.poll()), Ok(Async::NotReady));
    assert!(matches!(in_task(|| second.poll()), Ok(Async::NotReady)));
    *guard = 1;
    guard.release(false);

    // The reader comes next, and the second writer behind it
    assert_eq!(in_task(|| task.poll()), Ok(Async::NotReady));
    let guard = read(&mut second).unwrap();
    assert_eq!(*guard, 1);
    assert!(matches!(in_task(|| third.poll()), Ok(Async::NotReady)));
    assert_eq!(in_task(|| task.poll()), Ok(Async::NotReady));
    assert!(matches!(in_task(|| fourth.poll()), Ok(Async::NotReady)));
    in_task(|| guard.release());

    assert_eq!(in_task(|| task.poll()), Ok(Async::NotReady));
    let mut guard = written(&mut third).unwrap();
    assert!(matches!(in_task(|| fourth.poll()), Ok(Async::NotReady)));
    assert_eq!(*guard, 1);
    *guard = 2;
    guard.release(false);

    assert_eq!(in_task(|| task.poll()), Ok(Async::NotReady));
    assert_eq!(*read(&mut fourth).unwrap(), 2);
}

#[test]
fn rwlock_of_writers_only_goes_on_as_a_mutex() {
    let (mutex, mut mutex_task, mut mutex_completion) = new_mutex(3);
    let (rwlock, mut rwlock_task, mut rwlock_completion) = new_rwlock(3);
    for panicking in [false, true, false] {
        let mut lock = mutex.clone().lock();
        let mut writer = rwlock.clone().write();
        assert!(waits(&mut lock));
        assert!(matches!(in_task(|| writer.poll()), Ok(Async::NotReady)));
        assert_eq!(in_task(|| mutex_task.poll()), in_task(|| rwlock_task.poll()));
        let (mut one, flagged) = match locked(&mut lock) {
            Ok(guard) => (guard, false),
            Err(error) => (error.into_inner(), true),
        };
        let (mut two, also_flagged) = match written(&mut writer) {
            Ok(guard) => (guard, false),
            Err(error) => (error.into_inner(), true),
        };
        assert_eq!((*one, flagged), (*two, also_flagged));
        *one += 1;
        *two += 1;
        one.release(panicking);
        two.release(panicking);
        assert_eq!(in_task(|| mutex_task.poll()), in_task(|| rwlock_task.poll()));
    }
    drop(mutex);
    drop(rwlock);
    assert_eq!(in_task(|| mutex_task.poll()), Ok(Async::Ready(())));
    assert_eq!(in_task(|| rwlock_task.poll()), Ok(Async::Ready(())));
    mutex_task.finish();
    rwlock_task.finish();
    for polled in [in_task(|| mutex_completion.poll()), in_task(|| rwlock_completion.poll())] {
        match polled {
            Ok(Async::Ready(Err(error))) => assert_eq!(error.into_inner(), 6),
            _ => panic!("not poisoned"),
        }
    }
}

#[test]
fn mutex_answered_locker_is_not_canceled() {
    let (handle, mut task, mut completion) = new_mutex(2);
    let mut answered = handle.clone().lock();
    let mut queued = handle.clone().lock();
    let mut unsent = handle.lock();
    assert!(waits(&mut answered));
    assert!(waits(&mut queued));
    assert_eq!(in_task(|| task.poll()), Ok(Async::NotReady));
    drop(task);
    // The guard was on its way before the task went
    assert_eq!(*locked(&mut answered).unwrap(), 2);
    assert!(matches!(in_task(|| queued.poll()), Err(mutex::Canceled)));
    assert!(matches!(in_task(|| unsent.poll()), Err(mutex::Canceled)));
    assert!(matches!(in_task(|| completion.poll()), Err(oneshot::Canceled)));
}

#[test]
fn rwlock_answered_reader_is_not_canceled() {
    let (handle, mut task, mut completion) = new_rwlock(2);
    let mut answered = handle.clone().read();
    let mut pending = handle.clone().write();
    let mut queued = handle.clone().read();
    let mut unsent = handle.write();
    assert!(matches!(in_task(|| answered.poll()), Ok(Async::NotReady)));
    assert!(matches!(in_task(|| pending.poll()), Ok(Async::NotReady)));
    assert!(matches!(in_task(|| queued.poll()), Ok(Async::NotReady)));
    assert_eq!(in_task(|| task.poll()), Ok(Async::NotReady));
    drop(task);
    // The guard was on its way before the task went
    assert_eq!(*read(&mut answered).unwrap(), 2);
    assert!(matches!(in_task(|| pending.poll()), Err(rwlock::Canceled)));
    assert!(matches!(in_task(|| queued.poll()), Err(rwlock::Canceled)));
    assert!(matches!(in_task(|| unsent.poll()), Err(rwlock::Canceled)));
    assert!(matches!(in_task(|| completion.poll()), Err(oneshot::Canceled)));
}

#[test]
fn mutex_is_done_when_deserted() {
    let (handle, mut task, _completion) = new_mutex(2);
    let mut lock = handle.lock();
    assert!(waits(&mut lock));
    assert_eq!(in_task(|| task.poll()), Ok(Async::NotReady));
    let guard = locked(&mut lock).unwrap();
    drop(lock);
    // No handle is left, but a guard is
    assert_eq!(in_task(|| task.poll()), Ok(Async::NotReady));
    guard.release(false);
    assert_eq!(in_task(|| task.poll()), Ok(Async::Ready(())));
}

#[test]
fn mutex_serves_a_long_queue_of_gone_lockers_in_one_poll() {
    let (handle, mut task, mut completion) = Mutex::<Releasing>::with_task(0);
    for _ in 0..50 {
        let mut lock = handle.clone().lock();
        assert!(matches!(in_task(|| lock.poll()), Ok(Async::NotReady)));
    }
    drop(handle);
    // Each guard is dropped as it cannot be delivered, and the next is granted
    assert_eq!(in_task(|| task.poll()), Ok(Async::Ready(())));
    task.finish();
    match in_task(|| completion.poll()) {
        Ok(Async::Ready(Ok(value))) => assert_eq!(value, 50),
        _ => panic!("no value"),
    }
}

/// Owns a guard and gives the value back when dropped.
struct Releasing(Option<MutexGuard<i32>>);

impl From<MutexGuard<i32>> for Releasing {
    fn from(guard: MutexGuard<i32>) -> Self {
        Releasing(Some(guard))
    }
}

impl Drop for Releasing {
    fn drop(&mut self) {
        let mut guard = self.0.take().unwrap();
        *guard += 1;
        guard.release(false);
    }
}
