//! A reader-writer lock whose value is owned by a task.
//!
//! Lockers send requests to the task through a queue. A writer is sent the value
//! itself and the task waits until it comes back. Readers are sent pointers to
//! the value; the task keeps one too, and takes the value back once it is the
//! last. While a writer waits for readers to leave, no request is looked at, so
//! that no reader overtakes it.

use crate::sync::exchange::{Exchange, Incoming, Outgoing};
use crate::sync::primitives::{
    collect, collected, converted, deliver, delivered, discard, drawn, dropped, flagged,
    in_task, lent, notified, notified_after, notify_after, paired, queued, running, sent, unwrapped,
    Inbox, Kept, Lent, Shared, STEP_BUDGET,
};
use crate::{spawned, Spawn};
use futures::sync::{mpsc, oneshot};
use futures::task::Task;
use futures::{Async, Future, Poll};
use std::ops::{Deref, DerefMut};
use std::sync::{LockResult, PoisonError};
use vstd::prelude::*;

verus! {

/// Where the value goes when the lock is done.
pub type CompletionSender<T> = oneshot::Sender<LockResult<T>>;

/// Where a writer waits for its guard.
pub type WriteGuardSender<W> = oneshot::Sender<LockResult<W>>;

/// Where a reader waits for its guard.
pub type ReadGuardSender<R> = oneshot::Sender<LockResult<R>>;

/// The state after a step, and whether the task has finished.
pub type StepResult<T, W> = (RwLockState<T, W>, Poll<bool, ()>);

/// A request for the lock.
#[verifier::reject_recursive_types(W)]
#[verifier::reject_recursive_types(R)]
pub enum LockRequest<W, R> {
    /// For writing.
    Exclusive(WriteGuardSender<W>),
    /// For reading.
    Shared(ReadGuardSender<R>),
}

/// What the task holds.
#[verifier::reject_recursive_types(T)]
#[verifier::reject_recursive_types(W)]
pub enum RwLockState<T: Send, W> {
    /// The value is here, and nobody else has it.
    Unlocked {
        /// The value.
        value: T,
        /// Where it goes in the end.
        completion: CompletionSender<T>,
    },
    /// Readers may have the value too.
    LockedRead {
        /// The task's pointer to the value.
        arc: Shared<T, Kept>,
        /// Where the value goes in the end.
        completion: CompletionSender<T>,
    },
    /// Readers may have the value too, and a writer waits for them to leave.
    LockedReadPendingWrite {
        /// The task's pointer to the value.
        arc: Shared<T, Kept>,
        /// Where the writer waits.
        req: WriteGuardSender<W>,
        /// Where the value goes in the end.
        completion: CompletionSender<T>,
    },
    /// The value is with a writer, and will come back with a poison flag.
    LockedWrite {
        /// Where it comes back.
        unlock: oneshot::Receiver<(T, bool)>,
        /// Where it goes in the end.
        completion: CompletionSender<T>,
    },
    /// Nothing is here: a step is being made, or the task is done.
    Invalid,
}

/// A write guard mediating access to the RwLock.
///
/// The value goes back to the lock through `release`; a guard that is dropped
/// takes the value with it. Writers get their guard inside a type of their
/// choice, made with `From`, whose destructor can do the release.
#[verifier::reject_recursive_types(T)]
pub struct RwLockWriteGuard<T: Send> {
    value: T,
    unlock: oneshot::Sender<(T, bool)>,
}

/// A read guard mediating access to the RwLock.
///
/// The lock is told through `release` that the reader has left; a guard that is
/// dropped leaves without a word. Readers get their guard inside a type of their
/// choice, made with `From`, whose destructor can do the release.
#[verifier::reject_recursive_types(T)]
pub struct RwLockReadGuard<T: Send> {
    value: Shared<T, Lent>,
    unlock: Task,
}

impl<T: Send> RwLockWriteGuard<T> {
    /// The guarded value.
    pub closed spec fn value(self) -> T {
        self.value
    }

    /// Where the value goes back.
    pub closed spec fn unlock(self) -> oneshot::Sender<(T, bool)> {
        self.unlock
    }

    /// A guard on `value`.
    pub fn new(value: T, unlock: oneshot::Sender<(T, bool)>) -> (guard: Self)
        ensures
            guard.value() == value,
            guard.unlock() == unlock,
    {
        RwLockWriteGuard { value, unlock }
    }

    /// Gives the value back. `panicking` says whether the holder is unwinding,
    /// in which case the lock is poisoned.
    pub fn release(self, panicking: bool)
        ensures
            delivered(self.unlock(), (self.value(), panicking)),
            sent(self.unlock(), (self.value(), panicking)),
    {
        deliver(self.unlock, (self.value, panicking));
    }
}

impl<T: Send> RwLockReadGuard<T> {
    /// The pointer to the guarded value.
    pub closed spec fn value(self) -> Shared<T, Lent> {
        self.value
    }

    /// The task to wake when the reader leaves.
    pub closed spec fn unlock(self) -> Task {
        self.unlock
    }

    /// A guard on what `value` points to.
    pub fn new(value: Shared<T, Lent>, unlock: Task) -> (guard: Self)
        ensures
            guard.value() == value,
            guard.unlock() == unlock,
    {
        RwLockReadGuard { value, unlock }
    }

    /// Lets go of the value, and then wakes the task of the lock.
    pub fn release(self)
        ensures
            dropped(self.value()),
            notified_after(self.unlock(), self.value()),
            notified(self.unlock()),
    {
        let RwLockReadGuard { value, unlock } = self;
        let ghost pointer = value;
        // Must drop value before sending the notification
        discard(value);
        // Wake up the task
        notify_after(&unlock, Ghost(pointer));
    }
}

impl<T: Send> Deref for RwLockWriteGuard<T> {
    type Target = T;

    fn deref(&self) -> (value: &T)
        ensures
            *value == self.value(),
    {
        &self.value
    }
}

impl<T: Send> Deref for RwLockReadGuard<T> {
    type Target = T;

    fn deref(&self) -> (value: &T)
        ensures
            *value == self.value().value(),
    {
        self.value.get()
    }
}

impl<T: Send> DerefMut for RwLockWriteGuard<T> {
    fn deref_mut(&mut self) -> (value: &mut T)
        ensures
            *value == old(self).value(),
            final(self).value() == *final(value),
            final(self).unlock() == old(self).unlock(),
    {
        &mut self.value
    }
}

/// One answer of the outside world to the task.
#[verifier::reject_recursive_types(T)]
#[verifier::reject_recursive_types(W)]
#[verifier::reject_recursive_types(R)]
pub enum RwLockEvent<T: Send, W, R> {
    /// What the request queue said while the value was here, and what it was
    /// afterwards.
    Requests(Poll<Option<LockRequest<W, R>>, ()>, mpsc::Receiver<LockRequest<W, R>>),
    /// What the request queue said while readers may have had the value, what it
    /// was afterwards, and, if it brought no request, from which pointer the
    /// value was tried to be taken and whether it could.
    Reading(
        Poll<Option<LockRequest<W, R>>, ()>,
        mpsc::Receiver<LockRequest<W, R>>,
        Shared<T, Kept>,
        bool,
    ),
    /// From which pointer the value was tried to be taken when a writer was
    /// waiting for readers to leave, and whether it could.
    Draining(Shared<T, Kept>, bool),
    /// What the channel from the write guard said while the value was away, and
    /// what it was afterwards.
    Unlock(Poll<(T, bool), oneshot::Canceled>, oneshot::Receiver<(T, bool)>),
}

impl<T: Send, W, R> RwLockEvent<T, W, R> {
    /// Whether the task goes on after the event: `Ok(Ready(true))` if it has
    /// finished, `Ok(Ready(false))` if there is more to do, `Ok(NotReady)` if
    /// it has to wait, and an error if the value is lost.
    pub open spec fn outcome(self) -> Poll<bool, ()> {
        match self {
            RwLockEvent::Requests(Ok(Async::Ready(None)), _) => Ok(Async::Ready(true)),
            RwLockEvent::Requests(Ok(Async::Ready(Some(_))), _) => Ok(Async::Ready(false)),
            RwLockEvent::Requests(Ok(Async::NotReady), _) => Ok(Async::NotReady),
            RwLockEvent::Reading(Ok(Async::Ready(Some(_))), _, _, _) => Ok(Async::Ready(false)),
            RwLockEvent::Reading(Ok(polled), _, _, left) => if left {
                Ok(Async::Ready(polled == Async::<Option<LockRequest<W, R>>>::Ready(None)))
            } else {
                Ok(Async::NotReady)
            },
            RwLockEvent::Draining(_, left) => if left {
                Ok(Async::Ready(false))
            } else {
                Ok(Async::NotReady)
            },
            RwLockEvent::Unlock(Ok(Async::Ready(_)), _) => Ok(Async::Ready(false)),
            RwLockEvent::Unlock(Ok(Async::NotReady), _) => Ok(Async::NotReady),
            RwLockEvent::Requests(Err(_), _)
            | RwLockEvent::Reading(Err(_), _, _, _)
            | RwLockEvent::Unlock(Err(_), _) => Err(()),
        }
    }
}

/// A write guard on `value` has been sent to `req`, flagged as the lock is
/// poisoned or not, and what it gives back will arrive at `receiver`. If the
/// writer has gone, its guard has been dropped.
pub open spec fn write_granted<T: Send, W: From<RwLockWriteGuard<T>>>(
    value: T,
    poisoned: bool,
    req: WriteGuardSender<W>,
    receiver: oneshot::Receiver<(T, bool)>,
) -> bool {
    exists|guard: RwLockWriteGuard<T>, owner: W, reply: LockResult<W>|
        #![trigger converted(guard, owner), delivered(req, reply)]
        {
            &&& guard.value() == value
            &&& paired(guard.unlock(), receiver)
            &&& converted(guard, owner)
            &&& flagged(poisoned, owner, reply)
            &&& delivered(req, reply)
        }
}

/// One pointer has been lent from `before`, which left `after`, and has been sent
/// to `req` in a read guard, flagged as the lock is poisoned or not, that will
/// wake the task that was being polled. If the reader has gone, its guard has
/// been dropped.
pub open spec fn read_granted<T: Send, R: From<RwLockReadGuard<T>>>(
    before: Shared<T, Kept>,
    after: Shared<T, Kept>,
    poisoned: bool,
    req: ReadGuardSender<R>,
) -> bool {
    exists|guard: RwLockReadGuard<T>, owner: R, reply: LockResult<R>|
        #![trigger converted(guard, owner), delivered(req, reply)]
        {
            &&& lent(before, after, guard.value())
            &&& guard.value().value() == before.value()
            &&& running(guard.unlock())
            &&& converted(guard, owner)
            &&& flagged(poisoned, owner, reply)
            &&& delivered(req, reply)
        }
}

/// The task has made a first pointer to `value`, and has lent one from it to a
/// reader, which left `after`.
pub open spec fn first_granted<T: Send, R: From<RwLockReadGuard<T>>>(
    value: T,
    after: Shared<T, Kept>,
    poisoned: bool,
    req: ReadGuardSender<R>,
) -> bool {
    exists|first: Shared<T, Kept>|
        first.value() == value && first.copies() == 0 && #[trigger] read_granted(
            first,
            after,
            poisoned,
            req,
        )
}

/// The task has tried to take the value out of `arc`, and could if `left`.
pub open spec fn emptied<T>(arc: Shared<T, Kept>, left: bool) -> bool {
    exists|result: Result<T, Shared<T, Kept>>| #[trigger]
        unwrapped(arc, result) && left == (result is Ok)
}

/// All that an rwlock task is made of.
#[verifier::reject_recursive_types(T)]
#[verifier::reject_recursive_types(W)]
#[verifier::reject_recursive_types(R)]
pub struct RwLockMoment<T: Send, W, R> {
    /// Where requests arrive.
    pub requests: mpsc::Receiver<LockRequest<W, R>>,
    /// What the task holds.
    pub state: RwLockState<T, W>,
    /// Whether a writer has panicked.
    pub poisoned: bool,
}

impl<T: Send, W: From<RwLockWriteGuard<T>>, R: From<RwLockReadGuard<T>>> RwLockMoment<T, W, R> {
    /// `event` takes the lock from `self` to `next`.
    pub open spec fn moves(self, event: RwLockEvent<T, W, R>, next: Self) -> bool {
        match (self.state, event) {
            (
                RwLockState::Unlocked { value, completion },
                RwLockEvent::Requests(Ok(polled), rest),
            ) => {
                &&& next.requests == rest
                &&& next.poisoned == self.poisoned
                &&& match polled {
                    Async::Ready(Some(LockRequest::Exclusive(req))) => {
                        &&& next.state matches RwLockState::LockedWrite { unlock, completion: kept }
                        &&& kept == completion
                        &&& write_granted(value, self.poisoned, req, unlock)
                    },
                    Async::Ready(Some(LockRequest::Shared(req))) => {
                        &&& next.state matches RwLockState::LockedRead { arc, completion: kept }
                        &&& kept == completion
                        &&& first_granted(value, arc, self.poisoned, req)
                    },
                    _ => next.state == self.state,
                }
            },
            (
                RwLockState::LockedRead { arc, completion },
                RwLockEvent::Reading(Ok(polled), rest, tried, left),
            ) => {
                &&& next.requests == rest
                &&& next.poisoned == self.poisoned
                &&& match polled {
                    Async::Ready(Some(LockRequest::Exclusive(req))) => next.state
                        == RwLockState::LockedReadPendingWrite { arc, req, completion },
                    Async::Ready(Some(LockRequest::Shared(req))) => {
                        &&& next.state matches RwLockState::LockedRead {
                            arc: after,
                            completion: kept,
                        }
                        &&& kept == completion
                        &&& read_granted(arc, after, self.poisoned, req)
                    },
                    _ => tried == arc && if left {
                        next.state == RwLockState::<T, W>::Unlocked {
                            value: tried.value(),
                            completion,
                        }
                    } else {
                        next.state == self.state
                    },
                }
            },
            (
                RwLockState::LockedReadPendingWrite { arc, req, completion },
                RwLockEvent::Draining(tried, left),
            ) => {
                &&& next.requests == self.requests
                &&& next.poisoned == self.poisoned
                &&& tried == arc
                &&& if left {
                    &&& next.state matches RwLockState::LockedWrite { unlock, completion: kept }
                    &&& kept == completion
                    &&& write_granted(tried.value(), self.poisoned, req, unlock)
                } else {
                    next.state == self.state
                }
            },
            (
                RwLockState::LockedWrite { unlock, completion },
                RwLockEvent::Unlock(polled, rest),
            ) => {
                &&& next.requests == self.requests
                &&& match polled {
                    Ok(Async::Ready((value, panicked))) => {
                        &&& next.poisoned == (self.poisoned || panicked)
                        &&& next.state == RwLockState::<T, W>::Unlocked { value, completion }
                    },
                    _ => {
                        &&& next.poisoned == self.poisoned
                        &&& next.state == RwLockState::<T, W>::LockedWrite {
                            unlock: rest,
                            completion,
                        }
                    },
                }
            },
            _ => false,
        }
    }

    /// In this moment the task asked what its state calls for, once, and `event`
    /// is what came of it: the request queue or the writer's channel was polled,
    /// or the value was tried to be taken back from the readers.
    pub open spec fn observes(self, event: RwLockEvent<T, W, R>) -> bool {
        match (self.state, event) {
            (RwLockState::Unlocked { .. }, RwLockEvent::Requests(polled, rest)) => drawn(
                self.requests,
                polled,
                rest,
            ),
            (
                RwLockState::LockedRead { arc, .. },
                RwLockEvent::Reading(polled, rest, tried, left),
            ) => {
                &&& drawn(self.requests, polled, rest)
                &&& !(polled matches Ok(Async::Ready(Some(_)))) ==> tried == arc && emptied(
                    tried,
                    left,
                )
            },
            (
                RwLockState::LockedReadPendingWrite { arc, .. },
                RwLockEvent::Draining(tried, left),
            ) => tried == arc && emptied(tried, left),
            (RwLockState::LockedWrite { unlock, .. }, RwLockEvent::Unlock(polled, rest)) =>
                collected(unlock, polled, rest),
            _ => false,
        }
    }

    /// One question and its answer take the lock from `self` to `next`.
    pub open spec fn steps(self, next: Self, outcome: Poll<bool, ()>) -> bool {
        exists|event: RwLockEvent<T, W, R>|
            {
                &&& #[trigger] self.observes(event)
                &&& self.moves(event, next)
                &&& outcome == event.outcome()
            }
    }

    /// Finishing the task leaves `rest` of its state: the value, if it is here
    /// alone, goes to the completion, and otherwise nothing is done.
    pub open spec fn finishes(self, rest: RwLockState<T, W>) -> bool {
        match self.state {
            RwLockState::Unlocked { value, completion } => {
                &&& rest is Invalid
                &&& exists|result: LockResult<T>|
                    flagged(self.poisoned, value, result) && #[trigger] delivered(
                        completion,
                        result,
                    )
            },
            _ => rest == self.state,
        }
    }
}

/// A history of the lock: what the task was told, and the moments before,
/// between and after.
#[verifier::reject_recursive_types(T)]
#[verifier::reject_recursive_types(W)]
#[verifier::reject_recursive_types(R)]
pub struct RwLockRun<T: Send, W, R> {
    /// The moments, one more than the events.
    pub moments: Seq<RwLockMoment<T, W, R>>,
    /// What the task was told.
    pub events: Seq<RwLockEvent<T, W, R>>,
}

impl<T: Send, W: From<RwLockWriteGuard<T>>, R: From<RwLockReadGuard<T>>> RwLockRun<T, W, R> {
    /// Each event takes the lock from one moment to the next.
    pub open spec fn valid(self) -> bool {
        &&& self.moments.len() == self.events.len() + 1
        &&& forall|i: int|
            0 <= i < self.events.len() ==> self.moments[i].moves(
                #[trigger] self.events[i],
                self.moments[i + 1],
            )
    }

    /// Each event is what one question of the task came to.
    pub open spec fn observed(self) -> bool {
        forall|i: int|
            0 <= i < self.events.len() ==> self.moments[i].observes(#[trigger] self.events[i])
    }

    /// After each of the first `n` events there was more to do.
    pub open spec fn goes_on(self, n: int) -> bool {
        forall|i: int|
            0 <= i < n ==> (#[trigger] self.events[i]).outcome() == Ok::<_, ()>(
                Async::Ready(false),
            )
    }

    /// This is what a poll of the task does that leads from `pre` to `post` and
    /// returns `result`: it makes steps until one finishes, has to wait or
    /// fails, or until the budget is used up, in which case it asks to be polled
    /// again.
    pub open spec fn is_poll(
        self,
        pre: RwLockMoment<T, W, R>,
        post: RwLockMoment<T, W, R>,
        result: Poll<(), ()>,
    ) -> bool {
        &&& self.valid()
        &&& self.observed()
        &&& 0 < self.events.len() <= STEP_BUDGET
        &&& self.goes_on(self.events.len() - 1)
        &&& self.moments.first() == pre
        &&& self.moments.last() == post
        &&& match self.events.last().outcome() {
            Ok(Async::Ready(true)) => result == Ok::<_, ()>(Async::Ready(())),
            Ok(Async::Ready(false)) => {
                &&& result == Ok::<Async<()>, ()>(Async::NotReady)
                &&& self.events.len() == STEP_BUDGET
                &&& exists|task: Task| #[trigger] running(task) && notified(task)
            },
            Ok(Async::NotReady) => result == Ok::<Async<()>, ()>(Async::NotReady),
            Err(()) => result == Err::<Async<()>, ()>(()),
        }
    }

    /// The history with one more event.
    pub open spec fn push(self, event: RwLockEvent<T, W, R>, next: RwLockMoment<T, W, R>) -> Self {
        RwLockRun { moments: self.moments.push(next), events: self.events.push(event) }
    }
}

/// Represents a living rwlock. Never constructed directly.
///
/// Whoever runs the task calls `finish` before dropping it, so that the
/// completion gets the value; the destructor of an owning type is the place.
#[verifier::reject_recursive_types(T)]
#[verifier::reject_recursive_types(W)]
#[verifier::reject_recursive_types(R)]
pub struct RwLockTask<T: Send, W, R> {
    requests: Inbox<LockRequest<W, R>>,
    state: RwLockState<T, W>,
    is_poisoned: bool,
}

impl<T: Send, W, R> RwLockTask<T, W, R> {
    /// The task has its receiving end. It does, except within a poll.
    pub closed spec fn is_whole(self) -> bool {
        self.requests.is_whole()
    }

    /// All that the task is made of.
    pub closed spec fn moment(self) -> RwLockMoment<T, W, R> {
        RwLockMoment {
            requests: self.requests.queue(),
            state: self.state,
            poisoned: self.is_poisoned,
        }
    }

    /// Where requests arrive.
    pub open spec fn requests(self) -> mpsc::Receiver<LockRequest<W, R>> {
        self.moment().requests
    }

    /// What the task holds.
    pub open spec fn state(self) -> RwLockState<T, W> {
        self.moment().state
    }

    /// Whether a writer has panicked.
    pub open spec fn poisoned(self) -> bool {
        self.moment().poisoned
    }

    /// Wraps a value in an error if the lock is poisoned.
    pub fn poison<U>(&self, value: U) -> (result: LockResult<U>)
        ensures
            flagged(self.poisoned(), value, result),
    {
        if self.is_poisoned {
            Err(PoisonError::new(value))
        } else {
            Ok(value)
        }
    }

    /// Keeps a writer waiting until all readers have left.
    pub fn pending_write(
        &mut self,
        arc: Shared<T, Kept>,
        req: WriteGuardSender<W>,
        completion: CompletionSender<T>,
    ) -> (result: StepResult<T, W>)
        ensures
            *final(self) == *old(self),
            result == (
                RwLockState::LockedReadPendingWrite { arc, req, completion },
                Ok::<_, ()>(Async::Ready(false)),
            ),
    {
        (RwLockState::LockedReadPendingWrite { arc, req, completion }, Ok(Async::Ready(false)))
    }

    /// Acts on an attempt to take the value back from the readers. `closed` says
    /// whether the request stream has ended.
    pub fn on_read_unlocked(
        unwrapped: Result<T, Shared<T, Kept>>,
        completion: CompletionSender<T>,
        closed: bool,
    ) -> (result: StepResult<T, W>)
        ensures
            result == match unwrapped {
                Ok(value) => (
                    RwLockState::<T, W>::Unlocked { value, completion },
                    Ok::<_, ()>(Async::Ready(closed)),
                ),
                Err(arc) => (
                    RwLockState::<T, W>::LockedRead { arc, completion },
                    Ok::<_, ()>(Async::NotReady),
                ),
            },
    {
        match unwrapped {
            Ok(value) => (
                RwLockState::Unlocked { value, completion },
                Ok(Async::Ready(closed)),
            ),
            Err(arc) => (RwLockState::LockedRead { arc, completion }, Ok(Async::NotReady)),
        }
    }

    /// Takes the value back if all readers have left. `closed` says whether the
    /// request stream has ended.
    pub fn poll_read_unlocked(
        &mut self,
        arc: Shared<T, Kept>,
        completion: CompletionSender<T>,
        closed: bool,
    ) -> (result: StepResult<T, W>)
        ensures
            *final(self) == *old(self),
            exists|left: bool| #[trigger]
                emptied(arc, left) && result == if left {
                    (
                        RwLockState::<T, W>::Unlocked { value: arc.value(), completion },
                        Ok::<_, ()>(Async::Ready(closed)),
                    )
                } else {
                    (
                        RwLockState::<T, W>::LockedRead { arc, completion },
                        Ok::<_, ()>(Async::NotReady),
                    )
                },
    {
        let unwrapped = arc.try_unwrap();
        assert(emptied(arc, unwrapped is Ok));
        Self::on_read_unlocked(unwrapped, completion, closed)
    }

    /// Takes the value back from a writer.
    pub fn satisfy_write_unlock(
        &mut self,
        value: T,
        poisoned: bool,
        completion: CompletionSender<T>,
    ) -> (result: StepResult<T, W>)
        ensures
            final(self).is_whole() == old(self).is_whole(),
            final(self).requests() == old(self).requests(),
            final(self).state() == old(self).state(),
            final(self).poisoned() == (old(self).poisoned() || poisoned),
            result == (
                RwLockState::<T, W>::Unlocked { value, completion },
                Ok::<_, ()>(Async::Ready(false)),
            ),
    {
        // Unlock and maybe poison the rwlock
        self.is_poisoned = self.is_poisoned || poisoned;
        (RwLockState::Unlocked { value, completion }, Ok(Async::Ready(false)))
    }
}

impl<T: Send, W: From<RwLockWriteGuard<T>>, R: From<RwLockReadGuard<T>>> RwLockTask<T, W, R> {
    /// Sends the value to a writer.
    pub fn satisfy_write_req(
        &mut self,
        value: T,
        req: WriteGuardSender<W>,
        completion: CompletionSender<T>,
    ) -> (result: StepResult<T, W>)
        ensures
            *final(self) == *old(self),
            result.1 == Ok::<_, ()>(Async::Ready(false)),
            result.0 matches RwLockState::LockedWrite { unlock, completion: kept } && kept
                == completion && write_granted(value, old(self).poisoned(), req, unlock),
    {
        // Create a channel to receive the "unlock" message
        let (sender, unlock) = oneshot::channel();
        // Send a guard to the lucky locker
        let guard = RwLockWriteGuard::new(value, sender);
        let owner = W::from(guard);
        let reply = self.poison(owner);
        deliver(req, reply);
        assert(converted(guard, owner));
        // Transition to write locked state
        (RwLockState::LockedWrite { unlock, completion }, Ok(Async::Ready(false)))
    }

    /// Sends a pointer to the value to a reader.
    pub fn satisfy_read_req(
        &mut self,
        arc: Shared<T, Kept>,
        req: ReadGuardSender<R>,
        completion: CompletionSender<T>,
    ) -> (result: StepResult<T, W>)
        requires
            in_task(),
        ensures
            *final(self) == *old(self),
            result.1 == Ok::<_, ()>(Async::Ready(false)),
            result.0 matches RwLockState::LockedRead { arc: after, completion: kept } && kept
                == completion && after.value() == arc.value() && after.copies() == arc.copies() + 1
                && read_granted(arc, after, old(self).poisoned(), req),
    {
        // Send a guard to the lucky locker
        let ghost before = arc;
        let (arc, pointer) = arc.lend();
        let guard = RwLockReadGuard::new(pointer, futures::task::current());
        let owner = R::from(guard);
        let reply = self.poison(owner);
        deliver(req, reply);
        assert(lent(before, arc, pointer));
        assert(converted(guard, owner));
        // Transition to read locked state
        (RwLockState::LockedRead { arc, completion }, Ok(Async::Ready(false)))
    }

    /// Makes a step while the value is here, on what the request queue said.
    pub fn on_requests(
        &mut self,
        value: T,
        completion: CompletionSender<T>,
        polled: Poll<Option<LockRequest<W, R>>, ()>,
    ) -> (result: StepResult<T, W>)
        requires
            polled is Ok,
            polled matches Ok(Async::Ready(Some(LockRequest::Shared(_)))) ==> in_task(),
        ensures
            *final(self) == *old(self),
            result.1 == RwLockEvent::<T, W, R>::Requests(polled, old(self).requests()).outcome(),
            (RwLockMoment {
                state: RwLockState::<T, W>::Unlocked { value, completion },
                ..old(self).moment()
            }).moves(
                RwLockEvent::<T, W, R>::Requests(polled, old(self).requests()),
                (RwLockMoment { state: result.0, ..final(self).moment() }),
            ),
    {
        match polled {
            // Lock request stream is closed, so rwlock task should end
            Ok(Async::Ready(None)) => (
                RwLockState::Unlocked { value, completion },
                Ok(Async::Ready(true)),
            ),
            // Received a write lock request
            Ok(Async::Ready(Some(LockRequest::Exclusive(req)))) => self.satisfy_write_req(
                value,
                req,
                completion,
            ),
            // Received a read lock request
            Ok(Async::Ready(Some(LockRequest::Shared(req)))) => {
                let first = Shared::new(value);
                let result = self.satisfy_read_req(first, req, completion);
                assert(result.0 matches RwLockState::LockedRead { arc, .. } && read_granted(
                    first,
                    arc,
                    old(self).poisoned(),
                    req,
                ));
                assert(result.0 matches RwLockState::LockedRead { arc, .. } && first_granted(
                    value,
                    arc,
                    old(self).poisoned(),
                    req,
                ));
                result
            },
            // No requests outstanding
            Ok(Async::NotReady) => (
                RwLockState::Unlocked { value, completion },
                Ok(Async::NotReady),
            ),
            // The request queue never returns errors
            Err(()) => vstd::pervasive::unreached(),
        }
    }

    /// Makes a step while readers may have the value, on what the request queue
    /// said. If it brought no request, the value is taken back from the readers
    /// if they have left.
    pub fn on_reading(
        &mut self,
        arc: Shared<T, Kept>,
        completion: CompletionSender<T>,
        polled: Poll<Option<LockRequest<W, R>>, ()>,
    ) -> (result: StepResult<T, W>)
        requires
            polled is Ok,
            polled matches Ok(Async::Ready(Some(LockRequest::Shared(_)))) ==> in_task(),
        ensures
            *final(self) == *old(self),
            exists|left: bool|
                {
                    &&& !(polled matches Ok(Async::Ready(Some(_)))) ==> emptied(arc, left)
                    &&& result.1 == #[trigger] RwLockEvent::<T, W, R>::Reading(
                        polled,
                        old(self).requests(),
                        arc,
                        left,
                    ).outcome()
                    &&& (RwLockMoment {
                        state: RwLockState::<T, W>::LockedRead { arc, completion },
                        ..old(self).moment()
                    }).moves(
                        RwLockEvent::<T, W, R>::Reading(polled, old(self).requests(), arc, left),
                        (RwLockMoment { state: result.0, ..final(self).moment() }),
                    )
                },
    {
        let ghost rest = self.requests();
        let ghost stayed = RwLockEvent::<T, W, R>::Reading(polled, rest, arc, false).outcome();
        let ghost left = RwLockEvent::<T, W, R>::Reading(polled, rest, arc, true).outcome();
        match polled {
            // Lock request stream is closed, so check if all read locks have been released
            Ok(Async::Ready(None)) => self.poll_read_unlocked(arc, completion, true),
            // Received a write lock request
            Ok(Async::Ready(Some(LockRequest::Exclusive(req)))) => self.pending_write(
                arc,
                req,
                completion,
            ),
            // Received a read lock request
            Ok(Async::Ready(Some(LockRequest::Shared(req)))) => self.satisfy_read_req(
                arc,
                req,
                completion,
            ),
            // No requests outstanding
            Ok(Async::NotReady) => self.poll_read_unlocked(arc, completion, false),
            // The request queue never returns errors
            Err(()) => vstd::pervasive::unreached(),
        }
    }

    /// Makes a step while a writer waits for readers to leave, on an attempt to
    /// take the value back from them.
    pub fn on_draining(
        &mut self,
        unwrapped: Result<T, Shared<T, Kept>>,
        req: WriteGuardSender<W>,
        completion: CompletionSender<T>,
    ) -> (result: StepResult<T, W>)
        ensures
            *final(self) == *old(self),
            match unwrapped {
                Ok(value) => {
                    &&& result.1 == Ok::<_, ()>(Async::Ready(false))
                    &&& result.0 matches RwLockState::LockedWrite { unlock, completion: kept }
                    &&& kept == completion
                    &&& write_granted(value, old(self).poisoned(), req, unlock)
                },
                Err(arc) => result == (
                    RwLockState::LockedReadPendingWrite { arc, req, completion },
                    Ok::<Async<bool>, ()>(Async::NotReady),
                ),
            },
    {
        match unwrapped {
            // Read locks have been released
            Ok(value) => self.satisfy_write_req(value, req, completion),
            // There are still read locks outstanding
            Err(arc) => (
                RwLockState::LockedReadPendingWrite { arc, req, completion },
                Ok(Async::NotReady),
            ),
        }
    }

    /// Makes a step while the value is with a writer, on what the channel from
    /// the guard said. A guard that was dropped has taken the value with it: an
    /// error.
    pub fn on_unlock(
        &mut self,
        unlock: oneshot::Receiver<(T, bool)>,
        completion: CompletionSender<T>,
        polled: Poll<(T, bool), oneshot::Canceled>,
    ) -> (result: StepResult<T, W>)
        ensures
            final(self).is_whole() == old(self).is_whole(),
            final(self).requests() == old(self).requests(),
            final(self).state() == old(self).state(),
            result.1 == RwLockEvent::<T, W, R>::Unlock(polled, unlock).outcome(),
            (RwLockMoment {
                state: RwLockState::<T, W>::LockedWrite { unlock, completion },
                ..old(self).moment()
            }).moves(
                RwLockEvent::<T, W, R>::Unlock(polled, unlock),
                (RwLockMoment { state: result.0, ..final(self).moment() }),
            ),
    {
        match polled {
            // Received an unlock message
            Ok(Async::Ready((value, poisoned))) => self.satisfy_write_unlock(
                value,
                poisoned,
                completion,
            ),
            // No unlock message yet
            Ok(Async::NotReady) => (
                RwLockState::LockedWrite { unlock, completion },
                Ok(Async::NotReady),
            ),
            // The guard is gone and will never send one
            Err(_) => (RwLockState::LockedWrite { unlock, completion }, Err(())),
        }
    }

    /// Makes one step: asks the request queue, the readers' pointer or the
    /// writer's channel, whichever the state calls for, once, and acts on the
    /// answer.
    pub fn step(&mut self, state: RwLockState<T, W>) -> (result: StepResult<T, W>)
        requires
            old(self).is_whole(),
            state !is Invalid,
            in_task(),
        ensures
            final(self).is_whole(),
            final(self).state() == old(self).state(),
            (RwLockMoment { state, ..old(self).moment() }).steps(
                (RwLockMoment { state: result.0, ..final(self).moment() }),
                result.1,
            ),
            state is LockedReadPendingWrite || state is LockedWrite ==> final(self).requests()
                == old(self).requests(),
            result.1 matches Ok(Async::NotReady) ==> final(self).moment() == old(self).moment()
                && result.0 == state,
    {
        let ghost pre = RwLockMoment { state, ..self.moment() };
        match state {
            // RwLock is currently unlocked
            RwLockState::Unlocked { value, completion } => {
                // Check for lock requests
                let polled = self.requests.poll();
                let ghost event = RwLockEvent::<T, W, R>::Requests(polled, self.requests());
                assert(pre.observes(event));
                self.on_requests(value, completion, polled)
            },
            // RwLock is currently read locked, with no pending write locks
            RwLockState::LockedRead { arc, completion } => {
                // Check for any lock requests
                let polled = self.requests.poll();
                let ghost rest = self.requests();
                let result = self.on_reading(arc, completion, polled);
                proof {
                    let next = RwLockMoment { state: result.0, ..self.moment() };
                    let left = choose|left: bool|
                        {
                            &&& !(polled matches Ok(Async::Ready(Some(_)))) ==> emptied(arc, left)
                            &&& result.1 == #[trigger] RwLockEvent::<T, W, R>::Reading(
                                polled,
                                rest,
                                arc,
                                left,
                            ).outcome()
                            &&& pre.moves(
                                RwLockEvent::<T, W, R>::Reading(polled, rest, arc, left),
                                next,
                            )
                        };
                    let event = RwLockEvent::<T, W, R>::Reading(polled, rest, arc, left);
                    assert(pre.observes(event));
                }
                result
            },
            // RwLock is currently read locked, with a pending write lock
            RwLockState::LockedReadPendingWrite { arc, req, completion } => {
                // Check if all read locks have been released
                let unwrapped = arc.try_unwrap();
                let ghost event = RwLockEvent::<T, W, R>::Draining(arc, unwrapped is Ok);
                assert(pre.observes(event));
                self.on_draining(unwrapped, req, completion)
            },
            // RwLock is currently write locked
            RwLockState::LockedWrite { unlock, completion } => {
                // Check for an unlock notification
                let (unlock, polled) = collect(unlock);
                let ghost event = RwLockEvent::<T, W, R>::Unlock(polled, unlock);
                assert(pre.observes(event));
                self.on_unlock(unlock, completion, polled)
            },
            // We should never be polled while in this transient state
            RwLockState::Invalid => vstd::pervasive::unreached(),
        }
    }

    /// Runs the task until it has to wait or has finished.
    ///
    /// It fails just when a write guard was dropped together with the value.
    pub fn poll(&mut self) -> (result: Poll<(), ()>)
        requires
            old(self).is_whole(),
            old(self).state() !is Invalid,
            in_task(),
        ensures
            final(self).is_whole(),
            final(self).state() !is Invalid,
            exists|run: RwLockRun<T, W, R>| #[trigger]
                run.is_poll(old(self).moment(), final(self).moment(), result),
    {
        let ghost mut run = RwLockRun::<T, W, R> { moments: seq![self.moment()], events: seq![] };
        let mut steps: u64 = 0;
        // Run the state machine until it blocks
        while steps < STEP_BUDGET
            invariant
                in_task(),
                self.is_whole(),
                self.state() !is Invalid,
                run.valid(),
                run.observed(),
                run.events.len() == steps,
                run.goes_on(steps as int),
                run.moments.first() == old(self).moment(),
                run.moments.last() == self.moment(),
                steps <= STEP_BUDGET,
            decreases STEP_BUDGET - steps,
        {
            let ghost pre = self.moment();
            // Enter "Invalid" state temporarily
            let mut state = RwLockState::Invalid;
            std::mem::swap(&mut self.state, &mut state);
            // Step the FSM
            let (state, outcome) = self.step(state);
            // Enter the new state
            self.state = state;
            proof {
                let event = choose|event: RwLockEvent<T, W, R>|
                    {
                        &&& #[trigger] pre.observes(event)
                        &&& pre.moves(event, self.moment())
                        &&& outcome == event.outcome()
                    };
                run = run.push(event, self.moment());
            }
            steps = steps + 1;
            // Check if we're done
            match outcome {
                Ok(Async::NotReady) => {
                    let result = Ok(Async::NotReady);
                    assert(run.is_poll(old(self).moment(), self.moment(), result));
                    return result;
                },
                Ok(Async::Ready(true)) => {
                    let result = Ok(Async::Ready(()));
                    assert(run.is_poll(old(self).moment(), self.moment(), result));
                    return result;
                },
                Ok(Async::Ready(false)) => {},
                Err(()) => {
                    let result = Err(());
                    assert(run.is_poll(old(self).moment(), self.moment(), result));
                    return result;
                },
            }
        }
        // Let other tasks run, and come back
        let task = futures::task::current();
        task.notify();
        assert(running(task) && notified(task));
        let result = Ok(Async::NotReady);
        assert(run.is_poll(old(self).moment(), self.moment(), result));
        result
    }

    /// Gives the value, if it is here, to whoever awaits the completion of the
    /// lock. If it is with others too, nothing is sent; what the task held comes
    /// back, and dropping it cancels the completion and a waiting writer.
    pub fn finish(&mut self) -> (rest: RwLockState<T, W>)
        ensures
            final(self).is_whole() == old(self).is_whole(),
            final(self).requests() == old(self).requests(),
            final(self).poisoned() == old(self).poisoned(),
            final(self).state() is Invalid,
            old(self).moment().finishes(rest),
    {
        let mut state = RwLockState::Invalid;
        std::mem::swap(&mut self.state, &mut state);
        match state {
            RwLockState::Unlocked { value, completion } => {
                let result = self.poison(value);
                deliver(completion, result);
                RwLockState::Invalid
            },
            rest => rest,
        }
    }
}

impl<T: Send, W: From<RwLockWriteGuard<T>>, R: From<RwLockReadGuard<T>>> Future for RwLockTask<
    T,
    W,
    R,
> {
    type Item = ();

    type Error = ();

    fn poll(&mut self) -> (result: Poll<(), ()>)
        requires
            old(self).is_whole(),
            old(self).state() !is Invalid,
            in_task(),
        ensures
            final(self).is_whole(),
            final(self).state() !is Invalid,
            exists|run: RwLockRun<T, W, R>| #[trigger]
                run.is_poll(old(self).moment(), final(self).moment(), result),
    {
        RwLockTask::poll(self)
    }
}

/// Future which completes with the value contained within an RwLock.
#[verifier::reject_recursive_types(T)]
pub struct RwLockCompletion<T: Send>(Option<oneshot::Receiver<LockResult<T>>>);

impl<T: Send> RwLockCompletion<T> {
    /// The receiving end is here. It is, except within a poll.
    pub closed spec fn is_whole(self) -> bool {
        self.0 is Some
    }

    /// Where the value arrives.
    pub closed spec fn receiver(self) -> oneshot::Receiver<LockResult<T>> {
        self.0->0
    }

    /// Asks for the value.
    pub fn poll(&mut self) -> (polled: Poll<LockResult<T>, oneshot::Canceled>)
        requires
            old(self).is_whole(),
            in_task(),
        ensures
            final(self).is_whole(),
            collected(old(self).receiver(), polled, final(self).receiver()),
            polled matches Ok(Async::NotReady) ==> *final(self) == *old(self),
    {
        match self.0.take() {
            Some(receiver) => {
                let (receiver, polled) = collect(receiver);
                self.0 = Some(receiver);
                polled
            },
            None => vstd::pervasive::unreached(),
        }
    }
}

impl<T: Send> Future for RwLockCompletion<T> {
    type Item = LockResult<T>;

    type Error = oneshot::Canceled;

    fn poll(&mut self) -> (polled: Poll<LockResult<T>, oneshot::Canceled>)
        requires
            old(self).is_whole(),
            in_task(),
        ensures
            final(self).is_whole(),
            collected(old(self).receiver(), polled, final(self).receiver()),
            polled matches Ok(Async::NotReady) ==> *final(self) == *old(self),
    {
        RwLockCompletion::poll(self)
    }
}

/// The lock has gone before it could be locked.
#[derive(Clone, Copy, PartialEq, Eq, Debug, Structural)]
pub struct Canceled;

impl Canceled {
    /// What went wrong, in words.
    pub fn description(&self) -> (text: &str)
        ensures
            text@ == "RwLock canceled"@,
    {
        "RwLock canceled"
    }
}

/// A handle to a future-based RwLock.
#[verifier::reject_recursive_types(W)]
#[verifier::reject_recursive_types(R)]
pub struct RwLock<W, R>(mpsc::Sender<LockRequest<W, R>>);

/// Future which completes with a guard (`G` is `W` for a writer and `R` for a
/// reader), and with the handle that asked for it.
#[verifier::reject_recursive_types(W)]
#[verifier::reject_recursive_types(R)]
#[verifier::reject_recursive_types(G)]
pub struct RwLockAcquire<W, R, G>(Exchange<LockRequest<W, R>, LockResult<G>>);

impl<W, R, G> RwLockAcquire<W, R, G> {
    /// The request and its reply.
    pub closed spec fn exchange(self) -> Exchange<LockRequest<W, R>, LockResult<G>> {
        self.0
    }

    /// Hands out what an exchange came to.
    pub fn on_exchange(
        polled: Poll<(mpsc::Sender<LockRequest<W, R>>, LockResult<G>), ()>,
    ) -> (result: Poll<(RwLock<W, R>, LockResult<G>), Canceled>)
        ensures
            RwLock::locks(polled, result),
    {
        match polled {
            Ok(Async::Ready((sender, reply))) => Ok(Async::Ready((RwLock(sender), reply))),
            Ok(Async::NotReady) => Ok(Async::NotReady),
            Err(()) => Err(Canceled),
        }
    }

    /// Carries the request on, and sends no other. Not to be called after it has
    /// completed.
    pub fn poll(&mut self) -> (result: Poll<(RwLock<W, R>, LockResult<G>), Canceled>)
        requires
            old(self).exchange().may_poll(),
        ensures
            final(self).exchange().is_over() <==> !(result matches Ok(Async::NotReady)),
            exists|polled: Poll<(mpsc::Sender<LockRequest<W, R>>, LockResult<G>), ()>| #[trigger]
                old(self).exchange().polls(final(self).exchange(), polled) && RwLock::locks(
                    polled,
                    result,
                ),
    {
        let polled = self.0.poll();
        Self::on_exchange(polled)
    }
}

impl<W, R, G> Future for RwLockAcquire<W, R, G> {
    type Item = (RwLock<W, R>, LockResult<G>);

    type Error = Canceled;

    fn poll(&mut self) -> (result: Poll<(RwLock<W, R>, LockResult<G>), Canceled>)
        requires
            old(self).exchange().may_poll(),
        ensures
            final(self).exchange().is_over() <==> !(result matches Ok(Async::NotReady)),
            exists|polled: Poll<(mpsc::Sender<LockRequest<W, R>>, LockResult<G>), ()>| #[trigger]
                old(self).exchange().polls(final(self).exchange(), polled) && RwLock::locks(
                    polled,
                    result,
                ),
    {
        RwLockAcquire::poll(self)
    }
}

impl<W, R> Clone for RwLock<W, R> {
    fn clone(&self) -> (copy: Self)
        ensures
            cloned(self.sender(), copy.sender()),
    {
        RwLock(self.0.clone())
    }
}

impl<W, R> RwLock<W, R> {
    /// Where requests are sent.
    pub closed spec fn sender(self) -> mpsc::Sender<LockRequest<W, R>> {
        self.0
    }

    /// `result` is what a locker sees of an exchange that came to `polled`.
    pub open spec fn locks<G>(
        polled: Poll<(mpsc::Sender<LockRequest<W, R>>, LockResult<G>), ()>,
        result: Poll<(RwLock<W, R>, LockResult<G>), Canceled>,
    ) -> bool {
        match polled {
            Ok(Async::Ready((sender, reply))) => {
                &&& result matches Ok(Async::Ready((rwlock, got)))
                &&& rwlock.sender() == sender
                &&& got == reply
            },
            Ok(Async::NotReady) => result matches Ok(Async::NotReady),
            Err(()) => result matches Err(Canceled),
        }
    }

    /// The three belong to one new lock on `value`: requests of the handle
    /// arrive at the task, the task holds the value and is not poisoned, and
    /// gives it to the completion in the end.
    pub open spec fn starts<T: Send>(
        self,
        value: T,
        task: RwLockTask<T, W, R>,
        completion: RwLockCompletion<T>,
    ) -> bool {
        &&& task.is_whole()
        &&& completion.is_whole()
        &&& queued(0, self.sender(), task.requests())
        &&& !task.poisoned()
        &&& task.state() matches RwLockState::Unlocked { value: held, completion: sender }
        &&& held == value
        &&& paired(sender, completion.receiver())
    }

    /// Creates a new rwlock and leaves it to the caller to run its task.
    pub fn with_task<T: Send>(value: T) -> (parts: (
        Self,
        RwLockTask<T, W, R>,
        RwLockCompletion<T>,
    ))
        ensures
            parts.0.starts(value, parts.1, parts.2),
    {
        let (sender, receiver) = mpsc::channel(0);
        let (completion_sender, completion_receiver) = oneshot::channel();
        let task = RwLockTask {
            requests: Inbox::new(receiver),
            state: RwLockState::Unlocked { value, completion: completion_sender },
            is_poisoned: false,
        };
        (RwLock(sender), task, RwLockCompletion(Some(completion_receiver)))
    }

    /// Creates a new rwlock and runs it on the specified `Spawn` implementation.
    pub fn new<T: Send, S: Spawn<RwLockTask<T, W, R>>>(value: T, spawn: &S) -> (parts: (
        Self,
        RwLockCompletion<T>,
    ))
        ensures
            exists|task: RwLockTask<T, W, R>| #[trigger]
                spawned(spawn, task) && parts.0.starts(value, task, parts.1),
    {
        let (rwlock, task, completion) = Self::with_task(value);
        spawn.spawn_detached(task);
        assert(spawned(spawn, task));
        (rwlock, completion)
    }

    /// Attempts to lock the RwLock for writing.
    pub fn write(self) -> (acquire: RwLockAcquire<W, R, W>)
        ensures
            exists|reply: WriteGuardSender<W>, receiver: oneshot::Receiver<LockResult<W>>|
                {
                    &&& #[trigger] paired(reply, receiver)
                    &&& acquire.exchange().outgoing == Outgoing::Offering(
                        self.sender(),
                        LockRequest::Exclusive(reply),
                    )
                    &&& acquire.exchange().incoming == Incoming::Waiting(receiver)
                },
    {
        let (sender, receiver) = oneshot::channel();
        assert(paired(sender, receiver));
        RwLockAcquire(Exchange::new(self.0, LockRequest::Exclusive(sender), receiver))
    }

    /// Attempts to lock the RwLock for reading.
    pub fn read(self) -> (acquire: RwLockAcquire<W, R, R>)
        ensures
            exists|reply: ReadGuardSender<R>, receiver: oneshot::Receiver<LockResult<R>>|
                {
                    &&& #[trigger] paired(reply, receiver)
                    &&& acquire.exchange().outgoing == Outgoing::Offering(
                        self.sender(),
                        LockRequest::Shared(reply),
                    )
                    &&& acquire.exchange().incoming == Incoming::Waiting(receiver)
                },
    {
        let (sender, receiver) = oneshot::channel();
        assert(paired(sender, receiver));
        RwLockAcquire(Exchange::new(self.0, LockRequest::Shared(sender), receiver))
    }
}

} // verus!
