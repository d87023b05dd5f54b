//! A mutex whose value is owned by a task.
//!
//! Lockers send requests to the task through a queue. The task answers one
//! request at a time: it moves the value into a guard, sends the guard to the
//! locker, and waits until the value comes back.

use crate::sync::exchange::{Exchange, Incoming, Outgoing};
use crate::sync::primitives::{
    collect, collected, converted, deliver, delivered, drawn, flagged, in_task, notified, paired,
    queued, running, sent, Inbox, STEP_BUDGET,
};
use crate::{spawned, Spawn};
use futures::sync::{mpsc, oneshot};
use futures::{Async, Future, Poll};
use std::ops::{Deref, DerefMut};
use std::sync::{LockResult, PoisonError};
use vstd::prelude::*;

verus! {

/// Where the value goes when the mutex is done.
pub type CompletionSender<T> = oneshot::Sender<LockResult<T>>;

/// Where a locker waits for its guard.
pub type GuardSender<G> = oneshot::Sender<LockResult<G>>;

/// The state after a step, and whether the task has finished.
pub type StepResult<T> = (MutexState<T>, Poll<bool, ()>);

/// A request for the lock.
#[verifier::reject_recursive_types(G)]
pub struct LockRequest<G>(pub GuardSender<G>);

/// What the task holds.
#[verifier::reject_recursive_types(T)]
pub enum MutexState<T: Send> {
    /// The value is here.
    Unlocked(T, CompletionSender<T>),
    /// The value is with a guard, and will come back with a poison flag.
    Locked(oneshot::Receiver<(T, bool)>, CompletionSender<T>),
    /// Nothing is here: a step is being made, or the task is done.
    Invalid,
}

/// A guard mediating access to the mutex.
///
/// The value goes back to the mutex through `release`; a guard that is dropped
/// takes the value with it. Lockers get their guard inside a type of their
/// choice, made with `From`, whose destructor can do the release.
#[verifier::reject_recursive_types(T)]
pub struct MutexGuard<T: Send> {
    value: T,
    unlock: oneshot::Sender<(T, bool)>,
}

impl<T: Send> MutexGuard<T> {
    /// The guarded value.
    pub closed spec fn value(self) -> T {
        self.value
    }

    /// Where the value goes back.
    pub closed spec fn unlock(self) -> oneshot::Sender<(T, bool)> {
        self.unlock
    }

    /// A guard on `value`.
    pub fn new(value: T, unlock: oneshot::Sender<(T, bool)>) -> (guard: Self)
        ensures
            guard.value() == value,
            guard.unlock() == unlock,
    {
        MutexGuard { value, unlock }
    }

    /// Gives the value back. `panicking` says whether the holder is unwinding,
    /// in which case the mutex is poisoned.
    pub fn release(self, panicking: bool)
        ensures
            delivered(self.unlock(), (self.value(), panicking)),
            sent(self.unlock(), (self.value(), panicking)),
    {
        deliver(self.unlock, (self.value, panicking));
    }
}

impl<T: Send> Deref for MutexGuard<T> {
    type Target = T;

    fn deref(&self) -> (value: &T)
        ensures
            *value == self.value(),
    {
        &self.value
    }
}

impl<T: Send> DerefMut for MutexGuard<T> {
    fn deref_mut(&mut self) -> (value: &mut T)
        ensures
            *value == old(self).value(),
            final(self).value() == *final(value),
            final(self).unlock() == old(self).unlock(),
    {
        &mut self.value
    }
}

/// One answer of the outside world to the task.
#[verifier::reject_recursive_types(T)]
#[verifier::reject_recursive_types(G)]
pub enum MutexEvent<T: Send, G> {
    /// What the request queue said while the value was here, and what it was
    /// afterwards.
    Requests(Poll<Option<LockRequest<G>>, ()>, mpsc::Receiver<LockRequest<G>>),
    /// What the channel from the guard said while the value was away, and what
    /// it was afterwards.
    Unlock(Poll<(T, bool), oneshot::Canceled>, oneshot::Receiver<(T, bool)>),
}

impl<T: Send, G> MutexEvent<T, G> {
    /// Whether the task goes on after the event: `Ok(Ready(true))` if it has
    /// finished, `Ok(Ready(false))` if there is more to do, `Ok(NotReady)` if
    /// it has to wait, and an error if the value is lost.
    pub open spec fn outcome(self) -> Poll<bool, ()> {
        match self {
            MutexEvent::Requests(Ok(Async::Ready(None)), _) => Ok(Async::Ready(true)),
            MutexEvent::Requests(Ok(Async::Ready(Some(_))), _) => Ok(Async::Ready(false)),
            MutexEvent::Requests(Ok(Async::NotReady), _) => Ok(Async::NotReady),
            MutexEvent::Unlock(Ok(Async::Ready(_)), _) => Ok(Async::Ready(false)),
            MutexEvent::Unlock(Ok(Async::NotReady), _) => Ok(Async::NotReady),
            MutexEvent::Requests(Err(_), _) | MutexEvent::Unlock(Err(_), _) => Err(()),
        }
    }

    /// The event hands the value to a locker.
    pub open spec fn is_grant(self) -> bool {
        self matches MutexEvent::Requests(Ok(Async::Ready(Some(_))), _)
    }

    /// The event brings the value back.
    pub open spec fn is_return(self) -> bool {
        self matches MutexEvent::Unlock(Ok(Async::Ready(_)), _)
    }
}

/// A guard on `value` has been sent to `req`, flagged as the mutex is poisoned
/// or not, and what it gives back will arrive at `receiver`. If the locker has
/// gone, its guard has been dropped.
pub open spec fn granted<T: Send, G: From<MutexGuard<T>>>(
    value: T,
    poisoned: bool,
    req: GuardSender<G>,
    receiver: oneshot::Receiver<(T, bool)>,
) -> bool {
    exists|guard: MutexGuard<T>, owner: G, reply: LockResult<G>|
        #![trigger converted(guard, owner), delivered(req, reply)]
        {
            &&& guard.value() == value
            &&& paired(guard.unlock(), receiver)
            &&& converted(guard, owner)
            &&& flagged(poisoned, owner, reply)
            &&& delivered(req, reply)
        }
}

/// All that a mutex task is made of.
#[verifier::reject_recursive_types(T)]
#[verifier::reject_recursive_types(G)]
pub struct MutexMoment<T: Send, G> {
    /// Where requests arrive.
    pub requests: mpsc::Receiver<LockRequest<G>>,
    /// What the task holds.
    pub state: MutexState<T>,
    /// Whether a holder has panicked.
    pub poisoned: bool,
}

impl<T: Send, G: From<MutexGuard<T>>> MutexMoment<T, G> {
    /// `event` takes the mutex from `self` to `next`.
    pub open spec fn moves(self, event: MutexEvent<T, G>, next: Self) -> bool {
        match (self.state, event) {
            (MutexState::Unlocked(value, completion), MutexEvent::Requests(Ok(polled), rest)) => {
                &&& next.requests == rest
                &&& next.poisoned == self.poisoned
                &&& match polled {
                    Async::Ready(Some(LockRequest(req))) => {
                        &&& next.state matches MutexState::Locked(receiver, kept)
                        &&& kept == completion
                        &&& granted(value, self.poisoned, req, receiver)
                    },
                    _ => next.state == self.state,
                }
            },
            (MutexState::Locked(_, completion), MutexEvent::Unlock(polled, rest)) => {
                &&& next.requests == self.requests
                &&& match polled {
                    Ok(Async::Ready((value, panicked))) => {
                        &&& next.poisoned == (self.poisoned || panicked)
                        &&& next.state == MutexState::Unlocked(value, completion)
                    },
                    _ => {
                        &&& next.poisoned == self.poisoned
                        &&& next.state == MutexState::Locked(rest, completion)
                    },
                }
            },
            _ => false,
        }
    }

    /// In this moment the task made one poll, of the request queue or of the
    /// guard's channel, and `event` is what came of it.
    pub open spec fn observes(self, event: MutexEvent<T, G>) -> bool {
        match (self.state, event) {
            (MutexState::Unlocked(_, _), MutexEvent::Requests(polled, rest)) => drawn(
                self.requests,
                polled,
                rest,
            ),
            (MutexState::Locked(receiver, _), MutexEvent::Unlock(polled, rest)) => collected(
                receiver,
                polled,
                rest,
            ),
            _ => false,
        }
    }

    /// One poll and what it came to take the mutex from `self` to `next`.
    pub open spec fn steps(self, next: Self, outcome: Poll<bool, ()>) -> bool {
        exists|event: MutexEvent<T, G>|
            {
                &&& #[trigger] self.observes(event)
                &&& self.moves(event, next)
                &&& outcome == event.outcome()
            }
    }

    /// Finishing the task leaves `rest` of its state: the value, if it is here,
    /// goes to the completion, and otherwise nothing is done.
    pub open spec fn finishes(self, rest: MutexState<T>) -> bool {
        match self.state {
            MutexState::Unlocked(value, completion) => {
                &&& rest is Invalid
                &&& exists|result: LockResult<T>|
                    flagged(self.poisoned, value, result) && #[trigger] delivered(
                        completion,
                        result,
                    )
            },
            _ => rest == self.state,
        }
    }
}

/// A history of the mutex: what the polls came to, and the moments before,
/// between and after.
#[verifier::reject_recursive_types(T)]
#[verifier::reject_recursive_types(G)]
pub struct MutexRun<T: Send, G> {
    /// The moments, one more than the events.
    pub moments: Seq<MutexMoment<T, G>>,
    /// What the polls came to.
    pub events: Seq<MutexEvent<T, G>>,
}

impl<T: Send, G: From<MutexGuard<T>>> MutexRun<T, G> {
    /// Each event takes the mutex from one moment to the next.
    pub open spec fn valid(self) -> bool {
        &&& self.moments.len() == self.events.len() + 1
        &&& forall|i: int|
            0 <= i < self.events.len() ==> self.moments[i].moves(
                #[trigger] self.events[i],
                self.moments[i + 1],
            )
    }

    /// Each event is what one poll of the task came to.
    pub open spec fn observed(self) -> bool {
        forall|i: int|
            0 <= i < self.events.len() ==> self.moments[i].observes(#[trigger] self.events[i])
    }

    /// After each of the first `n` events there was more to do.
    pub open spec fn goes_on(self, n: int) -> bool {
        forall|i: int|
            0 <= i < n ==> (#[trigger] self.events[i]).outcome() == Ok::<_, ()>(
                Async::Ready(false),
            )
    }

    /// This is what a poll of the task does that leads from `pre` to `post` and
    /// returns `result`: it makes steps until one finishes, has to wait or
    /// fails, or until the budget is used up, in which case it asks to be polled
    /// again.
    pub open spec fn is_poll(
        self,
        pre: MutexMoment<T, G>,
        post: MutexMoment<T, G>,
        result: Poll<(), ()>,
    ) -> bool {
        &&& self.valid()
        &&& self.observed()
        &&& 0 < self.events.len() <= STEP_BUDGET
        &&& self.goes_on(self.events.len() - 1)
        &&& self.moments.first() == pre
        &&& self.moments.last() == post
        &&& match self.events.last().outcome() {
            Ok(Async::Ready(true)) => result == Ok::<_, ()>(Async::Ready(())),
            Ok(Async::Ready(false)) => {
                &&& result == Ok::<Async<()>, ()>(Async::NotReady)
                &&& self.events.len() == STEP_BUDGET
                &&& exists|task: futures::task::Task| #[trigger] running(task) && notified(task)
            },
            Ok(Async::NotReady) => result == Ok::<Async<()>, ()>(Async::NotReady),
            Err(()) => result == Err::<Async<()>, ()>(()),
        }
    }

    /// The history with one more event.
    pub open spec fn push(self, event: MutexEvent<T, G>, next: MutexMoment<T, G>) -> Self {
        MutexRun { moments: self.moments.push(next), events: self.events.push(event) }
    }
}

/// Represents a living mutex. Never constructed directly.
///
/// Whoever runs the task calls `finish` before dropping it, so that the
/// completion gets the value; the destructor of an owning type is the place.
#[verifier::reject_recursive_types(T)]
#[verifier::reject_recursive_types(G)]
pub struct MutexTask<T: Send, G> {
    requests: Inbox<LockRequest<G>>,
    state: MutexState<T>,
    is_poisoned: bool,
}

impl<T: Send, G> MutexTask<T, G> {
    /// The task has its receiving end. It does, except within a poll.
    pub closed spec fn is_whole(self) -> bool {
        self.requests.is_whole()
    }

    /// All that the task is made of.
    pub closed spec fn moment(self) -> MutexMoment<T, G> {
        MutexMoment {
            requests: self.requests.queue(),
            state: self.state,
            poisoned: self.is_poisoned,
        }
    }

    /// Where requests arrive.
    pub open spec fn requests(self) -> mpsc::Receiver<LockRequest<G>> {
        self.moment().requests
    }

    /// What the task holds.
    pub open spec fn state(self) -> MutexState<T> {
        self.moment().state
    }

    /// Whether a holder has panicked.
    pub open spec fn poisoned(self) -> bool {
        self.moment().poisoned
    }

    /// Wraps a value in an error if the mutex is poisoned.
    pub fn poison<U>(&self, value: U) -> (result: LockResult<U>)
        ensures
            flagged(self.poisoned(), value, result),
    {
        if self.is_poisoned {
            Err(PoisonError::new(value))
        } else {
            Ok(value)
        }
    }
}

impl<T: Send, G: From<MutexGuard<T>>> MutexTask<T, G> {
    /// Sends the value to a locker.
    pub fn satisfy_lock_req(
        &mut self,
        value: T,
        req: GuardSender<G>,
        completion: CompletionSender<T>,
    ) -> (result: StepResult<T>)
        ensures
            *final(self) == *old(self),
            result.1 == Ok::<_, ()>(Async::Ready(false)),
            result.0 matches MutexState::Locked(receiver, kept) && kept == completion && granted(
                value,
                old(self).poisoned(),
                req,
                receiver,
            ),
    {
        // Create a channel to receive the "unlock" message
        let (sender, receiver) = oneshot::channel();
        // Send a mutex guard to the lucky locker
        let guard = MutexGuard::new(value, sender);
        let owner = G::from(guard);
        let reply = self.poison(owner);
        deliver(req, reply);
        assert(converted(guard, owner));
        // Transition to "locked" state
        (MutexState::Locked(receiver, completion), Ok(Async::Ready(false)))
    }

    /// Takes the value back.
    pub fn satisfy_unlock_req(
        &mut self,
        value: T,
        poisoned: bool,
        completion: CompletionSender<T>,
    ) -> (result: StepResult<T>)
        ensures
            final(self).is_whole() == old(self).is_whole(),
            final(self).requests() == old(self).requests(),
            final(self).state() == old(self).state(),
            final(self).poisoned() == (old(self).poisoned() || poisoned),
            result == (MutexState::Unlocked(value, completion), Ok::<_, ()>(Async::Ready(false))),
    {
        // Unlock and maybe poison the mutex
        self.is_poisoned = self.is_poisoned || poisoned;
        (MutexState::Unlocked(value, completion), Ok(Async::Ready(false)))
    }

    /// Makes a step while the value is here, on what the request queue said.
    pub fn on_requests(
        &mut self,
        value: T,
        completion: CompletionSender<T>,
        polled: Poll<Option<LockRequest<G>>, ()>,
    ) -> (result: StepResult<T>)
        requires
            polled is Ok,
        ensures
            *final(self) == *old(self),
            result.1 == MutexEvent::<T, G>::Requests(polled, old(self).requests()).outcome(),
            (MutexMoment {
                state: MutexState::Unlocked(value, completion),
                ..old(self).moment()
            }).moves(
                MutexEvent::<T, G>::Requests(polled, old(self).requests()),
                (MutexMoment { state: result.0, ..final(self).moment() }),
            ),
    {
        match polled {
            // Lock request stream is closed, so mutex task should end
            Ok(Async::Ready(None)) => (
                MutexState::Unlocked(value, completion),
                Ok(Async::Ready(true)),
            ),
            // Received a lock request
            Ok(Async::Ready(Some(LockRequest(req)))) => self.satisfy_lock_req(
                value,
                req,
                completion,
            ),
            // No requests outstanding
            Ok(Async::NotReady) => (MutexState::Unlocked(value, completion), Ok(Async::NotReady)),
            // The request queue never returns errors
            Err(()) => vstd::pervasive::unreached(),
        }
    }

    /// Makes a step while the value is away, on what the channel from the guard
    /// said. A guard that was dropped has taken the value with it: an error.
    pub fn on_unlock(
        &mut self,
        receiver: oneshot::Receiver<(T, bool)>,
        completion: CompletionSender<T>,
        polled: Poll<(T, bool), oneshot::Canceled>,
    ) -> (result: StepResult<T>)
        ensures
            final(self).is_whole() == old(self).is_whole(),
            final(self).requests() == old(self).requests(),
            final(self).state() == old(self).state(),
            result.1 == MutexEvent::<T, G>::Unlock(polled, receiver).outcome(),
            (MutexMoment {
                state: MutexState::Locked(receiver, completion),
                ..old(self).moment()
            }).moves(
                MutexEvent::<T, G>::Unlock(polled, receiver),
                (MutexMoment { state: result.0, ..final(self).moment() }),
            ),
    {
        match polled {
            // Received an unlock message
            Ok(Async::Ready((value, poisoned))) => self.satisfy_unlock_req(
                value,
                poisoned,
                completion,
            ),
            // No unlock message yet
            Ok(Async::NotReady) => (MutexState::Locked(receiver, completion), Ok(Async::NotReady)),
            // The guard is gone and will never send one
            Err(_) => (MutexState::Locked(receiver, completion), Err(())),
        }
    }

    /// Makes one step: polls the request queue or the guard's channel, whichever
    /// the state calls for, once, and acts on the answer.
    pub fn step(&mut self, state: MutexState<T>) -> (result: StepResult<T>)
        requires
            old(self).is_whole(),
            state !is Invalid,
            in_task(),
        ensures
            final(self).is_whole(),
            final(self).state() == old(self).state(),
            (MutexMoment { state, ..old(self).moment() }).steps(
                (MutexMoment { state: result.0, ..final(self).moment() }),
                result.1,
            ),
            state is Locked ==> final(self).requests() == old(self).requests(),
            result.1 matches Ok(Async::NotReady) ==> final(self).moment() == old(self).moment()
                && result.0 == state,
    {
        let ghost pre = MutexMoment { state, ..self.moment() };
        match state {
            // Mutex is currently unlocked
            MutexState::Unlocked(value, completion) => {
                // Check for lock requests
                let polled = self.requests.poll();
                let ghost event = MutexEvent::<T, G>::Requests(polled, self.requests());
                assert(pre.observes(event));
                self.on_requests(value, completion, polled)
            },
            // Mutex is currently locked
            MutexState::Locked(receiver, completion) => {
                // Check for an unlock notification
                let (receiver, polled) = collect(receiver);
                let ghost event = MutexEvent::<T, G>::Unlock(polled, receiver);
                assert(pre.observes(event));
                self.on_unlock(receiver, completion, polled)
            },
            // We should never be polled while in this transient state
            MutexState::Invalid => vstd::pervasive::unreached(),
        }
    }

    /// Runs the task until it has to wait or has finished.
    ///
    /// It fails just when a guard was dropped together with the value.
    pub fn poll(&mut self) -> (result: Poll<(), ()>)
        requires
            old(self).is_whole(),
            old(self).state() !is Invalid,
            in_task(),
        ensures
            final(self).is_whole(),
            final(self).state() !is Invalid,
            exists|run: MutexRun<T, G>| #[trigger]
                run.is_poll(old(self).moment(), final(self).moment(), result),
    {
        let ghost mut run = MutexRun::<T, G> { moments: seq![self.moment()], events: seq![] };
        let mut steps: u64 = 0;
        // Run the state machine until it blocks
        while steps < STEP_BUDGET
            invariant
                in_task(),
                self.is_whole(),
                self.state() !is Invalid,
                run.valid(),
                run.observed(),
                run.events.len() == steps,
                run.goes_on(steps as int),
                run.moments.first() == old(self).moment(),
                run.moments.last() == self.moment(),
                steps <= STEP_BUDGET,
            decreases STEP_BUDGET - steps,
        {
            let ghost pre = self.moment();
            // Enter "Invalid" state temporarily
            let mut state = MutexState::Invalid;
            std::mem::swap(&mut self.state, &mut state);
            // Step the FSM
            let (state, outcome) = self.step(state);
            // Enter the new state
            self.state = state;
            proof {
                let event = choose|event: MutexEvent<T, G>|
                    {
                        &&& #[trigger] pre.observes(event)
                        &&& pre.moves(event, self.moment())
                        &&& outcome == event.outcome()
                    };
                run = run.push(event, self.moment());
            }
            steps = steps + 1;
            // Check if we're done
            match outcome {
                Ok(Async::NotReady) => {
                    let result = Ok(Async::NotReady);
                    assert(run.is_poll(old(self).moment(), self.moment(), result));
                    return result;
                },
                Ok(Async::Ready(true)) => {
                    let result = Ok(Async::Ready(()));
                    assert(run.is_poll(old(self).moment(), self.moment(), result));
                    return result;
                },
                Ok(Async::Ready(false)) => {},
                Err(()) => {
                    let result = Err(());
                    assert(run.is_poll(old(self).moment(), self.moment(), result));
                    return result;
                },
            }
        }
        // Let other tasks run, and come back
        let task = futures::task::current();
        task.notify();
        assert(running(task) && notified(task));
        let result = Ok(Async::NotReady);
        assert(run.is_poll(old(self).moment(), self.moment(), result));
        result
    }

    /// Gives the value, if it is here, to whoever awaits the completion of the
    /// mutex. If the value is away, nothing is sent; what the task held comes
    /// back, and dropping it cancels the completion.
    pub fn finish(&mut self) -> (rest: MutexState<T>)
        ensures
            final(self).is_whole() == old(self).is_whole(),
            final(self).requests() == old(self).requests(),
            final(self).poisoned() == old(self).poisoned(),
            final(self).state() is Invalid,
            old(self).moment().finishes(rest),
    {
        let mut state = MutexState::Invalid;
        std::mem::swap(&mut self.state, &mut state);
        match state {
            MutexState::Unlocked(value, completion) => {
                let result = self.poison(value);
                deliver(completion, result);
                MutexState::Invalid
            },
            rest => rest,
        }
    }
}

impl<T: Send, G: From<MutexGuard<T>>> Future for MutexTask<T, G> {
    type Item = ();

    type Error = ();

    fn poll(&mut self) -> (result: Poll<(), ()>)
        requires
            old(self).is_whole(),
            old(self).state() !is Invalid,
            in_task(),
        ensures
            final(self).is_whole(),
            final(self).state() !is Invalid,
            exists|run: MutexRun<T, G>| #[trigger]
                run.is_poll(old(self).moment(), final(self).moment(), result),
    {
        MutexTask::poll(self)
    }
}

/// Future which completes with the value contained within a mutex.
#[verifier::reject_recursive_types(T)]
pub struct MutexCompletion<T: Send>(Option<oneshot::Receiver<LockResult<T>>>);

impl<T: Send> MutexCompletion<T> {
    /// The receiving end is here. It is, except within a poll.
    pub closed spec fn is_whole(self) -> bool {
        self.0 is Some
    }

    /// Where the value arrives.
    pub closed spec fn receiver(self) -> oneshot::Receiver<LockResult<T>> {
        self.0->0
    }

    /// Asks for the value.
    pub fn poll(&mut self) -> (polled: Poll<LockResult<T>, oneshot::Canceled>)
        requires
            old(self).is_whole(),
            in_task(),
        ensures
            final(self).is_whole(),
            collected(old(self).receiver(), polled, final(self).receiver()),
            polled matches Ok(Async::NotReady) ==> *final(self) == *old(self),
    {
        match self.0.take() {
            Some(receiver) => {
                let (receiver, polled) = collect(receiver);
                self.0 = Some(receiver);
                polled
            },
            None => vstd::pervasive::unreached(),
        }
    }
}

impl<T: Send> Future for MutexCompletion<T> {
    type Item = LockResult<T>;

    type Error = oneshot::Canceled;

    fn poll(&mut self) -> (polled: Poll<LockResult<T>, oneshot::Canceled>)
        requires
            old(self).is_whole(),
            in_task(),
        ensures
            final(self).is_whole(),
            collected(old(self).receiver(), polled, final(self).receiver()),
            polled matches Ok(Async::NotReady) ==> *final(self) == *old(self),
    {
        MutexCompletion::poll(self)
    }
}

/// The mutex has gone before it could be locked.
#[derive(Clone, Copy, PartialEq, Eq, Debug, Structural)]
pub struct Canceled;

impl Canceled {
    /// What went wrong, in words.
    pub fn description(&self) -> (text: &str)
        ensures
            text@ == "Mutex canceled"@,
    {
        "Mutex canceled"
    }
}

/// A handle to a future-based mutex.
#[verifier::reject_recursive_types(G)]
pub struct Mutex<G>(mpsc::Sender<LockRequest<G>>);

/// Future which completes with a guard, and with the handle that asked for it.
#[verifier::reject_recursive_types(G)]
pub struct MutexLock<G>(Exchange<LockRequest<G>, LockResult<G>>);

impl<G> MutexLock<G> {
    /// The request and its reply.
    pub closed spec fn exchange(self) -> Exchange<LockRequest<G>, LockResult<G>> {
        self.0
    }

    /// Hands out what an exchange came to.
    pub fn on_exchange(
        polled: Poll<(mpsc::Sender<LockRequest<G>>, LockResult<G>), ()>,
    ) -> (result: Poll<(Mutex<G>, LockResult<G>), Canceled>)
        ensures
            Mutex::locks(polled, result),
    {
        match polled {
            Ok(Async::Ready((sender, reply))) => Ok(Async::Ready((Mutex(sender), reply))),
            Ok(Async::NotReady) => Ok(Async::NotReady),
            Err(()) => Err(Canceled),
        }
    }

    /// Carries the request on, and sends no other. Not to be called after it has
    /// completed.
    pub fn poll(&mut self) -> (result: Poll<(Mutex<G>, LockResult<G>), Canceled>)
        requires
            old(self).exchange().may_poll(),
        ensures
            final(self).exchange().is_over() <==> !(result matches Ok(Async::NotReady)),
            exists|polled: Poll<(mpsc::Sender<LockRequest<G>>, LockResult<G>), ()>| #[trigger]
                old(self).exchange().polls(final(self).exchange(), polled) && Mutex::locks(
                    polled,
                    result,
                ),
    {
        let polled = self.0.poll();
        Self::on_exchange(polled)
    }
}

impl<G> Future for MutexLock<G> {
    type Item = (Mutex<G>, LockResult<G>);

    type Error = Canceled;

    fn poll(&mut self) -> (result: Poll<(Mutex<G>, LockResult<G>), Canceled>)
        requires
            old(self).exchange().may_poll(),
        ensures
            final(self).exchange().is_over() <==> !(result matches Ok(Async::NotReady)),
            exists|polled: Poll<(mpsc::Sender<LockRequest<G>>, LockResult<G>), ()>| #[trigger]
                old(self).exchange().polls(final(self).exchange(), polled) && Mutex::locks(
                    polled,
                    result,
                ),
    {
        MutexLock::poll(self)
    }
}

impl<G> Clone for Mutex<G> {
    fn clone(&self) -> (copy: Self)
        ensures
            cloned(self.sender(), copy.sender()),
    {
        Mutex(self.0.clone())
    }
}

impl<G> Mutex<G> {
    /// Where requests are sent.
    pub closed spec fn sender(self) -> mpsc::Sender<LockRequest<G>> {
        self.0
    }

    /// `result` is what a locker sees of an exchange that came to `polled`.
    pub open spec fn locks(
        polled: Poll<(mpsc::Sender<LockRequest<G>>, LockResult<G>), ()>,
        result: Poll<(Mutex<G>, LockResult<G>), Canceled>,
    ) -> bool {
        match polled {
            Ok(Async::Ready((sender, reply))) => {
                &&& result matches Ok(Async::Ready((mutex, got)))
                &&& mutex.sender() == sender
                &&& got == reply
            },
            Ok(Async::NotReady) => result matches Ok(Async::NotReady),
            Err(()) => result matches Err(Canceled),
        }
    }

    /// The three belong to one new mutex on `value`: requests of the handle
    /// arrive at the task, the task holds the value and is not poisoned, and
    /// gives it to the completion in the end.
    pub open spec fn starts<T: Send>(
        self,
        value: T,
        task: MutexTask<T, G>,
        completion: MutexCompletion<T>,
    ) -> bool {
        &&& task.is_whole()
        &&& completion.is_whole()
        &&& queued(0, self.sender(), task.requests())
        &&& !task.poisoned()
        &&& task.state() matches MutexState::Unlocked(held, sender)
        &&& held == value
        &&& paired(sender, completion.receiver())
    }

    /// Creates a new mutex and leaves it to the caller to run its task.
    pub fn with_task<T: Send>(value: T) -> (parts: (Self, MutexTask<T, G>, MutexCompletion<T>))
        ensures
            parts.0.starts(value, parts.1, parts.2),
    {
        let (sender, receiver) = mpsc::channel(0);
        let (completion_sender, completion_receiver) = oneshot::channel();
        let task = MutexTask {
            requests: Inbox::new(receiver),
            state: MutexState::Unlocked(value, completion_sender),
            is_poisoned: false,
        };
        (Mutex(sender), task, MutexCompletion(Some(completion_receiver)))
    }

    /// Creates a new mutex and runs it on the specified `Spawn` implementation.
    pub fn new<T: Send, S: Spawn<MutexTask<T, G>>>(value: T, spawn: &S) -> (parts: (
        Self,
        MutexCompletion<T>,
    ))
        ensures
            exists|task: MutexTask<T, G>| #[trigger]
                spawned(spawn, task) && parts.0.starts(value, task, parts.1),
    {
        let (mutex, task, completion) = Self::with_task(value);
        spawn.spawn_detached(task);
        assert(spawned(spawn, task));
        (mutex, completion)
    }

    /// Attempts to lock the mutex.
    pub fn lock(self) -> (lock: MutexLock<G>)
        ensures
            exists|reply: GuardSender<G>, receiver: oneshot::Receiver<LockResult<G>>|
                {
                    &&& #[trigger] paired(reply, receiver)
                    &&& lock.exchange().outgoing == Outgoing::Offering(
                        self.sender(),
                        LockRequest(reply),
                    )
                    &&& lock.exchange().incoming == Incoming::Waiting(receiver)
                },
    {
        let (sender, receiver) = oneshot::channel();
        assert(paired(sender, receiver));
        MutexLock(Exchange::new(self.0, LockRequest(sender), receiver))
    }
}

} // verus!
