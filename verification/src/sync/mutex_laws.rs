//! What holds of every history of a mutex.

use crate::sync::exchange::{law_exchange_reply_was_sent, Exchange, Incoming};
use crate::sync::mutex::{
    granted, Canceled, GuardSender, LockRequest, Mutex, MutexCompletion, MutexEvent, MutexGuard,
    MutexMoment, MutexRun, MutexState, MutexTask,
};
use crate::sync::primitives::{
    collected, converted, delivered, drained, drawn, flagged, law_collected_was_sent,
    law_nothing_collected, law_nothing_drawn, law_sent_is_not_canceled, notified, paired, running,
    sent, STEP_BUDGET,
};
use futures::sync::{mpsc, oneshot};
use futures::task::Task;
use futures::{Async, Poll};
use std::sync::LockResult;
use vstd::prelude::*;

verus! {

impl<T: Send, G> MutexEvent<T, G> {
    /// The request that the event takes from the queue.
    pub open spec fn request(self) -> Option<LockRequest<G>> {
        match self {
            MutexEvent::Requests(Ok(Async::Ready(request)), _) => request,
            _ => None,
        }
    }
}

impl<T: Send, G> MutexMoment<T, G> {
    /// What the mutex is to give its value to in the end.
    pub open spec fn completion(self) -> oneshot::Sender<LockResult<T>>
        recommends
            self.state !is Invalid,
    {
        match self.state {
            MutexState::Unlocked(_, completion) => completion,
            MutexState::Locked(_, completion) => completion,
            MutexState::Invalid => arbitrary(),
        }
    }

    /// The value, unless a guard has it.
    pub open spec fn value(self) -> Option<T> {
        match self.state {
            MutexState::Unlocked(value, _) => Some(value),
            _ => None,
        }
    }
}

impl<T: Send, G: From<MutexGuard<T>>> MutexRun<T, G> {
    /// The value does not come back from event `a` on and before event `b`.
    pub open spec fn no_return(self, a: int, b: int) -> bool {
        forall|k: int| a <= k < b ==> !(#[trigger] self.events[k]).is_return()
    }

    /// No guard is found to have gone with the value from event `a` on and before
    /// event `b`.
    pub open spec fn no_loss(self, a: int, b: int) -> bool {
        forall|k: int|
            a <= k < b ==> !(#[trigger] self.events[k] matches MutexEvent::Unlock(Err(_), _))
    }

    /// A holder was unwinding when it gave the value back, before event `n`.
    pub open spec fn panicked_before(self, n: int) -> bool {
        exists|k: int|
            0 <= k < n && (#[trigger] self.events[k] matches MutexEvent::Unlock(
                Ok(Async::Ready((_, true))),
                _,
            ))
    }

    /// The requests that were taken from the queue before event `n`, in order.
    pub open spec fn asked(self, n: int) -> Seq<LockRequest<G>>
        decreases n,
    {
        if n <= 0 {
            Seq::empty()
        } else {
            match self.events[n - 1].request() {
                Some(request) => self.asked(n - 1).push(request),
                None => self.asked(n - 1),
            }
        }
    }

    /// The value that was given back last before event `n`, or else the one that
    /// the history starts with.
    pub open spec fn last_value(self, n: int) -> Option<T>
        decreases n,
    {
        if n <= 0 {
            self.moments.first().value()
        } else {
            match self.events[n - 1] {
                MutexEvent::Unlock(Ok(Async::Ready((value, _))), _) => Some(value),
                _ => self.last_value(n - 1),
            }
        }
    }

    /// This history, and then `later`.
    pub open spec fn then_run(self, later: Self) -> Self {
        MutexRun {
            moments: self.moments + later.moments.drop_first(),
            events: self.events + later.events,
        }
    }
}

/// While the value is away and does not come back, it stays away.
proof fn lemma_stays_locked<T: Send, G: From<MutexGuard<T>>>(run: MutexRun<T, G>, a: int, b: int)
    requires
        run.valid(),
        0 <= a <= b <= run.events.len(),
        run.moments[a].state is Locked,
        run.no_return(a, b),
    ensures
        run.moments[b].state is Locked,
    decreases b - a,
{
    if a < b {
        lemma_stays_locked(run, a, b - 1);
        assert(!run.events[b - 1].is_return());
        assert(run.moments[b - 1].moves(run.events[b - 1], run.moments[b]));
    }
}

/// While the value is here and none comes back, it either stays or goes away.
proof fn lemma_value_kept<T: Send, G: From<MutexGuard<T>>>(run: MutexRun<T, G>, a: int, b: int)
    requires
        run.valid(),
        0 <= a <= b <= run.events.len(),
        run.moments[a].state is Unlocked,
        run.no_return(a, b),
    ensures
        run.moments[b].poisoned == run.moments[a].poisoned,
        run.moments[b].state == run.moments[a].state || run.moments[b].state is Locked,
    decreases b - a,
{
    if a < b {
        lemma_value_kept(run, a, b - 1);
        assert(!run.events[b - 1].is_return());
        assert(run.moments[b - 1].moves(run.events[b - 1], run.moments[b]));
    }
}

/// While the value is away, and its holder has sent it but the task has not
/// taken it yet, nothing changes.
proof fn lemma_waits<T: Send, G: From<MutexGuard<T>>>(
    run: MutexRun<T, G>,
    a: int,
    b: int,
    sender: oneshot::Sender<(T, bool)>,
    message: (T, bool),
)
    requires
        run.valid(),
        run.observed(),
        0 <= a <= b <= run.events.len(),
        run.moments[a].state matches MutexState::Locked(receiver, _) && paired(sender, receiver),
        sent(sender, message),
        run.no_return(a, b),
    ensures
        run.moments[b] == run.moments[a],
    decreases b - a,
{
    if a < b {
        lemma_waits(run, a, b - 1, sender, message);
        assert(!run.events[b - 1].is_return());
        assert(run.moments[b - 1].moves(run.events[b - 1], run.moments[b]));
        assert(run.moments[b - 1].observes(run.events[b - 1]));
        if let MutexState::Locked(receiver, _) = run.moments[b - 1].state {
            if let MutexEvent::Unlock(polled, rest) = run.events[b - 1] {
                law_sent_is_not_canceled(sender, receiver, message, polled, rest);
                law_nothing_collected(receiver, polled, rest);
            }
        }
    }
}

/// While the value is away, does not come back and is not found to be lost,
/// nothing changes.
proof fn lemma_keeps_waiting<T: Send, G: From<MutexGuard<T>>>(run: MutexRun<T, G>, a: int, b: int)
    requires
        run.valid(),
        run.observed(),
        0 <= a <= b <= run.events.len(),
        run.moments[a].state is Locked,
        run.no_return(a, b),
        run.no_loss(a, b),
    ensures
        run.moments[b] == run.moments[a],
    decreases b - a,
{
    if a < b {
        lemma_keeps_waiting(run, a, b - 1);
        assert(!run.events[b - 1].is_return());
        assert(run.moments[b - 1].moves(run.events[b - 1], run.moments[b]));
        assert(run.moments[b - 1].observes(run.events[b - 1]));
        if let MutexState::Locked(receiver, _) = run.moments[b - 1].state {
            if let MutexEvent::Unlock(polled, rest) = run.events[b - 1] {
                law_nothing_collected(receiver, polled, rest);
            }
        }
    }
}

/// Mutual exclusion: between two grants the value comes back.
pub proof fn law_mutex_exclusive<T: Send, G: From<MutexGuard<T>>>(
    run: MutexRun<T, G>,
    i: int,
    j: int,
)
    requires
        run.valid(),
        0 <= i < j < run.events.len(),
        run.events[i].is_grant(),
        run.events[j].is_grant(),
    ensures
        exists|k: int| i < k < j && (#[trigger] run.events[k]).is_return(),
{
    if run.no_return(i + 1, j) {
        assert(run.moments[i].moves(run.events[i], run.moments[i + 1]));
        lemma_stays_locked(run, i + 1, j);
        assert(run.moments[j].moves(run.events[j], run.moments[j + 1]));
    }
}

/// A locker gets the value that was given back last, or else the first one,
/// flagged as the mutex is poisoned then.
pub proof fn law_mutex_hands_on<T: Send, G: From<MutexGuard<T>>>(run: MutexRun<T, G>, j: int)
    requires
        run.valid(),
        0 <= j < run.events.len(),
        run.moments.first().state !is Invalid,
        run.events[j].is_grant(),
    ensures
        run.last_value(j) is Some,
        run.events[j].request() matches Some(LockRequest(req)) && (run.moments[j + 1].state matches
            MutexState::Locked(receiver, _) && granted(
            run.last_value(j)->0,
            run.moments.first().poisoned || run.panicked_before(j),
            req,
            receiver,
        )),
{
    assert(run.moments[j].moves(run.events[j], run.moments[j + 1]));
    law_mutex_value(run, j);
    law_mutex_poison(run, j);
}

/// Whenever the value is here, it is the one that was given back last, or else
/// the first one.
pub proof fn law_mutex_value<T: Send, G: From<MutexGuard<T>>>(run: MutexRun<T, G>, n: int)
    requires
        run.valid(),
        0 <= n <= run.events.len(),
        run.moments[n].state is Unlocked,
    ensures
        run.last_value(n) == run.moments[n].value(),
    decreases n,
{
    if n > 0 {
        assert(run.moments[n - 1].moves(run.events[n - 1], run.moments[n]));
        if !run.events[n - 1].is_return() {
            law_mutex_value(run, n - 1);
        }
    }
}

/// A mutex is poisoned from the moment on that a holder gives the value back
/// while unwinding, and at no other time.
pub proof fn law_mutex_poison<T: Send, G: From<MutexGuard<T>>>(run: MutexRun<T, G>, n: int)
    requires
        run.valid(),
        0 <= n <= run.events.len(),
    ensures
        run.moments[n].poisoned <==> run.moments.first().poisoned || run.panicked_before(n),
    decreases n,
{
    if n > 0 {
        law_mutex_poison(run, n - 1);
        let event = run.events[n - 1];
        assert(run.moments[n - 1].moves(event, run.moments[n]));
        if run.panicked_before(n) && !run.panicked_before(n - 1) {
            assert(event matches MutexEvent::Unlock(Ok(Async::Ready((_, true))), _));
        }
    }
}

/// What a guard gives back is what comes back: once the guard that was granted
/// last has sent its message, the task waits for it without failing, and takes
/// that message and no other.
pub proof fn law_mutex_guard_returns<T: Send, G: From<MutexGuard<T>>>(
    run: MutexRun<T, G>,
    i: int,
    k: int,
    guard: MutexGuard<T>,
    message: (T, bool),
)
    requires
        run.valid(),
        run.observed(),
        0 <= i < k < run.events.len(),
        run.events[i].is_grant(),
        run.no_return(i + 1, k),
        run.moments[i + 1].state matches MutexState::Locked(receiver, _) && paired(
            guard.unlock(),
            receiver,
        ),
        sent(guard.unlock(), message),
    ensures
        run.events[k] matches MutexEvent::Unlock(polled, _) && polled is Ok && (polled matches Ok(
            Async::Ready(got),
        ) ==> got == message),
{
    lemma_waits(run, i + 1, k, guard.unlock(), message);
    assert(run.moments[k].moves(run.events[k], run.moments[k + 1]));
    assert(run.moments[k].observes(run.events[k]));
    if let MutexState::Locked(receiver, _) = run.moments[k].state {
        if let MutexEvent::Unlock(polled, rest) = run.events[k] {
            law_sent_is_not_canceled(guard.unlock(), receiver, message, polled, rest);
            if let Ok(Async::Ready(got)) = polled {
                law_collected_was_sent(guard.unlock(), receiver, got, rest);
            }
        }
    }
}

/// The task takes back only what a guard gave back: a value that comes back was
/// sent by the guard that was granted last.
pub proof fn law_mutex_return_is_from_guard<T: Send, G: From<MutexGuard<T>>>(
    run: MutexRun<T, G>,
    i: int,
    k: int,
    guard: MutexGuard<T>,
    message: (T, bool),
    rest: oneshot::Receiver<(T, bool)>,
)
    requires
        run.valid(),
        run.observed(),
        0 <= i < k < run.events.len(),
        run.events[i].is_grant(),
        run.no_return(i + 1, k),
        run.no_loss(i + 1, k),
        run.events[k] == MutexEvent::<T, G>::Unlock(Ok(Async::Ready(message)), rest),
        run.moments[i + 1].state matches MutexState::Locked(receiver, _) && paired(
            guard.unlock(),
            receiver,
        ),
    ensures
        sent(guard.unlock(), message),
        forall|other: (T, bool)| #[trigger] sent(guard.unlock(), other) ==> other == message,
{
    lemma_keeps_waiting(run, i + 1, k);
    assert(run.moments[k].observes(run.events[k]));
    if let MutexState::Locked(receiver, _) = run.moments[k].state {
        law_collected_was_sent(guard.unlock(), receiver, message, rest);
    }
}

/// The next holder gets what the last one left: if the guard granted at `i` sent
/// `value` back, the value came back at `k`, and the next grant is at `j`, then
/// that grant is of `value`, and flagged if the last holder was unwinding.
pub proof fn law_mutex_passes_on<T: Send, G: From<MutexGuard<T>>>(
    run: MutexRun<T, G>,
    i: int,
    k: int,
    j: int,
    guard: MutexGuard<T>,
    value: T,
    panicking: bool,
)
    requires
        run.valid(),
        run.observed(),
        0 <= i < k < j < run.events.len(),
        run.events[i].is_grant(),
        run.no_return(i + 1, k),
        run.events[k].is_return(),
        run.no_return(k + 1, j),
        run.events[j].is_grant(),
        run.moments[i + 1].state matches MutexState::Locked(receiver, _) && paired(
            guard.unlock(),
            receiver,
        ),
        sent(guard.unlock(), (value, panicking)),
    ensures
        run.events[j].request() matches Some(LockRequest(req)) && (run.moments[j + 1].state matches
            MutexState::Locked(receiver, _) && granted(
            value,
            run.moments[i].poisoned || panicking,
            req,
            receiver,
        )),
{
    law_mutex_guard_returns(run, i, k, guard, (value, panicking));
    assert(run.moments[i].moves(run.events[i], run.moments[i + 1]));
    lemma_waits(run, i + 1, k, guard.unlock(), (value, panicking));
    assert(run.moments[k].moves(run.events[k], run.moments[k + 1]));
    lemma_value_kept(run, k + 1, j);
    assert(run.moments[j].moves(run.events[j], run.moments[j + 1]));
}

/// First come, first served: what is gone from the queue is what was asked for,
/// in that order, and each request is answered in the step that takes it.
pub proof fn law_mutex_first_come_first_served<T: Send, G: From<MutexGuard<T>>>(
    run: MutexRun<T, G>,
    n: int,
)
    requires
        run.valid(),
        run.observed(),
        0 <= n <= run.events.len(),
    ensures
        drained(run.moments.first().requests, run.asked(n), run.moments[n].requests),
        forall|i: int|
            0 <= i < n ==> (#[trigger] run.events[i].request() matches Some(LockRequest(req))
                ==> run.moments[i].value() is Some && (run.moments[i + 1].state matches
                MutexState::Locked(receiver, _) && granted(
                run.moments[i].value()->0,
                run.moments[i].poisoned,
                req,
                receiver,
            ))),
    decreases n,
{
    if n > 0 {
        law_mutex_first_come_first_served(run, n - 1);
        let event = run.events[n - 1];
        assert(run.moments[n - 1].moves(event, run.moments[n]));
        assert(run.moments[n - 1].observes(event));
        if let MutexEvent::Requests(polled, rest) = event {
            if let Some(request) = event.request() {
                let all = run.asked(n);
                assert(all.drop_last() =~= run.asked(n - 1));
                assert(drawn(
                    run.moments[n - 1].requests,
                    Ok(Async::Ready(Some(all.last()))),
                    run.moments[n].requests,
                ));
            } else {
                law_nothing_drawn(run.moments[n - 1].requests, polled, rest);
            }
        }
    }
}

/// What the mutex is to give its value to in the end never changes, and the
/// task is never left without a state.
pub proof fn law_mutex_completion<T: Send, G: From<MutexGuard<T>>>(run: MutexRun<T, G>, n: int)
    requires
        run.valid(),
        0 <= n <= run.events.len(),
        run.moments.first().state !is Invalid,
    ensures
        run.moments[n].state !is Invalid,
        run.moments[n].completion() == run.moments.first().completion(),
    decreases n,
{
    if n > 0 {
        law_mutex_completion(run, n - 1);
        assert(run.moments[n - 1].moves(run.events[n - 1], run.moments[n]));
    }
}

/// A mutex completes with its value: if a new mutex is run for `n` steps and
/// finished with the value at home, then its completion is not canceled, and
/// what it receives is the value that was given back last, or else the one that
/// it was created with, in an error just if a holder was unwinding.
pub proof fn law_mutex_completes<T: Send, G: From<MutexGuard<T>>>(
    mutex: Mutex<G>,
    value: T,
    task: MutexTask<T, G>,
    completion: MutexCompletion<T>,
    run: MutexRun<T, G>,
    n: int,
    rest: MutexState<T>,
    polled: Poll<LockResult<T>, oneshot::Canceled>,
    after: oneshot::Receiver<LockResult<T>>,
)
    requires
        mutex.starts(value, task, completion),
        run.valid(),
        run.moments.first() == task.moment(),
        0 <= n <= run.events.len(),
        run.moments[n].state is Unlocked,
        run.moments[n].finishes(rest),
        collected(completion.receiver(), polled, after),
    ensures
        run.last_value(n) is Some,
        polled is Ok,
        polled matches Ok(Async::Ready(result)) ==> flagged(
            run.panicked_before(n),
            run.last_value(n)->0,
            result,
        ),
        run.no_return(0, n) ==> run.last_value(n) == Some(value),
{
    law_mutex_completion(run, n);
    law_mutex_value(run, n);
    law_mutex_poison(run, n);
    lemma_first_value(run, n);
    let sender = run.moments[n].completion();
    let given = choose|given: LockResult<T>|
        flagged(run.moments[n].poisoned, run.moments[n].value()->0, given) && #[trigger] delivered(
            sender,
            given,
        );
    assert(sent(sender, given));
    law_sent_is_not_canceled(sender, completion.receiver(), given, polled, after);
    if let Ok(Async::Ready(result)) = polled {
        law_collected_was_sent(sender, completion.receiver(), result, after);
    }
}

/// A history in which no value comes back keeps to the first one.
proof fn lemma_first_value<T: Send, G: From<MutexGuard<T>>>(run: MutexRun<T, G>, n: int)
    requires
        0 <= n <= run.events.len(),
    ensures
        run.no_return(0, n) ==> run.last_value(n) == run.moments.first().value(),
    decreases n,
{
    if n > 0 {
        lemma_first_value(run, n - 1);
        if run.no_return(0, n) {
            assert(!run.events[n - 1].is_return());
        }
    }
}

/// A poll says that the task has finished just when the last thing it learnt is
/// that no handle is left to ask for the value. It then has the value, ready to
/// be given to the completion.
pub proof fn law_mutex_ready<T: Send, G: From<MutexGuard<T>>>(
    run: MutexRun<T, G>,
    pre: MutexMoment<T, G>,
    post: MutexMoment<T, G>,
    result: Poll<(), ()>,
)
    requires
        run.is_poll(pre, post, result),
    ensures
        result == Ok::<_, ()>(Async::Ready(())) <==> (run.events.last() matches
            MutexEvent::Requests(Ok(Async::Ready(None)), _)),
        result == Ok::<_, ()>(Async::Ready(())) ==> post.state is Unlocked,
{
    let last = run.events.len() - 1;
    assert(run.moments[last].moves(run.events[last], run.moments[last + 1]));
}

/// A poll that has to wait leaves the mutex blocked: the value is here and no
/// request is, or the value is away and has not come back.
/// The poll that found this changed nothing. Only a task that has used up its
/// budget of steps stops before, and asks to be polled again.
pub proof fn law_mutex_blocked<T: Send, G: From<MutexGuard<T>>>(
    run: MutexRun<T, G>,
    pre: MutexMoment<T, G>,
    post: MutexMoment<T, G>,
)
    requires
        run.is_poll(pre, post, Ok(Async::NotReady)),
    ensures
        if run.events.last().outcome() == Ok::<_, ()>(Async::Ready(false)) {
            &&& run.events.len() == STEP_BUDGET
            &&& exists|task: Task| #[trigger] running(task) && notified(task)
        } else {
            &&& run.moments[run.events.len() - 1] == post
            &&& match post.state {
                MutexState::Unlocked(_, _) => drawn(
                    post.requests,
                    Ok(Async::NotReady),
                    post.requests,
                ),
                MutexState::Locked(receiver, _) => collected(
                    receiver,
                    Ok(Async::NotReady),
                    receiver,
                ),
                MutexState::Invalid => false,
            }
        },
{
    let last = run.events.len() - 1;
    let before = run.moments[last];
    assert(before.moves(run.events[last], run.moments[last + 1]));
    assert(before.observes(run.events[last]));
    if run.events[last].outcome() != Ok::<_, ()>(Async::Ready(false)) {
        match run.events[last] {
            MutexEvent::Requests(polled, rest) => law_nothing_drawn(before.requests, polled, rest),
            MutexEvent::Unlock(polled, rest) => {
                if let MutexState::Locked(receiver, _) = before.state {
                    law_nothing_collected(receiver, polled, rest);
                }
            },
        }
    }
}

/// A poll fails just when the last thing it learnt is that a guard has gone
/// without giving the value back. If every guard is released, it never does.
pub proof fn law_mutex_fails<T: Send, G: From<MutexGuard<T>>>(
    run: MutexRun<T, G>,
    pre: MutexMoment<T, G>,
    post: MutexMoment<T, G>,
    result: Poll<(), ()>,
)
    requires
        run.is_poll(pre, post, result),
    ensures
        result is Err <==> (run.events.last() matches MutexEvent::Unlock(Err(_), _)),
        result is Err ==> (run.moments[run.events.len() - 1].state matches MutexState::Locked(
            receiver,
            _,
        ) && forall|guard: MutexGuard<T>, message: (T, bool)|
            #![trigger paired(guard.unlock(), receiver), sent(guard.unlock(), message)]
            paired(guard.unlock(), receiver) ==> !sent(guard.unlock(), message)),
{
    let last = run.events.len() - 1;
    assert(run.moments[last].moves(run.events[last], run.moments[last + 1]));
    assert(run.moments[last].observes(run.events[last]));
    if let (MutexState::Locked(receiver, _), MutexEvent::Unlock(polled, rest)) = (
        run.moments[last].state,
        run.events[last],
    ) {
        assert forall|guard: MutexGuard<T>, message: (T, bool)|
            #![trigger paired(guard.unlock(), receiver), sent(guard.unlock(), message)]
            polled is Err && paired(guard.unlock(), receiver) implies !sent(
            guard.unlock(),
            message,
        ) by {
            if sent(guard.unlock(), message) {
                law_sent_is_not_canceled(guard.unlock(), receiver, message, polled, rest);
            }
        }
    }
}

/// A locker that is granted the value gets a guard on it: what its request is
/// answered with is a guard that holds the value and gives it back where the
/// task waits for it, flagged as the mutex was poisoned then.
pub proof fn law_mutex_locker_gets_guard<T: Send, G: From<MutexGuard<T>>>(
    value: T,
    poisoned: bool,
    req: GuardSender<G>,
    unlock: oneshot::Receiver<(T, bool)>,
    exchange: Exchange<LockRequest<G>, LockResult<G>>,
    receiver: oneshot::Receiver<LockResult<G>>,
    next: Exchange<LockRequest<G>, LockResult<G>>,
    result: Poll<(mpsc::Sender<LockRequest<G>>, LockResult<G>), ()>,
    got: LockResult<G>,
)
    requires
        granted(value, poisoned, req, unlock),
        paired(req, receiver),
        exchange.incoming == Incoming::Waiting(receiver),
        exchange.polls(next, result),
        next.incoming == Incoming::Done(got) || (result matches Ok(Async::Ready((_, reply)))
            && reply == got),
    ensures
        exists|guard: MutexGuard<T>, owner: G| #[trigger]
            converted(guard, owner) && guard.value() == value && paired(guard.unlock(), unlock)
                && flagged(poisoned, owner, got),
{
    law_exchange_reply_was_sent(exchange, req, receiver, next, result, got);
    let (guard, owner, reply) = choose|guard: MutexGuard<T>, owner: G, reply: LockResult<G>|
        #![trigger converted(guard, owner), delivered(req, reply)]
        {
            &&& guard.value() == value
            &&& paired(guard.unlock(), unlock)
            &&& converted(guard, owner)
            &&& flagged(poisoned, owner, reply)
            &&& delivered(req, reply)
        };
    assert(sent(req, reply));
}

/// A locker whose request is granted at `j` gets a guard on the value that was
/// given back last, or else on the first one, and is told that the mutex is
/// poisoned just if a holder was unwinding before.
pub proof fn law_mutex_locker_is_told<T: Send, G: From<MutexGuard<T>>>(
    run: MutexRun<T, G>,
    j: int,
    req: GuardSender<G>,
    exchange: Exchange<LockRequest<G>, LockResult<G>>,
    receiver: oneshot::Receiver<LockResult<G>>,
    next: Exchange<LockRequest<G>, LockResult<G>>,
    result: Poll<(mpsc::Sender<LockRequest<G>>, LockResult<G>), ()>,
    got: LockResult<G>,
)
    requires
        run.valid(),
        0 <= j < run.events.len(),
        run.moments.first().state !is Invalid,
        !run.moments.first().poisoned,
        run.events[j].request() == Some(LockRequest(req)),
        paired(req, receiver),
        exchange.incoming == Incoming::Waiting(receiver),
        exchange.polls(next, result),
        next.incoming == Incoming::Done(got) || (result matches Ok(Async::Ready((_, reply)))
            && reply == got),
    ensures
        got is Err <==> run.panicked_before(j),
        run.last_value(j) is Some,
        exists|guard: MutexGuard<T>, owner: G| #[trigger]
            converted(guard, owner) && guard.value() == run.last_value(j)->0 && flagged(
                run.panicked_before(j),
                owner,
                got,
            ),
{
    law_mutex_hands_on(run, j);
    if let MutexState::Locked(unlock, _) = run.moments[j + 1].state {
        law_mutex_locker_gets_guard(
            run.last_value(j)->0,
            run.panicked_before(j),
            req,
            unlock,
            exchange,
            receiver,
            next,
            result,
            got,
        );
    }
}

/// An attempt to lock is canceled just when its exchange with the task failed.
pub proof fn law_mutex_canceled<G>(
    polled: Poll<(mpsc::Sender<LockRequest<G>>, LockResult<G>), ()>,
    result: Poll<(Mutex<G>, LockResult<G>), Canceled>,
)
    requires
        Mutex::locks(polled, result),
    ensures
        result is Err <==> polled is Err,
{
}

/// Histories add up: what one poll does and what the next one does is one
/// history, so that every law holds across polls.
pub proof fn law_mutex_runs_join<T: Send, G: From<MutexGuard<T>>>(
    earlier: MutexRun<T, G>,
    later: MutexRun<T, G>,
)
    requires
        earlier.valid(),
        later.valid(),
        earlier.observed(),
        later.observed(),
        earlier.moments.last() == later.moments.first(),
    ensures
        earlier.then_run(later).valid(),
        earlier.then_run(later).observed(),
        earlier.then_run(later).moments.first() == earlier.moments.first(),
        earlier.then_run(later).moments.last() == later.moments.last(),
{
    let both = earlier.then_run(later);
    let n = earlier.events.len();
    assert forall|i: int| 0 <= i < both.events.len() implies both.moments[i].moves(
        #[trigger] both.events[i],
        both.moments[i + 1],
    ) && both.moments[i].observes(both.events[i]) by {
        if i < n {
            assert(both.events[i] == earlier.events[i]);
        } else {
            assert(both.events[i] == later.events[i - n]);
        }
    }
}

} // verus!
