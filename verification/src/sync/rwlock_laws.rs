//! What holds of every history of a reader-writer lock.

use crate::sync::exchange::{law_exchange_reply_was_sent, Exchange, Incoming};
use crate::sync::primitives::{
    collected, converted, delivered, drained, drawn, flagged, law_collected_was_sent,
    law_nothing_collected, law_nothing_drawn, law_sent_is_not_canceled, lent, notified, paired,
    running, sent, Kept, Shared, STEP_BUDGET,
};
use crate::sync::rwlock::{
    emptied, read_granted, write_granted, Canceled, LockRequest, ReadGuardSender, RwLock,
    RwLockCompletion, RwLockEvent, RwLockMoment, RwLockReadGuard, RwLockRun, RwLockState,
    RwLockTask, RwLockWriteGuard, WriteGuardSender,
};
use futures::sync::{mpsc, oneshot};
use futures::task::Task;
use futures::{Async, Poll};
use std::sync::LockResult;
use vstd::prelude::*;

verus! {

impl<T: Send, W, R> RwLockEvent<T, W, R> {
    /// The event brings a request.
    pub open spec fn request(self) -> Option<LockRequest<W, R>> {
        match self {
            RwLockEvent::Requests(Ok(Async::Ready(request)), _) => request,
            RwLockEvent::Reading(Ok(Async::Ready(request)), _, _, _) => request,
            _ => None,
        }
    }

    /// The event hands a pointer to the value to a reader.
    pub open spec fn is_read_grant(self) -> bool {
        self.request() matches Some(LockRequest::Shared(_))
    }

    /// The event hands the value to a writer.
    pub open spec fn is_write_grant(self) -> bool {
        ||| self matches RwLockEvent::Requests(Ok(Async::Ready(Some(LockRequest::Exclusive(_)))), _)
        ||| self matches RwLockEvent::Draining(_, true)
    }

    /// The event brings the value back from a writer.
    pub open spec fn is_return(self) -> bool {
        self matches RwLockEvent::Unlock(Ok(Async::Ready(_)), _)
    }

    /// The event shows that all readers have left.
    pub open spec fn is_empty(self) -> bool {
        ||| self matches RwLockEvent::Draining(_, true)
        ||| self.request() is None && (self matches RwLockEvent::Reading(_, _, _, true))
    }
}

impl<T: Send, W: From<RwLockWriteGuard<T>>, R: From<RwLockReadGuard<T>>> RwLockRun<T, W, R> {
    /// The value does not come back from a writer from event `a` on and before
    /// event `b`.
    pub open spec fn no_return(self, a: int, b: int) -> bool {
        forall|k: int| a <= k < b ==> !(#[trigger] self.events[k]).is_return()
    }

    /// No write guard is found to have gone with the value from event `a` on and
    /// before event `b`.
    pub open spec fn no_loss(self, a: int, b: int) -> bool {
        forall|k: int|
            a <= k < b ==> !(#[trigger] self.events[k] matches RwLockEvent::Unlock(Err(_), _))
    }

    /// The readers are not seen to have left from event `a` on and before event
    /// `b`.
    pub open spec fn never_empty(self, a: int, b: int) -> bool {
        forall|k: int| a <= k < b ==> !(#[trigger] self.events[k]).is_empty()
    }

    /// A writer was unwinding when it gave the value back, before event `n`.
    pub open spec fn panicked_before(self, n: int) -> bool {
        exists|k: int|
            0 <= k < n && (#[trigger] self.events[k] matches RwLockEvent::Unlock(
                Ok(Async::Ready((_, true))),
                _,
            ))
    }

    /// The requests that were taken from the queue before event `n`, in order.
    pub open spec fn asked(self, n: int) -> Seq<LockRequest<W, R>>
        decreases n,
    {
        if n <= 0 {
            Seq::empty()
        } else {
            match self.events[n - 1].request() {
                Some(request) => self.asked(n - 1).push(request),
                None => self.asked(n - 1),
            }
        }
    }

    /// The requests that were answered with a guard before event `n`, in order.
    pub open spec fn served(self, n: int) -> Seq<LockRequest<W, R>>
        decreases n,
    {
        if n <= 0 {
            Seq::empty()
        } else if self.events[n - 1] matches RwLockEvent::Draining(_, true) {
            self.served(n - 1) + self.moments[n - 1].waiting()
        } else if self.events[n - 1].is_read_grant() || self.events[n - 1].is_write_grant() {
            self.served(n - 1).push(self.events[n - 1].request()->0)
        } else {
            self.served(n - 1)
        }
    }

    /// The value that a writer gave back last before event `n`, or else the one
    /// that the history starts with.
    pub open spec fn last_value(self, n: int) -> Option<T>
        decreases n,
    {
        if n <= 0 {
            self.moments.first().value()
        } else {
            match self.events[n - 1] {
                RwLockEvent::Unlock(Ok(Async::Ready((value, _))), _) => Some(value),
                _ => self.last_value(n - 1),
            }
        }
    }

    /// This history, and then `later`.
    pub open spec fn then_run(self, later: Self) -> Self {
        RwLockRun {
            moments: self.moments + later.moments.drop_first(),
            events: self.events + later.events,
        }
    }
}

impl<T: Send, W, R> RwLockMoment<T, W, R> {
    /// What the lock is to give its value to in the end.
    pub open spec fn completion(self) -> oneshot::Sender<LockResult<T>>
        recommends
            self.state !is Invalid,
    {
        match self.state {
            RwLockState::Unlocked { completion, .. } => completion,
            RwLockState::LockedRead { completion, .. } => completion,
            RwLockState::LockedReadPendingWrite { completion, .. } => completion,
            RwLockState::LockedWrite { completion, .. } => completion,
            RwLockState::Invalid => arbitrary(),
        }
    }

    /// Readers may have the value.
    pub open spec fn is_reading(self) -> bool {
        self.state is LockedRead || self.state is LockedReadPendingWrite
    }

    /// The value, unless a writer has it.
    pub open spec fn value(self) -> Option<T> {
        match self.state {
            RwLockState::Unlocked { value, .. } => Some(value),
            RwLockState::LockedRead { arc, .. } => Some(arc.value()),
            RwLockState::LockedReadPendingWrite { arc, .. } => Some(arc.value()),
            _ => None,
        }
    }

    /// The request that has been taken from the queue and not answered yet: that
    /// of a writer who waits for readers to leave.
    pub open spec fn waiting(self) -> Seq<LockRequest<W, R>> {
        match self.state {
            RwLockState::LockedReadPendingWrite { req, .. } => seq![LockRequest::Exclusive(req)],
            _ => Seq::empty(),
        }
    }
}

/// While a writer has the value and does not give it back, it stays away.
proof fn lemma_stays_written<T: Send, W: From<RwLockWriteGuard<T>>, R: From<RwLockReadGuard<T>>>(
    run: RwLockRun<T, W, R>,
    a: int,
    b: int,
)
    requires
        run.valid(),
        0 <= a <= b <= run.events.len(),
        run.moments[a].state is LockedWrite,
        run.no_return(a, b),
    ensures
        run.moments[b].state is LockedWrite,
    decreases b - a,
{
    if a < b {
        lemma_stays_written(run, a, b - 1);
        assert(!run.events[b - 1].is_return());
        assert(run.moments[b - 1].moves(run.events[b - 1], run.moments[b]));
    }
}

/// While readers may have the value and are not seen to have left, they may
/// still have it.
proof fn lemma_stays_reading<T: Send, W: From<RwLockWriteGuard<T>>, R: From<RwLockReadGuard<T>>>(
    run: RwLockRun<T, W, R>,
    a: int,
    b: int,
)
    requires
        run.valid(),
        0 <= a <= b <= run.events.len(),
        run.moments[a].is_reading(),
        run.never_empty(a, b),
    ensures
        run.moments[b].is_reading(),
    decreases b - a,
{
    if a < b {
        lemma_stays_reading(run, a, b - 1);
        assert(!run.events[b - 1].is_empty());
        assert(run.moments[b - 1].moves(run.events[b - 1], run.moments[b]));
    }
}

/// A writer has the value alone: between its grant and any later one, to a
/// reader or a writer, it gives the value back.
pub proof fn law_rwlock_writer_alone<
    T: Send,
    W: From<RwLockWriteGuard<T>>,
    R: From<RwLockReadGuard<T>>,
>(run: RwLockRun<T, W, R>, i: int, j: int)
    requires
        run.valid(),
        0 <= i < j < run.events.len(),
        run.events[i].is_write_grant(),
        run.events[j].is_write_grant() || run.events[j].is_read_grant(),
    ensures
        exists|k: int| i < k < j && (#[trigger] run.events[k]).is_return(),
{
    if run.no_return(i + 1, j) {
        assert(run.moments[i].moves(run.events[i], run.moments[i + 1]));
        lemma_stays_written(run, i + 1, j);
        assert(run.moments[j].moves(run.events[j], run.moments[j + 1]));
    }
}

/// A writer waits for readers: between the grant to a reader and a later one to
/// a writer, the readers are seen to have left.
pub proof fn law_rwlock_readers_first<
    T: Send,
    W: From<RwLockWriteGuard<T>>,
    R: From<RwLockReadGuard<T>>,
>(run: RwLockRun<T, W, R>, i: int, j: int)
    requires
        run.valid(),
        0 <= i < j < run.events.len(),
        run.events[i].is_read_grant(),
        run.events[j].is_write_grant(),
    ensures
        exists|k: int| i < k <= j && (#[trigger] run.events[k]).is_empty(),
{
    if run.never_empty(i + 1, j) {
        assert(run.moments[i].moves(run.events[i], run.moments[i + 1]));
        lemma_stays_reading(run, i + 1, j);
        assert(run.moments[j].moves(run.events[j], run.moments[j + 1]));
        assert(run.events[j].is_empty());
    }
}

/// No reader overtakes a writer: once a writer waits for readers to leave, no
/// request is looked at and nothing is granted until they have.
pub proof fn law_rwlock_no_overtaking<
    T: Send,
    W: From<RwLockWriteGuard<T>>,
    R: From<RwLockReadGuard<T>>,
>(run: RwLockRun<T, W, R>, i: int, j: int, req: WriteGuardSender<W>)
    requires
        run.valid(),
        0 <= i < j < run.events.len(),
        run.moments[i].state is LockedRead,
        run.events[i].request() == Some(LockRequest::<W, R>::Exclusive(req)),
        run.never_empty(i + 1, j),
    ensures
        run.moments[j] == run.moments[i + 1],
        run.moments[j].state matches RwLockState::LockedReadPendingWrite { req: waiting, .. }
            && waiting == req,
        run.events[j] is Draining,
    decreases j - i,
{
    assert(run.moments[i].moves(run.events[i], run.moments[i + 1]));
    if j > i + 1 {
        law_rwlock_no_overtaking(run, i, j - 1, req);
        assert(!run.events[j - 1].is_empty());
        assert(run.moments[j - 1].moves(run.events[j - 1], run.moments[j]));
    }
    assert(run.moments[j].moves(run.events[j], run.moments[j + 1]));
}

/// The writer that waited gets the value next, as the readers had it.
pub proof fn law_rwlock_writer_next<
    T: Send,
    W: From<RwLockWriteGuard<T>>,
    R: From<RwLockReadGuard<T>>,
>(run: RwLockRun<T, W, R>, i: int, j: int, req: WriteGuardSender<W>)
    requires
        run.valid(),
        0 <= i < j < run.events.len(),
        run.moments[i].state is LockedRead,
        run.events[i].request() == Some(LockRequest::<W, R>::Exclusive(req)),
        run.never_empty(i + 1, j),
        run.events[j].is_empty(),
    ensures
        run.moments[i].value() is Some,
        run.moments[j + 1].state matches RwLockState::LockedWrite { unlock, .. } && write_granted(
            run.moments[i].value()->0,
            run.moments[i].poisoned,
            req,
            unlock,
        ),
{
    law_rwlock_no_overtaking(run, i, j, req);
    assert(run.moments[i].moves(run.events[i], run.moments[i + 1]));
    assert(run.moments[j].moves(run.events[j], run.moments[j + 1]));
}

/// Only writers change the value: as long as none gives it back, the value is
/// the same whenever it is not with a writer.
pub proof fn law_rwlock_value_kept<
    T: Send,
    W: From<RwLockWriteGuard<T>>,
    R: From<RwLockReadGuard<T>>,
>(run: RwLockRun<T, W, R>, a: int, b: int)
    requires
        run.valid(),
        0 <= a <= b <= run.events.len(),
        run.moments[a].value() is Some,
        run.no_return(a, b),
    ensures
        run.moments[b].value() == run.moments[a].value() || run.moments[b].state is LockedWrite,
    decreases b - a,
{
    if a < b {
        law_rwlock_value_kept(run, a, b - 1);
        assert(!run.events[b - 1].is_return());
        assert(run.moments[b - 1].moves(run.events[b - 1], run.moments[b]));
    }
}

/// Whenever the value is not with a writer, it is the one that a writer gave
/// back last, or else the first one.
pub proof fn law_rwlock_value<
    T: Send,
    W: From<RwLockWriteGuard<T>>,
    R: From<RwLockReadGuard<T>>,
>(run: RwLockRun<T, W, R>, n: int)
    requires
        run.valid(),
        0 <= n <= run.events.len(),
        run.moments[n].value() is Some,
    ensures
        run.last_value(n) == run.moments[n].value(),
    decreases n,
{
    if n > 0 {
        assert(run.moments[n - 1].moves(run.events[n - 1], run.moments[n]));
        if !run.events[n - 1].is_return() {
            law_rwlock_value(run, n - 1);
        }
    }
}

/// Whoever is served is sent a guard, on the value that a writer gave back last
/// or else the first one, flagged as the lock is poisoned then.
pub proof fn law_rwlock_hands_on<
    T: Send,
    W: From<RwLockWriteGuard<T>>,
    R: From<RwLockReadGuard<T>>,
>(run: RwLockRun<T, W, R>, j: int)
    requires
        run.valid(),
        0 <= j < run.events.len(),
        run.moments.first().state !is Invalid,
        run.events[j].is_read_grant() || run.events[j].is_write_grant(),
    ensures
        run.last_value(j) is Some,
        run.moments[j].poisoned <==> run.moments.first().poisoned || run.panicked_before(j),
        run.served(j + 1).len() == run.served(j).len() + 1,
        match run.served(j + 1).last() {
            LockRequest::Shared(req) => {
                &&& run.events[j].is_read_grant()
                &&& run.moments[j + 1].state matches RwLockState::LockedRead { arc, .. }
                &&& arc.value() == run.last_value(j)->0
                &&& exists|before: Shared<T, Kept>|
                    before.value() == run.last_value(j)->0 && #[trigger] read_granted(
                        before,
                        arc,
                        run.moments[j].poisoned,
                        req,
                    )
            },
            LockRequest::Exclusive(req) => {
                &&& run.events[j].is_write_grant()
                &&& run.moments[j + 1].state matches RwLockState::LockedWrite { unlock, .. }
                &&& write_granted(
                    run.last_value(j)->0,
                    run.moments.first().poisoned || run.panicked_before(j),
                    req,
                    unlock,
                )
            },
        },
{
    assert(run.moments[j].moves(run.events[j], run.moments[j + 1]));
    law_rwlock_value(run, j);
    law_rwlock_poison(run, j);
}

/// A lock is poisoned from the moment on that a writer gives the value back
/// while unwinding, and at no other time: readers do not poison it.
pub proof fn law_rwlock_poison<
    T: Send,
    W: From<RwLockWriteGuard<T>>,
    R: From<RwLockReadGuard<T>>,
>(run: RwLockRun<T, W, R>, n: int)
    requires
        run.valid(),
        0 <= n <= run.events.len(),
    ensures
        run.moments[n].poisoned <==> run.moments.first().poisoned || run.panicked_before(n),
    decreases n,
{
    if n > 0 {
        law_rwlock_poison(run, n - 1);
        let event = run.events[n - 1];
        assert(run.moments[n - 1].moves(event, run.moments[n]));
        if run.panicked_before(n) && !run.panicked_before(n - 1) {
            assert(event matches RwLockEvent::Unlock(Ok(Async::Ready((_, true))), _));
        }
    }
}

/// What the lock is to give its value to in the end never changes, and the task
/// is never left without a state.
pub proof fn law_rwlock_completion<
    T: Send,
    W: From<RwLockWriteGuard<T>>,
    R: From<RwLockReadGuard<T>>,
>(run: RwLockRun<T, W, R>, n: int)
    requires
        run.valid(),
        0 <= n <= run.events.len(),
        run.moments.first().state !is Invalid,
    ensures
        run.moments[n].state !is Invalid,
        run.moments[n].completion() == run.moments.first().completion(),
    decreases n,
{
    if n > 0 {
        law_rwlock_completion(run, n - 1);
        assert(run.moments[n - 1].moves(run.events[n - 1], run.moments[n]));
    }
}

/// A lock completes with its value: if a new lock is run for `n` steps and
/// finished with the value at home, then its completion is not canceled, and
/// what it receives is the value that a writer gave back last, or else the one
/// that it was created with, in an error just if a writer was unwinding.
pub proof fn law_rwlock_completes<
    T: Send,
    W: From<RwLockWriteGuard<T>>,
    R: From<RwLockReadGuard<T>>,
>(
    rwlock: RwLock<W, R>,
    value: T,
    task: RwLockTask<T, W, R>,
    completion: RwLockCompletion<T>,
    run: RwLockRun<T, W, R>,
    n: int,
    rest: RwLockState<T, W>,
    polled: Poll<LockResult<T>, oneshot::Canceled>,
    after: oneshot::Receiver<LockResult<T>>,
)
    requires
        rwlock.starts(value, task, completion),
        run.valid(),
        run.moments.first() == task.moment(),
        0 <= n <= run.events.len(),
        run.moments[n].state is Unlocked,
        run.moments[n].finishes(rest),
        collected(completion.receiver(), polled, after),
    ensures
        run.last_value(n) is Some,
        polled is Ok,
        polled matches Ok(Async::Ready(result)) ==> flagged(
            run.panicked_before(n),
            run.last_value(n)->0,
            result,
        ),
        run.no_return(0, n) ==> run.last_value(n) == Some(value),
{
    law_rwlock_completion(run, n);
    law_rwlock_value(run, n);
    law_rwlock_poison(run, n);
    lemma_first_value(run, n);
    let sender = run.moments[n].completion();
    let given = choose|given: LockResult<T>|
        flagged(run.moments[n].poisoned, run.moments[n].value()->0, given) && #[trigger] delivered(
            sender,
            given,
        );
    assert(sent(sender, given));
    law_sent_is_not_canceled(sender, completion.receiver(), given, polled, after);
    if let Ok(Async::Ready(result)) = polled {
        law_collected_was_sent(sender, completion.receiver(), result, after);
    }
}

/// A history in which no value comes back keeps to the first one.
proof fn lemma_first_value<
    T: Send,
    W: From<RwLockWriteGuard<T>>,
    R: From<RwLockReadGuard<T>>,
>(run: RwLockRun<T, W, R>, n: int)
    requires
        0 <= n <= run.events.len(),
    ensures
        run.no_return(0, n) ==> run.last_value(n) == run.moments.first().value(),
    decreases n,
{
    if n > 0 {
        lemma_first_value(run, n - 1);
        if run.no_return(0, n) {
            assert(!run.events[n - 1].is_return());
        }
    }
}

/// A poll says that the task has finished just when it learnt that no handle is
/// left to ask for the value, with the value at home or all readers gone. It
/// then has the value to itself, ready to be given to the completion.
pub proof fn law_rwlock_ready<
    T: Send,
    W: From<RwLockWriteGuard<T>>,
    R: From<RwLockReadGuard<T>>,
>(
    run: RwLockRun<T, W, R>,
    pre: RwLockMoment<T, W, R>,
    post: RwLockMoment<T, W, R>,
    result: Poll<(), ()>,
)
    requires
        run.is_poll(pre, post, result),
    ensures
        result == Ok::<_, ()>(Async::Ready(())) <==> {
            ||| run.events.last() matches RwLockEvent::Requests(Ok(Async::Ready(None)), _)
            ||| run.events.last() matches RwLockEvent::Reading(Ok(Async::Ready(None)), _, _, true)
        },
        result == Ok::<_, ()>(Async::Ready(())) ==> post.state is Unlocked,
{
    let last = run.events.len() - 1;
    assert(run.moments[last].moves(run.events[last], run.moments[last + 1]));
}

/// A poll that has to wait leaves the lock blocked: the value is here and no
/// request is; or readers have not left, and no request is there or a writer
/// waits for them; or a writer has not given the value back.
/// The step that found this changed nothing. Only a task that has used up its
/// budget of steps stops before, and asks to be polled again.
pub proof fn law_rwlock_blocked<
    T: Send,
    W: From<RwLockWriteGuard<T>>,
    R: From<RwLockReadGuard<T>>,
>(
    run: RwLockRun<T, W, R>,
    pre: RwLockMoment<T, W, R>,
    post: RwLockMoment<T, W, R>,
)
    requires
        run.is_poll(pre, post, Ok(Async::NotReady)),
    ensures
        if run.events.last().outcome() == Ok::<_, ()>(Async::Ready(false)) {
            &&& run.events.len() == STEP_BUDGET
            &&& exists|task: Task| #[trigger] running(task) && notified(task)
        } else {
            &&& run.moments[run.events.len() - 1] == post
            &&& match post.state {
                RwLockState::Unlocked { .. } => drawn(
                    post.requests,
                    Ok(Async::NotReady),
                    post.requests,
                ),
                RwLockState::LockedRead { arc, .. } => {
                    &&& emptied(arc, false)
                    &&& drawn(post.requests, Ok(Async::NotReady), post.requests) || drawn(
                        post.requests,
                        Ok(Async::Ready(None)),
                        post.requests,
                    )
                },
                RwLockState::LockedReadPendingWrite { arc, .. } => emptied(arc, false),
                RwLockState::LockedWrite { unlock, .. } => collected(
                    unlock,
                    Ok(Async::NotReady),
                    unlock,
                ),
                RwLockState::Invalid => false,
            }
        },
{
    let last = run.events.len() - 1;
    let before = run.moments[last];
    assert(before.moves(run.events[last], run.moments[last + 1]));
    assert(before.observes(run.events[last]));
    if run.events[last].outcome() != Ok::<_, ()>(Async::Ready(false)) {
        match run.events[last] {
            RwLockEvent::Requests(polled, rest) => law_nothing_drawn(before.requests, polled, rest),
            RwLockEvent::Reading(polled, rest, _, _) => law_nothing_drawn(
                before.requests,
                polled,
                rest,
            ),
            RwLockEvent::Draining(_, _) => {},
            RwLockEvent::Unlock(polled, rest) => {
                if let RwLockState::LockedWrite { unlock, .. } = before.state {
                    law_nothing_collected(unlock, polled, rest);
                }
            },
        }
    }
}

/// A poll fails just when the last thing it learnt is that a write guard has
/// gone without giving the value back. If every write guard is released, it
/// never does.
pub proof fn law_rwlock_fails<
    T: Send,
    W: From<RwLockWriteGuard<T>>,
    R: From<RwLockReadGuard<T>>,
>(
    run: RwLockRun<T, W, R>,
    pre: RwLockMoment<T, W, R>,
    post: RwLockMoment<T, W, R>,
    result: Poll<(), ()>,
)
    requires
        run.is_poll(pre, post, result),
    ensures
        result is Err <==> (run.events.last() matches RwLockEvent::Unlock(Err(_), _)),
        result is Err ==> (run.moments[run.events.len() - 1].state matches
            RwLockState::LockedWrite { unlock, .. } && forall|
            guard: RwLockWriteGuard<T>,
            message: (T, bool),
        |
            #![trigger paired(guard.unlock(), unlock), sent(guard.unlock(), message)]
            paired(guard.unlock(), unlock) ==> !sent(guard.unlock(), message)),
{
    let last = run.events.len() - 1;
    assert(run.moments[last].moves(run.events[last], run.moments[last + 1]));
    assert(run.moments[last].observes(run.events[last]));
    if let (RwLockState::LockedWrite { unlock, .. }, RwLockEvent::Unlock(polled, rest)) = (
        run.moments[last].state,
        run.events[last],
    ) {
        assert forall|guard: RwLockWriteGuard<T>, message: (T, bool)|
            #![trigger paired(guard.unlock(), unlock), sent(guard.unlock(), message)]
            polled is Err && paired(guard.unlock(), unlock) implies !sent(
            guard.unlock(),
            message,
        ) by {
            if sent(guard.unlock(), message) {
                law_sent_is_not_canceled(guard.unlock(), unlock, message, polled, rest);
            }
        }
    }
}

/// A writer that is granted the value gets a guard on it: what its request is
/// answered with is a guard that holds the value and gives it back where the
/// task waits for it, flagged as the lock was poisoned then.
pub proof fn law_rwlock_writer_gets_guard<T: Send, W: From<RwLockWriteGuard<T>>, R>(
    value: T,
    poisoned: bool,
    req: WriteGuardSender<W>,
    unlock: oneshot::Receiver<(T, bool)>,
    exchange: Exchange<LockRequest<W, R>, LockResult<W>>,
    receiver: oneshot::Receiver<LockResult<W>>,
    next: Exchange<LockRequest<W, R>, LockResult<W>>,
    result: Poll<(mpsc::Sender<LockRequest<W, R>>, LockResult<W>), ()>,
    got: LockResult<W>,
)
    requires
        write_granted(value, poisoned, req, unlock),
        paired(req, receiver),
        exchange.incoming == Incoming::Waiting(receiver),
        exchange.polls(next, result),
        next.incoming == Incoming::Done(got) || (result matches Ok(Async::Ready((_, reply)))
            && reply == got),
    ensures
        exists|guard: RwLockWriteGuard<T>, owner: W| #[trigger]
            converted(guard, owner) && guard.value() == value && paired(guard.unlock(), unlock)
                && flagged(poisoned, owner, got),
{
    law_exchange_reply_was_sent(exchange, req, receiver, next, result, got);
    let (guard, owner, reply) = choose|
        guard: RwLockWriteGuard<T>,
        owner: W,
        reply: LockResult<W>,
    |
        #![trigger converted(guard, owner), delivered(req, reply)]
        {
            &&& guard.value() == value
            &&& paired(guard.unlock(), unlock)
            &&& converted(guard, owner)
            &&& flagged(poisoned, owner, reply)
            &&& delivered(req, reply)
        };
    assert(sent(req, reply));
}

/// A reader that is granted access gets a guard on the value: what its request
/// is answered with is a guard that holds a pointer lent from the task's and
/// wakes the task, flagged as the lock was poisoned then.
pub proof fn law_rwlock_reader_gets_guard<T: Send, W, R: From<RwLockReadGuard<T>>>(
    before: Shared<T, Kept>,
    after: Shared<T, Kept>,
    poisoned: bool,
    req: ReadGuardSender<R>,
    exchange: Exchange<LockRequest<W, R>, LockResult<R>>,
    receiver: oneshot::Receiver<LockResult<R>>,
    next: Exchange<LockRequest<W, R>, LockResult<R>>,
    result: Poll<(mpsc::Sender<LockRequest<W, R>>, LockResult<R>), ()>,
    got: LockResult<R>,
)
    requires
        read_granted(before, after, poisoned, req),
        paired(req, receiver),
        exchange.incoming == Incoming::Waiting(receiver),
        exchange.polls(next, result),
        next.incoming == Incoming::Done(got) || (result matches Ok(Async::Ready((_, reply)))
            && reply == got),
    ensures
        exists|guard: RwLockReadGuard<T>, owner: R| #[trigger]
            converted(guard, owner) && lent(before, after, guard.value()) && guard.value().value()
                == before.value() && running(guard.unlock()) && flagged(poisoned, owner, got),
{
    law_exchange_reply_was_sent(exchange, req, receiver, next, result, got);
    let (guard, owner, reply) = choose|guard: RwLockReadGuard<T>, owner: R, reply: LockResult<R>|
        #![trigger converted(guard, owner), delivered(req, reply)]
        {
            &&& lent(before, after, guard.value())
            &&& guard.value().value() == before.value()
            &&& running(guard.unlock())
            &&& converted(guard, owner)
            &&& flagged(poisoned, owner, reply)
            &&& delivered(req, reply)
        };
    assert(sent(req, reply));
}

/// An attempt to lock is canceled just when its exchange with the task failed.
pub proof fn law_rwlock_canceled<W, R, G>(
    polled: Poll<(mpsc::Sender<LockRequest<W, R>>, LockResult<G>), ()>,
    result: Poll<(RwLock<W, R>, LockResult<G>), Canceled>,
)
    requires
        RwLock::locks(polled, result),
    ensures
        result is Err <==> polled is Err,
{
}

/// While a writer has the value, and has sent it back but the task has not taken
/// it yet, nothing changes.
proof fn lemma_waits<
    T: Send,
    W: From<RwLockWriteGuard<T>>,
    R: From<RwLockReadGuard<T>>,
>(
    run: RwLockRun<T, W, R>,
    a: int,
    b: int,
    sender: oneshot::Sender<(T, bool)>,
    message: (T, bool),
)
    requires
        run.valid(),
        run.observed(),
        0 <= a <= b <= run.events.len(),
        run.moments[a].state matches RwLockState::LockedWrite { unlock, .. } && paired(
            sender,
            unlock,
        ),
        sent(sender, message),
        run.no_return(a, b),
    ensures
        run.moments[b] == run.moments[a],
    decreases b - a,
{
    if a < b {
        lemma_waits(run, a, b - 1, sender, message);
        assert(!run.events[b - 1].is_return());
        assert(run.moments[b - 1].moves(run.events[b - 1], run.moments[b]));
        assert(run.moments[b - 1].observes(run.events[b - 1]));
        if let RwLockState::LockedWrite { unlock, .. } = run.moments[b - 1].state {
            if let RwLockEvent::Unlock(polled, rest) = run.events[b - 1] {
                law_sent_is_not_canceled(sender, unlock, message, polled, rest);
                law_nothing_collected(unlock, polled, rest);
            }
        }
    }
}

/// While a writer has the value, does not give it back and is not found to have
/// lost it, nothing changes.
proof fn lemma_keeps_waiting<
    T: Send,
    W: From<RwLockWriteGuard<T>>,
    R: From<RwLockReadGuard<T>>,
>(run: RwLockRun<T, W, R>, a: int, b: int)
    requires
        run.valid(),
        run.observed(),
        0 <= a <= b <= run.events.len(),
        run.moments[a].state is LockedWrite,
        run.no_return(a, b),
        run.no_loss(a, b),
    ensures
        run.moments[b] == run.moments[a],
    decreases b - a,
{
    if a < b {
        lemma_keeps_waiting(run, a, b - 1);
        assert(!run.events[b - 1].is_return());
        assert(run.moments[b - 1].moves(run.events[b - 1], run.moments[b]));
        assert(run.moments[b - 1].observes(run.events[b - 1]));
        if let RwLockState::LockedWrite { unlock, .. } = run.moments[b - 1].state {
            if let RwLockEvent::Unlock(polled, rest) = run.events[b - 1] {
                law_nothing_collected(unlock, polled, rest);
            }
        }
    }
}

/// The task takes back only what a write guard gave back: a value that comes
/// back was sent by the write guard that was granted last.
pub proof fn law_rwlock_return_is_from_guard<
    T: Send,
    W: From<RwLockWriteGuard<T>>,
    R: From<RwLockReadGuard<T>>,
>(
    run: RwLockRun<T, W, R>,
    i: int,
    k: int,
    guard: RwLockWriteGuard<T>,
    message: (T, bool),
    rest: oneshot::Receiver<(T, bool)>,
)
    requires
        run.valid(),
        run.observed(),
        0 <= i < k < run.events.len(),
        run.events[i].is_write_grant(),
        run.no_return(i + 1, k),
        run.no_loss(i + 1, k),
        run.events[k] == RwLockEvent::<T, W, R>::Unlock(Ok(Async::Ready(message)), rest),
        run.moments[i + 1].state matches RwLockState::LockedWrite { unlock, .. } && paired(
            guard.unlock(),
            unlock,
        ),
    ensures
        sent(guard.unlock(), message),
        forall|other: (T, bool)| #[trigger] sent(guard.unlock(), other) ==> other == message,
{
    lemma_keeps_waiting(run, i + 1, k);
    assert(run.moments[k].observes(run.events[k]));
    if let RwLockState::LockedWrite { unlock, .. } = run.moments[k].state {
        law_collected_was_sent(guard.unlock(), unlock, message, rest);
    }
}

/// What a write guard gives back is what comes back: once the guard that was
/// granted last has sent its message, the task waits for it without failing, and
/// takes that message and no other.
pub proof fn law_rwlock_guard_returns<
    T: Send,
    W: From<RwLockWriteGuard<T>>,
    R: From<RwLockReadGuard<T>>,
>(
    run: RwLockRun<T, W, R>,
    i: int,
    k: int,
    guard: RwLockWriteGuard<T>,
    message: (T, bool),
)
    requires
        run.valid(),
        run.observed(),
        0 <= i < k < run.events.len(),
        run.events[i].is_write_grant(),
        run.no_return(i + 1, k),
        run.moments[i + 1].state matches RwLockState::LockedWrite { unlock, .. } && paired(
            guard.unlock(),
            unlock,
        ),
        sent(guard.unlock(), message),
    ensures
        run.events[k] matches RwLockEvent::Unlock(polled, _) && polled is Ok && (polled matches Ok(
            Async::Ready(got),
        ) ==> got == message),
{
    lemma_waits(run, i + 1, k, guard.unlock(), message);
    assert(run.moments[k].moves(run.events[k], run.moments[k + 1]));
    assert(run.moments[k].observes(run.events[k]));
    if let RwLockState::LockedWrite { unlock, .. } = run.moments[k].state {
        if let RwLockEvent::Unlock(polled, rest) = run.events[k] {
            law_sent_is_not_canceled(guard.unlock(), unlock, message, polled, rest);
            if let Ok(Async::Ready(got)) = polled {
                law_collected_was_sent(guard.unlock(), unlock, got, rest);
            }
        }
    }
}

/// Those who come next get what the last writer left: if the guard granted at
/// `i` sent `value` back, and the value came back at `k`, then `value` is what
/// readers and writers are granted until another writer gives one back.
pub proof fn law_rwlock_passes_on<
    T: Send,
    W: From<RwLockWriteGuard<T>>,
    R: From<RwLockReadGuard<T>>,
>(
    run: RwLockRun<T, W, R>,
    i: int,
    k: int,
    b: int,
    guard: RwLockWriteGuard<T>,
    value: T,
    panicking: bool,
)
    requires
        run.valid(),
        run.observed(),
        0 <= i < k < b <= run.events.len(),
        run.events[i].is_write_grant(),
        run.no_return(i + 1, k),
        run.events[k].is_return(),
        run.no_return(k + 1, b),
        run.moments[i + 1].state matches RwLockState::LockedWrite { unlock, .. } && paired(
            guard.unlock(),
            unlock,
        ),
        sent(guard.unlock(), (value, panicking)),
    ensures
        run.moments[b].value() == Some(value) || run.moments[b].state is LockedWrite,
        run.last_value(b) == Some(value),
        panicking ==> run.panicked_before(b),
{
    law_rwlock_guard_returns(run, i, k, guard, (value, panicking));
    assert(run.moments[k].moves(run.events[k], run.moments[k + 1]));
    law_rwlock_value_kept(run, k + 1, b);
    lemma_last_value_kept(run, k + 1, b);
}

/// As long as no value comes back, the last one stays the last one.
proof fn lemma_last_value_kept<
    T: Send,
    W: From<RwLockWriteGuard<T>>,
    R: From<RwLockReadGuard<T>>,
>(run: RwLockRun<T, W, R>, a: int, b: int)
    requires
        0 <= a <= b <= run.events.len(),
        run.no_return(a, b),
    ensures
        run.last_value(b) == run.last_value(a),
    decreases b - a,
{
    if a < b {
        lemma_last_value_kept(run, a, b - 1);
        assert(!run.events[b - 1].is_return());
    }
}

/// First come, first served: what is gone from the queue is what was asked for,
/// in that order; and what was asked for has been answered with a guard, in that
/// order, except for at most one writer who waits for readers to leave.
pub proof fn law_rwlock_first_come_first_served<
    T: Send,
    W: From<RwLockWriteGuard<T>>,
    R: From<RwLockReadGuard<T>>,
>(run: RwLockRun<T, W, R>, n: int)
    requires
        run.valid(),
        run.observed(),
        0 <= n <= run.events.len(),
    ensures
        drained(run.moments.first().requests, run.asked(n), run.moments[n].requests),
        run.moments.first().waiting() + run.asked(n) == run.served(n) + run.moments[n].waiting(),
    decreases n,
{
    if n == 0 {
        assert(run.moments.first().waiting() + run.asked(0) =~= run.moments.first().waiting());
        assert(run.served(0) + run.moments[0].waiting() =~= run.moments[0].waiting());
    } else {
        law_rwlock_first_come_first_served(run, n - 1);
        let event = run.events[n - 1];
        let before = run.moments[n - 1];
        assert(before.moves(event, run.moments[n]));
        assert(before.observes(event));
        if let Some(request) = event.request() {
            let all = run.asked(n);
            assert(all.drop_last() =~= run.asked(n - 1));
            assert(drawn(
                before.requests,
                Ok(Async::Ready(Some(all.last()))),
                run.moments[n].requests,
            ));
        } else {
            match event {
                RwLockEvent::Requests(polled, rest) => law_nothing_drawn(
                    before.requests,
                    polled,
                    rest,
                ),
                RwLockEvent::Reading(polled, rest, _, _) => law_nothing_drawn(
                    before.requests,
                    polled,
                    rest,
                ),
                _ => {},
            }
        }
        let first = run.moments.first().waiting();
        assert(first + run.asked(n - 1) == run.served(n - 1) + before.waiting());
        if event.request() is Some {
            assert(first + run.asked(n) =~= (first + run.asked(n - 1)).push(event.request()->0));
        }
        assert(first + run.asked(n) =~= run.served(n) + run.moments[n].waiting());
    }
}

/// Histories add up: what one poll does and what the next one does is one
/// history, so that every law holds across polls.
pub proof fn law_rwlock_runs_join<
    T: Send,
    W: From<RwLockWriteGuard<T>>,
    R: From<RwLockReadGuard<T>>,
>(
    earlier: RwLockRun<T, W, R>,
    later: RwLockRun<T, W, R>,
)
    requires
        earlier.valid(),
        later.valid(),
        earlier.observed(),
        later.observed(),
        earlier.moments.last() == later.moments.first(),
    ensures
        earlier.then_run(later).valid(),
        earlier.then_run(later).observed(),
        earlier.then_run(later).moments.first() == earlier.moments.first(),
        earlier.then_run(later).moments.last() == later.moments.last(),
{
    let both = earlier.then_run(later);
    let n = earlier.events.len();
    assert forall|i: int| 0 <= i < both.events.len() implies both.moments[i].moves(
        #[trigger] both.events[i],
        both.moments[i + 1],
    ) && both.moments[i].observes(both.events[i]) by {
        if i < n {
            assert(both.events[i] == earlier.events[i]);
        } else {
            assert(both.events[i] == later.events[i - n]);
        }
    }
}

} // verus!
