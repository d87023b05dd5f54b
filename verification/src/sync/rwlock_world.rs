//! A reader-writer lock together with its lockers, in the order of time.

use crate::sync::exchange::{Incoming, Outgoing};
use crate::sync::primitives::{
    collected, delivered, flagged, law_collected_was_sent, law_nothing_collected, paired, sent,
    STEP_BUDGET,
};
use crate::sync::rwlock::{
    Canceled, LockRequest, RwLock, RwLockCompletion, RwLockEvent, RwLockMoment, RwLockReadGuard,
    RwLockRun, RwLockState, RwLockTask, RwLockWriteGuard,
};
use crate::sync::rwlock_laws::law_rwlock_completes;
use crate::sync::world::{law_exchange_poll, ExchangeWorld, Fate, Line};
use futures::sync::{mpsc, oneshot};
use futures::{Async, Poll};
use std::sync::LockResult;
use vstd::prelude::*;

verus! {

/// A lock, its handles and its guards.
#[verifier::reject_recursive_types(T)]
#[verifier::reject_recursive_types(W)]
#[verifier::reject_recursive_types(R)]
pub struct RwLockWorld<T: Send, W, R> {
    /// The lock.
    pub moment: RwLockMoment<T, W, R>,
    /// The handles, and the requests that they have sent.
    pub line: Line<LockRequest<W, R>>,
    /// How many read guards are out.
    pub readers: nat,
    /// How many of the pointers that were lent since the value was last at home
    /// have been dropped.
    pub dropped: nat,
    /// How many write guards are out.
    pub writers: nat,
    /// Where the write guard that was granted last gives the value back.
    pub end: oneshot::Sender<(T, bool)>,
    /// What has become of that end.
    pub guard: Fate<(T, bool)>,
}

impl<T: Send, W: From<RwLockWriteGuard<T>>, R: From<RwLockReadGuard<T>>> RwLockWorld<T, W, R> {
    /// A new lock.
    pub open spec fn is_new(self) -> bool {
        self.moment.state is Unlocked && self.readers == 0 && self.writers == 0
    }

    /// What the task is told is what has happened. The value can be taken from a
    /// pointer just when all pointers that were lent from it have been dropped.
    pub open spec fn tells(self, event: RwLockEvent<T, W, R>) -> bool {
        match event {
            RwLockEvent::Requests(Ok(polled), _) => self.line.says(polled),
            RwLockEvent::Reading(Ok(polled), _, tried, left) => {
                &&& self.line.says(polled)
                &&& event.request() is None ==> (left <==> tried.copies() == self.dropped)
            },
            RwLockEvent::Draining(tried, left) => left <==> tried.copies() == self.dropped,
            RwLockEvent::Unlock(polled, _) => self.guard.says(polled),
            _ => false,
        }
    }

    /// The task makes a step. A guard that it grants is out afterwards, unless
    /// the locker has gone: then the guard is dropped in the step, a read guard
    /// with its pointer, and a write guard gives the value back or loses it.
    pub open spec fn task_steps(self, event: RwLockEvent<T, W, R>, next: Self) -> bool {
        &&& self.moment.observes(event)
        &&& self.moment.moves(event, next.moment)
        &&& self.tells(event)
        &&& next.line == self.line.after(event.request())
        &&& if event.is_read_grant() {
            let dropped = if self.moment.state is Unlocked {
                0nat
            } else {
                self.dropped
            };
            ||| next.readers == self.readers + 1 && next.dropped == dropped
            ||| next.readers == self.readers && next.dropped == dropped + 1
        } else {
            next.readers == self.readers && next.dropped == self.dropped
        }
        &&& if event.is_write_grant() {
            &&& next.moment.state matches RwLockState::LockedWrite { unlock, .. }
            &&& paired(next.end, unlock)
            &&& next.guard matches Fate::Sent(message) ==> sent(next.end, message)
            &&& next.writers == self.writers + if next.guard is Open {
                1nat
            } else {
                0nat
            }
        } else {
            &&& next.end == self.end
            &&& next.guard == self.guard
            &&& next.writers == self.writers
        }
    }

    /// A reader leaves, and its pointer is dropped.
    pub open spec fn reader_leaves(self, next: Self) -> bool {
        &&& self.readers > 0
        &&& next == RwLockWorld {
            readers: (self.readers - 1) as nat,
            dropped: self.dropped + 1,
            ..self
        }
    }

    /// A writer gives the value back.
    pub open spec fn writer_leaves(self, message: (T, bool), next: Self) -> bool {
        &&& self.writers > 0
        &&& sent(self.end, message)
        &&& next == RwLockWorld {
            writers: (self.writers - 1) as nat,
            guard: Fate::Sent(message),
            ..self
        }
    }

    /// A write guard goes without giving the value back.
    pub open spec fn writer_is_lost(self, next: Self) -> bool {
        &&& self.writers > 0
        &&& next == RwLockWorld { writers: (self.writers - 1) as nat, guard: Fate::Gone, ..self }
    }

    /// A locker uses its handle.
    pub open spec fn locker_acts(self, next: Self) -> bool {
        &&& self.line.is_used(next.line)
        &&& next == RwLockWorld { line: next.line, ..self }
    }

    /// Something happens.
    pub open spec fn goes_to(self, next: Self) -> bool {
        ||| exists|event: RwLockEvent<T, W, R>| self.task_steps(event, next)
        ||| self.reader_leaves(next)
        ||| exists|message: (T, bool)| self.writer_leaves(message, next)
        ||| self.writer_is_lost(next)
        ||| self.locker_acts(next)
    }

    /// The value is with the task alone, with the task and readers, with one
    /// writer alone, on its way back from a writer, or lost with one. Every
    /// pointer that the task has lent is in a read guard that is out, or has been
    /// dropped.
    pub open spec fn in_order(self) -> bool {
        match self.moment.state {
            RwLockState::Unlocked { .. } => self.readers == 0 && self.writers == 0,
            RwLockState::LockedRead { arc, .. } => self.writers == 0 && arc.copies()
                == self.readers + self.dropped,
            RwLockState::LockedReadPendingWrite { arc, .. } => self.writers == 0 && arc.copies()
                == self.readers + self.dropped,
            RwLockState::LockedWrite { unlock, .. } => self.readers == 0 && match self.guard {
                Fate::Open => self.writers == 1 && paired(self.end, unlock),
                Fate::Sent(message) => self.writers == 0 && paired(self.end, unlock) && sent(
                    self.end,
                    message,
                ),
                Fate::Gone => self.writers == 0,
            },
            RwLockState::Invalid => false,
        }
    }

    /// A write guard has gone with the value.
    pub open spec fn is_lost(self) -> bool {
        self.moment.state is LockedWrite && self.guard is Gone
    }

    /// No handle is left, no request, no writer that waits, and no guard.
    pub open spec fn is_deserted(self) -> bool {
        &&& self.line.handles == 0
        &&& self.line.asked.len() == 0
        &&& self.moment.waiting().len() == 0
        &&& self.readers == 0
        &&& self.writers == 0
    }

    /// More steps than the task can make before it has to wait, if nobody else
    /// does anything.
    pub open spec fn steps_left(self) -> nat {
        3 * self.line.asked.len() + match self.moment.state {
            RwLockState::Unlocked { .. } => 1nat,
            RwLockState::LockedReadPendingWrite { .. } => 3nat,
            _ => 2nat,
        }
    }
}

/// A poll of the task during which nobody else does anything: `worlds` are what
/// its steps lead through.
pub open spec fn rwlock_polled_alone<
    T: Send,
    W: From<RwLockWriteGuard<T>>,
    R: From<RwLockReadGuard<T>>,
>(
    worlds: Seq<RwLockWorld<T, W, R>>,
    run: RwLockRun<T, W, R>,
    result: Poll<(), ()>,
) -> bool {
    &&& worlds.len() == run.events.len() + 1
    &&& run.is_poll(worlds.first().moment, worlds.last().moment, result)
    &&& forall|i: int|
        0 <= i < run.events.len() ==> worlds[i].task_steps(#[trigger] run.events[i], worlds[i + 1])
}

/// A step keeps the lock in order. What it takes back is what a write guard gave
/// back, and it takes the value from the readers just when no read guard is out.
pub proof fn law_rwlock_step<
    T: Send,
    W: From<RwLockWriteGuard<T>>,
    R: From<RwLockReadGuard<T>>,
>(
    world: RwLockWorld<T, W, R>,
    event: RwLockEvent<T, W, R>,
    next: RwLockWorld<T, W, R>,
)
    requires
        world.in_order(),
        world.task_steps(event, next),
    ensures
        next.in_order(),
        event matches RwLockEvent::Unlock(Ok(Async::Ready(message)), _) ==> world.guard
            == Fate::Sent(message),
        event matches RwLockEvent::Draining(_, left) ==> (left <==> world.readers == 0),
        event matches RwLockEvent::Reading(_, _, _, left) ==> event.request() is None ==> (left
            <==> world.readers == 0),
        event.outcome() == Ok::<_, ()>(Async::Ready(false)) ==> next.steps_left()
            < world.steps_left(),
{
    if let (RwLockState::LockedWrite { unlock, .. }, RwLockEvent::Unlock(polled, rest)) = (
        world.moment.state,
        event,
    ) {
        match polled {
            Ok(Async::Ready(message)) => law_collected_was_sent(world.end, unlock, message, rest),
            Ok(Async::NotReady) => law_nothing_collected(unlock, polled, rest),
            Err(_) => {},
        }
    }
}

/// At all times at most one writer has the value, and none while a reader has.
pub proof fn law_rwlock_one_writer_or_readers<
    T: Send,
    W: From<RwLockWriteGuard<T>>,
    R: From<RwLockReadGuard<T>>,
>(worlds: Seq<RwLockWorld<T, W, R>>, n: int)
    requires
        worlds.len() > 0,
        worlds.first().is_new(),
        forall|i: int|
            0 <= i < worlds.len() - 1 ==> (#[trigger] worlds[i]).goes_to(worlds[i + 1]),
        0 <= n < worlds.len(),
    ensures
        worlds[n].in_order(),
        worlds[n].writers <= 1,
        worlds[n].writers == 1 ==> worlds[n].readers == 0,
    decreases n,
{
    if n > 0 {
        law_rwlock_one_writer_or_readers(worlds, n - 1);
        let before = worlds[n - 1];
        assert(before.goes_to(worlds[n]));
        if exists|event: RwLockEvent<T, W, R>| before.task_steps(event, worlds[n]) {
            let event = choose|event: RwLockEvent<T, W, R>| before.task_steps(event, worlds[n]);
            law_rwlock_step(before, event, worlds[n]);
        }
    }
}

/// The first steps of a poll keep the lock in order, and use up the steps that
/// are left.
proof fn lemma_polls_in_order<
    T: Send,
    W: From<RwLockWriteGuard<T>>,
    R: From<RwLockReadGuard<T>>,
>(
    worlds: Seq<RwLockWorld<T, W, R>>,
    run: RwLockRun<T, W, R>,
    result: Poll<(), ()>,
    n: int,
)
    requires
        rwlock_polled_alone(worlds, run, result),
        worlds.first().in_order(),
        0 <= n < run.events.len(),
    ensures
        worlds[n].in_order(),
        worlds[n].line.handles == worlds.first().line.handles,
        n + worlds[n].steps_left() <= worlds.first().steps_left(),
    decreases n,
{
    if n > 0 {
        lemma_polls_in_order(worlds, run, result, n - 1);
        assert(run.events[n - 1].outcome() == Ok::<_, ()>(Async::Ready(false)));
        law_rwlock_step(worlds[n - 1], run.events[n - 1], worlds[n]);
    }
}

/// What a poll of the task returns, if nobody else does anything meanwhile. It
/// fails just when a write guard has gone with the value. Otherwise it says that
/// the task has finished just when no handle, no request and no guard is left;
/// the value is here then. Otherwise the task has to wait, and with reason: the
/// value is here and handles are left, but no request; or readers are left, and
/// no request or a writer that waits for them; or a writer has the value.
pub proof fn law_rwlock_poll<
    T: Send,
    W: From<RwLockWriteGuard<T>>,
    R: From<RwLockReadGuard<T>>,
>(
    worlds: Seq<RwLockWorld<T, W, R>>,
    run: RwLockRun<T, W, R>,
    result: Poll<(), ()>,
)
    requires
        rwlock_polled_alone(worlds, run, result),
        worlds.first().in_order(),
        worlds.first().steps_left() < STEP_BUDGET,
    ensures
        worlds.last().in_order(),
        worlds.last().line.handles == worlds.first().line.handles,
        result == if worlds.last().is_lost() {
            Err::<Async<()>, ()>(())
        } else if worlds.last().is_deserted() {
            Ok(Async::Ready(()))
        } else {
            Ok(Async::NotReady)
        },
        result == Ok::<_, ()>(Async::Ready(())) ==> worlds.last().moment.state is Unlocked,
        result == Ok::<Async<()>, ()>(Async::NotReady) ==> match worlds.last().moment.state {
            RwLockState::Unlocked { .. } => worlds.last().line.asked.len() == 0
                && worlds.last().line.handles > 0,
            RwLockState::LockedRead { .. } => worlds.last().line.asked.len() == 0
                && worlds.last().readers > 0,
            RwLockState::LockedReadPendingWrite { .. } => worlds.last().readers > 0,
            RwLockState::LockedWrite { .. } => worlds.last().writers == 1,
            RwLockState::Invalid => false,
        },
{
    let last = run.events.len() - 1;
    lemma_polls_in_order(worlds, run, result, last);
    assert(worlds[last].task_steps(run.events[last], worlds[last + 1]));
    law_rwlock_step(worlds[last], run.events[last], worlds[last + 1]);
    assert(run.events.last() == run.events[last]);
    assert(worlds.last() == worlds[last + 1]);
}

impl<T: Send, W, R> RwLockMoment<T, W, R> {
    /// What has become of the completion of a lock that was left like this:
    /// nothing while the task is there; once it was finished and dropped, the
    /// value was sent if nobody else had it, and otherwise nothing ever will be.
    pub open spec fn completes(self, alive: bool, fate: Fate<LockResult<T>>) -> bool {
        if alive {
            fate is Open
        } else {
            match self.state {
                RwLockState::Unlocked { value, completion } => {
                    &&& fate matches Fate::Sent(result)
                    &&& flagged(self.poisoned, value, result)
                    &&& delivered(completion, result)
                },
                _ => fate is Gone,
            }
        }
    }
}

/// Finishing the task completes the lock, or cancels its completion once what
/// was left is dropped.
pub proof fn law_rwlock_finish_completes<
    T: Send,
    W: From<RwLockWriteGuard<T>>,
    R: From<RwLockReadGuard<T>>,
>(moment: RwLockMoment<T, W, R>, rest: RwLockState<T, W>)
    requires
        moment.finishes(rest),
    ensures
        exists|fate: Fate<LockResult<T>>| moment.completes(false, fate),
        rest is Invalid <==> moment.state is Unlocked || moment.state is Invalid,
{
    if let RwLockState::Unlocked { value, completion } = moment.state {
        let result = choose|result: LockResult<T>|
            flagged(moment.poisoned, value, result) && #[trigger] delivered(completion, result);
        assert(moment.completes(false, Fate::Sent(result)));
    } else {
        assert(moment.completes(false, Fate::Gone));
    }
}

/// What the completion of a new lock says after `n` steps of its task. As long as
/// the task is there it has to wait, even if the task has said that it is done.
/// Once the task was finished with the value at home, the value comes: the one
/// that a writer gave back last, or else the one that the lock was created with,
/// in an error just if a writer was unwinding. If others had the value, the
/// completion is canceled.
pub proof fn law_rwlock_completion_says<
    T: Send,
    W: From<RwLockWriteGuard<T>>,
    R: From<RwLockReadGuard<T>>,
>(
    rwlock: RwLock<W, R>,
    value: T,
    task: RwLockTask<T, W, R>,
    completion: RwLockCompletion<T>,
    run: RwLockRun<T, W, R>,
    n: int,
    alive: bool,
    fate: Fate<LockResult<T>>,
    polled: Poll<LockResult<T>, oneshot::Canceled>,
    after: oneshot::Receiver<LockResult<T>>,
)
    requires
        rwlock.starts(value, task, completion),
        run.valid(),
        run.moments.first() == task.moment(),
        0 <= n <= run.events.len(),
        run.moments[n].completes(alive, fate),
        fate.says(polled),
        collected(completion.receiver(), polled, after),
    ensures
        alive ==> polled matches Ok(Async::NotReady),
        !alive && run.moments[n].state is Unlocked ==> {
            &&& polled matches Ok(Async::Ready(result))
            &&& run.last_value(n) is Some
            &&& flagged(run.panicked_before(n), run.last_value(n)->0, result)
            &&& run.no_return(0, n) ==> run.last_value(n) == Some(value)
        },
        !alive && run.moments[n].state !is Unlocked ==> polled is Err,
{
    if !alive && run.moments[n].state is Unlocked {
        law_rwlock_completes(
            rwlock,
            value,
            task,
            completion,
            run,
            n,
            RwLockState::Invalid,
            polled,
            after,
        );
    }
}

/// An attempt to lock, for reading or for writing, is canceled just when the task
/// was dropped without having answered it, whether the request was sent or not
/// and whether the task kept a writer waiting. Otherwise it completes with the
/// answer and the handle, or has to wait.
pub proof fn law_rwlock_lock_says<W, R, G>(
    world: ExchangeWorld<LockRequest<W, R>, LockResult<G>>,
    out: (Outgoing<LockRequest<W, R>>, Result<bool, ()>),
    back: (Incoming<LockResult<G>>, Result<bool, ()>),
    next: ExchangeWorld<LockRequest<W, R>, LockResult<G>>,
    polled: Poll<(mpsc::Sender<LockRequest<W, R>>, LockResult<G>), ()>,
    result: Poll<(RwLock<W, R>, LockResult<G>), Canceled>,
)
    requires
        world.in_order(),
        world.locker_polls(out, back, next, polled),
        RwLock::locks(polled, result),
    ensures
        result is Err <==> !world.alive && world.reply !is Sent,
        result matches Ok(Async::Ready((rwlock, got))) ==> world.reply == Fate::Sent(got)
            && out.0 == Outgoing::Done(rwlock.sender()),
        result matches Ok(Async::NotReady) ==> world.reply is Open
            || next.exchange.outgoing is Flushing,
{
    law_exchange_poll(world, out, back, next, polled);
}

} // verus!
