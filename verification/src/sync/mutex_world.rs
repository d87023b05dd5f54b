//! A mutex together with its lockers, in the order of time.

use crate::sync::exchange::{Incoming, Outgoing};
use crate::sync::mutex::{
    Canceled, LockRequest, Mutex, MutexCompletion, MutexEvent, MutexGuard, MutexMoment, MutexRun,
    MutexState, MutexTask,
};
use crate::sync::mutex_laws::law_mutex_completes;
use crate::sync::primitives::{
    collected, delivered, flagged, law_collected_was_sent, law_nothing_collected, paired, sent,
    STEP_BUDGET,
};
use crate::sync::world::{law_exchange_poll, ExchangeWorld, Fate, Line};
use futures::sync::{mpsc, oneshot};
use futures::{Async, Poll};
use std::sync::LockResult;
use vstd::prelude::*;

verus! {

/// A mutex, its handles and its guards.
#[verifier::reject_recursive_types(T)]
#[verifier::reject_recursive_types(G)]
pub struct MutexWorld<T: Send, G> {
    /// The mutex.
    pub moment: MutexMoment<T, G>,
    /// The handles, and the requests that they have sent.
    pub line: Line<LockRequest<G>>,
    /// How many guards are out.
    pub guards: nat,
    /// Where the guard that was granted last gives the value back.
    pub end: oneshot::Sender<(T, bool)>,
    /// What has become of that end.
    pub guard: Fate<(T, bool)>,
}

impl<T: Send, G: From<MutexGuard<T>>> MutexWorld<T, G> {
    /// A new mutex.
    pub open spec fn is_new(self) -> bool {
        self.moment.state is Unlocked && self.guards == 0
    }

    /// What the task is told is what has happened.
    pub open spec fn tells(self, event: MutexEvent<T, G>) -> bool {
        match event {
            MutexEvent::Requests(Ok(polled), _) => self.line.says(polled),
            MutexEvent::Unlock(polled, _) => self.guard.says(polled),
            _ => false,
        }
    }

    /// The task makes a step. A guard that it grants is out afterwards, unless
    /// the locker has gone: then the guard is dropped in the step, and gives the
    /// value back or loses it.
    pub open spec fn task_steps(self, event: MutexEvent<T, G>, next: Self) -> bool {
        &&& self.moment.observes(event)
        &&& self.moment.moves(event, next.moment)
        &&& self.tells(event)
        &&& next.line == self.line.after(event.request())
        &&& if event.is_grant() {
            &&& next.moment.state matches MutexState::Locked(receiver, _)
            &&& paired(next.end, receiver)
            &&& next.guard matches Fate::Sent(message) ==> sent(next.end, message)
            &&& next.guards == self.guards + if next.guard is Open {
                1nat
            } else {
                0nat
            }
        } else {
            &&& next.end == self.end
            &&& next.guard == self.guard
            &&& next.guards == self.guards
        }
    }

    /// A guard gives the value back.
    pub open spec fn guard_leaves(self, message: (T, bool), next: Self) -> bool {
        &&& self.guards > 0
        &&& sent(self.end, message)
        &&& next.guards == self.guards - 1
        &&& next.guard == Fate::Sent(message)
        &&& next.end == self.end
        &&& next.moment == self.moment
        &&& next.line == self.line
    }

    /// A guard goes without giving the value back.
    pub open spec fn guard_is_lost(self, next: Self) -> bool {
        &&& self.guards > 0
        &&& next.guards == self.guards - 1
        &&& next.guard is Gone
        &&& next.end == self.end
        &&& next.moment == self.moment
        &&& next.line == self.line
    }

    /// A locker uses its handle.
    pub open spec fn locker_acts(self, next: Self) -> bool {
        &&& self.line.is_used(next.line)
        &&& next == MutexWorld { line: next.line, ..self }
    }

    /// Something happens.
    pub open spec fn goes_to(self, next: Self) -> bool {
        ||| exists|event: MutexEvent<T, G>| self.task_steps(event, next)
        ||| exists|message: (T, bool)| self.guard_leaves(message, next)
        ||| self.guard_is_lost(next)
        ||| self.locker_acts(next)
    }

    /// The value is in one place: with the task, with a guard, on its way back,
    /// or lost with a guard.
    pub open spec fn in_order(self) -> bool {
        match self.moment.state {
            MutexState::Unlocked(_, _) => self.guards == 0,
            MutexState::Locked(receiver, _) => match self.guard {
                Fate::Open => self.guards == 1 && paired(self.end, receiver),
                Fate::Sent(message) => self.guards == 0 && paired(self.end, receiver) && sent(
                    self.end,
                    message,
                ),
                Fate::Gone => self.guards == 0,
            },
            MutexState::Invalid => false,
        }
    }

    /// A guard has gone with the value.
    pub open spec fn is_lost(self) -> bool {
        self.moment.state is Locked && self.guard is Gone
    }

    /// No handle is left, no request and no guard.
    pub open spec fn is_deserted(self) -> bool {
        self.line.handles == 0 && self.line.asked.len() == 0 && self.guards == 0
    }

    /// More steps than the task can make before it has to wait, if nobody else
    /// does anything.
    pub open spec fn steps_left(self) -> nat {
        2 * self.line.asked.len() + if self.moment.state is Locked {
            2nat
        } else {
            1nat
        }
    }
}

/// A poll of the task during which nobody else does anything: `worlds` are what
/// its steps lead through.
pub open spec fn mutex_polled_alone<T: Send, G: From<MutexGuard<T>>>(
    worlds: Seq<MutexWorld<T, G>>,
    run: MutexRun<T, G>,
    result: Poll<(), ()>,
) -> bool {
    &&& worlds.len() == run.events.len() + 1
    &&& run.is_poll(worlds.first().moment, worlds.last().moment, result)
    &&& forall|i: int|
        0 <= i < run.events.len() ==> worlds[i].task_steps(#[trigger] run.events[i], worlds[i + 1])
}

/// A step keeps the mutex in order. What it takes back is what a guard gave back.
pub proof fn law_mutex_step<T: Send, G: From<MutexGuard<T>>>(
    world: MutexWorld<T, G>,
    event: MutexEvent<T, G>,
    next: MutexWorld<T, G>,
)
    requires
        world.in_order(),
        world.task_steps(event, next),
    ensures
        next.in_order(),
        event matches MutexEvent::Unlock(Ok(Async::Ready(message)), _) ==> world.guard
            == Fate::Sent(message),
        event.outcome() == Ok::<_, ()>(Async::Ready(false)) ==> next.steps_left()
            < world.steps_left(),
{
    if let (MutexState::Locked(receiver, _), MutexEvent::Unlock(polled, rest)) = (
        world.moment.state,
        event,
    ) {
        match polled {
            Ok(Async::Ready(message)) => law_collected_was_sent(
                world.end,
                receiver,
                message,
                rest,
            ),
            Ok(Async::NotReady) => law_nothing_collected(receiver, polled, rest),
            Err(_) => {},
        }
    }
}

/// At all times the value of a mutex is in one place, so at most one guard is
/// out.
pub proof fn law_mutex_one_guard<T: Send, G: From<MutexGuard<T>>>(
    worlds: Seq<MutexWorld<T, G>>,
    n: int,
)
    requires
        worlds.len() > 0,
        worlds.first().is_new(),
        forall|i: int|
            0 <= i < worlds.len() - 1 ==> (#[trigger] worlds[i]).goes_to(worlds[i + 1]),
        0 <= n < worlds.len(),
    ensures
        worlds[n].in_order(),
        worlds[n].guards <= 1,
    decreases n,
{
    if n > 0 {
        law_mutex_one_guard(worlds, n - 1);
        let before = worlds[n - 1];
        assert(before.goes_to(worlds[n]));
        if exists|event: MutexEvent<T, G>| before.task_steps(event, worlds[n]) {
            let event = choose|event: MutexEvent<T, G>| before.task_steps(event, worlds[n]);
            law_mutex_step(before, event, worlds[n]);
        }
    }
}

/// The first steps of a poll keep the mutex in order, and use up the steps that
/// are left.
proof fn lemma_polls_in_order<T: Send, G: From<MutexGuard<T>>>(
    worlds: Seq<MutexWorld<T, G>>,
    run: MutexRun<T, G>,
    result: Poll<(), ()>,
    n: int,
)
    requires
        mutex_polled_alone(worlds, run, result),
        worlds.first().in_order(),
        0 <= n < run.events.len(),
    ensures
        worlds[n].in_order(),
        worlds[n].line.handles == worlds.first().line.handles,
        n + worlds[n].steps_left() <= worlds.first().steps_left(),
    decreases n,
{
    if n > 0 {
        lemma_polls_in_order(worlds, run, result, n - 1);
        assert(run.events[n - 1].outcome() == Ok::<_, ()>(Async::Ready(false)));
        law_mutex_step(worlds[n - 1], run.events[n - 1], worlds[n]);
    }
}

/// What a poll of the task returns, if nobody else does anything meanwhile. It
/// fails just when a guard has gone with the value. Otherwise it says that the
/// task has finished just when no handle, no request and no guard is left; the
/// value is here then. Otherwise the task has to wait, and with reason: the value
/// is here and handles are left, but no request, or one guard is out.
pub proof fn law_mutex_poll<T: Send, G: From<MutexGuard<T>>>(
    worlds: Seq<MutexWorld<T, G>>,
    run: MutexRun<T, G>,
    result: Poll<(), ()>,
)
    requires
        mutex_polled_alone(worlds, run, result),
        worlds.first().in_order(),
        worlds.first().steps_left() < STEP_BUDGET,
    ensures
        worlds.last().in_order(),
        worlds.last().line.handles == worlds.first().line.handles,
        result == if worlds.last().is_lost() {
            Err::<Async<()>, ()>(())
        } else if worlds.last().is_deserted() {
            Ok(Async::Ready(()))
        } else {
            Ok(Async::NotReady)
        },
        result == Ok::<_, ()>(Async::Ready(())) ==> worlds.last().moment.state is Unlocked,
        result == Ok::<Async<()>, ()>(Async::NotReady) ==> {
            ||| worlds.last().moment.state is Unlocked && worlds.last().line.asked.len() == 0
                && worlds.last().line.handles > 0
            ||| worlds.last().moment.state is Locked && worlds.last().guards == 1
        },
{
    let last = run.events.len() - 1;
    lemma_polls_in_order(worlds, run, result, last);
    assert(worlds[last].task_steps(run.events[last], worlds[last + 1]));
    law_mutex_step(worlds[last], run.events[last], worlds[last + 1]);
    assert(run.events.last() == run.events[last]);
    assert(worlds.last() == worlds[last + 1]);
}

impl<T: Send, G> MutexMoment<T, G> {
    /// What has become of the completion of a mutex that was left like this:
    /// nothing while the task is there; once it was finished and dropped, the
    /// value was sent if it was here, and otherwise nothing ever will be.
    pub open spec fn completes(self, alive: bool, fate: Fate<LockResult<T>>) -> bool {
        if alive {
            fate is Open
        } else {
            match self.state {
                MutexState::Unlocked(value, completion) => {
                    &&& fate matches Fate::Sent(result)
                    &&& flagged(self.poisoned, value, result)
                    &&& delivered(completion, result)
                },
                _ => fate is Gone,
            }
        }
    }
}

/// Finishing the task completes the mutex, or cancels its completion once what
/// was left is dropped.
pub proof fn law_mutex_finish_completes<T: Send, G: From<MutexGuard<T>>>(
    moment: MutexMoment<T, G>,
    rest: MutexState<T>,
)
    requires
        moment.finishes(rest),
    ensures
        exists|fate: Fate<LockResult<T>>| moment.completes(false, fate),
        rest is Invalid <==> moment.state is Unlocked || moment.state is Invalid,
{
    if let MutexState::Unlocked(value, completion) = moment.state {
        let result = choose|result: LockResult<T>|
            flagged(moment.poisoned, value, result) && #[trigger] delivered(completion, result);
        assert(moment.completes(false, Fate::Sent(result)));
    } else {
        assert(moment.completes(false, Fate::Gone));
    }
}

/// What the completion of a new mutex says after `n` steps of its task. As long
/// as the task is there it has to wait, even if the task has said that it is
/// done. Once the task was finished with the value at home, the value comes: the
/// one that was given back last, or else the one that the mutex was created
/// with, in an error just if a holder was unwinding. If the value was away, the
/// completion is canceled.
pub proof fn law_mutex_completion_says<T: Send, G: From<MutexGuard<T>>>(
    mutex: Mutex<G>,
    value: T,
    task: MutexTask<T, G>,
    completion: MutexCompletion<T>,
    run: MutexRun<T, G>,
    n: int,
    alive: bool,
    fate: Fate<LockResult<T>>,
    polled: Poll<LockResult<T>, oneshot::Canceled>,
    after: oneshot::Receiver<LockResult<T>>,
)
    requires
        mutex.starts(value, task, completion),
        run.valid(),
        run.moments.first() == task.moment(),
        0 <= n <= run.events.len(),
        run.moments[n].completes(alive, fate),
        fate.says(polled),
        collected(completion.receiver(), polled, after),
    ensures
        alive ==> polled matches Ok(Async::NotReady),
        !alive && run.moments[n].state is Unlocked ==> {
            &&& polled matches Ok(Async::Ready(result))
            &&& run.last_value(n) is Some
            &&& flagged(run.panicked_before(n), run.last_value(n)->0, result)
            &&& run.no_return(0, n) ==> run.last_value(n) == Some(value)
        },
        !alive && run.moments[n].state !is Unlocked ==> polled is Err,
{
    if !alive && run.moments[n].state is Unlocked {
        law_mutex_completes(
            mutex,
            value,
            task,
            completion,
            run,
            n,
            MutexState::Invalid,
            polled,
            after,
        );
    }
}

/// An attempt to lock is canceled just when the task was dropped without having
/// answered it, whether the request was sent or not. Otherwise it completes with
/// the answer and the handle, or has to wait.
pub proof fn law_mutex_lock_says<G>(
    world: ExchangeWorld<LockRequest<G>, LockResult<G>>,
    out: (Outgoing<LockRequest<G>>, Result<bool, ()>),
    back: (Incoming<LockResult<G>>, Result<bool, ()>),
    next: ExchangeWorld<LockRequest<G>, LockResult<G>>,
    polled: Poll<(mpsc::Sender<LockRequest<G>>, LockResult<G>), ()>,
    result: Poll<(Mutex<G>, LockResult<G>), Canceled>,
)
    requires
        world.in_order(),
        world.locker_polls(out, back, next, polled),
        Mutex::locks(polled, result),
    ensures
        result is Err <==> !world.alive && world.reply !is Sent,
        result matches Ok(Async::Ready((mutex, got))) ==> world.reply == Fate::Sent(got)
            && out.0 == Outgoing::Done(mutex.sender()),
        result matches Ok(Async::NotReady) ==> world.reply is Open
            || next.exchange.outgoing is Flushing,
{
    law_exchange_poll(world, out, back, next, polled);
}

} // verus!
