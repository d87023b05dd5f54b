//! What calls of the functions of a mutex come to, from its creation to its
//! completion.
//!
//! The laws here start from calls: that a function was called with these
//! arguments and has returned this.

use crate::sync::exchange::{
    law_exchange_serves, law_exchange_starts, Exchange, Incoming, Outgoing,
};
use crate::sync::lineage::{
    law_led_reaches, law_queued_reaches, law_tried_reaches, led, reaches, tried, Deed,
};
use crate::sync::mutex::{
    Canceled, GuardSender, LockRequest, Mutex, MutexCompletion, MutexEvent, MutexGuard, MutexLock,
    MutexMoment, MutexRun, MutexState, MutexTask,
};
use crate::sync::mutex_world::{
    law_mutex_poll, law_mutex_step, mutex_polled_alone, MutexWorld,
};
use crate::sync::primitives::{
    collected, converted, delivered, drained, drawn, dropped, flagged, law_collected_was_sent,
    law_sent_is_not_canceled, offered, paired, sent, STEP_BUDGET,
};
use crate::sync::world::{Fate, Line};
use crate::{spawned, Spawn};
use futures::sync::{mpsc, oneshot};
use futures::{Async, AsyncSink, Poll};
use std::ops::{Deref, DerefMut};
use std::sync::{LockResult, PoisonError};
use vstd::prelude::*;

verus! {

impl<T: Send, G: From<MutexGuard<T>>> MutexWorld<T, G> {
    /// `request` was offered with `sender`, and taken: it stands in line at this
    /// mutex if that is where the sender leads.
    pub open spec fn hears(
        self,
        sender: mpsc::Sender<LockRequest<G>>,
        request: LockRequest<G>,
        after: mpsc::Sender<LockRequest<G>>,
        next: Self,
    ) -> bool {
        &&& offered(sender, request, after, Ok(AsyncSink::Ready))
        &&& next == MutexWorld {
            line: Line {
                asked: if reaches(sender, self.moment.requests) {
                    self.line.asked.push(request)
                } else {
                    self.line.asked
                },
                ..self.line
            },
            ..self
        }
    }
}

/// A new mutex has its value at home and is not poisoned. Requests of its handle
/// arrive at its task, and its completion is where the task sends the value.
pub proof fn law_mutex_is_created<T: Send, G>(
    value: T,
    mutex: Mutex<G>,
    task: MutexTask<T, G>,
    completion: MutexCompletion<T>,
)
    requires
        call_ensures(Mutex::<G>::with_task::<T>, (value,), (mutex, task, completion)),
    ensures
        call_ensures(
            mpsc::channel::<LockRequest<G>>,
            (0usize,),
            (mutex.sender(), task.requests()),
        ),
        reaches(mutex.sender(), task.requests()),
        task.is_whole(),
        !task.poisoned(),
        task.state() matches MutexState::Unlocked(held, end) && held == value && call_ensures(
            oneshot::channel::<LockResult<T>>,
            (),
            (end, completion.receiver()),
        ),
        completion.is_whole(),
{
    let none = Seq::<Deed<LockRequest<G>>>::empty();
    assert(led(mutex.sender(), none, mutex.sender()));
    assert(drained(task.requests(), Seq::empty(), task.requests()));
    law_queued_reaches(
        0,
        mutex.sender(),
        task.requests(),
        none,
        mutex.sender(),
        Seq::empty(),
        task.requests(),
    );
}

/// The task of a new mutex is handed to the spawner.
pub proof fn law_mutex_is_spawned<T: Send, G, S: Spawn<MutexTask<T, G>>>(
    value: T,
    spawn: &S,
    mutex: Mutex<G>,
    completion: MutexCompletion<T>,
)
    requires
        call_ensures(Mutex::<G>::new::<T, S>, (value, spawn), (mutex, completion)),
    ensures
        exists|task: MutexTask<T, G>|
            {
                &&& #[trigger] call_ensures(S::spawn_detached, (spawn, task), ())
                &&& call_ensures(
                    mpsc::channel::<LockRequest<G>>,
                    (0usize,),
                    (mutex.sender(), task.requests()),
                )
                &&& task.is_whole()
                &&& !task.poisoned()
                &&& task.state() matches MutexState::Unlocked(held, end)
                &&& held == value
                &&& call_ensures(
                    oneshot::channel::<LockResult<T>>,
                    (),
                    (end, completion.receiver()),
                )
            },
{
    let task = choose|task: MutexTask<T, G>| #[trigger]
        spawned(spawn, task) && mutex.starts(value, task, completion);
    assert(call_ensures(S::spawn_detached, (spawn, task), ()));
}

/// Requests of a copy arrive where those of the handle do.
pub proof fn law_mutex_copy_reaches<G>(
    mutex: Mutex<G>,
    copy: Mutex<G>,
    queue: mpsc::Receiver<LockRequest<G>>,
)
    requires
        call_ensures(<Mutex<G> as Clone>::clone, (&mutex,), copy),
        reaches(mutex.sender(), queue),
    ensures
        reaches(copy.sender(), queue),
{
    let deeds = seq![Deed::<LockRequest<G>>::Copy];
    assert(led(mutex.sender(), deeds.drop_last(), mutex.sender()));
    assert(deeds.last().gives(mutex.sender(), copy.sender()));
    assert(led(mutex.sender(), deeds, copy.sender()));
    law_led_reaches(mutex.sender(), queue, deeds, copy.sender());
}

/// An attempt to lock is one request, sent with the handle, whose answer it
/// waits for.
pub proof fn law_mutex_lock_asks<G>(handle: Mutex<G>, lock: MutexLock<G>)
    requires
        call_ensures(Mutex::<G>::lock, (handle,), lock),
    ensures
        exists|end: GuardSender<G>| #[trigger]
            lock.exchange().serves(handle.sender(), LockRequest(end), end),
{
    let (end, receiver) = choose|
        end: GuardSender<G>,
        receiver: oneshot::Receiver<LockResult<G>>,
    |
        {
            &&& #[trigger] paired(end, receiver)
            &&& lock.exchange().outgoing == Outgoing::Offering(handle.sender(), LockRequest(end))
            &&& lock.exchange().incoming == Incoming::Waiting(receiver)
        };
    law_exchange_starts(lock.exchange(), handle.sender(), LockRequest(end), end, receiver);
}

/// What a poll of an attempt to lock does. It sends no request but its own. If it
/// completes, the queue has taken that request exactly once, the handle that
/// comes back is the one that the attempt was made with, and what comes with it
/// is the one answer that was given to the request.
pub proof fn law_mutex_lock_poll<G>(
    lock: &mut MutexLock<G>,
    result: Poll<(Mutex<G>, LockResult<G>), Canceled>,
    handle: mpsc::Sender<LockRequest<G>>,
    end: GuardSender<G>,
)
    requires
        call_ensures(MutexLock::<G>::poll, (lock,), result),
        old(lock).exchange().serves(handle, LockRequest(end), end),
    ensures
        result matches Ok(Async::NotReady) ==> final(lock).exchange().serves(
            handle,
            LockRequest(end),
            end,
        ),
        result matches Ok(Async::Ready((mutex, got))) ==> {
            &&& tried(handle, LockRequest(end), 1, mutex.sender())
            &&& sent(end, got)
            &&& forall|other: LockResult<G>| #[trigger] sent(end, other) ==> other == got
        },
        result is Err ==> old(lock).exchange().polls(final(lock).exchange(), Err(())),
{
    let polled = choose|polled: Poll<(mpsc::Sender<LockRequest<G>>, LockResult<G>), ()>| #[trigger]
        lock.exchange().polls(final(lock).exchange(), polled) && Mutex::locks(polled, result);
    law_exchange_serves(
        lock.exchange(),
        final(lock).exchange(),
        polled,
        handle,
        LockRequest(end),
        end,
    );
}

/// The handle that comes back with a guard can lock the same mutex again.
pub proof fn law_mutex_handle_comes_back<G>(
    lock: &mut MutexLock<G>,
    mutex: Mutex<G>,
    got: LockResult<G>,
    handle: mpsc::Sender<LockRequest<G>>,
    end: GuardSender<G>,
    queue: mpsc::Receiver<LockRequest<G>>,
)
    requires
        call_ensures(MutexLock::<G>::poll, (lock,), Ok(Async::Ready((mutex, got)))),
        old(lock).exchange().serves(handle, LockRequest(end), end),
        reaches(handle, queue),
    ensures
        reaches(mutex.sender(), queue),
{
    law_mutex_lock_poll(lock, Ok(Async::Ready((mutex, got))), handle, end);
    law_tried_reaches(handle, queue, LockRequest(end), 1, mutex.sender());
}

/// Whoever has a handle of a new mutex, or one that was made from it, can ask for
/// the value: once the queue has taken the request, it stands last in line at the
/// task of that mutex.
pub proof fn law_mutex_request_arrives<T: Send, G: From<MutexGuard<T>>>(
    value: T,
    mutex: Mutex<G>,
    task: MutexTask<T, G>,
    completion: MutexCompletion<T>,
    deeds: Seq<Deed<LockRequest<G>>>,
    handle: mpsc::Sender<LockRequest<G>>,
    exchange: Exchange<LockRequest<G>, LockResult<G>>,
    end: GuardSender<G>,
    sender: mpsc::Sender<LockRequest<G>>,
    request: LockRequest<G>,
    messages: Seq<LockRequest<G>>,
    world: MutexWorld<T, G>,
    after: mpsc::Sender<LockRequest<G>>,
    next: MutexWorld<T, G>,
)
    requires
        call_ensures(Mutex::<G>::with_task::<T>, (value,), (mutex, task, completion)),
        led(mutex.sender(), deeds, handle),
        exchange.serves(handle, LockRequest(end), end),
        exchange.outgoing == Outgoing::Offering(sender, request),
        drained(task.requests(), messages, world.moment.requests),
        world.hears(sender, request, after, next),
    ensures
        next.line.asked == world.line.asked.push(LockRequest(end)),
        next.moment == world.moment,
{
    law_queued_reaches(
        0,
        mutex.sender(),
        task.requests(),
        deeds,
        handle,
        messages,
        world.moment.requests,
    );
    law_tried_reaches(handle, world.moment.requests, LockRequest(end), 0, sender);
}

/// Those who stand in line move up as requests are answered, and nobody gets
/// between.
pub proof fn law_mutex_line_moves_up<T: Send, G: From<MutexGuard<T>>>(
    world: MutexWorld<T, G>,
    next: MutexWorld<T, G>,
    k: int,
)
    requires
        world.goes_to(next),
        0 <= k < world.line.asked.len(),
    ensures
        ({
            ||| k < next.line.asked.len() && next.line.asked[k] == world.line.asked[k]
            ||| {
                &&& exists|event: MutexEvent<T, G>| #[trigger]
                    world.task_steps(event, next) && event.request() == Some(
                        world.line.asked.first(),
                    )
                &&& k > 0 ==> next.line.asked[k - 1] == world.line.asked[k]
            }
        }),
{
    if exists|event: MutexEvent<T, G>| world.task_steps(event, next) {
        let event = choose|event: MutexEvent<T, G>| world.task_steps(event, next);
        assert(world.moment.moves(event, next.moment));
    }
}

/// What a poll of the task does for those in line, if nobody else does anything
/// meanwhile: if the value is at home or on its way back, the first in line gets
/// a guard on it, flagged if the mutex is poisoned.
proof fn lemma_serves_first<T: Send, G: From<MutexGuard<T>>>(
    worlds: Seq<MutexWorld<T, G>>,
    run: MutexRun<T, G>,
    result: Poll<(), ()>,
)
    requires
        mutex_polled_alone(worlds, run, result),
        worlds.first().in_order(),
        worlds.first().steps_left() < STEP_BUDGET,
        worlds.first().line.asked.len() > 0,
    ensures
        worlds.first().moment.state matches MutexState::Unlocked(value, _) ==> serves_first(
            value,
            worlds.first().moment.poisoned,
            worlds.first().line.asked.first(),
        ),
        worlds.first().moment.state is Locked ==> (worlds.first().guard matches Fate::Sent((
            value,
            panicked,
        )) ==> serves_first(
            value,
            worlds.first().moment.poisoned || panicked,
            worlds.first().line.asked.first(),
        )),
{
    assert(worlds[0].task_steps(run.events[0], worlds[1]));
    law_mutex_step(worlds[0], run.events[0], worlds[1]);
    if let MutexState::Unlocked(value, _) = worlds[0].moment.state {
        lemma_granted(worlds[0], run.events[0], worlds[1]);
    } else if worlds[0].guard is Sent {
        if run.events.len() == 1 {
            assert(run.events.last() == run.events[0]);
            assert(run.events.last().outcome() == Ok::<_, ()>(Async::Ready(false)));
        }
        assert(worlds[1].task_steps(run.events[1], worlds[2]));
        lemma_granted(worlds[1], run.events[1], worlds[2]);
    }
}

/// A guard on `value` was sent in answer to `request`, in an error just if
/// `poisoned`.
pub open spec fn serves_first<T: Send, G: From<MutexGuard<T>>>(
    value: T,
    poisoned: bool,
    request: LockRequest<G>,
) -> bool {
    exists|
        guard: MutexGuard<T>,
        owner: G,
        reply: LockResult<G>,
        answer: Result<(), LockResult<G>>,
    |
        {
            &&& guard.value() == value
            &&& #[trigger] call_ensures(<G as From<MutexGuard<T>>>::from, (guard,), owner)
            &&& match reply {
                Ok(inner) => !poisoned && inner == owner,
                Err(error) => poisoned && call_ensures(PoisonError::<G>::new, (owner,), error),
            }
            &&& #[trigger] call_ensures(
                oneshot::Sender::<LockResult<G>>::send,
                (request.0, reply),
                answer,
            )
        }
}

/// A step with the value at home and requests in line grants the value to the
/// first.
proof fn lemma_granted<T: Send, G: From<MutexGuard<T>>>(
    world: MutexWorld<T, G>,
    event: MutexEvent<T, G>,
    next: MutexWorld<T, G>,
)
    requires
        world.task_steps(event, next),
        world.moment.state is Unlocked,
        world.line.asked.len() > 0,
    ensures
        event.request() == Some(world.line.asked.first()),
        world.moment.state matches MutexState::Unlocked(value, _) ==> serves_first(
            value,
            world.moment.poisoned,
            world.line.asked.first(),
        ),
{
    if let (MutexState::Unlocked(value, _), Some(LockRequest(req))) = (
        world.moment.state,
        event.request(),
    ) {
        if let MutexState::Locked(receiver, _) = next.moment.state {
            let (guard, owner, reply) = choose|
                guard: MutexGuard<T>,
                owner: G,
                reply: LockResult<G>,
            |
                #![trigger converted(guard, owner), delivered(req, reply)]
                {
                    &&& guard.value() == value
                    &&& paired(guard.unlock(), receiver)
                    &&& converted(guard, owner)
                    &&& flagged(world.moment.poisoned, owner, reply)
                    &&& delivered(req, reply)
                };
            let answer = choose|answer: Result<(), LockResult<G>>|
                call_ensures(
                    oneshot::Sender::<LockResult<G>>::send,
                    (req, reply),
                    answer,
                ) && (answer is Err ==> dropped(reply));
            assert(call_ensures(<G as From<MutexGuard<T>>>::from, (guard,), owner));
            assert(call_ensures(
                oneshot::Sender::<LockResult<G>>::send,
                (req, reply),
                answer,
            ));
        }
    }
}

/// What a call of `poll` on the task comes to, if nobody else does anything
/// meanwhile. It fails just when a guard has gone with the value, is done just
/// when no handle, no request and no guard is left, and the value is at home
/// then; otherwise it waits, with the value at home and nobody in line, or with
/// one guard out. If the value is at home or on its way back, the first in line
/// gets it.
pub proof fn law_mutex_task_poll<T: Send, G: From<MutexGuard<T>>>(
    task: &mut MutexTask<T, G>,
    result: Poll<(), ()>,
)
    requires
        call_ensures(MutexTask::<T, G>::poll, (task,), result),
    ensures
        final(task).is_whole(),
        final(task).state() !is Invalid,
        exists|run: MutexRun<T, G>|
            {
                &&& #[trigger] run.is_poll(old(task).moment(), final(task).moment(), result)
                &&& forall|worlds: Seq<MutexWorld<T, G>>|
                    {
                        &&& #[trigger] mutex_polled_alone(worlds, run, result)
                        &&& worlds.first().in_order()
                        &&& worlds.first().steps_left() < STEP_BUDGET
                    } ==> mutex_poll_comes_to(worlds.first(), worlds.last(), result)
                        && worlds.last().moment == final(task).moment()
            },
{
    let run = choose|run: MutexRun<T, G>| #[trigger]
        run.is_poll(task.moment(), final(task).moment(), result);
    assert forall|worlds: Seq<MutexWorld<T, G>>|
        {
            &&& #[trigger] mutex_polled_alone(worlds, run, result)
            &&& worlds.first().in_order()
            &&& worlds.first().steps_left() < STEP_BUDGET
        } implies mutex_poll_comes_to(worlds.first(), worlds.last(), result)
        && worlds.last().moment == final(task).moment() by {
        law_mutex_poll(worlds, run, result);
        if worlds.first().line.asked.len() > 0 {
            lemma_serves_first(worlds, run, result);
        }
    }
}

/// What a poll of the task returns, given what there was before and after it, and
/// whom it serves.
pub open spec fn mutex_poll_comes_to<T: Send, G: From<MutexGuard<T>>>(
    before: MutexWorld<T, G>,
    after: MutexWorld<T, G>,
    result: Poll<(), ()>,
) -> bool {
    let lost = after.moment.state is Locked && after.guard is Gone;
    let deserted = after.line.handles == 0 && after.line.asked.len() == 0 && after.guards == 0;
    &&& result is Err <==> lost
    &&& result == Ok::<_, ()>(Async::Ready(())) <==> !lost && deserted
    &&& result == Ok::<_, ()>(Async::Ready(())) ==> after.moment.state is Unlocked
    &&& result == Ok::<Async<()>, ()>(Async::NotReady) ==> {
        ||| after.moment.state is Unlocked && after.line.asked.len() == 0
        ||| after.moment.state is Locked && after.guards == 1
    }
    &&& before.line.asked.len() > 0 ==> (before.moment.state matches MutexState::Unlocked(
        value,
        _,
    ) ==> serves_first(value, before.moment.poisoned, before.line.asked.first()))
    &&& before.line.asked.len() > 0 && before.moment.state is Locked ==> (before.guard matches
        Fate::Sent((value, panicked)) ==> serves_first(
        value,
        before.moment.poisoned || panicked,
        before.line.asked.first(),
    ))
}

/// What the task learns in a poll it learns by asking what its state calls for,
/// once: the queue of requests, or the channel from the guard.
pub proof fn law_mutex_task_learns<T: Send, G: From<MutexGuard<T>>>(
    run: MutexRun<T, G>,
    pre: MutexMoment<T, G>,
    post: MutexMoment<T, G>,
    result: Poll<(), ()>,
    i: int,
)
    requires
        run.is_poll(pre, post, result),
        0 <= i < run.events.len(),
    ensures
        match (run.moments[i].state, run.events[i]) {
            (MutexState::Unlocked(_, _), MutexEvent::Requests(polled, rest)) => drawn(
                run.moments[i].requests,
                polled,
                rest,
            ) && run.moments[i + 1].requests == rest,
            (MutexState::Locked(receiver, _), MutexEvent::Unlock(polled, rest)) => collected(
                receiver,
                polled,
                rest,
            ) && run.moments[i + 1].requests == run.moments[i].requests,
            _ => false,
        },
{
    assert(run.moments[i].observes(run.events[i]));
    assert(run.moments[i].moves(run.events[i], run.moments[i + 1]));
}

/// A guard gives back the value it holds, with the flag it is told.
pub proof fn law_mutex_release<T: Send>(guard: MutexGuard<T>, panicking: bool)
    requires
        call_ensures(MutexGuard::<T>::release, (guard, panicking), ()),
    ensures
        exists|result: Result<(), (T, bool)>|
            {
                &&& #[trigger] call_ensures(
                    oneshot::Sender::<(T, bool)>::send,
                    (guard.unlock(), (guard.value(), panicking)),
                    result,
                )
                &&& result is Err ==> dropped((guard.value(), panicking))
            },
{
}

/// What is read through a guard is its value.
pub proof fn law_mutex_guard_shows<T: Send>(guard: MutexGuard<T>, value: &T)
    requires
        call_ensures(<MutexGuard<T> as Deref>::deref, (&guard,), value),
    ensures
        *value == guard.value(),
{
}

/// What is written through a guard is its value from then on.
pub proof fn law_mutex_guard_takes<T: Send>(guard: &mut MutexGuard<T>, value: &mut T)
    requires
        call_ensures(<MutexGuard<T> as DerefMut>::deref_mut, (guard,), value),
    ensures
        *old(value) == old(guard).value(),
        final(guard).value() == *final(value),
        final(guard).unlock() == old(guard).unlock(),
{
}

/// Finishing a task with the value at home sends the value to the completion, in
/// an error just if the mutex is poisoned. Finishing one without hands all that it
/// held back.
pub proof fn law_mutex_finish<T: Send, G: From<MutexGuard<T>>>(
    task: &mut MutexTask<T, G>,
    rest: MutexState<T>,
)
    requires
        call_ensures(MutexTask::<T, G>::finish, (task,), rest),
    ensures
        final(task).state() is Invalid,
        old(task).state() matches MutexState::Unlocked(value, end) ==> exists|
            given: LockResult<T>,
            answer: Result<(), LockResult<T>>,
        |
            {
                &&& #[trigger] call_ensures(
                    oneshot::Sender::<LockResult<T>>::send,
                    (end, given),
                    answer,
                )
                &&& given is Err <==> old(task).poisoned()
                &&& given matches Ok(held) ==> held == value
                &&& given matches Err(error) ==> call_ensures(
                    PoisonError::<T>::new,
                    (value,),
                    error,
                )
            },
        old(task).state() !is Unlocked ==> rest == old(task).state(),
{
    if let MutexState::Unlocked(value, end) = task.state() {
        let given = choose|given: LockResult<T>|
            flagged(task.poisoned(), value, given) && #[trigger] delivered(end, given);
        let answer = choose|answer: Result<(), LockResult<T>>|
            call_ensures(
                oneshot::Sender::<LockResult<T>>::send,
                (end, given),
                answer,
            ) && (answer is Err ==> dropped(given));
        assert(call_ensures(oneshot::Sender::<LockResult<T>>::send, (end, given), answer));
    }
}

/// What a completion gives out is what was sent to it, and it goes on waiting
/// where it waited before.
pub proof fn law_mutex_completion_poll<T: Send>(
    completion: &mut MutexCompletion<T>,
    polled: Poll<LockResult<T>, oneshot::Canceled>,
    end: oneshot::Sender<LockResult<T>>,
)
    requires
        call_ensures(MutexCompletion::<T>::poll, (completion,), polled),
        paired(end, old(completion).receiver()),
    ensures
        final(completion).is_whole(),
        polled matches Ok(Async::NotReady) ==> *final(completion) == *old(completion),
        polled matches Ok(Async::Ready(result)) ==> sent(end, result)
            && forall|other: LockResult<T>| #[trigger] sent(end, other) ==> other == result,
        polled is Err ==> forall|other: LockResult<T>| !#[trigger] sent(end, other),
{
    if let Ok(Async::Ready(result)) = polled {
        law_collected_was_sent(
            end,
            completion.receiver(),
            result,
            final(completion).receiver(),
        );
    }
    if polled is Err {
        assert forall|other: LockResult<T>| !#[trigger] sent(end, other) by {
            if sent(end, other) {
                law_sent_is_not_canceled(
                    end,
                    completion.receiver(),
                    other,
                    polled,
                    final(completion).receiver(),
                );
            }
        }
    }
}

} // verus!
