//! What calls of the functions of a reader-writer lock come to, from its creation
//! to its completion.
//!
//! The laws here start from calls: that a function was called with these
//! arguments and has returned this.

use crate::sync::exchange::{
    law_exchange_serves, law_exchange_starts, Exchange, Incoming, Outgoing,
};
use crate::sync::lineage::{
    law_led_reaches, law_queued_reaches, law_tried_reaches, led, reaches, tried, Deed,
};
use crate::sync::primitives::{
    collected, converted, delivered, discard, drained, drawn, dropped, flagged,
    law_collected_was_sent, law_sent_is_not_canceled, lent, notify_after, offered, paired, running,
    sent, unwrapped, Kept, Lent, Shared, STEP_BUDGET,
};
use crate::sync::rwlock::{
    read_granted, write_granted, Canceled, LockRequest, ReadGuardSender, RwLock, RwLockAcquire,
    RwLockCompletion, RwLockEvent, RwLockMoment, RwLockReadGuard, RwLockRun, RwLockState,
    RwLockTask, RwLockWriteGuard, WriteGuardSender,
};
use crate::sync::rwlock_world::{
    law_rwlock_poll, law_rwlock_step, rwlock_polled_alone, RwLockWorld,
};
use crate::sync::world::{Fate, Line};
use crate::{spawned, Spawn};
use futures::sync::{mpsc, oneshot};
use futures::task::Task;
use futures::{Async, AsyncSink, Poll};
use std::ops::{Deref, DerefMut};
use std::sync::{LockResult, PoisonError};
use vstd::prelude::*;

verus! {

impl<T: Send, W: From<RwLockWriteGuard<T>>, R: From<RwLockReadGuard<T>>> RwLockWorld<T, W, R> {
    /// `request` was offered with `sender`, and taken: it stands in line at this
    /// lock if that is where the sender leads.
    pub open spec fn hears(
        self,
        sender: mpsc::Sender<LockRequest<W, R>>,
        request: LockRequest<W, R>,
        after: mpsc::Sender<LockRequest<W, R>>,
        next: Self,
    ) -> bool {
        &&& offered(sender, request, after, Ok(AsyncSink::Ready))
        &&& next == RwLockWorld {
            line: Line {
                asked: if reaches(sender, self.moment.requests) {
                    self.line.asked.push(request)
                } else {
                    self.line.asked
                },
                ..self.line
            },
            ..self
        }
    }
}

/// A new lock has its value at home and is not poisoned. Requests of its handle
/// arrive at its task, and its completion is where the task sends the value.
pub proof fn law_rwlock_is_created<T: Send, W, R>(
    value: T,
    rwlock: RwLock<W, R>,
    task: RwLockTask<T, W, R>,
    completion: RwLockCompletion<T>,
)
    requires
        call_ensures(RwLock::<W, R>::with_task::<T>, (value,), (rwlock, task, completion)),
    ensures
        call_ensures(
            mpsc::channel::<LockRequest<W, R>>,
            (0usize,),
            (rwlock.sender(), task.requests()),
        ),
        reaches(rwlock.sender(), task.requests()),
        task.is_whole(),
        !task.poisoned(),
        task.state() matches RwLockState::Unlocked { value: held, completion: end } && held
            == value && call_ensures(
            oneshot::channel::<LockResult<T>>,
            (),
            (end, completion.receiver()),
        ),
        completion.is_whole(),
{
    let none = Seq::<Deed<LockRequest<W, R>>>::empty();
    assert(led(rwlock.sender(), none, rwlock.sender()));
    assert(drained(task.requests(), Seq::empty(), task.requests()));
    law_queued_reaches(
        0,
        rwlock.sender(),
        task.requests(),
        none,
        rwlock.sender(),
        Seq::empty(),
        task.requests(),
    );
}

/// The task of a new lock is handed to the spawner.
pub proof fn law_rwlock_is_spawned<T: Send, W, R, S: Spawn<RwLockTask<T, W, R>>>(
    value: T,
    spawn: &S,
    rwlock: RwLock<W, R>,
    completion: RwLockCompletion<T>,
)
    requires
        call_ensures(RwLock::<W, R>::new::<T, S>, (value, spawn), (rwlock, completion)),
    ensures
        exists|task: RwLockTask<T, W, R>|
            {
                &&& #[trigger] call_ensures(S::spawn_detached, (spawn, task), ())
                &&& call_ensures(
                    mpsc::channel::<LockRequest<W, R>>,
                    (0usize,),
                    (rwlock.sender(), task.requests()),
                )
                &&& task.is_whole()
                &&& !task.poisoned()
                &&& task.state() matches RwLockState::Unlocked { value: held, completion: end }
                &&& held == value
                &&& call_ensures(
                    oneshot::channel::<LockResult<T>>,
                    (),
                    (end, completion.receiver()),
                )
            },
{
    let task = choose|task: RwLockTask<T, W, R>| #[trigger]
        spawned(spawn, task) && rwlock.starts(value, task, completion);
    assert(call_ensures(S::spawn_detached, (spawn, task), ()));
}

/// Requests of a copy arrive where those of the handle do.
pub proof fn law_rwlock_copy_reaches<W, R>(
    rwlock: RwLock<W, R>,
    copy: RwLock<W, R>,
    queue: mpsc::Receiver<LockRequest<W, R>>,
)
    requires
        call_ensures(<RwLock<W, R> as Clone>::clone, (&rwlock,), copy),
        reaches(rwlock.sender(), queue),
    ensures
        reaches(copy.sender(), queue),
{
    let deeds = seq![Deed::<LockRequest<W, R>>::Copy];
    assert(led(rwlock.sender(), deeds.drop_last(), rwlock.sender()));
    assert(deeds.last().gives(rwlock.sender(), copy.sender()));
    assert(led(rwlock.sender(), deeds, copy.sender()));
    law_led_reaches(rwlock.sender(), queue, deeds, copy.sender());
}

/// An attempt to lock for writing is one request for writing, sent with the
/// handle, whose answer it waits for.
pub proof fn law_rwlock_write_asks<W, R>(handle: RwLock<W, R>, acquire: RwLockAcquire<W, R, W>)
    requires
        call_ensures(RwLock::<W, R>::write, (handle,), acquire),
    ensures
        exists|end: WriteGuardSender<W>| #[trigger]
            acquire.exchange().serves(handle.sender(), LockRequest::Exclusive(end), end),
{
    let (end, receiver) = choose|
        end: WriteGuardSender<W>,
        receiver: oneshot::Receiver<LockResult<W>>,
    |
        {
            &&& #[trigger] paired(end, receiver)
            &&& acquire.exchange().outgoing == Outgoing::Offering(
                handle.sender(),
                LockRequest::Exclusive(end),
            )
            &&& acquire.exchange().incoming == Incoming::Waiting(receiver)
        };
    law_exchange_starts(
        acquire.exchange(),
        handle.sender(),
        LockRequest::Exclusive(end),
        end,
        receiver,
    );
}

/// An attempt to lock for reading is one request for reading, sent with the
/// handle, whose answer it waits for.
pub proof fn law_rwlock_read_asks<W, R>(handle: RwLock<W, R>, acquire: RwLockAcquire<W, R, R>)
    requires
        call_ensures(RwLock::<W, R>::read, (handle,), acquire),
    ensures
        exists|end: ReadGuardSender<R>| #[trigger]
            acquire.exchange().serves(handle.sender(), LockRequest::Shared(end), end),
{
    let (end, receiver) = choose|
        end: ReadGuardSender<R>,
        receiver: oneshot::Receiver<LockResult<R>>,
    |
        {
            &&& #[trigger] paired(end, receiver)
            &&& acquire.exchange().outgoing == Outgoing::Offering(
                handle.sender(),
                LockRequest::Shared(end),
            )
            &&& acquire.exchange().incoming == Incoming::Waiting(receiver)
        };
    law_exchange_starts(
        acquire.exchange(),
        handle.sender(),
        LockRequest::Shared(end),
        end,
        receiver,
    );
}

/// What a poll of an attempt to lock does. It sends no request but its own. If it
/// completes, the queue has taken that request exactly once, the handle that
/// comes back is the one that the attempt was made with, and what comes with it
/// is the one answer that was given to the request.
pub proof fn law_rwlock_acquire_poll<W, R, G>(
    acquire: &mut RwLockAcquire<W, R, G>,
    result: Poll<(RwLock<W, R>, LockResult<G>), Canceled>,
    handle: mpsc::Sender<LockRequest<W, R>>,
    request: LockRequest<W, R>,
    end: oneshot::Sender<LockResult<G>>,
)
    requires
        call_ensures(RwLockAcquire::<W, R, G>::poll, (acquire,), result),
        old(acquire).exchange().serves(handle, request, end),
    ensures
        result matches Ok(Async::NotReady) ==> final(acquire).exchange().serves(
            handle,
            request,
            end,
        ),
        result matches Ok(Async::Ready((rwlock, got))) ==> {
            &&& tried(handle, request, 1, rwlock.sender())
            &&& sent(end, got)
            &&& forall|other: LockResult<G>| #[trigger] sent(end, other) ==> other == got
        },
        result is Err ==> old(acquire).exchange().polls(final(acquire).exchange(), Err(())),
{
    let polled = choose|polled: Poll<(mpsc::Sender<LockRequest<W, R>>, LockResult<G>), ()>|
        #[trigger] acquire.exchange().polls(final(acquire).exchange(), polled) && RwLock::locks(
            polled,
            result,
        );
    law_exchange_serves(
        acquire.exchange(),
        final(acquire).exchange(),
        polled,
        handle,
        request,
        end,
    );
}

/// The handle that comes back with a guard can lock the same lock again.
pub proof fn law_rwlock_handle_comes_back<W, R, G>(
    acquire: &mut RwLockAcquire<W, R, G>,
    rwlock: RwLock<W, R>,
    got: LockResult<G>,
    handle: mpsc::Sender<LockRequest<W, R>>,
    request: LockRequest<W, R>,
    end: oneshot::Sender<LockResult<G>>,
    queue: mpsc::Receiver<LockRequest<W, R>>,
)
    requires
        call_ensures(
            RwLockAcquire::<W, R, G>::poll,
            (acquire,),
            Ok(Async::Ready((rwlock, got))),
        ),
        old(acquire).exchange().serves(handle, request, end),
        reaches(handle, queue),
    ensures
        reaches(rwlock.sender(), queue),
{
    law_rwlock_acquire_poll(acquire, Ok(Async::Ready((rwlock, got))), handle, request, end);
    law_tried_reaches(handle, queue, request, 1, rwlock.sender());
}

/// Whoever has a handle of a new lock, or one that was made from it, can ask for
/// the value: once the queue has taken the request, it stands last in line at the
/// task of that lock.
pub proof fn law_rwlock_request_arrives<
    T: Send,
    W: From<RwLockWriteGuard<T>>,
    R: From<RwLockReadGuard<T>>,
    G,
>(
    value: T,
    rwlock: RwLock<W, R>,
    task: RwLockTask<T, W, R>,
    completion: RwLockCompletion<T>,
    deeds: Seq<Deed<LockRequest<W, R>>>,
    handle: mpsc::Sender<LockRequest<W, R>>,
    exchange: Exchange<LockRequest<W, R>, LockResult<G>>,
    request: LockRequest<W, R>,
    end: oneshot::Sender<LockResult<G>>,
    sender: mpsc::Sender<LockRequest<W, R>>,
    offered: LockRequest<W, R>,
    messages: Seq<LockRequest<W, R>>,
    world: RwLockWorld<T, W, R>,
    after: mpsc::Sender<LockRequest<W, R>>,
    next: RwLockWorld<T, W, R>,
)
    requires
        call_ensures(RwLock::<W, R>::with_task::<T>, (value,), (rwlock, task, completion)),
        led(rwlock.sender(), deeds, handle),
        exchange.serves(handle, request, end),
        exchange.outgoing == Outgoing::Offering(sender, offered),
        drained(task.requests(), messages, world.moment.requests),
        world.hears(sender, offered, after, next),
    ensures
        next.line.asked == world.line.asked.push(request),
        next.moment == world.moment,
{
    law_queued_reaches(
        0,
        rwlock.sender(),
        task.requests(),
        deeds,
        handle,
        messages,
        world.moment.requests,
    );
    law_tried_reaches(handle, world.moment.requests, request, 0, sender);
}

/// Those who stand in line move up as requests are taken, and nobody gets
/// between.
pub proof fn law_rwlock_line_moves_up<
    T: Send,
    W: From<RwLockWriteGuard<T>>,
    R: From<RwLockReadGuard<T>>,
>(world: RwLockWorld<T, W, R>, next: RwLockWorld<T, W, R>, k: int)
    requires
        world.goes_to(next),
        0 <= k < world.line.asked.len(),
    ensures
        ({
            ||| k < next.line.asked.len() && next.line.asked[k] == world.line.asked[k]
            ||| {
                &&& exists|event: RwLockEvent<T, W, R>| #[trigger]
                    world.task_steps(event, next) && event.request() == Some(
                        world.line.asked.first(),
                    )
                &&& k > 0 ==> next.line.asked[k - 1] == world.line.asked[k]
            }
        }),
{
    if exists|event: RwLockEvent<T, W, R>| world.task_steps(event, next) {
        let event = choose|event: RwLockEvent<T, W, R>| world.task_steps(event, next);
        assert(world.moment.moves(event, next.moment));
    }
}

/// A write guard on `value` was sent to `req`, in an error just if `poisoned`.
pub open spec fn writer_served<T: Send, W: From<RwLockWriteGuard<T>>>(
    value: T,
    poisoned: bool,
    req: oneshot::Sender<LockResult<W>>,
) -> bool {
    exists|
        guard: RwLockWriteGuard<T>,
        owner: W,
        reply: LockResult<W>,
        answer: Result<(), LockResult<W>>,
    |
        {
            &&& guard.value() == value
            &&& #[trigger] call_ensures(<W as From<RwLockWriteGuard<T>>>::from, (guard,), owner)
            &&& match reply {
                Ok(inner) => !poisoned && inner == owner,
                Err(error) => poisoned && call_ensures(PoisonError::<W>::new, (owner,), error),
            }
            &&& #[trigger] call_ensures(
                oneshot::Sender::<LockResult<W>>::send,
                (req, reply),
                answer,
            )
        }
}

/// A read guard on `value`, which wakes a task that was being polled, was sent to
/// `req`, in an error just if `poisoned`.
pub open spec fn reader_served<T: Send, R: From<RwLockReadGuard<T>>>(
    value: T,
    poisoned: bool,
    req: oneshot::Sender<LockResult<R>>,
) -> bool {
    exists|
        guard: RwLockReadGuard<T>,
        owner: R,
        reply: LockResult<R>,
        answer: Result<(), LockResult<R>>,
    |
        {
            &&& guard.value().value() == value
            &&& call_ensures(futures::task::current, (), guard.unlock())
            &&& #[trigger] call_ensures(<R as From<RwLockReadGuard<T>>>::from, (guard,), owner)
            &&& match reply {
                Ok(inner) => !poisoned && inner == owner,
                Err(error) => poisoned && call_ensures(PoisonError::<R>::new, (owner,), error),
            }
            &&& #[trigger] call_ensures(
                oneshot::Sender::<LockResult<R>>::send,
                (req, reply),
                answer,
            )
        }
}

/// A guard on `value` of the kind that was asked for was sent in answer.
pub open spec fn asker_served<
    T: Send,
    W: From<RwLockWriteGuard<T>>,
    R: From<RwLockReadGuard<T>>,
>(value: T, poisoned: bool, request: LockRequest<W, R>) -> bool {
    match request {
        LockRequest::Exclusive(req) => writer_served(value, poisoned, req),
        LockRequest::Shared(req) => reader_served(value, poisoned, req),
    }
}

/// The first `n` requests are all for reading.
pub open spec fn all_read<W, R>(asked: Seq<LockRequest<W, R>>, n: int) -> bool {
    &&& 0 <= n <= asked.len()
    &&& forall|i: int| 0 <= i < n ==> (#[trigger] asked[i]) is Shared
}

/// The first `n` requests were answered with a guard on `value`.
pub open spec fn all_served<
    T: Send,
    W: From<RwLockWriteGuard<T>>,
    R: From<RwLockReadGuard<T>>,
>(value: T, poisoned: bool, asked: Seq<LockRequest<W, R>>, n: int) -> bool {
    forall|i: int| 0 <= i < n ==> asker_served(value, poisoned, #[trigger] asked[i])
}

/// What was granted was sent.
proof fn lemma_write_granted<T: Send, W: From<RwLockWriteGuard<T>>>(
    value: T,
    poisoned: bool,
    req: WriteGuardSender<W>,
    unlock: oneshot::Receiver<(T, bool)>,
)
    requires
        write_granted(value, poisoned, req, unlock),
    ensures
        writer_served(value, poisoned, req),
{
    let (guard, owner, reply) = choose|
        guard: RwLockWriteGuard<T>,
        owner: W,
        reply: LockResult<W>,
    |
        #![trigger converted(guard, owner), delivered(req, reply)]
        {
            &&& guard.value() == value
            &&& paired(guard.unlock(), unlock)
            &&& converted(guard, owner)
            &&& flagged(poisoned, owner, reply)
            &&& delivered(req, reply)
        };
    let answer = choose|answer: Result<(), LockResult<W>>|
        call_ensures(
            oneshot::Sender::<LockResult<W>>::send,
            (req, reply),
            answer,
        ) && (answer is Err ==> dropped(reply));
    assert(call_ensures(<W as From<RwLockWriteGuard<T>>>::from, (guard,), owner));
    assert(call_ensures(oneshot::Sender::<LockResult<W>>::send, (req, reply), answer));
}

/// What was granted was sent.
proof fn lemma_read_granted<T: Send, R: From<RwLockReadGuard<T>>>(
    before: Shared<T, Kept>,
    after: Shared<T, Kept>,
    poisoned: bool,
    req: ReadGuardSender<R>,
)
    requires
        read_granted(before, after, poisoned, req),
    ensures
        reader_served(before.value(), poisoned, req),
        after.value() == before.value(),
{
    let (guard, owner, reply) = choose|guard: RwLockReadGuard<T>, owner: R, reply: LockResult<R>|
        #![trigger converted(guard, owner), delivered(req, reply)]
        {
            &&& lent(before, after, guard.value())
            &&& guard.value().value() == before.value()
            &&& running(guard.unlock())
            &&& converted(guard, owner)
            &&& flagged(poisoned, owner, reply)
            &&& delivered(req, reply)
        };
    let answer = choose|answer: Result<(), LockResult<R>>|
        call_ensures(
            oneshot::Sender::<LockResult<R>>::send,
            (req, reply),
            answer,
        ) && (answer is Err ==> dropped(reply));
    assert(call_ensures(<R as From<RwLockReadGuard<T>>>::from, (guard,), owner));
    assert(call_ensures(oneshot::Sender::<LockResult<R>>::send, (req, reply), answer));
}

/// Whom a step serves.
proof fn lemma_step_serves<
    T: Send,
    W: From<RwLockWriteGuard<T>>,
    R: From<RwLockReadGuard<T>>,
>(world: RwLockWorld<T, W, R>, event: RwLockEvent<T, W, R>, next: RwLockWorld<T, W, R>)
    requires
        world.in_order(),
        world.task_steps(event, next),
    ensures
        match world.moment.state {
            RwLockState::Unlocked { value, .. } => world.line.asked.len() > 0 ==> {
                &&& event.request() == Some(world.line.asked.first())
                &&& asker_served(value, world.moment.poisoned, world.line.asked.first())
                &&& next.moment.poisoned == world.moment.poisoned
                &&& world.line.asked.first() is Shared ==> (next.moment.state matches
                    RwLockState::LockedRead { arc, .. } && arc.value() == value)
            },
            RwLockState::LockedRead { arc, .. } => world.line.asked.len() > 0 ==> {
                &&& event.request() == Some(world.line.asked.first())
                &&& next.moment.poisoned == world.moment.poisoned
                &&& match world.line.asked.first() {
                    LockRequest::Shared(req) => {
                        &&& reader_served(arc.value(), world.moment.poisoned, req)
                        &&& next.moment.state matches RwLockState::LockedRead { arc: after, .. }
                        &&& after.value() == arc.value()
                    },
                    LockRequest::Exclusive(req) => {
                        &&& next.moment.state matches RwLockState::LockedReadPendingWrite {
                            arc: after,
                            req: waiting,
                            ..
                        }
                        &&& after == arc
                        &&& waiting == req
                        &&& next.readers == world.readers
                    },
                }
            },
            RwLockState::LockedReadPendingWrite { arc, req, .. } => world.readers == 0
                ==> writer_served(arc.value(), world.moment.poisoned, req),
            RwLockState::LockedWrite { .. } => world.guard matches Fate::Sent((value, panicked))
                ==> {
                &&& next.moment.state matches RwLockState::Unlocked { value: back, .. }
                &&& back == value
                &&& next.moment.poisoned == (world.moment.poisoned || panicked)
                &&& next.line == world.line
            },
            RwLockState::Invalid => false,
        },
        next.in_order(),
{
    law_rwlock_step(world, event, next);
    match (world.moment.state, event.request()) {
        (RwLockState::Unlocked { value, .. }, Some(LockRequest::Exclusive(req))) => {
            if let RwLockState::LockedWrite { unlock, .. } = next.moment.state {
                lemma_write_granted(value, world.moment.poisoned, req, unlock);
            }
        },
        (RwLockState::Unlocked { value, .. }, Some(LockRequest::Shared(req))) => {
            if let RwLockState::LockedRead { arc, .. } = next.moment.state {
                let first = choose|first: Shared<T, Kept>|
                    first.value() == value && first.copies() == 0
                        && #[trigger] read_granted(
                        first,
                        arc,
                        world.moment.poisoned,
                        req,
                    );
                lemma_read_granted(first, arc, world.moment.poisoned, req);
            }
        },
        (RwLockState::LockedRead { arc, .. }, Some(LockRequest::Shared(req))) => {
            if let RwLockState::LockedRead { arc: after, .. } = next.moment.state {
                lemma_read_granted(arc, after, world.moment.poisoned, req);
            }
        },
        (RwLockState::LockedReadPendingWrite { arc, req, .. }, _) => {
            if let RwLockState::LockedWrite { unlock, .. } = next.moment.state {
                lemma_write_granted(arc.value(), world.moment.poisoned, req, unlock);
            }
        },
        _ => {},
    }
}

/// A step after which there is more to do is not the last one of a poll that is
/// short of its budget.
proof fn lemma_goes_on<
    T: Send,
    W: From<RwLockWriteGuard<T>>,
    R: From<RwLockReadGuard<T>>,
>(
    worlds: Seq<RwLockWorld<T, W, R>>,
    run: RwLockRun<T, W, R>,
    result: Poll<(), ()>,
    n: int,
)
    requires
        rwlock_polled_alone(worlds, run, result),
        worlds.first().in_order(),
        worlds.first().steps_left() < STEP_BUDGET,
        0 <= n < run.events.len(),
        run.events[n].outcome() == Ok::<_, ()>(Async::Ready(false)),
    ensures
        n + 1 < run.events.len(),
{
    if n + 1 == run.events.len() {
        assert(run.events.last() == run.events[n]);
        lemma_few_steps(worlds, run, result, n);
    }
}

/// The steps of a poll are no more than those that are left.
proof fn lemma_few_steps<
    T: Send,
    W: From<RwLockWriteGuard<T>>,
    R: From<RwLockReadGuard<T>>,
>(
    worlds: Seq<RwLockWorld<T, W, R>>,
    run: RwLockRun<T, W, R>,
    result: Poll<(), ()>,
    n: int,
)
    requires
        rwlock_polled_alone(worlds, run, result),
        worlds.first().in_order(),
        0 <= n < run.events.len(),
    ensures
        worlds[n].in_order(),
        n + worlds[n].steps_left() <= worlds.first().steps_left(),
    decreases n,
{
    if n > 0 {
        lemma_few_steps(worlds, run, result, n - 1);
        assert(run.events[n - 1].outcome() == Ok::<_, ()>(Async::Ready(false)));
        law_rwlock_step(worlds[n - 1], run.events[n - 1], worlds[n]);
    }
}

/// Readers who ask one after the other, with no writer among them, are served by
/// one poll, one after the other.
proof fn lemma_serves_readers<
    T: Send,
    W: From<RwLockWriteGuard<T>>,
    R: From<RwLockReadGuard<T>>,
>(
    worlds: Seq<RwLockWorld<T, W, R>>,
    run: RwLockRun<T, W, R>,
    result: Poll<(), ()>,
    value: T,
    n: int,
)
    requires
        rwlock_polled_alone(worlds, run, result),
        worlds.first().in_order(),
        worlds.first().steps_left() < STEP_BUDGET,
        worlds.first().is_readable(value),
        0 <= n <= worlds.first().line.asked.len(),
        forall|i: int| 0 <= i < n ==> (#[trigger] worlds.first().line.asked[i]) is Shared,
    ensures
        n < run.events.len(),
        worlds[n].in_order(),
        worlds[n].is_readable(value),
        worlds[n].moment.poisoned == worlds.first().moment.poisoned,
        worlds[n].line.asked == worlds.first().line.asked.skip(n),
        forall|i: int|
            0 <= i < n ==> asker_served(
                value,
                worlds.first().moment.poisoned,
                #[trigger] worlds.first().line.asked[i],
            ),
    decreases n,
{
    let asked = worlds.first().line.asked;
    if n == 0 {
        assert(asked.skip(0) =~= asked);
    } else {
        lemma_serves_readers(worlds, run, result, value, n - 1);
        assert(worlds[n - 1].task_steps(run.events[n - 1], worlds[n]));
        assert(worlds[n - 1].line.asked.first() == asked[n - 1]);
        lemma_step_serves(worlds[n - 1], run.events[n - 1], worlds[n]);
        assert(asked.skip(n - 1).drop_first() =~= asked.skip(n));
        assert(run.events[n - 1].outcome() == Ok::<_, ()>(Async::Ready(false)));
        lemma_goes_on(worlds, run, result, n - 1);
    }
}

impl<T: Send, W: From<RwLockWriteGuard<T>>, R: From<RwLockReadGuard<T>>> RwLockWorld<T, W, R> {
    /// The value is `value`, and a reader could have it at once.
    pub open spec fn is_readable(self, value: T) -> bool {
        match self.moment.state {
            RwLockState::Unlocked { value: held, .. } => held == value,
            RwLockState::LockedRead { arc, .. } => arc.value() == value,
            _ => false,
        }
    }
}

/// What a poll of the task returns, given what there was before and after it, and
/// whom it serves.
pub open spec fn rwlock_poll_comes_to<
    T: Send,
    W: From<RwLockWriteGuard<T>>,
    R: From<RwLockReadGuard<T>>,
>(before: RwLockWorld<T, W, R>, after: RwLockWorld<T, W, R>, result: Poll<(), ()>) -> bool {
    let lost = after.moment.state is LockedWrite && after.guard is Gone;
    let deserted = after.line.handles == 0 && after.line.asked.len() == 0
        && after.moment.waiting().len() == 0 && after.readers == 0 && after.writers == 0;
    let asked = before.line.asked;
    let poisoned = before.moment.poisoned;
    // What it returns
    &&& result is Err <==> lost
    &&& result == Ok::<_, ()>(Async::Ready(())) <==> !lost && deserted
    &&& result == Ok::<_, ()>(Async::Ready(())) ==> after.moment.state is Unlocked
    &&& result == Ok::<Async<()>, ()>(Async::NotReady) ==> match after.moment.state {
        RwLockState::Unlocked { .. } => after.line.asked.len() == 0,
        RwLockState::LockedRead { .. } => after.line.asked.len() == 0 && after.readers > 0,
        RwLockState::LockedReadPendingWrite { .. } => after.readers > 0,
        RwLockState::LockedWrite { .. } => after.writers == 1,
        RwLockState::Invalid => false,
    }
    // A writer that waited, once no read guard is out
    &&& before.readers == 0 ==> (before.moment.state matches
        RwLockState::LockedReadPendingWrite { arc, req, .. } ==> writer_served(
        arc.value(),
        poisoned,
        req,
    ))
    // The first in line, with the value at home
    &&& asked.len() > 0 ==> (before.moment.state matches RwLockState::Unlocked { value, .. }
        ==> asker_served(value, poisoned, asked.first()))
    // The first in line, with the value on its way back from a writer
    &&& asked.len() > 0 && before.moment.state is LockedWrite ==> (before.guard matches Fate::Sent((
        value,
        panicked,
    )) ==> asker_served(value, poisoned || panicked, asked.first()))
    // A writer that is first in line, once no read guard is out
    &&& asked.len() > 0 && before.readers == 0 ==> (before.moment.state matches
        RwLockState::LockedRead { arc, .. } ==> asker_served(arc.value(), poisoned, asked.first()))
    // All readers in line before any writer
    &&& forall|value: T, n: int| #[trigger]
        before.is_readable(value) && #[trigger] all_read(asked, n) ==> all_served(
            value,
            poisoned,
            asked,
            n,
        )
}

/// What a poll comes to, over the worlds that it leads through.
proof fn lemma_poll_comes_to<
    T: Send,
    W: From<RwLockWriteGuard<T>>,
    R: From<RwLockReadGuard<T>>,
>(
    worlds: Seq<RwLockWorld<T, W, R>>,
    run: RwLockRun<T, W, R>,
    result: Poll<(), ()>,
)
    requires
        rwlock_polled_alone(worlds, run, result),
        worlds.first().in_order(),
        worlds.first().steps_left() < STEP_BUDGET,
    ensures
        rwlock_poll_comes_to(worlds.first(), worlds.last(), result),
{
    law_rwlock_poll(worlds, run, result);
    let before = worlds.first();
    let asked = before.line.asked;
    let poisoned = before.moment.poisoned;
    assert(worlds[0].task_steps(run.events[0], worlds[1]));
    lemma_step_serves(worlds[0], run.events[0], worlds[1]);
    if asked.len() > 0 {
        match before.moment.state {
            RwLockState::LockedWrite { .. } => {
                if before.guard is Sent {
                    lemma_goes_on(worlds, run, result, 0);
                    assert(worlds[1].task_steps(run.events[1], worlds[2]));
                    lemma_step_serves(worlds[1], run.events[1], worlds[2]);
                }
            },
            RwLockState::LockedRead { .. } => {
                if before.readers == 0 && asked.first() is Exclusive {
                    lemma_goes_on(worlds, run, result, 0);
                    assert(worlds[1].task_steps(run.events[1], worlds[2]));
                    lemma_step_serves(worlds[1], run.events[1], worlds[2]);
                }
            },
            _ => {},
        }
    }
    assert forall|value: T, n: int| #[trigger]
        before.is_readable(value) && #[trigger] all_read(asked, n) implies all_served(
        value,
        poisoned,
        asked,
        n,
    ) by {
        lemma_serves_readers(worlds, run, result, value, n);
    }
}

/// What a call of `poll` on the task comes to, if nobody else does anything
/// meanwhile. It fails just when a write guard has gone with the value, is done
/// just when no handle, no request and no guard is left, and the value is at home
/// then; otherwise it waits, and only for what has to happen first. A writer that
/// waited for readers gets the value once no read guard is out; the first in line
/// gets it if it is free; and all readers in line before any writer get it
/// together, also if others read already.
pub proof fn law_rwlock_task_poll<
    T: Send,
    W: From<RwLockWriteGuard<T>>,
    R: From<RwLockReadGuard<T>>,
>(task: &mut RwLockTask<T, W, R>, result: Poll<(), ()>)
    requires
        call_ensures(RwLockTask::<T, W, R>::poll, (task,), result),
    ensures
        final(task).is_whole(),
        final(task).state() !is Invalid,
        exists|run: RwLockRun<T, W, R>|
            {
                &&& #[trigger] run.is_poll(old(task).moment(), final(task).moment(), result)
                &&& forall|worlds: Seq<RwLockWorld<T, W, R>>|
                    {
                        &&& #[trigger] rwlock_polled_alone(worlds, run, result)
                        &&& worlds.first().in_order()
                        &&& worlds.first().steps_left() < STEP_BUDGET
                    } ==> rwlock_poll_comes_to(worlds.first(), worlds.last(), result)
                        && worlds.last().moment == final(task).moment()
            },
{
    let run = choose|run: RwLockRun<T, W, R>| #[trigger]
        run.is_poll(task.moment(), final(task).moment(), result);
    assert forall|worlds: Seq<RwLockWorld<T, W, R>>|
        {
            &&& #[trigger] rwlock_polled_alone(worlds, run, result)
            &&& worlds.first().in_order()
            &&& worlds.first().steps_left() < STEP_BUDGET
        } implies rwlock_poll_comes_to(worlds.first(), worlds.last(), result)
        && worlds.last().moment == final(task).moment() by {
        lemma_poll_comes_to(worlds, run, result);
    }
}

/// What the task learns in a poll it learns by asking what its state calls for,
/// once: the queue of requests, its own pointer to the value, or the channel from
/// the write guard.
pub proof fn law_rwlock_task_learns<
    T: Send,
    W: From<RwLockWriteGuard<T>>,
    R: From<RwLockReadGuard<T>>,
>(
    run: RwLockRun<T, W, R>,
    pre: RwLockMoment<T, W, R>,
    post: RwLockMoment<T, W, R>,
    result: Poll<(), ()>,
    i: int,
)
    requires
        run.is_poll(pre, post, result),
        0 <= i < run.events.len(),
    ensures
        match (run.moments[i].state, run.events[i]) {
            (RwLockState::Unlocked { .. }, RwLockEvent::Requests(polled, rest)) => drawn(
                run.moments[i].requests,
                polled,
                rest,
            ) && run.moments[i + 1].requests == rest,
            (
                RwLockState::LockedRead { arc, .. },
                RwLockEvent::Reading(polled, rest, tried, left),
            ) => {
                &&& drawn(run.moments[i].requests, polled, rest)
                &&& run.moments[i + 1].requests == rest
                &&& !(polled matches Ok(Async::Ready(Some(_)))) ==> tried == arc && exists|
                    answer: Result<T, Shared<T, Kept>>,
                | #[trigger] unwrapped(tried, answer) && left == (answer is Ok)
            },
            (
                RwLockState::LockedReadPendingWrite { arc, .. },
                RwLockEvent::Draining(tried, left),
            ) => {
                &&& tried == arc
                &&& exists|answer: Result<T, Shared<T, Kept>>| #[trigger]
                    unwrapped(tried, answer) && left == (answer is Ok)
                &&& run.moments[i + 1].requests == run.moments[i].requests
            },
            (RwLockState::LockedWrite { unlock, .. }, RwLockEvent::Unlock(polled, rest)) => {
                &&& collected(unlock, polled, rest)
                &&& run.moments[i + 1].requests == run.moments[i].requests
            },
            _ => false,
        },
{
    assert(run.moments[i].observes(run.events[i]));
    assert(run.moments[i].moves(run.events[i], run.moments[i + 1]));
}

/// A write guard gives back the value it holds, with the flag it is told.
pub proof fn law_rwlock_write_release<T: Send>(guard: RwLockWriteGuard<T>, panicking: bool)
    requires
        call_ensures(RwLockWriteGuard::<T>::release, (guard, panicking), ()),
    ensures
        exists|result: Result<(), (T, bool)>|
            {
                &&& #[trigger] call_ensures(
                    oneshot::Sender::<(T, bool)>::send,
                    (guard.unlock(), (guard.value(), panicking)),
                    result,
                )
                &&& result is Err ==> dropped((guard.value(), panicking))
            },
{
}

/// A read guard drops its pointer, and wakes the task only then.
pub proof fn law_rwlock_read_release<T: Send>(guard: RwLockReadGuard<T>)
    requires
        call_ensures(RwLockReadGuard::<T>::release, (guard,), ()),
    ensures
        call_ensures(discard::<Shared<T, Lent>>, (guard.value(),), ()),
        call_ensures(
            notify_after::<Shared<T, Lent>>,
            (&guard.unlock(), Ghost(guard.value())),
            (),
        ),
        call_ensures(Task::notify, (&guard.unlock(),), ()),
{
}

/// What is read through a write guard is its value.
pub proof fn law_rwlock_write_guard_shows<T: Send>(guard: RwLockWriteGuard<T>, value: &T)
    requires
        call_ensures(<RwLockWriteGuard<T> as Deref>::deref, (&guard,), value),
    ensures
        *value == guard.value(),
{
}

/// What is read through a read guard is what its pointer points to.
pub proof fn law_rwlock_read_guard_shows<T: Send>(guard: RwLockReadGuard<T>, value: &T)
    requires
        call_ensures(<RwLockReadGuard<T> as Deref>::deref, (&guard,), value),
    ensures
        *value == guard.value().value(),
{
}

/// What is written through a write guard is its value from then on.
pub proof fn law_rwlock_write_guard_takes<T: Send>(
    guard: &mut RwLockWriteGuard<T>,
    value: &mut T,
)
    requires
        call_ensures(<RwLockWriteGuard<T> as DerefMut>::deref_mut, (guard,), value),
    ensures
        *old(value) == old(guard).value(),
        final(guard).value() == *final(value),
        final(guard).unlock() == old(guard).unlock(),
{
}

/// Finishing a task with the value at home sends the value to the completion, in
/// an error just if the lock is poisoned. Finishing one without hands all that it
/// held back.
pub proof fn law_rwlock_finish<
    T: Send,
    W: From<RwLockWriteGuard<T>>,
    R: From<RwLockReadGuard<T>>,
>(task: &mut RwLockTask<T, W, R>, rest: RwLockState<T, W>)
    requires
        call_ensures(RwLockTask::<T, W, R>::finish, (task,), rest),
    ensures
        final(task).state() is Invalid,
        old(task).state() matches RwLockState::Unlocked { value, completion: end } ==> exists|
            given: LockResult<T>,
            answer: Result<(), LockResult<T>>,
        |
            {
                &&& #[trigger] call_ensures(
                    oneshot::Sender::<LockResult<T>>::send,
                    (end, given),
                    answer,
                )
                &&& given is Err <==> old(task).poisoned()
                &&& given matches Ok(held) ==> held == value
                &&& given matches Err(error) ==> call_ensures(
                    PoisonError::<T>::new,
                    (value,),
                    error,
                )
            },
        old(task).state() !is Unlocked ==> rest == old(task).state(),
{
    if let RwLockState::Unlocked { value, completion: end } = task.state() {
        let given = choose|given: LockResult<T>|
            flagged(task.poisoned(), value, given) && #[trigger] delivered(end, given);
        let answer = choose|answer: Result<(), LockResult<T>>|
            call_ensures(
                oneshot::Sender::<LockResult<T>>::send,
                (end, given),
                answer,
            ) && (answer is Err ==> dropped(given));
        assert(call_ensures(oneshot::Sender::<LockResult<T>>::send, (end, given), answer));
    }
}

/// What a completion gives out is what was sent to it, and it goes on waiting
/// where it waited before.
pub proof fn law_rwlock_completion_poll<T: Send>(
    completion: &mut RwLockCompletion<T>,
    polled: Poll<LockResult<T>, oneshot::Canceled>,
    end: oneshot::Sender<LockResult<T>>,
)
    requires
        call_ensures(RwLockCompletion::<T>::poll, (completion,), polled),
        paired(end, old(completion).receiver()),
    ensures
        final(completion).is_whole(),
        polled matches Ok(Async::NotReady) ==> *final(completion) == *old(completion),
        polled matches Ok(Async::Ready(result)) ==> sent(end, result)
            && forall|other: LockResult<T>| #[trigger] sent(end, other) ==> other == result,
        polled is Err ==> forall|other: LockResult<T>| !#[trigger] sent(end, other),
{
    if let Ok(Async::Ready(result)) = polled {
        law_collected_was_sent(
            end,
            completion.receiver(),
            result,
            final(completion).receiver(),
        );
    }
    if polled is Err {
        assert forall|other: LockResult<T>| !#[trigger] sent(end, other) by {
            if sent(end, other) {
                law_sent_is_not_canceled(
                    end,
                    completion.receiver(),
                    other,
                    polled,
                    final(completion).receiver(),
                );
            }
        }
    }
}

} // verus!
