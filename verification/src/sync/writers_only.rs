//! A reader-writer lock that only writers ask for goes on as a mutex does.

use crate::sync::exchange::{Incoming, Outgoing};
use crate::sync::mutex::{
    granted, LockRequest as MutexRequest, MutexEvent, MutexGuard, MutexMoment, MutexRun,
    MutexState,
};
use crate::sync::primitives::flagged;
use crate::sync::rwlock::{
    write_granted, LockRequest, RwLockEvent, RwLockMoment, RwLockReadGuard, RwLockRun,
    RwLockState, RwLockWriteGuard,
};
use crate::sync::world::{law_exchange_poll, ExchangeWorld, Fate};
use futures::sync::{mpsc, oneshot};
use futures::{Async, Poll};
use std::sync::LockResult;
use vstd::prelude::*;

verus! {

/// What the task of a lock is told, without the ends of its channels.
pub enum Told<T> {
    /// There will be no more requests.
    Closed,
    /// There is no request.
    Idle,
    /// There is a request.
    Asked,
    /// The value has come back, with a flag.
    Back(T, bool),
    /// The value has not come back.
    Held,
    /// The value will not come back.
    Lost,
}

impl<T> Told<T> {
    /// What a guard's channel tells.
    pub open spec fn by_guard(polled: Poll<(T, bool), oneshot::Canceled>) -> Self {
        match polled {
            Ok(Async::Ready((value, panicked))) => Told::Back(value, panicked),
            Ok(Async::NotReady) => Told::Held,
            Err(_) => Told::Lost,
        }
    }

    /// What a request queue tells.
    pub open spec fn by_queue<M>(polled: Async<Option<M>>) -> Self {
        match polled {
            Async::Ready(None) => Told::Closed,
            Async::Ready(Some(_)) => Told::Asked,
            Async::NotReady => Told::Idle,
        }
    }
}

impl<T: Send, W, R> RwLockEvent<T, W, R> {
    /// What the event tells, if it is one that a mutex knows.
    pub open spec fn told(self) -> Option<Told<T>> {
        match self {
            RwLockEvent::Requests(Ok(polled), _) => Some(Told::by_queue(polled)),
            RwLockEvent::Unlock(polled, _) => Some(Told::by_guard(polled)),
            _ => None,
        }
    }
}

impl<T: Send, G> MutexEvent<T, G> {
    /// What the event tells.
    pub open spec fn told(self) -> Option<Told<T>> {
        match self {
            MutexEvent::Requests(Ok(polled), _) => Some(Told::by_queue(polled)),
            MutexEvent::Unlock(polled, _) => Some(Told::by_guard(polled)),
            _ => None,
        }
    }
}

impl<T: Send, W, R> RwLockMoment<T, W, R> {
    /// Nobody reads, the value is as in a mutex in moment `mutex`, and so is the
    /// flag.
    pub open spec fn resembles<G>(self, mutex: MutexMoment<T, G>) -> bool {
        &&& self.state is Unlocked || self.state is LockedWrite
        &&& self.value() == mutex.value()
        &&& self.poisoned == mutex.poisoned
    }
}

/// A step of a lock that only writers ask for is as that of a mutex.
proof fn lemma_steps_alike<
    T: Send,
    W: From<RwLockWriteGuard<T>>,
    R: From<RwLockReadGuard<T>>,
    G: From<MutexGuard<T>>,
>(
    rwlock: RwLockMoment<T, W, R>,
    rwlock_event: RwLockEvent<T, W, R>,
    rwlock_next: RwLockMoment<T, W, R>,
    mutex: MutexMoment<T, G>,
    mutex_event: MutexEvent<T, G>,
    mutex_next: MutexMoment<T, G>,
)
    requires
        rwlock.moves(rwlock_event, rwlock_next),
        mutex.moves(mutex_event, mutex_next),
        rwlock.resembles(mutex),
        !rwlock_event.is_read_grant(),
        rwlock_event.told() == mutex_event.told(),
    ensures
        rwlock_event.outcome() == mutex_event.outcome(),
        rwlock_next.resembles(mutex_next),
{
}

/// A lock that only writers ask for behaves as a mutex: told the same by their
/// queues and by their guards, the one and the other go on alike, with the value
/// in the same place and the same flag.
pub proof fn law_rwlock_writers_only_is_a_mutex<
    T: Send,
    W: From<RwLockWriteGuard<T>>,
    R: From<RwLockReadGuard<T>>,
    G: From<MutexGuard<T>>,
>(rwlock: RwLockRun<T, W, R>, mutex: MutexRun<T, G>, n: int)
    requires
        rwlock.valid(),
        mutex.valid(),
        rwlock.moments.first().resembles(mutex.moments.first()),
        0 <= n <= rwlock.events.len(),
        n <= mutex.events.len(),
        forall|i: int|
            0 <= i < n ==> {
                &&& !(#[trigger] rwlock.events[i]).is_read_grant()
                &&& rwlock.events[i].told() == mutex.events[i].told()
            },
    ensures
        rwlock.moments[n].resembles(mutex.moments[n]),
        forall|i: int|
            0 <= i < n ==> (#[trigger] rwlock.events[i]).outcome() == mutex.events[i].outcome(),
    decreases n,
{
    if n > 0 {
        law_rwlock_writers_only_is_a_mutex(rwlock, mutex, n - 1);
        lemma_steps_alike(
            rwlock.moments[n - 1],
            rwlock.events[n - 1],
            rwlock.moments[n],
            mutex.moments[n - 1],
            mutex.events[n - 1],
            mutex.moments[n],
        );
    }
}

/// Told the same, the tasks grant the same: a guard on the same value, with the
/// same flag.
pub proof fn law_writers_only_grants_alike<
    T: Send,
    W: From<RwLockWriteGuard<T>>,
    R: From<RwLockReadGuard<T>>,
    G: From<MutexGuard<T>>,
>(rwlock: RwLockRun<T, W, R>, mutex: MutexRun<T, G>, n: int)
    requires
        rwlock.valid(),
        mutex.valid(),
        rwlock.moments.first().resembles(mutex.moments.first()),
        0 <= n < rwlock.events.len(),
        n < mutex.events.len(),
        forall|i: int|
            0 <= i <= n ==> {
                &&& !(#[trigger] rwlock.events[i]).is_read_grant()
                &&& rwlock.events[i].told() == mutex.events[i].told()
            },
        mutex.events[n].is_grant(),
    ensures
        mutex.moments[n].value() is Some,
        mutex.events[n].request() matches Some(MutexRequest(req)) && (mutex.moments[n + 1].state
            matches MutexState::Locked(receiver, _) && granted(
            mutex.moments[n].value()->0,
            mutex.moments[n].poisoned,
            req,
            receiver,
        )),
        rwlock.events[n].request() matches Some(LockRequest::Exclusive(req)) && (rwlock.moments[n
            + 1].state matches RwLockState::LockedWrite { unlock, .. } && write_granted(
            mutex.moments[n].value()->0,
            mutex.moments[n].poisoned,
            req,
            unlock,
        )),
{
    law_rwlock_writers_only_is_a_mutex(rwlock, mutex, n);
    assert(rwlock.moments[n].moves(rwlock.events[n], rwlock.moments[n + 1]));
    assert(mutex.moments[n].moves(mutex.events[n], mutex.moments[n + 1]));
    assert(rwlock.events[n].told() == mutex.events[n].told());
}

/// Told the same, the tasks are polled with the same result, in as many steps.
pub proof fn law_writers_only_polls_alike<
    T: Send,
    W: From<RwLockWriteGuard<T>>,
    R: From<RwLockReadGuard<T>>,
    G: From<MutexGuard<T>>,
>(
    rwlock: RwLockRun<T, W, R>,
    rwlock_result: Poll<(), ()>,
    mutex: MutexRun<T, G>,
    mutex_result: Poll<(), ()>,
)
    requires
        rwlock.is_poll(rwlock.moments.first(), rwlock.moments.last(), rwlock_result),
        mutex.is_poll(mutex.moments.first(), mutex.moments.last(), mutex_result),
        rwlock.moments.first().resembles(mutex.moments.first()),
        forall|i: int|
            0 <= i < rwlock.events.len() && i < mutex.events.len() ==> {
                &&& !(#[trigger] rwlock.events[i]).is_read_grant()
                &&& rwlock.events[i].told() == mutex.events[i].told()
            },
    ensures
        rwlock.events.len() == mutex.events.len(),
        rwlock_result == mutex_result,
        rwlock.moments.last().resembles(mutex.moments.last()),
{
    let shorter = if rwlock.events.len() < mutex.events.len() {
        rwlock.events.len() as int
    } else {
        mutex.events.len() as int
    };
    law_rwlock_writers_only_is_a_mutex(rwlock, mutex, shorter);
    let last = shorter - 1;
    assert(rwlock.events[last].outcome() == mutex.events[last].outcome());
    if rwlock.events.len() < mutex.events.len() {
        assert(mutex.events[last].outcome() == Ok::<_, ()>(Async::Ready(false)));
    } else if mutex.events.len() < rwlock.events.len() {
        assert(rwlock.events[last].outcome() == Ok::<_, ()>(Async::Ready(false)));
    }
}

/// Left alike, a lock and a mutex complete alike: both completions wait, are
/// canceled, or get the same value with the same flag.
pub proof fn law_writers_only_completes_alike<T: Send, W, R, G>(
    rwlock: RwLockMoment<T, W, R>,
    mutex: MutexMoment<T, G>,
    alive: bool,
    rwlock_fate: Fate<LockResult<T>>,
    mutex_fate: Fate<LockResult<T>>,
)
    requires
        rwlock.resembles(mutex),
        rwlock.completes(alive, rwlock_fate),
        mutex.completes(alive, mutex_fate),
    ensures
        match mutex_fate {
            Fate::Open => rwlock_fate is Open,
            Fate::Gone => rwlock_fate is Gone,
            Fate::Sent(one) => {
                &&& mutex.value() is Some
                &&& flagged(mutex.poisoned, mutex.value()->0, one)
                &&& rwlock_fate matches Fate::Sent(other)
                &&& flagged(mutex.poisoned, mutex.value()->0, other)
            },
        },
{
}

impl<M, V> ExchangeWorld<M, V> {
    /// The two requests have come equally far.
    pub open spec fn is_as_far_as<N, U>(self, other: ExchangeWorld<N, U>) -> bool {
        &&& self.alive == other.alive
        &&& self.reply is Open == other.reply is Open
        &&& self.reply is Sent == other.reply is Sent
        &&& self.exchange.outgoing is Offering == other.exchange.outgoing is Offering
        &&& self.exchange.outgoing is Flushing == other.exchange.outgoing is Flushing
        &&& self.exchange.outgoing is Done == other.exchange.outgoing is Done
        &&& self.exchange.incoming is Waiting == other.exchange.incoming is Waiting
        &&& self.exchange.incoming is Done == other.exchange.incoming is Done
    }
}

/// Requests that have come equally far, and that the queues treat alike, go on
/// alike: both wait, are canceled, or complete with what they were answered.
pub proof fn law_writers_only_locks_alike<M, V, N, U>(
    one: ExchangeWorld<M, V>,
    one_out: (Outgoing<M>, Result<bool, ()>),
    one_back: (Incoming<V>, Result<bool, ()>),
    one_next: ExchangeWorld<M, V>,
    one_result: Poll<(mpsc::Sender<M>, V), ()>,
    other: ExchangeWorld<N, U>,
    other_out: (Outgoing<N>, Result<bool, ()>),
    other_back: (Incoming<U>, Result<bool, ()>),
    other_next: ExchangeWorld<N, U>,
    other_result: Poll<(mpsc::Sender<N>, U), ()>,
)
    requires
        one.in_order(),
        other.in_order(),
        one.is_as_far_as(other),
        one.locker_polls(one_out, one_back, one_next, one_result),
        other.locker_polls(other_out, other_back, other_next, other_result),
        one_out.0 is Offering == other_out.0 is Offering,
        one_out.0 is Flushing == other_out.0 is Flushing,
        one_out.0 is Done == other_out.0 is Done,
    ensures
        one_next.is_as_far_as(other_next),
        one_result is Err == other_result is Err,
        match (one_result, other_result) {
            (Ok(Async::Ready((_, first))), Ok(Async::Ready((_, second)))) => one.reply
                == Fate::Sent(first) && other.reply == Fate::Sent(second),
            (Ok(Async::NotReady), Ok(Async::NotReady)) => true,
            (Err(_), Err(_)) => true,
            _ => false,
        },
{
    law_exchange_poll(one, one_out, one_back, one_next, one_result);
    law_exchange_poll(other, other_out, other_back, other_next, other_result);
}

} // verus!
