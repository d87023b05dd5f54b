# futures-spawn

Locks for tasks that must not block. The value of a lock lives in a task of its
own. Lockers send requests to that task through a queue and await a guard;
nothing ever blocks a thread.

- `sync::Mutex`: one holder at a time.
- `sync::RwLock`: many readers or one writer. A writer that waits for readers is
  not overtaken by later requests.

A lock is poisoned once a holder gives its value back while unwinding. From then
on every guard, and in the end the value itself, arrives in a `PoisonError`.

## Layout

- `src/` is the verified library.
  - `sync/primitives.rs`: the channels, task handles, shared pointers and poison
    errors that the locks are built from, and what is trusted of them.
  - `sync/exchange.rs`: sending a request and awaiting its reply.
  - `sync/mutex.rs`, `sync/rwlock.rs`: the locks.
  - `sync/mutex_laws.rs`, `sync/rwlock_laws.rs`: what holds of every history of a
    lock: mutual exclusion, the order in which requests are answered, what
    happens to the value, poisoning, waiting, failure and completion.
  - `sync/world.rs`, `sync/mutex_world.rs`, `sync/rwlock_world.rs`: a lock together
    with its handles, guards and lockers, in the order of time: what a poll of
    the task, of a lock or of a completion returns, and when.
  - `sync/writers_only.rs`: a reader-writer lock that only writers ask for goes on
    as a mutex does.
- `app/` wraps the library for everyday use: its guards give the value back, and
  its tasks complete the lock, when they are dropped.
- `tests/` runs the locks on a small executor and step by step.

## Guards and destructors

A guard of the library gives its value back through `release`, which is told
whether the holder is unwinding, and a task gives its value to the completion
through `finish`. Neither happens by itself: a destructor may not unwind, and
that cannot be promised of waking another task. So a lock is generic over the
type that its lockers receive, which is made from the guard with `From`. That
type can have a destructor that calls `release`.

What is proved is that a guard whose locker has gone is dropped by the task at
once, that a guard that is released brings its value back, and that a poll fails
only if a guard was not. That a destructor then keeps the value from being lost,
even if the locker goes away before it has seen its guard, is shown by the test
`mutex_gets_undelivered_guard_back`.

## How the contracts speak of effects

The functions of a channel have effects that no value shows. The contracts speak
of them through predicates such as `sent(sender, message)`: a call of `send` with
these arguments has returned. Verus knows this only where the call was made.

A receiving end is another value once a message has been taken from it. So
`drawn(before, polled, after)` and `collected(before, polled, after)` name the end
before and after a poll, and a task that took a message too many would not have
the end that its contract names. A poll of a task is described by a run: what
each of its questions came to, and the moments in between, with the state, the
flag and the receiving end of the request queue.

These predicates do not say when a call was made. Where time matters, the laws
speak of worlds: a world counts the handles and guards that are left, and keeps
what was sent and not taken yet. That a channel answers by what has happened at
its other end so far, and a pointer is the last one when no other is left, is
stated there as a premise (`tells`); which message arrives is proved.

Polls are only made within a task: they require `in_task()`, which is known once
`futures::task::is_in_task` has said so.
