//! The channels, task handles and poison errors that the locks are built from.
//!
//! Everything here comes from `futures` or from `std`. A handle is opaque: what
//! is known of it is which calls have been made with it. The predicates below
//! (`paired`, `sent`, `drawn`, ...) each say of one function that a call of it
//! returned; such a fact is only to be had by making the call.
//!
//! A receiving end is a different value once something has been taken from it.
//! `drawn` and `collected` therefore speak of the end before and after a poll,
//! and a chain of ends tells how often it was polled with success.

pub mod entry;

use crate::sync::pointer::arc_try_unwrap;
use futures::sync::oneshot::Canceled as SenderGone;
use futures::sync::{mpsc, oneshot};
use futures::task::Task;
use futures::{Async, AsyncSink, Future, Poll, Sink, StartSend, Stream};
use std::sync::{LockResult, PoisonError};
use vstd::prelude::*;

pub use crate::sync::pointer::{copied, lent, Kept, Lent, Loose, Shared};

verus! {

/// How many steps a task of a lock makes in one poll before it lets other tasks
/// run.
pub const STEP_BUDGET: u64 = 0xffff_ffff_ffff_ffff;

/// `futures::Async`, with both of its variants.
#[verifier::external_type_specification]
pub struct ExAsync<T>(Async<T>);

/// `futures::AsyncSink`, with both of its variants.
#[verifier::external_type_specification]
pub struct ExAsyncSink<T>(AsyncSink<T>);

/// `futures::sync::oneshot::Canceled`, a unit struct.
#[verifier::external_type_specification]
pub struct ExSenderGone(SenderGone);

/// `futures::sync::oneshot::Sender`, opaque.
#[verifier::external_type_specification]
#[verifier::external_body]
#[verifier::reject_recursive_types(T)]
pub struct ExOneshotSender<T>(oneshot::Sender<T>);

/// `futures::sync::oneshot::Receiver`, opaque.
#[verifier::external_type_specification]
#[verifier::external_body]
#[verifier::reject_recursive_types(T)]
pub struct ExOneshotReceiver<T>(oneshot::Receiver<T>);

/// `futures::sync::mpsc::Sender`, opaque.
#[verifier::external_type_specification]
#[verifier::external_body]
#[verifier::reject_recursive_types(T)]
pub struct ExMpscSender<T>(mpsc::Sender<T>);

/// `futures::sync::mpsc::Receiver`, opaque.
#[verifier::external_type_specification]
#[verifier::external_body]
#[verifier::reject_recursive_types(T)]
pub struct ExMpscReceiver<T>(mpsc::Receiver<T>);

/// `futures::sync::mpsc::SendError`, opaque.
#[verifier::external_type_specification]
#[verifier::external_body]
#[verifier::reject_recursive_types(T)]
pub struct ExSendError<T>(mpsc::SendError<T>);

/// `futures::task::Task`, opaque.
#[verifier::external_type_specification]
#[verifier::external_body]
pub struct ExTask(Task);

/// `std::sync::PoisonError`, opaque.
#[verifier::external_type_specification]
#[verifier::external_body]
#[verifier::reject_recursive_types(T)]
pub struct ExPoisonError<T>(PoisonError<T>);

/// `task::is_in_task` says whether a task is being polled: see `in_task`.
pub assume_specification[ futures::task::is_in_task ]() -> (inside: bool);

/// `oneshot::channel` makes the two ends of a channel for one message. Nothing
/// is claimed of them but that they came together: see `paired`.
pub assume_specification<T>[ oneshot::channel::<T> ]() -> (ends: (
    oneshot::Sender<T>,
    oneshot::Receiver<T>,
));

/// `oneshot::Sender::send` hands the message over and wakes the task that waits
/// for it, or gives that same message back if the receiving end has gone. It
/// panics only if waking that task does.
pub assume_specification<T>[ oneshot::Sender::<T>::send ](
    sender: oneshot::Sender<T>,
    t: T,
) -> (result: Result<(), T>)
    ensures
        result matches Err(back) ==> back == t,
;

/// `mpsc::channel` makes a queue with one sending and one receiving end. It
/// panics if the buffer asked for is not smaller than a quarter of the largest
/// `usize`.
pub assume_specification<T>[ mpsc::channel::<T> ](buffer: usize) -> (ends: (
    mpsc::Sender<T>,
    mpsc::Receiver<T>,
))
    requires
        buffer < usize::MAX / 4,
;

/// The clone of an `mpsc::Sender` sends to the same queue: see `cloned`. It
/// panics when the queue already has its maximum number of senders, which is
/// more than a quarter of the largest `usize`.
pub assume_specification<T>[ <mpsc::Sender<T> as Clone>::clone ](
    sender: &mpsc::Sender<T>,
) -> (copy: mpsc::Sender<T>);

/// `task::current` returns a handle to the task that is being polled. It panics
/// where no task is.
pub assume_specification[ futures::task::current ]() -> (task: Task)
    requires
        in_task(),
;

/// `Task::notify` asks for the task to be polled again. It panics only if the
/// executor of that task does so on being asked.
pub assume_specification[ Task::notify ](task: &Task);

/// `PoisonError::new` wraps a value. It may panic where `std` was built without
/// unwinding.
pub assume_specification<T>[ PoisonError::<T>::new ](data: T) -> (error: PoisonError<T>);

/// `Stream::poll` on an `mpsc::Receiver`, which comes back with the answer. It
/// never fails, and unless it returns a message nothing is taken from the queue.
/// It panics where no task is being polled and it has to wait.
#[verifier::external_body]
fn stream_poll<M>(mut queue: mpsc::Receiver<M>) -> (result: (
    mpsc::Receiver<M>,
    Poll<Option<M>, ()>,
))
    requires
        in_task(),
    ensures
        result.1 is Ok,
        !(result.1 matches Ok(Async::Ready(Some(_)))) ==> result.0 == queue,
{
    let polled = queue.poll();
    (queue, polled)
}

/// `Future::poll` on a `oneshot::Receiver`, which comes back with the answer.
/// While the message has not been sent, nothing is taken from the channel. A
/// message that arrives is the one that was sent from the other end, which sends
/// only once. An error comes if the other end has gone without sending one. It
/// panics where no task is being polled and it has to wait.
#[verifier::external_body]
fn oneshot_poll<M>(mut receiver: oneshot::Receiver<M>) -> (result: (
    oneshot::Receiver<M>,
    Poll<M, SenderGone>,
))
    requires
        in_task(),
    ensures
        result.1 matches Ok(Async::NotReady) ==> result.0 == receiver,
        forall|sender: oneshot::Sender<M>|
            paired(sender, receiver) ==> #[trigger] conveys(sender, result.1),
{
    let polled = receiver.poll();
    (receiver, polled)
}

/// `Sink::start_send` on an `mpsc::Sender`, which comes back with the answer. A
/// message that it does not take now it gives back. It panics where no task is
/// being polled, and where the queue holds half of the largest `usize` of
/// messages.
#[verifier::external_body]
fn sink_start_send<M>(mut sender: mpsc::Sender<M>, message: M) -> (result: (
    mpsc::Sender<M>,
    StartSend<M, mpsc::SendError<M>>,
))
    requires
        in_task(),
    ensures
        result.1 matches Ok(AsyncSink::NotReady(back)) ==> back == message,
{
    let answer = sender.start_send(message);
    (sender, answer)
}

/// `Sink::poll_complete` on an `mpsc::Sender`, which comes back with the answer.
/// It never fails: a queue whose receiver has gone counts as flushed. It panics
/// where no task is being polled and it has to wait.
#[verifier::external_body]
fn sink_poll_complete<M>(mut sender: mpsc::Sender<M>) -> (result: (
    mpsc::Sender<M>,
    Poll<(), mpsc::SendError<M>>,
))
    requires
        in_task(),
    ensures
        result.1 is Ok,
{
    let answer = sender.poll_complete();
    (sender, answer)
}

/// A task is being polled: `task::is_in_task` has said so.
///
/// Whoever is polled knows it from its own caller. Others ask with
/// `entry::within_task`.
pub closed spec fn in_task() -> bool {
    call_ensures(futures::task::is_in_task, (), true)
}

/// The two ends came out of one call of `oneshot::channel`, and nothing has been
/// taken from the receiving one.
pub open spec fn paired<M>(
    sender: oneshot::Sender<M>,
    receiver: oneshot::Receiver<M>,
) -> bool {
    call_ensures(oneshot::channel::<M>, (), (sender, receiver))
}

/// The two ends came out of one call of `mpsc::channel` with this buffer.
pub open spec fn queued<M>(
    buffer: usize,
    sender: mpsc::Sender<M>,
    receiver: mpsc::Receiver<M>,
) -> bool {
    call_ensures(mpsc::channel::<M>, (buffer,), (sender, receiver))
}

/// `message` has been given to `oneshot::Sender::send` on `sender`.
pub open spec fn sent<M>(sender: oneshot::Sender<M>, message: M) -> bool {
    exists|result: Result<(), M>|
        call_ensures(oneshot::Sender::<M>::send, (sender, message), result)
}

/// `message` has been sent on `sender`, and dropped if it came back because the
/// receiving end has gone.
pub open spec fn delivered<M>(sender: oneshot::Sender<M>, message: M) -> bool {
    exists|result: Result<(), M>|
        call_ensures(oneshot::Sender::<M>::send, (sender, message), result) && (result is Err
            ==> dropped(message))
}

/// What the receiving end says, `polled`, is in accordance with what was sent on
/// `sender`: a message arrives if it is the one message that was sent, and the
/// channel is canceled only if none was.
pub open spec fn conveys<M>(sender: oneshot::Sender<M>, polled: Poll<M, SenderGone>) -> bool {
    match polled {
        Ok(Async::Ready(message)) => {
            &&& sent(sender, message)
            &&& forall|other: M| #[trigger] sent(sender, other) ==> other == message
        },
        Ok(Async::NotReady) => true,
        Err(_) => forall|other: M| !#[trigger] sent(sender, other),
    }
}

/// `value` has been dropped with `discard`.
pub open spec fn dropped<V>(value: V) -> bool {
    call_ensures(discard::<V>, (value,), ())
}

/// `task` came out of a call of `task::current`.
pub open spec fn running(task: Task) -> bool {
    call_ensures(futures::task::current, (), task)
}

/// `Task::notify` has been called on `task`.
pub open spec fn notified(task: Task) -> bool {
    call_ensures(Task::notify, (&task,), ())
}

/// `task` has been notified when `value` had been dropped already.
pub open spec fn notified_after<V>(task: Task, value: V) -> bool {
    call_ensures(notify_after::<V>, (&task, Ghost(value)), ())
}

/// `wrapped` came out of the conversion of `inner`.
pub open spec fn converted<M, G: From<M>>(inner: M, wrapped: G) -> bool {
    call_ensures(<G as From<M>>::from, (inner,), wrapped)
}

/// What a lock with this poison flag says of `value`: the value itself while
/// the flag is down, and the value in a new `PoisonError` once it is up.
pub open spec fn flagged<U>(poisoned: bool, value: U, result: LockResult<U>) -> bool {
    match result {
        Ok(inner) => !poisoned && inner == value,
        Err(error) => poisoned && call_ensures(PoisonError::<U>::new, (value,), error),
    }
}

/// Polling the receiving end `before` returned `polled` and left it as `after`.
pub closed spec fn drawn<M>(
    before: mpsc::Receiver<M>,
    polled: Poll<Option<M>, ()>,
    after: mpsc::Receiver<M>,
) -> bool {
    call_ensures(stream_poll::<M>, (before,), (after, polled))
}

/// Polling the receiving end `before` returned `polled` and left it as `after`.
pub closed spec fn collected<M>(
    before: oneshot::Receiver<M>,
    polled: Poll<M, SenderGone>,
    after: oneshot::Receiver<M>,
) -> bool {
    call_ensures(oneshot_poll::<M>, (before,), (after, polled))
}

/// Offering `message` to `before` returned `answer` and left the sender `after`.
pub closed spec fn offered<M>(
    before: mpsc::Sender<M>,
    message: M,
    after: mpsc::Sender<M>,
    answer: StartSend<M, mpsc::SendError<M>>,
) -> bool {
    call_ensures(sink_start_send::<M>, (before, message), (after, answer))
}

/// Flushing `before` returned `answer` and left the sender `after`.
pub closed spec fn flushed<M>(
    before: mpsc::Sender<M>,
    after: mpsc::Sender<M>,
    answer: Poll<(), mpsc::SendError<M>>,
) -> bool {
    call_ensures(sink_poll_complete::<M>, (before,), (after, answer))
}

/// Trying to take the value out of `pointer` returned `result`.
pub closed spec fn unwrapped<T, K>(
    pointer: Shared<T, K>,
    result: Result<T, Shared<T, K>>,
) -> bool {
    call_ensures(arc_try_unwrap::<T, K>, (pointer,), result)
}

impl<T, K> Shared<T, K> {
    /// Takes the value out if this is the last pointer to it.
    pub fn try_unwrap(self) -> (result: Result<T, Shared<T, K>>)
        ensures
            unwrapped(self, result),
            match result {
                Ok(value) => value == self.value(),
                Err(back) => back == self,
            },
    {
        arc_try_unwrap(self)
    }
}

/// The receiving end of a queue.
#[verifier::reject_recursive_types(M)]
pub struct Inbox<M> {
    queue: Option<mpsc::Receiver<M>>,
}

impl<M> Inbox<M> {
    /// The end is here. It is, except within a poll.
    pub closed spec fn is_whole(self) -> bool {
        self.queue is Some
    }

    /// The end.
    pub closed spec fn queue(self) -> mpsc::Receiver<M> {
        self.queue->0
    }

    /// Holds a receiving end.
    pub fn new(queue: mpsc::Receiver<M>) -> (inbox: Self)
        ensures
            inbox.is_whole(),
            inbox.queue() == queue,
    {
        Inbox { queue: Some(queue) }
    }

    /// Asks for the next message.
    pub fn poll(&mut self) -> (polled: Poll<Option<M>, ()>)
        requires
            old(self).is_whole(),
            in_task(),
        ensures
            final(self).is_whole(),
            polled is Ok,
            drawn(old(self).queue(), polled, final(self).queue()),
            !(polled matches Ok(Async::Ready(Some(_)))) ==> *final(self) == *old(self),
    {
        match self.queue.take() {
            Some(queue) => {
                let (queue, polled) = stream_poll(queue);
                self.queue = Some(queue);
                polled
            },
            None => vstd::pervasive::unreached(),
        }
    }
}

/// Asks a channel for its message.
pub fn collect<M>(receiver: oneshot::Receiver<M>) -> (result: (
    oneshot::Receiver<M>,
    Poll<M, SenderGone>,
))
    requires
        in_task(),
    ensures
        collected(receiver, result.1, result.0),
        result.1 matches Ok(Async::NotReady) ==> result.0 == receiver,
{
    oneshot_poll(receiver)
}

/// Offers a message to a queue.
pub fn offer<M>(sender: mpsc::Sender<M>, message: M) -> (result: (
    mpsc::Sender<M>,
    StartSend<M, mpsc::SendError<M>>,
))
    requires
        in_task(),
    ensures
        result.1 matches Ok(AsyncSink::NotReady(back)) ==> back == message,
        offered(sender, message, result.0, result.1),
{
    sink_start_send(sender, message)
}

/// Asks whether a queue has taken what it was offered.
pub fn flush<M>(sender: mpsc::Sender<M>) -> (result: (
    mpsc::Sender<M>,
    Poll<(), mpsc::SendError<M>>,
))
    requires
        in_task(),
    ensures
        result.1 is Ok,
        flushed(sender, result.0, result.1),
{
    sink_poll_complete(sender)
}

/// Drops a value.
pub fn discard<V>(value: V) {
}

/// Sends a message. If the receiving end has gone, the message is dropped here
/// and now.
pub fn deliver<M>(sender: oneshot::Sender<M>, message: M)
    ensures
        delivered(sender, message),
        sent(sender, message),
{
    let result = sender.send(message);
    assert(call_ensures(oneshot::Sender::<M>::send, (sender, message), result));
    if let Err(back) = result {
        discard(back);
    }
}

/// Notifies a task. The value that it waits to be dropped has been.
pub fn notify_after<V>(task: &Task, Ghost(value): Ghost<V>)
    requires
        dropped(value),
    ensures
        dropped(value),
        notified(*task),
{
    task.notify();
}

/// A task is notified after a value was dropped only if the value was dropped.
pub proof fn law_notified_after_drop<V>(task: Task, value: V)
    requires
        notified_after(task, value),
    ensures
        call_ensures(discard::<V>, (value,), ()),
        call_ensures(Task::notify, (&task,), ()),
{
}

/// What is taken out of a pointer is what it points to, and a pointer from which
/// it cannot be taken is as it was.
pub proof fn law_unwrapped<T, K>(pointer: Shared<T, K>, result: Result<T, Shared<T, K>>)
    requires
        unwrapped(pointer, result),
    ensures
        match result {
            Ok(value) => value == pointer.value(),
            Err(back) => back == pointer,
        },
{
}

/// What was sent was handed to the sending end of a channel.
pub proof fn law_sent_was_handed_over<M>(sender: oneshot::Sender<M>, message: M)
    requires
        sent(sender, message),
    ensures
        exists|result: Result<(), M>| #[trigger]
            call_ensures(oneshot::Sender::<M>::send, (sender, message), result),
{
}

/// What arrives at the receiving end of a channel is what was sent at the other.
pub proof fn law_collected_was_sent<M>(
    sender: oneshot::Sender<M>,
    receiver: oneshot::Receiver<M>,
    message: M,
    after: oneshot::Receiver<M>,
)
    requires
        paired(sender, receiver),
        collected(receiver, Ok(Async::Ready(message)), after),
    ensures
        sent(sender, message),
        forall|other: M| #[trigger] sent(sender, other) ==> other == message,
{
    assert(conveys(sender, Ok(Async::Ready(message))));
}

/// A channel from which something was sent is not canceled.
pub proof fn law_sent_is_not_canceled<M>(
    sender: oneshot::Sender<M>,
    receiver: oneshot::Receiver<M>,
    message: M,
    polled: Poll<M, SenderGone>,
    after: oneshot::Receiver<M>,
)
    requires
        paired(sender, receiver),
        sent(sender, message),
        collected(receiver, polled, after),
    ensures
        polled is Ok,
{
    assert(conveys(sender, polled));
}

/// A message that a queue does not take now comes back.
pub proof fn law_refused_comes_back<M>(
    before: mpsc::Sender<M>,
    message: M,
    after: mpsc::Sender<M>,
    back: M,
)
    requires
        offered(before, message, after, Ok(AsyncSink::NotReady(back))),
    ensures
        back == message,
{
}

/// Flushing a queue never fails.
pub proof fn law_flush_never_fails<M>(
    before: mpsc::Sender<M>,
    after: mpsc::Sender<M>,
    answer: Poll<(), mpsc::SendError<M>>,
)
    requires
        flushed(before, after, answer),
    ensures
        answer is Ok,
{
}

/// A poll that finds nothing takes nothing from a channel.
pub proof fn law_nothing_collected<M>(
    receiver: oneshot::Receiver<M>,
    polled: Poll<M, SenderGone>,
    after: oneshot::Receiver<M>,
)
    requires
        collected(receiver, polled, after),
        polled matches Ok(Async::NotReady),
    ensures
        after == receiver,
{
}

/// A poll that brings no message takes nothing from a queue.
pub proof fn law_nothing_drawn<M>(
    queue: mpsc::Receiver<M>,
    polled: Poll<Option<M>, ()>,
    after: mpsc::Receiver<M>,
)
    requires
        drawn(queue, polled, after),
        !(polled matches Ok(Async::Ready(Some(_)))),
    ensures
        after == queue,
{
}

/// Taking `messages`, one after the other, led from `before` to `after`.
pub open spec fn drained<M>(
    before: mpsc::Receiver<M>,
    messages: Seq<M>,
    after: mpsc::Receiver<M>,
) -> bool
    decreases messages.len(),
{
    if messages.len() == 0 {
        after == before
    } else {
        exists|between: mpsc::Receiver<M>|
            drained(before, messages.drop_last(), between) && #[trigger] drawn(
                between,
                Ok(Async::Ready(Some(messages.last()))),
                after,
            )
    }
}

} // verus!
