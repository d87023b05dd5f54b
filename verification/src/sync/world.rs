//! What surrounds a lock: what has happened at the other ends of its channels.
//!
//! The predicates of `primitives` say what calls have been made, but not when. The
//! worlds here have an order in time. A channel is taken to answer by what has
//! happened at its other end so far: a queue gives its messages out in the order
//! in which they were sent and ends when no sender is left, and a channel for
//! one message gives it out once it was sent and is canceled once the sender has
//! gone without. What a message is, is not taken for granted but proved.

use crate::sync::exchange::{Exchange, Incoming, Outgoing};
use crate::sync::primitives::{
    collected, flushed, law_collected_was_sent, law_flush_never_fails, law_nothing_collected,
    paired, sent,
};
use futures::sync::{mpsc, oneshot};
use futures::{Async, Poll};
use vstd::prelude::*;

verus! {

/// What has become of the sending end of a channel for one message.
pub enum Fate<M> {
    /// Somebody has it.
    Open,
    /// The message was sent.
    Sent(M),
    /// It has gone without a message.
    Gone,
}

impl<M> Fate<M> {
    /// The receiving end says `polled`: whether there is a message.
    pub open spec fn says(self, polled: Poll<M, oneshot::Canceled>) -> bool {
        match self {
            Fate::Open => polled matches Ok(Async::NotReady),
            Fate::Sent(_) => polled matches Ok(Async::Ready(_)),
            Fate::Gone => polled is Err,
        }
    }
}

/// The sending side of a queue.
pub struct Line<M> {
    /// How many handles are left to send with.
    pub handles: nat,
    /// What was sent and not taken yet, in order.
    pub asked: Seq<M>,
}

impl<M> Line<M> {
    /// The receiving end says `polled`.
    pub open spec fn says(self, polled: Async<Option<M>>) -> bool {
        match polled {
            Async::Ready(Some(message)) => self.asked.len() > 0 && self.asked.first() == message,
            Async::Ready(None) => self.asked.len() == 0 && self.handles == 0,
            Async::NotReady => self.asked.len() == 0 && self.handles > 0,
        }
    }

    /// The queue once `taken` was taken from it.
    pub open spec fn after(self, taken: Option<M>) -> Self {
        match taken {
            Some(_) => Line { handles: self.handles, asked: self.asked.drop_first() },
            None => self,
        }
    }

    /// Somebody with a handle copies or drops handles, or sends a message.
    pub open spec fn is_used(self, next: Self) -> bool {
        &&& self.handles > 0
        &&& next.asked == self.asked || exists|message: M|
            next.asked == #[trigger] self.asked.push(message)
    }
}

/// A request, its reply, and the task that it is sent to.
#[verifier::reject_recursive_types(M)]
#[verifier::reject_recursive_types(V)]
pub struct ExchangeWorld<M, V> {
    /// The locker's side.
    pub exchange: Exchange<M, V>,
    /// The task has not been dropped.
    pub alive: bool,
    /// Where the task sends the reply. It goes with the request.
    pub end: oneshot::Sender<V>,
    /// What has become of that end.
    pub reply: Fate<V>,
}

impl<M, V> ExchangeWorld<M, V> {
    /// A new request.
    pub open spec fn is_new(self) -> bool {
        &&& self.exchange.outgoing is Offering
        &&& self.exchange.incoming matches Incoming::Waiting(receiver)
        &&& paired(self.end, receiver)
        &&& self.reply is Open
    }

    /// The locker polls: pushing the request on comes to `out`, and asking for
    /// the reply to `back`. A queue refuses a request just when the task has
    /// gone.
    pub open spec fn locker_polls(
        self,
        out: (Outgoing<M>, Result<bool, ()>),
        back: (Incoming<V>, Result<bool, ()>),
        next: Self,
        result: Poll<(mpsc::Sender<M>, V), ()>,
    ) -> bool {
        &&& !self.exchange.is_over()
        &&& self.exchange.outgoing.advances(out)
        &&& out.1 is Ok ==> self.exchange.incoming.advances(back)
        &&& self.exchange.outgoing is Offering ==> (out.1 is Err <==> !self.alive)
        &&& out.1 is Ok && self.exchange.incoming is Waiting ==> match self.reply {
            Fate::Open => back.1 == Ok::<bool, ()>(false),
            Fate::Sent(_) => back.1 == Ok::<bool, ()>(true),
            Fate::Gone => back.1 is Err,
        }
        &&& (next.exchange, result) == Exchange::after(out, back)
        &&& next.alive == self.alive
        &&& next.end == self.end
        &&& next.reply == self.reply
    }

    /// The task answers the request, which it can once it has it.
    pub open spec fn task_answers(self, reply: V, next: Self) -> bool {
        &&& self.alive
        &&& self.reply is Open
        &&& self.exchange.outgoing !is Offering
        &&& sent(self.end, reply)
        &&& next == ExchangeWorld { reply: Fate::Sent(reply), ..self }
    }

    /// The task is dropped. A request that has been sent goes with it, whether it
    /// waits in the queue or in the task.
    pub open spec fn task_goes(self, next: Self) -> bool {
        &&& self.alive
        &&& next == ExchangeWorld {
            alive: false,
            reply: if self.reply is Open && self.exchange.outgoing !is Offering {
                Fate::Gone
            } else {
                self.reply
            },
            ..self
        }
    }

    /// Something happens.
    pub open spec fn goes_to(self, next: Self) -> bool {
        ||| exists|
            out: (Outgoing<M>, Result<bool, ()>),
            back: (Incoming<V>, Result<bool, ()>),
            result: Poll<(mpsc::Sender<M>, V), ()>,
        | self.locker_polls(out, back, next, result)
        ||| exists|reply: V| self.task_answers(reply, next)
        ||| self.task_goes(next)
    }

    /// The reply, if there is one, is where it should be, and none is lost but
    /// with the task.
    pub open spec fn in_order(self) -> bool {
        &&& self.exchange.incoming matches Incoming::Waiting(receiver) ==> paired(
            self.end,
            receiver,
        )
        &&& self.exchange.incoming matches Incoming::Done(reply) ==> self.reply == Fate::Sent(reply)
        &&& self.reply matches Fate::Sent(reply) ==> sent(self.end, reply)
        &&& self.reply is Gone ==> !self.alive
        &&& self.exchange.outgoing is Offering ==> self.reply is Open
        &&& !self.alive && self.exchange.outgoing !is Offering && !self.exchange.is_over()
            ==> self.reply !is Open
    }
}

/// What a poll of a request does: it stays in order, fails just when the task was
/// dropped without having answered, and completes with the answer of the task.
pub proof fn law_exchange_poll<M, V>(
    world: ExchangeWorld<M, V>,
    out: (Outgoing<M>, Result<bool, ()>),
    back: (Incoming<V>, Result<bool, ()>),
    next: ExchangeWorld<M, V>,
    result: Poll<(mpsc::Sender<M>, V), ()>,
)
    requires
        world.in_order(),
        world.locker_polls(out, back, next, result),
    ensures
        next.in_order(),
        world.exchange.polls(next.exchange, result),
        result is Err <==> !world.alive && world.reply !is Sent,
        result matches Ok(Async::Ready((_, reply))) ==> world.reply == Fate::Sent(reply),
        result matches Ok(Async::NotReady) ==> world.reply is Open
            || next.exchange.outgoing is Flushing,
{
    if let Outgoing::Flushing(sender) = world.exchange.outgoing {
        lemma_flush_goes_well(sender, out);
    }
    if let Incoming::Waiting(receiver) = world.exchange.incoming {
        if out.1 is Ok {
            let (after, polled) = choose|
                after: oneshot::Receiver<V>,
                polled: Poll<V, oneshot::Canceled>,
            | #[trigger]
                collected(receiver, polled, after) && back == Incoming::after_poll(after, polled);
            match polled {
                Ok(Async::Ready(reply)) => law_collected_was_sent(
                    world.end,
                    receiver,
                    reply,
                    after,
                ),
                Ok(Async::NotReady) => law_nothing_collected(receiver, polled, after),
                Err(_) => {},
            }
        }
    }
}

/// Flushing does not fail.
proof fn lemma_flush_goes_well<M>(
    sender: mpsc::Sender<M>,
    result: (Outgoing<M>, Result<bool, ()>),
)
    requires
        Outgoing::flushes(sender, result),
    ensures
        result.1 is Ok,
        result.0 is Done || result.0 is Flushing,
{
    let (after, answer) = choose|after: mpsc::Sender<M>, answer: Poll<(), mpsc::SendError<M>>|
        #[trigger] flushed(sender, after, answer) && result == Outgoing::after_flush(
            after,
            answer,
        );
    law_flush_never_fails(sender, after, answer);
}

/// From its start on, a request is always in order, so that what is said of each
/// poll holds of all of them.
pub proof fn law_exchange_in_order<M, V>(worlds: Seq<ExchangeWorld<M, V>>, n: int)
    requires
        worlds.len() > 0,
        worlds.first().is_new(),
        forall|i: int|
            0 <= i < worlds.len() - 1 ==> (#[trigger] worlds[i]).goes_to(worlds[i + 1]),
        0 <= n < worlds.len(),
    ensures
        worlds[n].in_order(),
    decreases n,
{
    if n > 0 {
        law_exchange_in_order(worlds, n - 1);
        let before = worlds[n - 1];
        assert(before.goes_to(worlds[n]));
        if exists|
            out: (Outgoing<M>, Result<bool, ()>),
            back: (Incoming<V>, Result<bool, ()>),
            result: Poll<(mpsc::Sender<M>, V), ()>,
        | before.locker_polls(out, back, worlds[n], result) {
            let (out, back, result) = choose|
                out: (Outgoing<M>, Result<bool, ()>),
                back: (Incoming<V>, Result<bool, ()>),
                result: Poll<(mpsc::Sender<M>, V), ()>,
            | before.locker_polls(out, back, worlds[n], result);
            law_exchange_poll(before, out, back, worlds[n], result);
        }
    }
}

} // verus!
