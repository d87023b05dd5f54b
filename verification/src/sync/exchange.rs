//! Sending a request through a queue and awaiting the reply.

use crate::sync::lineage::{law_not_tried, law_tried_again, tried, Deed};
use crate::sync::primitives::{
    collect, collected, flush, flushed, in_task, law_collected_was_sent, law_nothing_collected,
    law_refused_comes_back, law_sent_is_not_canceled, offer, offered, paired, sent,
};
use futures::sync::{mpsc, oneshot};
use futures::{Async, AsyncSink, Poll, StartSend};
use vstd::prelude::*;

verus! {

/// A message on its way into a queue.
#[verifier::reject_recursive_types(M)]
pub enum Outgoing<M> {
    /// The queue has not taken the message yet.
    Offering(mpsc::Sender<M>, M),
    /// The queue has taken the message, but has no room for another.
    Flushing(mpsc::Sender<M>),
    /// The sender can be used again.
    Done(mpsc::Sender<M>),
    /// The exchange is over.
    Gone,
}

/// A reply on its way back.
#[verifier::reject_recursive_types(V)]
pub enum Incoming<V> {
    /// The reply has not arrived yet.
    Waiting(oneshot::Receiver<V>),
    /// The reply.
    Done(V),
    /// The exchange is over.
    Gone,
}

impl<M> Outgoing<M> {
    /// Where the message stands once the queue has answered a flush: whether it
    /// is done, or an error.
    pub open spec fn after_flush(
        sender: mpsc::Sender<M>,
        answer: Poll<(), mpsc::SendError<M>>,
    ) -> (Self, Result<bool, ()>) {
        match answer {
            Ok(Async::Ready(())) => (Outgoing::Done(sender), Ok(true)),
            Ok(Async::NotReady) => (Outgoing::Flushing(sender), Ok(false)),
            Err(_) => (Outgoing::Gone, Err(())),
        }
    }

    /// Flushing `sender` leads to `result`.
    pub open spec fn flushes(
        sender: mpsc::Sender<M>,
        result: (Self, Result<bool, ()>),
    ) -> bool {
        exists|after: mpsc::Sender<M>, answer: Poll<(), mpsc::SendError<M>>| #[trigger]
            flushed(sender, after, answer) && result == Self::after_flush(after, answer)
    }

    /// Where the message stands once `sender` has answered an offer: with a
    /// sender to flush if it took the message, else with what the attempt comes
    /// to.
    pub open spec fn after_offer(
        sender: mpsc::Sender<M>,
        answer: StartSend<M, mpsc::SendError<M>>,
    ) -> Result<mpsc::Sender<M>, (Self, Result<bool, ()>)> {
        match answer {
            Ok(AsyncSink::Ready) => Ok(sender),
            Ok(AsyncSink::NotReady(message)) => Err(
                (Outgoing::Offering(sender, message), Ok(false)),
            ),
            Err(_) => Err((Outgoing::Gone, Err(()))),
        }
    }

    /// Pushing the message on leads to `result`.
    pub open spec fn advances(self, result: (Self, Result<bool, ()>)) -> bool {
        match self {
            Outgoing::Offering(sender, message) => exists|
                after: mpsc::Sender<M>,
                answer: StartSend<M, mpsc::SendError<M>>,
            | #[trigger]
                offered(sender, message, after, answer) && match Self::after_offer(after, answer) {
                    Ok(taken) => Self::flushes(taken, result),
                    Err(early) => result == early,
                },
            Outgoing::Flushing(sender) => Self::flushes(sender, result),
            Outgoing::Done(sender) => result == (self, Ok::<_, ()>(true)),
            Outgoing::Gone => false,
        }
    }

    /// Acts on the answer to an offer.
    pub fn on_offer(
        sender: mpsc::Sender<M>,
        answer: StartSend<M, mpsc::SendError<M>>,
    ) -> (next: Result<mpsc::Sender<M>, (Self, Result<bool, ()>)>)
        ensures
            next == Self::after_offer(sender, answer),
    {
        match answer {
            Ok(AsyncSink::Ready) => Ok(sender),
            Ok(AsyncSink::NotReady(message)) => Err(
                (Outgoing::Offering(sender, message), Ok(false)),
            ),
            Err(_) => Err((Outgoing::Gone, Err(()))),
        }
    }

    /// Acts on the answer to a flush.
    pub fn on_flush(sender: mpsc::Sender<M>, answer: Poll<(), mpsc::SendError<M>>) -> (result: (
        Self,
        Result<bool, ()>,
    ))
        ensures
            result == Self::after_flush(sender, answer),
    {
        match answer {
            Ok(Async::Ready(())) => (Outgoing::Done(sender), Ok(true)),
            Ok(Async::NotReady) => (Outgoing::Flushing(sender), Ok(false)),
            Err(_) => (Outgoing::Gone, Err(())),
        }
    }

    /// Pushes the message on: whether it is done, or an error if the queue has
    /// no receiver any more.
    pub fn advance(self) -> (result: (Self, Result<bool, ()>))
        requires
            self !is Gone,
            in_task(),
        ensures
            self.advances(result),
    {
        let sender = match self {
            Outgoing::Offering(sender, message) => {
                let (sender, answer) = offer(sender, message);
                match Self::on_offer(sender, answer) {
                    Ok(sender) => sender,
                    Err(result) => {
                        return result;
                    },
                }
            },
            Outgoing::Flushing(sender) => sender,
            Outgoing::Done(sender) => {
                return (Outgoing::Done(sender), Ok(true));
            },
            Outgoing::Gone => vstd::pervasive::unreached(),
        };
        let (after, answer) = flush(sender);
        let result = Self::on_flush(after, answer);
        assert(Self::flushes(sender, result));
        result
    }
}

impl<V> Incoming<V> {
    /// Where the reply stands once the channel has answered: whether it is
    /// there, or an error.
    pub open spec fn after_poll(
        receiver: oneshot::Receiver<V>,
        polled: Poll<V, oneshot::Canceled>,
    ) -> (Self, Result<bool, ()>) {
        match polled {
            Ok(Async::Ready(reply)) => (Incoming::Done(reply), Ok(true)),
            Ok(Async::NotReady) => (Incoming::Waiting(receiver), Ok(false)),
            Err(_) => (Incoming::Gone, Err(())),
        }
    }

    /// Asking for the reply leads to `result`.
    pub open spec fn advances(self, result: (Self, Result<bool, ()>)) -> bool {
        match self {
            Incoming::Waiting(receiver) => exists|
                after: oneshot::Receiver<V>,
                polled: Poll<V, oneshot::Canceled>,
            | #[trigger]
                collected(receiver, polled, after) && result == Self::after_poll(after, polled),
            Incoming::Done(reply) => result == (self, Ok::<_, ()>(true)),
            Incoming::Gone => false,
        }
    }

    /// Acts on what the channel said.
    pub fn on_poll(
        receiver: oneshot::Receiver<V>,
        polled: Poll<V, oneshot::Canceled>,
    ) -> (result: (Self, Result<bool, ()>))
        ensures
            result == Self::after_poll(receiver, polled),
    {
        match polled {
            Ok(Async::Ready(reply)) => (Incoming::Done(reply), Ok(true)),
            Ok(Async::NotReady) => (Incoming::Waiting(receiver), Ok(false)),
            Err(_) => (Incoming::Gone, Err(())),
        }
    }

    /// Asks for the reply: whether it is there, or an error if it will never be.
    pub fn advance(self) -> (result: (Self, Result<bool, ()>))
        requires
            self !is Gone,
            in_task(),
        ensures
            self.advances(result),
    {
        match self {
            Incoming::Waiting(receiver) => {
                let (after, polled) = collect(receiver);
                Self::on_poll(after, polled)
            },
            Incoming::Done(reply) => (Incoming::Done(reply), Ok(true)),
            Incoming::Gone => vstd::pervasive::unreached(),
        }
    }
}

/// A request and its reply.
#[verifier::reject_recursive_types(M)]
#[verifier::reject_recursive_types(V)]
pub struct Exchange<M, V> {
    /// The request.
    pub outgoing: Outgoing<M>,
    /// The reply.
    pub incoming: Incoming<V>,
}

impl<M, V> Exchange<M, V> {
    /// The exchange has ended, in a reply or in an error.
    pub open spec fn is_over(self) -> bool {
        self.outgoing is Gone || self.incoming is Gone
    }

    /// The exchange may be polled: it has not ended, and a task is being polled.
    ///
    /// The right to poll one exchange is no right to poll another or to send
    /// something else, so what it consists of is not shown.
    pub closed spec fn may_poll(self) -> bool {
        !self.is_over() && in_task()
    }

    /// The exchange is one of `message`, which is sent with `handle`, for what is
    /// sent with `end`: nothing else has been sent, the message has been taken at
    /// most once, and the reply is not there yet or is the one that was sent.
    pub open spec fn serves(
        self,
        handle: mpsc::Sender<M>,
        message: M,
        end: oneshot::Sender<V>,
    ) -> bool {
        &&& match self.outgoing {
            Outgoing::Offering(sender, request) => request == message && tried(
                handle,
                message,
                0,
                sender,
            ),
            Outgoing::Flushing(sender) => tried(handle, message, 1, sender),
            Outgoing::Done(sender) => tried(handle, message, 1, sender),
            Outgoing::Gone => false,
        }
        &&& match self.incoming {
            Incoming::Waiting(receiver) => paired(end, receiver),
            Incoming::Done(reply) => sent(end, reply) && forall|other: V| #[trigger]
                sent(end, other) ==> other == reply,
            Incoming::Gone => false,
        }
    }

    /// An exchange that has ended.
    pub open spec fn over() -> Self {
        Exchange { outgoing: Outgoing::Gone, incoming: Incoming::Gone }
    }

    /// How the exchange goes on once the request stands at `outgoing` and the
    /// reply at `incoming`: it ends when both are there.
    pub open spec fn settled(outgoing: Outgoing<M>, incoming: Incoming<V>) -> (
        Self,
        Poll<(mpsc::Sender<M>, V), ()>,
    ) {
        match (outgoing, incoming) {
            (Outgoing::Done(sender), Incoming::Done(reply)) => (
                Self::over(),
                Ok(Async::Ready((sender, reply))),
            ),
            _ => (Exchange { outgoing, incoming }, Ok(Async::NotReady)),
        }
    }

    /// What a poll leads to in which pushing the request on came to `out` and,
    /// unless that failed, asking for the reply came to `back`: an error of
    /// either ends the exchange.
    pub open spec fn after(
        out: (Outgoing<M>, Result<bool, ()>),
        back: (Incoming<V>, Result<bool, ()>),
    ) -> (Self, Poll<(mpsc::Sender<M>, V), ()>) {
        if out.1 is Err || back.1 is Err {
            (Self::over(), Err(()))
        } else {
            Self::settled(out.0, back.0)
        }
    }

    /// Polling the exchange leaves `next` and returns `result`: the request is
    /// pushed on, then the reply is asked for.
    pub open spec fn polls(
        self,
        next: Self,
        result: Poll<(mpsc::Sender<M>, V), ()>,
    ) -> bool {
        exists|out: (Outgoing<M>, Result<bool, ()>), back: (Incoming<V>, Result<bool, ()>)|
            {
                &&& #[trigger] self.outgoing.advances(out)
                &&& out.1 is Ok ==> self.incoming.advances(back)
                &&& (next, result) == #[trigger] Self::after(out, back)
            }
    }

    /// A request that is about to be sent.
    pub fn new(sender: mpsc::Sender<M>, message: M, reply: oneshot::Receiver<V>) -> (exchange: Self)
        ensures
            exchange.outgoing == Outgoing::Offering(sender, message),
            exchange.incoming == Incoming::Waiting(reply),
    {
        Exchange {
            outgoing: Outgoing::Offering(sender, message),
            incoming: Incoming::Waiting(reply),
        }
    }

    /// Ends the exchange if both sides are done.
    pub fn settle(&mut self, outgoing: Outgoing<M>, incoming: Incoming<V>) -> (result: Poll<
        (mpsc::Sender<M>, V),
        (),
    >)
        ensures
            (*final(self), result) == Self::settled(outgoing, incoming),
    {
        match (outgoing, incoming) {
            (Outgoing::Done(sender), Incoming::Done(reply)) => {
                self.outgoing = Outgoing::Gone;
                self.incoming = Incoming::Gone;
                Ok(Async::Ready((sender, reply)))
            },
            (outgoing, incoming) => {
                self.outgoing = outgoing;
                self.incoming = incoming;
                Ok(Async::NotReady)
            },
        }
    }

    /// Carries the exchange on.
    pub fn poll(&mut self) -> (result: Poll<(mpsc::Sender<M>, V), ()>)
        requires
            old(self).may_poll(),
        ensures
            old(self).polls(*final(self), result),
            final(self).is_over() <==> !(result matches Ok(Async::NotReady)),
    {
        let mut outgoing = Outgoing::Gone;
        std::mem::swap(&mut self.outgoing, &mut outgoing);
        let mut incoming = Incoming::Gone;
        std::mem::swap(&mut self.incoming, &mut incoming);
        let ghost idle = incoming;
        let (outgoing, progress) = outgoing.advance();
        let ghost out = (outgoing, progress);
        if progress.is_err() {
            assert((*self, Err::<Async<(mpsc::Sender<M>, V)>, ()>(())) == Self::after(
                out,
                (idle, Ok(false)),
            ));
            return Err(());
        }
        let (incoming, progress) = incoming.advance();
        let ghost back = (incoming, progress);
        if progress.is_err() {
            assert((*self, Err::<Async<(mpsc::Sender<M>, V)>, ()>(())) == Self::after(out, back));
            return Err(());
        }
        assert(Self::settled(outgoing, incoming) == Self::after(out, back));
        self.settle(outgoing, incoming)
    }
}

/// A reply is what was sent from the other end of the channel that the exchange
/// waits on.
pub proof fn law_exchange_reply_was_sent<M, V>(
    exchange: Exchange<M, V>,
    sender: oneshot::Sender<V>,
    receiver: oneshot::Receiver<V>,
    next: Exchange<M, V>,
    result: Poll<(mpsc::Sender<M>, V), ()>,
    reply: V,
)
    requires
        exchange.polls(next, result),
        exchange.incoming == Incoming::Waiting(receiver),
        paired(sender, receiver),
        next.incoming == Incoming::Done(reply) || (result matches Ok(Async::Ready((_, got))) && got
            == reply),
    ensures
        sent(sender, reply),
        forall|other: V| #[trigger] sent(sender, other) ==> other == reply,
{
    let (out, back) = choose|
        out: (Outgoing<M>, Result<bool, ()>),
        back: (Incoming<V>, Result<bool, ()>),
    |
        {
            &&& #[trigger] exchange.outgoing.advances(out)
            &&& out.1 is Ok ==> exchange.incoming.advances(back)
            &&& (next, result) == #[trigger] Exchange::after(out, back)
        };
    let (after, polled) = choose|after: oneshot::Receiver<V>, polled: Poll<V, oneshot::Canceled>|
        #[trigger] collected(receiver, polled, after) && back == Incoming::after_poll(
            after,
            polled,
        );
    law_collected_was_sent(sender, receiver, reply, after);
}

/// A reply that has arrived waits unchanged until the request has gone out.
pub proof fn law_exchange_keeps_reply<M, V>(
    exchange: Exchange<M, V>,
    reply: V,
    next: Exchange<M, V>,
    result: Poll<(mpsc::Sender<M>, V), ()>,
)
    requires
        exchange.polls(next, result),
        exchange.incoming == Incoming::Done(reply),
    ensures
        result matches Ok(Async::NotReady) ==> next.incoming == exchange.incoming,
        result matches Ok(Async::Ready((_, got))) ==> got == reply,
{
}

/// Pushing a request on fails just when the queue refuses it, and asking for a
/// reply fails just when its channel is canceled.
pub proof fn law_exchange_failures<M, V>(
    sender: mpsc::Sender<M>,
    answer: StartSend<M, mpsc::SendError<M>>,
    flushed: Poll<(), mpsc::SendError<M>>,
    receiver: oneshot::Receiver<V>,
    polled: Poll<V, oneshot::Canceled>,
)
    ensures
        (Outgoing::after_offer(sender, answer) matches Err((_, Err(())))) <==> answer is Err,
        Outgoing::after_flush(sender, flushed).1 is Err <==> flushed is Err,
        Incoming::after_poll(receiver, polled).1 is Err <==> polled is Err,
{
}

/// An exchange fails just when pushing the request on or asking for the reply
/// does.
pub proof fn law_exchange_fails_with_a_side<M, V>(
    out: (Outgoing<M>, Result<bool, ()>),
    back: (Incoming<V>, Result<bool, ()>),
)
    ensures
        Exchange::after(out, back).1 is Err <==> out.1 is Err || back.1 is Err,
{
}

/// A poll of an exchange fails only if pushing the request on or asking for the
/// reply has failed, and comes to anything else only if neither has.
pub proof fn law_exchange_fails<M, V>(
    exchange: Exchange<M, V>,
    next: Exchange<M, V>,
    result: Poll<(mpsc::Sender<M>, V), ()>,
)
    requires
        exchange.polls(next, result),
    ensures
        result is Err ==> {
            ||| exists|failed: Outgoing<M>| #[trigger]
                exchange.outgoing.advances((failed, Err(())))
            ||| exists|failed: Incoming<V>| #[trigger]
                exchange.incoming.advances((failed, Err(())))
        },
        result is Ok ==> {
            &&& exists|out: (Outgoing<M>, Result<bool, ()>)| #[trigger]
                exchange.outgoing.advances(out) && out.1 is Ok
            &&& exists|back: (Incoming<V>, Result<bool, ()>)| #[trigger]
                exchange.incoming.advances(back) && back.1 is Ok
        },
{
    let (out, back) = choose|
        out: (Outgoing<M>, Result<bool, ()>),
        back: (Incoming<V>, Result<bool, ()>),
    |
        {
            &&& #[trigger] exchange.outgoing.advances(out)
            &&& out.1 is Ok ==> exchange.incoming.advances(back)
            &&& (next, result) == #[trigger] Exchange::after(out, back)
        };
    if out.1 is Err {
        assert(out == (out.0, Err::<bool, ()>(())));
    } else if back.1 is Err {
        assert(back == (back.0, Err::<bool, ()>(())));
    }
}

/// If the reply has been sent, an exchange fails only because the queue refuses
/// the request.
pub proof fn law_exchange_replied_is_not_canceled<M, V>(
    exchange: Exchange<M, V>,
    sender: oneshot::Sender<V>,
    receiver: oneshot::Receiver<V>,
    next: Exchange<M, V>,
    result: Poll<(mpsc::Sender<M>, V), ()>,
    reply: V,
)
    requires
        exchange.polls(next, result),
        exchange.incoming == Incoming::Waiting(receiver),
        paired(sender, receiver),
        sent(sender, reply),
        result is Err,
    ensures
        exists|failed: Outgoing<M>| #[trigger] exchange.outgoing.advances((failed, Err(()))),
{
    let (out, back) = choose|
        out: (Outgoing<M>, Result<bool, ()>),
        back: (Incoming<V>, Result<bool, ()>),
    |
        {
            &&& #[trigger] exchange.outgoing.advances(out)
            &&& out.1 is Ok ==> exchange.incoming.advances(back)
            &&& (next, result) == #[trigger] Exchange::after(out, back)
        };
    if out.1 is Ok {
        let (after, polled) = choose|
            after: oneshot::Receiver<V>,
            polled: Poll<V, oneshot::Canceled>,
        | #[trigger]
            collected(receiver, polled, after) && back == Incoming::after_poll(after, polled);
        law_sent_is_not_canceled(sender, receiver, reply, polled, after);
    } else {
        assert(out == (out.0, Err::<bool, ()>(())));
    }
}

/// Within a task, an exchange that has not ended may be polled.
pub proof fn law_may_poll<M, V>(exchange: Exchange<M, V>)
    requires
        !exchange.is_over(),
        in_task(),
    ensures
        exchange.may_poll(),
{
}

/// A new exchange serves its message.
pub proof fn law_exchange_starts<M, V>(
    exchange: Exchange<M, V>,
    handle: mpsc::Sender<M>,
    message: M,
    end: oneshot::Sender<V>,
    receiver: oneshot::Receiver<V>,
)
    requires
        exchange.outgoing == Outgoing::Offering(handle, message),
        exchange.incoming == Incoming::Waiting(receiver),
        paired(end, receiver),
    ensures
        exchange.serves(handle, message, end),
{
    law_not_tried(handle, message);
}

/// Flushing leads on, and sends nothing.
proof fn lemma_flush_leads_on<M>(
    handle: mpsc::Sender<M>,
    message: M,
    sender: mpsc::Sender<M>,
    result: (Outgoing<M>, Result<bool, ()>),
)
    requires
        tried(handle, message, 1, sender),
        Outgoing::flushes(sender, result),
    ensures
        match result.0 {
            Outgoing::Flushing(after) => tried(handle, message, 1, after),
            Outgoing::Done(after) => tried(handle, message, 1, after),
            Outgoing::Offering(_, _) => false,
            Outgoing::Gone => result.1 is Err,
        },
{
    let (after, answer) = choose|after: mpsc::Sender<M>, answer: Poll<(), mpsc::SendError<M>>|
        #[trigger] flushed(sender, after, answer) && result == Outgoing::after_flush(
            after,
            answer,
        );
    law_tried_again(handle, message, 1, sender, Deed::Flush(answer), after);
}

/// Pushing a message on leads on, and sends nothing but that message, once.
proof fn lemma_advance_leads_on<M>(
    handle: mpsc::Sender<M>,
    message: M,
    outgoing: Outgoing<M>,
    result: (Outgoing<M>, Result<bool, ()>),
)
    requires
        match outgoing {
            Outgoing::Offering(sender, request) => request == message && tried(
                handle,
                message,
                0,
                sender,
            ),
            Outgoing::Flushing(sender) => tried(handle, message, 1, sender),
            Outgoing::Done(sender) => tried(handle, message, 1, sender),
            Outgoing::Gone => false,
        },
        outgoing.advances(result),
    ensures
        match result.0 {
            Outgoing::Offering(after, request) => request == message && tried(
                handle,
                message,
                0,
                after,
            ),
            Outgoing::Flushing(after) => tried(handle, message, 1, after),
            Outgoing::Done(after) => tried(handle, message, 1, after),
            Outgoing::Gone => result.1 is Err,
        },
{
    match outgoing {
        Outgoing::Offering(sender, request) => {
            let (after, answer) = choose|
                after: mpsc::Sender<M>,
                answer: StartSend<M, mpsc::SendError<M>>,
            | #[trigger]
                offered(sender, request, after, answer) && match Outgoing::after_offer(
                    after,
                    answer,
                ) {
                    Ok(taken) => Outgoing::flushes(taken, result),
                    Err(early) => result == early,
                };
            law_tried_again(handle, message, 0, sender, Deed::Offer(message, answer), after);
            match answer {
                Ok(AsyncSink::Ready) => lemma_flush_leads_on(handle, message, after, result),
                Ok(AsyncSink::NotReady(back)) => law_refused_comes_back(
                    sender,
                    message,
                    after,
                    back,
                ),
                Err(_) => {},
            }
        },
        Outgoing::Flushing(sender) => lemma_flush_leads_on(handle, message, sender, result),
        _ => {},
    }
}

/// A poll of an exchange sends nothing but the message of the exchange, and that
/// at most once in all. If it completes, the message has been taken exactly once,
/// the sender that comes back is the handle that it was sent with and nothing
/// else, and the reply is the one that was sent for it.
pub proof fn law_exchange_serves<M, V>(
    exchange: Exchange<M, V>,
    next: Exchange<M, V>,
    result: Poll<(mpsc::Sender<M>, V), ()>,
    handle: mpsc::Sender<M>,
    message: M,
    end: oneshot::Sender<V>,
)
    requires
        exchange.serves(handle, message, end),
        exchange.polls(next, result),
    ensures
        result matches Ok(Async::NotReady) ==> next.serves(handle, message, end),
        result matches Ok(Async::Ready((sender, reply))) ==> {
            &&& tried(handle, message, 1, sender)
            &&& sent(end, reply)
            &&& forall|other: V| #[trigger] sent(end, other) ==> other == reply
        },
{
    let (out, back) = choose|
        out: (Outgoing<M>, Result<bool, ()>),
        back: (Incoming<V>, Result<bool, ()>),
    |
        {
            &&& #[trigger] exchange.outgoing.advances(out)
            &&& out.1 is Ok ==> exchange.incoming.advances(back)
            &&& (next, result) == #[trigger] Exchange::after(out, back)
        };
    lemma_advance_leads_on(handle, message, exchange.outgoing, out);
    if let Incoming::Waiting(receiver) = exchange.incoming {
        if out.1 is Ok {
            let (after, polled) = choose|
                after: oneshot::Receiver<V>,
                polled: Poll<V, oneshot::Canceled>,
            | #[trigger]
                collected(receiver, polled, after) && back == Incoming::after_poll(after, polled);
            match polled {
                Ok(Async::Ready(reply)) => law_collected_was_sent(end, receiver, reply, after),
                Ok(Async::NotReady) => law_nothing_collected(receiver, polled, after),
                Err(_) => {},
            }
        }
    }
}

} // verus!
