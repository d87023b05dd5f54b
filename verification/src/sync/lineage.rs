//! What has been done with the sending ends of a queue.
//!
//! A sending end is another value after each call that was made with it. What led
//! from one to another tells which messages were sent with it, and that both
//! belong to the same queue.

use crate::sync::primitives::{drained, flushed, offered, queued};
use futures::sync::mpsc;
use futures::{AsyncSink, Poll, StartSend};
use vstd::prelude::*;

verus! {

/// One thing that was done with a sending end.
#[verifier::reject_recursive_types(M)]
pub enum Deed<M> {
    /// It was copied.
    Copy,
    /// A message was offered with it, and this was the answer.
    Offer(M, StartSend<M, mpsc::SendError<M>>),
    /// It was flushed, and this was the answer.
    Flush(Poll<(), mpsc::SendError<M>>),
}

impl<M> Deed<M> {
    /// Doing this with `before` gave `after`.
    pub open spec fn gives(self, before: mpsc::Sender<M>, after: mpsc::Sender<M>) -> bool {
        match self {
            Deed::Copy => cloned(before, after),
            Deed::Offer(message, answer) => offered(before, message, after, answer),
            Deed::Flush(answer) => flushed(before, after, answer),
        }
    }

    /// It sends no message but perhaps `message`, and makes no copy.
    pub open spec fn is_for(self, message: M) -> bool {
        match self {
            Deed::Copy => false,
            Deed::Offer(offered, _) => offered == message,
            Deed::Flush(_) => true,
        }
    }
}

/// The deeds, one after the other, led from `before` to `after`.
pub open spec fn led<M>(
    before: mpsc::Sender<M>,
    deeds: Seq<Deed<M>>,
    after: mpsc::Sender<M>,
) -> bool
    decreases deeds.len(),
{
    if deeds.len() == 0 {
        after == before
    } else {
        exists|between: mpsc::Sender<M>|
            led(before, deeds.drop_last(), between) && #[trigger] deeds.last().gives(between, after)
    }
}

/// The messages that the queue took, in order.
pub open spec fn taken<M>(deeds: Seq<Deed<M>>) -> Seq<M>
    decreases deeds.len(),
{
    if deeds.len() == 0 {
        Seq::empty()
    } else {
        match deeds.last() {
            Deed::Offer(message, Ok(AsyncSink::Ready)) => taken(deeds.drop_last()).push(message),
            _ => taken(deeds.drop_last()),
        }
    }
}

/// All of the deeds are for `message`.
pub open spec fn all_for<M>(deeds: Seq<Deed<M>>, message: M) -> bool {
    forall|i: int| 0 <= i < deeds.len() ==> (#[trigger] deeds[i]).is_for(message)
}

/// `after` is what `before` has become by trying to send `message` and nothing
/// else; the queue has taken it `times` times.
pub open spec fn tried<M>(
    before: mpsc::Sender<M>,
    message: M,
    times: nat,
    after: mpsc::Sender<M>,
) -> bool {
    exists|deeds: Seq<Deed<M>>| #[trigger]
        led(before, deeds, after) && all_for(deeds, message) && taken(deeds) == Seq::new(
            times,
            |i: int| message,
        )
}

/// What is sent with `sender` arrives at `receiver`: they are what the two ends of
/// one queue have become.
pub open spec fn reaches<M>(sender: mpsc::Sender<M>, receiver: mpsc::Receiver<M>) -> bool {
    exists|
        buffer: usize,
        first: mpsc::Sender<M>,
        queue: mpsc::Receiver<M>,
        deeds: Seq<Deed<M>>,
        messages: Seq<M>,
    |
        {
            &&& #[trigger] queued(buffer, first, queue)
            &&& #[trigger] led(first, deeds, sender)
            &&& #[trigger] drained(queue, messages, receiver)
        }
}

/// Nothing was done yet.
pub proof fn law_not_tried<M>(sender: mpsc::Sender<M>, message: M)
    ensures
        tried(sender, message, 0, sender),
{
    let none = Seq::<Deed<M>>::empty();
    assert(led(sender, none, sender));
    assert(taken(none) =~= Seq::new(0, |i: int| message));
}

/// One more deed.
pub proof fn law_tried_again<M>(
    before: mpsc::Sender<M>,
    message: M,
    times: nat,
    between: mpsc::Sender<M>,
    deed: Deed<M>,
    after: mpsc::Sender<M>,
)
    requires
        tried(before, message, times, between),
        deed.gives(between, after),
        deed.is_for(message),
    ensures
        tried(
            before,
            message,
            times + if deed matches Deed::Offer(_, Ok(AsyncSink::Ready)) {
                1nat
            } else {
                0nat
            },
            after,
        ),
{
    let deeds = choose|deeds: Seq<Deed<M>>| #[trigger]
        led(before, deeds, between) && all_for(deeds, message) && taken(deeds) == Seq::new(
            times,
            |i: int| message,
        );
    let more = deeds.push(deed);
    assert(more.drop_last() =~= deeds);
    assert(more.last() == deed);
    assert(led(before, more, after));
    assert forall|i: int| 0 <= i < more.len() implies (#[trigger] more[i]).is_for(message) by {
        if i < deeds.len() {
            assert(more[i] == deeds[i]);
        }
    }
    let now = times + if deed matches Deed::Offer(_, Ok(AsyncSink::Ready)) {
        1nat
    } else {
        0nat
    };
    assert(taken(more) =~= Seq::new(now, |i: int| message));
}

/// What leads from one end to a second, and what leads from there to a third,
/// leads from the first to the third.
pub proof fn law_led_joins<M>(
    first: mpsc::Sender<M>,
    earlier: Seq<Deed<M>>,
    second: mpsc::Sender<M>,
    later: Seq<Deed<M>>,
    third: mpsc::Sender<M>,
)
    requires
        led(first, earlier, second),
        led(second, later, third),
    ensures
        led(first, earlier + later, third),
    decreases later.len(),
{
    if later.len() == 0 {
        assert(earlier + later =~= earlier);
    } else {
        let between = choose|between: mpsc::Sender<M>|
            led(second, later.drop_last(), between) && #[trigger] later.last().gives(
                between,
                third,
            );
        law_led_joins(first, earlier, second, later.drop_last(), between);
        let all = earlier + later;
        assert(all.drop_last() =~= earlier + later.drop_last());
        assert(all.last() == later.last());
    }
}

/// An end that was led on from one that reaches a queue reaches it too.
pub proof fn law_led_reaches<M>(
    sender: mpsc::Sender<M>,
    receiver: mpsc::Receiver<M>,
    deeds: Seq<Deed<M>>,
    after: mpsc::Sender<M>,
)
    requires
        reaches(sender, receiver),
        led(sender, deeds, after),
    ensures
        reaches(after, receiver),
{
    let (buffer, first, queue, earlier, messages) = choose|
        buffer: usize,
        first: mpsc::Sender<M>,
        queue: mpsc::Receiver<M>,
        earlier: Seq<Deed<M>>,
        messages: Seq<M>,
    |
        {
            &&& #[trigger] queued(buffer, first, queue)
            &&& #[trigger] led(first, earlier, sender)
            &&& #[trigger] drained(queue, messages, receiver)
        };
    law_led_joins(first, earlier, sender, deeds, after);
}

/// Trying to send does not lead away from the queue.
pub proof fn law_tried_reaches<M>(
    sender: mpsc::Sender<M>,
    receiver: mpsc::Receiver<M>,
    message: M,
    times: nat,
    after: mpsc::Sender<M>,
)
    requires
        reaches(sender, receiver),
        tried(sender, message, times, after),
    ensures
        reaches(after, receiver),
{
    let deeds = choose|deeds: Seq<Deed<M>>| #[trigger]
        led(sender, deeds, after) && all_for(deeds, message) && taken(deeds) == Seq::new(
            times,
            |i: int| message,
        );
    law_led_reaches(sender, receiver, deeds, after);
}

/// The two ends of a new queue belong together, whatever the receiving end has
/// been asked for since and whatever was done with the sending end.
pub proof fn law_queued_reaches<M>(
    buffer: usize,
    first: mpsc::Sender<M>,
    queue: mpsc::Receiver<M>,
    deeds: Seq<Deed<M>>,
    sender: mpsc::Sender<M>,
    messages: Seq<M>,
    receiver: mpsc::Receiver<M>,
)
    requires
        queued(buffer, first, queue),
        led(first, deeds, sender),
        drained(queue, messages, receiver),
    ensures
        reaches(sender, receiver),
{
}

} // verus!
