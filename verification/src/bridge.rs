//! How packets move between a session's queues and its transport.

use vstd::prelude::*;

verus! {

/// What the task that feeds the transport has just seen.
pub enum InboundEvent {
    /// It has been started.
    Started,
    /// The queue handed out a packet.
    Received(Vec<u8>),
    /// The queue is empty and will stay so.
    QueueClosed,
    /// The transport took the packet, or refused it.
    Sent(bool),
    /// The transport has been closed, well or badly.
    Closed,
}

/// What the task that feeds the transport does next.
pub enum InboundAction {
    /// Wait for a packet from the queue.
    Receive,
    /// Send a packet through the transport.
    Send(Vec<u8>),
    /// Close the transport.
    Close,
    /// End.
    Finish,
}

/// What the task that listens to the transport has just seen.
pub enum OutboundEvent {
    /// It has been started.
    Started,
    /// The transport handed over a packet.
    Received(Vec<u8>),
    /// The transport failed.
    Failed,
    /// The transport has ended.
    Ended,
    /// The queue took the packet, or has been closed.
    Queued(bool),
}

/// What the task that listens to the transport does next.
pub enum OutboundAction {
    /// Wait for a packet from the transport.
    Receive,
    /// Put a packet into the queue.
    Enqueue(Vec<u8>),
    /// End.
    Finish,
}

/// Packets go to the transport as they come, until the queue is closed or the
/// transport refuses one; then the transport is closed, and that is the end.
pub open spec fn inbound_action(event: InboundEvent) -> InboundAction {
    match event {
        InboundEvent::Started => InboundAction::Receive,
        InboundEvent::Received(packet) => InboundAction::Send(packet),
        InboundEvent::QueueClosed => InboundAction::Close,
        InboundEvent::Sent(true) => InboundAction::Receive,
        InboundEvent::Sent(false) => InboundAction::Close,
        InboundEvent::Closed => InboundAction::Finish,
    }
}

/// Packets go into the queue as they come, until the transport ends or fails or
/// the queue is closed.
pub open spec fn outbound_action(event: OutboundEvent) -> OutboundAction {
    match event {
        OutboundEvent::Started => OutboundAction::Receive,
        OutboundEvent::Received(packet) => OutboundAction::Enqueue(packet),
        OutboundEvent::Failed => OutboundAction::Finish,
        OutboundEvent::Ended => OutboundAction::Finish,
        OutboundEvent::Queued(true) => OutboundAction::Receive,
        OutboundEvent::Queued(false) => OutboundAction::Finish,
    }
}

/// The next step of the task that feeds the transport.
pub fn inbound_step(event: InboundEvent) -> (action: InboundAction)
    ensures
        action == inbound_action(event),
        event matches InboundEvent::Received(packet) ==> action == InboundAction::Send(packet),
        action is Send <==> event is Received,
        action is Receive <==> event is Started || event == InboundEvent::Sent(true),
        action is Close <==> event is QueueClosed || event == InboundEvent::Sent(false),
        action is Finish <==> event is Closed,
{
    match event {
        InboundEvent::Started => InboundAction::Receive,
        InboundEvent::Received(packet) => InboundAction::Send(packet),
        InboundEvent::QueueClosed => InboundAction::Close,
        InboundEvent::Sent(taken) => if taken {
            InboundAction::Receive
        } else {
            InboundAction::Close
        },
        InboundEvent::Closed => InboundAction::Finish,
    }
}

/// The next step of the task that listens to the transport.
pub fn outbound_step(event: OutboundEvent) -> (action: OutboundAction)
    ensures
        action == outbound_action(event),
        event matches OutboundEvent::Received(packet) ==> action == OutboundAction::Enqueue(packet),
        action is Enqueue <==> event is Received,
        action is Receive <==> event is Started || event == OutboundEvent::Queued(true),
        action is Finish <==> event is Failed || event is Ended || event == OutboundEvent::Queued(
            false,
        ),
{
    match event {
        OutboundEvent::Started => OutboundAction::Receive,
        OutboundEvent::Received(packet) => OutboundAction::Enqueue(packet),
        OutboundEvent::Failed => OutboundAction::Finish,
        OutboundEvent::Ended => OutboundAction::Finish,
        OutboundEvent::Queued(taken) => if taken {
            OutboundAction::Receive
        } else {
            OutboundAction::Finish
        },
    }
}

/// Whether the task that feeds the transport can see `event` after doing `action`.
pub open spec fn inbound_follows(action: InboundAction, event: InboundEvent) -> bool {
    match action {
        InboundAction::Receive => event is Received || event is QueueClosed,
        InboundAction::Send(_) => event is Sent,
        InboundAction::Close => event is Closed,
        InboundAction::Finish => false,
    }
}

/// Whether these are the events, from its start, of a task that feeds the transport.
pub open spec fn is_inbound_run(events: Seq<InboundEvent>) -> bool
    decreases events.len(),
{
    if events.len() <= 1 {
        events.len() == 1 && events[0] is Started
    } else {
        is_inbound_run(events.drop_last()) && inbound_follows(
            inbound_action(events[events.len() - 2]),
            events.last(),
        )
    }
}

/// The packets that the queue handed out, in order.
pub open spec fn received(events: Seq<InboundEvent>) -> Seq<Seq<u8>>
    decreases events.len(),
{
    if events.len() == 0 {
        Seq::empty()
    } else {
        match events.last() {
            InboundEvent::Received(packet) => received(events.drop_last()).push(packet@),
            _ => received(events.drop_last()),
        }
    }
}

/// The packets that the transport took, in order: each is the one that was being sent.
pub open spec fn taken(events: Seq<InboundEvent>) -> Seq<Seq<u8>>
    decreases events.len(),
{
    if events.len() < 2 {
        Seq::empty()
    } else {
        match (inbound_action(events[events.len() - 2]), events.last()) {
            (InboundAction::Send(packet), InboundEvent::Sent(true)) => taken(
                events.drop_last(),
            ).push(packet@),
            _ => taken(events.drop_last()),
        }
    }
}

proof fn lemma_inbound_progress(events: Seq<InboundEvent>)
    requires
        is_inbound_run(events),
    ensures
        match events.last() {
            InboundEvent::Started => received(events) == taken(events),
            InboundEvent::Received(packet) => received(events) == taken(events).push(packet@),
            InboundEvent::QueueClosed => received(events) == taken(events),
            InboundEvent::Sent(true) => received(events) == taken(events),
            InboundEvent::Sent(false) => received(events).len() == taken(events).len() + 1
                && taken(events).is_prefix_of(received(events)),
            InboundEvent::Closed => received(events).len() <= taken(events).len() + 1
                && taken(events).is_prefix_of(received(events)),
        },
    decreases events.len(),
{
    reveal_with_fuel(received, 2);
    if events.len() > 1 {
        lemma_inbound_progress(events.drop_last());
        assert(events.drop_last().last() == events[events.len() - 2]);
    }
}

/// What the transport takes is, in order, what the queue handed out, nothing altered,
/// left out or doubled, but for at most one packet that is under way or was refused.
pub proof fn lemma_inbound_keeps_order(events: Seq<InboundEvent>)
    requires
        is_inbound_run(events),
    ensures
        taken(events).is_prefix_of(received(events)),
        received(events).len() <= taken(events).len() + 1,
{
    lemma_inbound_progress(events);
}

/// Once the transport has refused a packet, or the queue is closed, the transport is
/// closed and nothing else happens.
pub proof fn lemma_inbound_stops(events: Seq<InboundEvent>, i: int)
    requires
        is_inbound_run(events),
        0 <= i < events.len(),
        events[i] == InboundEvent::Sent(false) || events[i] is QueueClosed,
    ensures
        events.len() <= i + 2,
        events.len() == i + 2 ==> events.last() is Closed,
    decreases events.len(),
{
    if i < events.len() - 1 {
        lemma_inbound_stops(events.drop_last(), i);
    }
}

/// A task that feeds the transport ends only after it has closed the transport, and
/// closes it only where the queue was closed or the transport refused a packet.
pub proof fn lemma_inbound_ends_by_closing(events: Seq<InboundEvent>)
    requires
        is_inbound_run(events),
        inbound_action(events.last()) is Finish,
    ensures
        events.len() >= 2,
        events.last() is Closed,
        events[events.len() - 2] == InboundEvent::Sent(false) || events[events.len() - 2]
            is QueueClosed,
{
}

/// Whether the task that listens to the transport can see `event` after doing
/// `action`.
pub open spec fn outbound_follows(action: OutboundAction, event: OutboundEvent) -> bool {
    match action {
        OutboundAction::Receive => event is Received || event is Failed || event is Ended,
        OutboundAction::Enqueue(_) => event is Queued,
        OutboundAction::Finish => false,
    }
}

/// Whether these are the events, from its start, of a task that listens to the
/// transport.
pub open spec fn is_outbound_run(events: Seq<OutboundEvent>) -> bool
    decreases events.len(),
{
    if events.len() <= 1 {
        events.len() == 1 && events[0] is Started
    } else {
        is_outbound_run(events.drop_last()) && outbound_follows(
            outbound_action(events[events.len() - 2]),
            events.last(),
        )
    }
}

/// What the transport yielded, in order: packets, and none for a failure.
pub open spec fn heard(events: Seq<OutboundEvent>) -> Seq<Option<Seq<u8>>>
    decreases events.len(),
{
    if events.len() == 0 {
        Seq::empty()
    } else {
        match events.last() {
            OutboundEvent::Received(packet) => heard(events.drop_last()).push(Some(packet@)),
            OutboundEvent::Failed => heard(events.drop_last()).push(None),
            _ => heard(events.drop_last()),
        }
    }
}

/// The packets that the queue took, in order: each is the one that was being put in.
pub open spec fn queued(events: Seq<OutboundEvent>) -> Seq<Seq<u8>>
    decreases events.len(),
{
    if events.len() < 2 {
        Seq::empty()
    } else {
        match (outbound_action(events[events.len() - 2]), events.last()) {
            (OutboundAction::Enqueue(packet), OutboundEvent::Queued(true)) => queued(
                events.drop_last(),
            ).push(packet@),
            _ => queued(events.drop_last()),
        }
    }
}

proof fn lemma_outbound_progress(events: Seq<OutboundEvent>)
    requires
        is_outbound_run(events),
    ensures
        forall|i: int|
            0 <= i < queued(events).len() ==> i < heard(events).len() && #[trigger] heard(events)[i]
                == Some(queued(events)[i]),
        queued(events).len() <= heard(events).len() <= queued(events).len() + 1,
        match events.last() {
            OutboundEvent::Started => heard(events).len() == queued(events).len(),
            OutboundEvent::Received(packet) => heard(events).len() == queued(events).len() + 1
                && heard(events).last() == Some(packet@),
            OutboundEvent::Queued(true) => heard(events).len() == queued(events).len(),
            OutboundEvent::Ended => heard(events).len() == queued(events).len(),
            _ => true,
        },
    decreases events.len(),
{
    reveal_with_fuel(heard, 2);
    if events.len() > 1 {
        let before = events.drop_last();
        lemma_outbound_progress(before);
        assert(before.last() == events[events.len() - 2]);
        assert forall|i: int| 0 <= i < queued(events).len() implies i < heard(events).len()
            && #[trigger] heard(events)[i] == Some(queued(events)[i]) by {
            if i < queued(before).len() {
                assert(heard(before)[i] == Some(queued(before)[i]));
            }
        }
    }
}

/// What goes into the queue is, in order, what the transport yielded: nothing altered,
/// left out or doubled, nothing for a failure, and nothing for what would have come
/// after one. `items` is all that the transport would yield.
pub proof fn lemma_outbound_keeps_order(events: Seq<OutboundEvent>, items: Seq<Option<Seq<u8>>>)
    requires
        is_outbound_run(events),
        heard(events).is_prefix_of(items),
    ensures
        queued(events).len() <= items.len(),
        heard(events).len() <= queued(events).len() + 1,
        forall|i: int|
            0 <= i < queued(events).len() ==> #[trigger] items[i] == Some(queued(events)[i]),
        forall|i: int|
            0 <= i < items.len() && #[trigger] items[i] is None ==> queued(events).len() <= i,
{
    lemma_outbound_progress(events);
    assert forall|i: int| 0 <= i < queued(events).len() implies #[trigger] items[i] == Some(
        queued(events)[i],
    ) by {
        assert(heard(events)[i] == Some(queued(events)[i]));
    }
}

/// Once the transport has failed or ended, or the queue is closed, nothing happens.
pub proof fn lemma_outbound_stops(events: Seq<OutboundEvent>, i: int)
    requires
        is_outbound_run(events),
        0 <= i < events.len(),
        events[i] is Failed || events[i] is Ended || events[i] == OutboundEvent::Queued(false),
    ensures
        events.len() == i + 1,
    decreases events.len(),
{
    if i < events.len() - 1 {
        lemma_outbound_stops(events.drop_last(), i);
    }
}

/// Every packet that the queue hands out is sent through the transport as it is, and
/// nothing else is ever sent.
pub proof fn lemma_inbound_sends_every_packet(event: InboundEvent, packet: Vec<u8>)
    ensures
        inbound_action(event) == InboundAction::Send(packet) <==> event == InboundEvent::Received(
            packet,
        ),
        inbound_action(event) is Receive <==> event is Started || event == InboundEvent::Sent(true),
{
}

/// Where the queue is closed without a refusal, the transport has taken every packet
/// that the queue handed out.
pub proof fn lemma_inbound_completes(events: Seq<InboundEvent>)
    requires
        is_inbound_run(events),
        events.last() is QueueClosed,
    ensures
        taken(events) == received(events),
{
    lemma_inbound_progress(events);
}

/// Every packet that the transport yields is put into the queue as it is, and nothing
/// else is ever put into it.
pub proof fn lemma_outbound_enqueues_every_packet(event: OutboundEvent, packet: Vec<u8>)
    ensures
        outbound_action(event) == OutboundAction::Enqueue(packet) <==> event
            == OutboundEvent::Received(packet),
        outbound_action(event) is Receive <==> event is Started || event == OutboundEvent::Queued(
            true,
        ),
{
}

/// A task that listens to the transport ends only where the transport has failed or
/// ended or the queue is closed.
pub proof fn lemma_outbound_ends(events: Seq<OutboundEvent>)
    requires
        is_outbound_run(events),
        outbound_action(events.last()) is Finish,
    ensures
        events.last() is Failed || events.last() is Ended || events.last()
            == OutboundEvent::Queued(false),
{
}

/// Where the transport ends without a failure, every packet that it yielded is in the
/// queue.
pub proof fn lemma_outbound_completes(events: Seq<OutboundEvent>)
    requires
        is_outbound_run(events),
        events.last() is Ended,
    ensures
        queued(events).len() == heard(events).len(),
        forall|i: int|
            0 <= i < heard(events).len() ==> #[trigger] heard(events)[i] == Some(queued(events)[i]),
{
    lemma_outbound_progress(events);
}

} // verus!
