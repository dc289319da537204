//! Bounded queues of packets, between the callers and the transport.

use tokio::sync::mpsc::{Receiver, Sender};
use vstd::prelude::*;

verus! {

/// The end of a queue that packets go into.
#[verifier::external_type_specification]
#[verifier::external_body]
#[verifier::reject_recursive_types(T)]
pub struct ExSender<T>(tokio::sync::mpsc::Sender<T>);

/// The end of a queue that packets come out of.
#[verifier::external_type_specification]
#[verifier::external_body]
#[verifier::reject_recursive_types(T)]
pub struct ExReceiver<T>(tokio::sync::mpsc::Receiver<T>);

/// The packets that were offered at this end, in order, each with whether it went
/// in.
pub uninterp spec fn offers(sender: Sender<Vec<u8>>) -> Seq<(Seq<u8>, bool)>;

/// What came out at this end, in order, each time that something was asked for.
pub uninterp spec fn answers(receiver: Receiver<Vec<u8>>) -> Seq<Option<Seq<u8>>>;

pub open spec fn answer_view(received: Option<Vec<u8>>) -> Option<Seq<u8>> {
    match received {
        Some(packet) => Some(packet@),
        None => None,
    }
}

/// How many packets the queue was made to hold.
pub uninterp spec fn queue_bound(sender: Sender<Vec<u8>>) -> nat;

/// Whether these are the two ends of one queue.
pub uninterp spec fn are_ends_of_one_queue(
    sender: Sender<Vec<u8>>,
    receiver: Receiver<Vec<u8>>,
) -> bool;

/// Whether two states of a queue's end that packets go into are states of one queue.
pub open spec fn same_sending_end(before: Sender<Vec<u8>>, after: Sender<Vec<u8>>) -> bool {
    forall|receiver: Receiver<Vec<u8>>| #[trigger]
        are_ends_of_one_queue(after, receiver) == are_ends_of_one_queue(before, receiver)
}

/// Whether two states of a queue's end that packets come out of are states of one
/// queue.
pub open spec fn same_receiving_end(before: Receiver<Vec<u8>>, after: Receiver<Vec<u8>>) -> bool {
    forall|sender: Sender<Vec<u8>>| #[trigger]
        are_ends_of_one_queue(sender, after) == are_ends_of_one_queue(sender, before)
}

/// The packets among those offered that went in, in order.
pub open spec fn accepted(offered: Seq<(Seq<u8>, bool)>) -> Seq<Seq<u8>>
    decreases offered.len(),
{
    if offered.len() == 0 {
        Seq::empty()
    } else if offered.last().1 {
        accepted(offered.drop_last()).push(offered.last().0)
    } else {
        accepted(offered.drop_last())
    }
}

/// The packets among the answers, in order.
pub open spec fn given_out(answered: Seq<Option<Seq<u8>>>) -> Seq<Seq<u8>>
    decreases answered.len(),
{
    if answered.len() == 0 {
        Seq::empty()
    } else {
        match answered.last() {
            Some(packet) => given_out(answered.drop_last()).push(packet),
            None => given_out(answered.drop_last()),
        }
    }
}

/// `tokio::sync::mpsc::channel`: the two ends of a new queue, through which
/// nothing has gone yet.
#[verifier::external_body]
pub(crate) fn new_queue(bound: usize) -> (ends: (Sender<Vec<u8>>, Receiver<Vec<u8>>))
    requires
        0 < bound <= 0xffff,
    ensures
        offers(ends.0).len() == 0,
        answers(ends.1).len() == 0,
        queue_bound(ends.0) == bound,
        are_ends_of_one_queue(ends.0, ends.1),
{
    tokio::sync::mpsc::channel(bound)
}

/// `Sender::try_send`: the packet goes in last, or not at all, and the end stays one
/// of the same queue. Whether it goes in
/// depends on how full the queue is and on whether its other end is still open,
/// and is left unsaid.
#[verifier::external_body]
pub(crate) fn try_send(sender: &mut Sender<Vec<u8>>, packet: Vec<u8>) -> (sent: bool)
    ensures
        offers(*final(sender)) == offers(*old(sender)).push((packet@, sent)),
        queue_bound(*final(sender)) == queue_bound(*old(sender)),
        same_sending_end(*old(sender), *final(sender)),
{
    sender.try_send(packet).is_ok()
}

/// `Receiver::try_recv`: the next packet comes out, or none, and the end stays one of
/// the same queue. Whether there is one
/// depends on what was sent and is left unsaid.
#[verifier::external_body]
pub(crate) fn try_receive(receiver: &mut Receiver<Vec<u8>>) -> (received: Option<Vec<u8>>)
    ensures
        answers(*final(receiver)) == answers(*old(receiver)).push(answer_view(received)),
        same_receiving_end(*old(receiver), *final(receiver)),
{
    receiver.try_recv().ok()
}

} // verus!
