//! A management session: two queues of packets, and on the client's end something
//! to call with.

use crate::bridge::{
    heard, is_inbound_run, is_outbound_run, lemma_inbound_keeps_order, lemma_inbound_stops,
    lemma_outbound_keeps_order, queued, received, taken, InboundEvent, OutboundEvent,
};
use crate::packets::{is_rpc_packet, valid_rpc_packet_bytes, RpcPacketCodes};
use crate::queue::{
    accepted, answers, are_ends_of_one_queue, given_out, new_queue, offers, queue_bound,
    same_receiving_end, same_sending_end, try_receive, try_send,
};
use crate::service::{
    call_official_management_json_rpc, is_addressed, lemma_calls_carry_what_was_given,
    service_name_of, CallError, ManagementService, ScopedCall,
};
use serde_json::Value;
use tokio::sync::mpsc::{Receiver, Sender};
use vstd::prelude::*;

verus! {

/// How many packets each queue of a session holds.
pub const PACKET_QUEUE_CAPACITY: usize = 256;

/// How many packets are handed out at a time.
pub const MAX_DRAIN_PACKETS: usize = 256;

/// The end of a session.
#[derive(Clone, Copy, Debug, PartialEq, Eq, Structural)]
pub enum NearbyRole {
    /// The end that calls.
    Client,
    /// The end that passes packets on to the management server.
    HostProxy,
}

/// One end of a session. `Rpc` is what a client calls with, `Task` a running task
/// that moves its packets.
pub struct NearbyManagementSession<Rpc, Task> {
    role: NearbyRole,
    rpc: Option<Rpc>,
    inbound: Option<Sender<Vec<u8>>>,
    outbound: Receiver<Vec<u8>>,
    tasks: Vec<Task>,
    closed: bool,
}

/// What a session holds.
pub struct SessionState<Rpc, Task> {
    pub role: NearbyRole,
    pub rpc: Option<Rpc>,
    /// Where packets for the transport go in, until the session is closed.
    pub inbound: Option<Sender<Vec<u8>>>,
    /// Where packets from the transport come out.
    pub outbound: Receiver<Vec<u8>>,
    /// The tasks that move the packets, until the session is closed.
    pub tasks: Seq<Task>,
    pub closed: bool,
}

impl<Rpc, Task> View for NearbyManagementSession<Rpc, Task> {
    type V = SessionState<Rpc, Task>;

    closed spec fn view(&self) -> SessionState<Rpc, Task> {
        SessionState {
            role: self.role,
            rpc: self.rpc,
            inbound: self.inbound,
            outbound: self.outbound,
            tasks: self.tasks@,
            closed: self.closed,
        }
    }
}

/// A session's ends of its queues.
pub struct SessionEnds {
    pub inbound: Sender<Vec<u8>>,
    pub outbound: Receiver<Vec<u8>>,
}

/// The transport's ends of a session's queues.
pub struct BridgeEnds {
    pub inbound: Receiver<Vec<u8>>,
    pub outbound: Sender<Vec<u8>>,
}

/// What is left to do when a session has been shut down.
pub struct ShutdownWork<Task> {
    /// The tasks to be aborted.
    pub tasks: Vec<Task>,
    /// Whether what the session calls with is to be stopped.
    pub stop_rpc: bool,
}

/// The answers of a queue that handed out these packets.
pub open spec fn handed_out(packets: Seq<Vec<u8>>) -> Seq<Option<Seq<u8>>> {
    packets.map_values(|packet: Vec<u8>| Some(packet@))
}

/// The answers of a queue that was asked until it had handed out as many packets
/// as are handed out at a time, or had none left.
pub open spec fn drained(packets: Seq<Vec<u8>>) -> Seq<Option<Seq<u8>>> {
    if packets.len() < MAX_DRAIN_PACKETS {
        handed_out(packets).push(None)
    } else {
        handed_out(packets)
    }
}

/// Whether a session goes from `before` to `after` when it is given a packet: where
/// it takes the packet, the packet is offered to its queue, and the queue decides;
/// otherwise nothing changes.
pub open spec fn is_push<Rpc, Task>(
    before: NearbyManagementSession<Rpc, Task>,
    after: NearbyManagementSession<Rpc, Task>,
    bytes: Seq<u8>,
    packet_type: Option<u8>,
    codes: RpcPacketCodes,
    pushed: bool,
) -> bool {
    if before.takes(bytes, packet_type, codes) {
        &&& after@ == (SessionState { inbound: after@.inbound, ..before@ })
        &&& after@.inbound is Some
        &&& offers(after@.inbound->0) == offers(before@.inbound->0).push((bytes, pushed))
        &&& queue_bound(after@.inbound->0) == queue_bound(before@.inbound->0)
        &&& same_sending_end(before@.inbound->0, after@.inbound->0)
    } else {
        !pushed && after == before
    }
}

/// Whether a session goes from `before` to `after` when it hands out `packets`: they
/// are what its queue answered, in order, until there were enough or no more.
pub open spec fn is_drain<Rpc, Task>(
    before: NearbyManagementSession<Rpc, Task>,
    after: NearbyManagementSession<Rpc, Task>,
    packets: Seq<Vec<u8>>,
) -> bool {
    &&& packets.len() <= MAX_DRAIN_PACKETS
    &&& after@ == (SessionState { outbound: after@.outbound, ..before@ })
    &&& answers(after@.outbound) == answers(before@.outbound) + drained(packets)
    &&& same_receiving_end(before@.outbound, after@.outbound)
}

/// Whether a session goes from `before` to `after` when it is shut down, with `work`
/// left to do: its tasks are to be aborted and what it calls with is to be stopped,
/// but nothing is left where it was closed before.
pub open spec fn is_shutdown<Rpc, Task>(
    before: NearbyManagementSession<Rpc, Task>,
    after: NearbyManagementSession<Rpc, Task>,
    work: ShutdownWork<Task>,
) -> bool {
    if before@.closed {
        &&& after == before
        &&& work.tasks@ == Seq::<Task>::empty()
        &&& !work.stop_rpc
    } else {
        &&& after@ == (SessionState {
            inbound: None,
            tasks: Seq::empty(),
            closed: true,
            ..before@
        })
        &&& work.tasks@ == before@.tasks
        &&& work.stop_rpc == (before@.rpc is Some)
    }
}

/// Two new queues: a session's ends of them, and the transport's.
pub fn packet_queues() -> (ends: (SessionEnds, BridgeEnds))
    ensures
        are_ends_of_one_queue(ends.0.inbound, ends.1.inbound),
        are_ends_of_one_queue(ends.1.outbound, ends.0.outbound),
        queue_bound(ends.0.inbound) == PACKET_QUEUE_CAPACITY,
        queue_bound(ends.1.outbound) == PACKET_QUEUE_CAPACITY,
        offers(ends.0.inbound) == Seq::<(Seq<u8>, bool)>::empty(),
        offers(ends.1.outbound) == Seq::<(Seq<u8>, bool)>::empty(),
        answers(ends.0.outbound) == Seq::<Option<Seq<u8>>>::empty(),
        answers(ends.1.inbound) == Seq::<Option<Seq<u8>>>::empty(),
{
    let (inbound_tx, inbound_rx) = new_queue(PACKET_QUEUE_CAPACITY);
    let (outbound_tx, outbound_rx) = new_queue(PACKET_QUEUE_CAPACITY);
    (
        SessionEnds { inbound: inbound_tx, outbound: outbound_rx },
        BridgeEnds { inbound: inbound_rx, outbound: outbound_tx },
    )
}

impl<Rpc, Task> NearbyManagementSession<Rpc, Task> {
    /// An open session takes packets and has two tasks; a closed one takes none and has
    /// none.
    pub open spec fn well_formed(self) -> bool {
        if self@.closed {
            self@.inbound is None && self@.tasks.len() == 0
        } else {
            self@.inbound is Some && self@.tasks.len() == 2
        }
    }

    /// A session that has not been shut down, with something to call with where it is a
    /// client's and nothing where it is a host's.
    pub open spec fn is_open(self) -> bool {
        &&& self.well_formed()
        &&& !self@.closed
        &&& self@.role == NearbyRole::Client <==> self@.rpc is Some
    }

    /// Whether this is a session as it is opened on the given ends of its queues, with
    /// the tasks that move its packets.
    pub open spec fn is_opened(
        self,
        role: NearbyRole,
        rpc: Option<Rpc>,
        ends: SessionEnds,
        inbound_task: Task,
        outbound_task: Task,
    ) -> bool {
        self@ == (SessionState {
            role,
            rpc,
            inbound: Some(ends.inbound),
            outbound: ends.outbound,
            tasks: seq![inbound_task, outbound_task],
            closed: false,
        })
    }

    /// Whether the session takes the packet, as far as it has a say.
    pub open spec fn takes(
        self,
        bytes: Seq<u8>,
        packet_type: Option<u8>,
        codes: RpcPacketCodes,
    ) -> bool {
        !self@.closed && is_rpc_packet(bytes, packet_type, codes) && self@.inbound is Some
    }

    /// Whether a call of this end is addressed as it should be, or refused for the
    /// first reason there is.
    pub open spec fn answers_call(
        self,
        service_name: Seq<char>,
        method_name: Seq<char>,
        domain_name: Seq<char>,
        payload: Value,
        call: Result<ScopedCall, CallError>,
    ) -> bool {
        if self@.role != NearbyRole::Client {
            call == Err::<ScopedCall, CallError>(CallError::NotAClient)
        } else if self@.rpc is None {
            call == Err::<ScopedCall, CallError>(CallError::ClientUnavailable)
        } else {
            is_addressed(service_name, method_name, domain_name, payload, call)
        }
    }

    /// The session of a client that calls with `rpc`.
    pub fn client(rpc: Rpc, ends: SessionEnds, inbound_task: Task, outbound_task: Task) -> (session:
        Self)
        ensures
            session.is_opened(NearbyRole::Client, Some(rpc), ends, inbound_task, outbound_task),
            session@.role == NearbyRole::Client,
            session@.rpc == Some(rpc),
            session@.inbound == Some(ends.inbound),
            session@.outbound == ends.outbound,
            session@.tasks == seq![inbound_task, outbound_task],
            !session@.closed,
            session.is_open(),
    {
        Self::from_split(NearbyRole::Client, Some(rpc), ends, inbound_task, outbound_task)
    }

    /// The session of a host, connected to the management server.
    pub fn host_proxy(ends: SessionEnds, inbound_task: Task, outbound_task: Task) -> (session: Self)
        ensures
            session.is_opened(NearbyRole::HostProxy, None, ends, inbound_task, outbound_task),
            session@.role == NearbyRole::HostProxy,
            session@.rpc == None::<Rpc>,
            session@.inbound == Some(ends.inbound),
            session@.outbound == ends.outbound,
            session@.tasks == seq![inbound_task, outbound_task],
            !session@.closed,
            session.is_open(),
    {
        Self::from_split(NearbyRole::HostProxy, None, ends, inbound_task, outbound_task)
    }

    /// The session with the given ends of its queues, whose other ends the two tasks
    /// serve.
    pub fn from_split(
        role: NearbyRole,
        rpc: Option<Rpc>,
        ends: SessionEnds,
        inbound_task: Task,
        outbound_task: Task,
    ) -> (session: Self)
        ensures
            session.is_opened(role, rpc, ends, inbound_task, outbound_task),
            session@.role == role,
            session@.rpc == rpc,
            session@.inbound == Some(ends.inbound),
            session@.outbound == ends.outbound,
            session@.tasks == seq![inbound_task, outbound_task],
            !session@.closed,
            session.well_formed(),
    {
        let mut tasks: Vec<Task> = Vec::new();
        tasks.push(inbound_task);
        tasks.push(outbound_task);
        assert(tasks@ =~= seq![inbound_task, outbound_task]);
        NearbyManagementSession {
            role,
            rpc,
            inbound: Some(ends.inbound),
            outbound: ends.outbound,
            tasks,
            closed: false,
        }
    }

    /// What the session calls with, if it calls.
    pub fn rpc(&self) -> (rpc: Option<&Rpc>)
        ensures
            match self@.rpc {
                Some(held) => rpc == Some(&held),
                None => rpc is None,
            },
    {
        match &self.rpc {
            Some(rpc) => Some(rpc),
            None => None,
        }
    }

    /// Puts a packet into the session's queue, where the session takes it and the
    /// queue has room.
    pub fn push_packet(
        &mut self,
        bytes: Vec<u8>,
        packet_type: Option<u8>,
        codes: RpcPacketCodes,
    ) -> (pushed: bool)
        ensures
            is_push(*old(self), *final(self), bytes@, packet_type, codes, pushed),
            !old(self)@.closed && old(self)@.inbound is Some && 1 <= bytes@.len() <= 65536 && (
            packet_type == Some(codes.request) || packet_type == Some(codes.response)) ==> {
                &&& final(self)@.inbound is Some
                &&& offers(final(self)@.inbound->0) == offers(old(self)@.inbound->0).push(
                    (bytes@, pushed),
                )
            },
            pushed ==> !old(self)@.closed && old(self)@.inbound is Some && 1 <= bytes@.len() <= 65536
                && (packet_type == Some(codes.request) || packet_type == Some(codes.response)),
            final(self)@.role == old(self)@.role,
            final(self)@.rpc == old(self)@.rpc,
            final(self)@.outbound == old(self)@.outbound,
            final(self)@.tasks == old(self)@.tasks,
            final(self)@.closed == old(self)@.closed,
            old(self).well_formed() ==> final(self).well_formed(),
    {
        if self.closed || !valid_rpc_packet_bytes(bytes.as_slice(), packet_type, codes) {
            return false;
        }
        match &mut self.inbound {
            Some(sender) => try_send(sender, bytes),
            None => false,
        }
    }

    /// Hands out the packets that have come from the transport, in order and each
    /// once, up to a limit.
    pub fn drain_packets(&mut self) -> (packets: Vec<Vec<u8>>)
        ensures
            is_drain(*old(self), *final(self), packets@),
            packets@.len() <= 256,
            answers(final(self)@.outbound).len() == answers(old(self)@.outbound).len()
                + packets@.len() + (if packets@.len() < 256 {
                1int
            } else {
                0
            }),
            answers(old(self)@.outbound).is_prefix_of(answers(final(self)@.outbound)),
            forall|i: int|
                0 <= i < packets@.len() ==> answers(final(self)@.outbound)[answers(
                    old(self)@.outbound,
                ).len() + i] == Some((#[trigger] packets@[i])@),
            packets@.len() < 256 ==> answers(final(self)@.outbound).last() is None,
            final(self)@.role == old(self)@.role,
            final(self)@.rpc == old(self)@.rpc,
            final(self)@.inbound == old(self)@.inbound,
            final(self)@.tasks == old(self)@.tasks,
            final(self)@.closed == old(self)@.closed,
            old(self).well_formed() ==> final(self).well_formed(),
    {
        let mut packets: Vec<Vec<u8>> = Vec::new();
        let mut more = true;
        assert(answers(self.outbound) =~= answers(old(self).outbound) + handed_out(packets@));
        while more && packets.len() < MAX_DRAIN_PACKETS
            invariant
                packets@.len() <= MAX_DRAIN_PACKETS,
                more ==> answers(self.outbound) == answers(old(self).outbound) + handed_out(
                    packets@,
                ),
                !more ==> packets@.len() < MAX_DRAIN_PACKETS && answers(self.outbound) == answers(
                    old(self).outbound,
                ) + drained(packets@),
                self.role == old(self).role,
                self.rpc == old(self).rpc,
                self.inbound == old(self).inbound,
                self.tasks == old(self).tasks,
                self.closed == old(self).closed,
                same_receiving_end(old(self).outbound, self.outbound),
            decreases (if more { 1int } else { 0 }) + MAX_DRAIN_PACKETS - packets.len(),
        {
            let ghost before = packets@;
            let next = try_receive(&mut self.outbound);
            more = drain_step(&mut packets, next);
            proof {
                if more {
                    assert(handed_out(packets@) =~= handed_out(before).push(
                        Some(packets@[before.len() as int]@),
                    ));
                    assert(answers(self.outbound) =~= answers(old(self).outbound) + handed_out(
                        packets@,
                    ));
                } else {
                    assert(answers(self.outbound) =~= answers(old(self).outbound) + drained(
                        packets@,
                    ));
                }
            }
        }
        assert(answers(self.outbound) =~= answers(old(self).outbound) + drained(packets@));
        packets
    }

    /// Addresses a call that this end of the session makes.
    pub fn call_json(
        &self,
        service_name: &str,
        method_name: &str,
        domain_name: &str,
        payload: Value,
    ) -> (call: Result<ScopedCall, CallError>)
        ensures
            self.answers_call(service_name@, method_name@, domain_name@, payload, call),
            call is Ok <==> self@.role == NearbyRole::Client && self@.rpc is Some
                && exists|service: ManagementService|
                service_name@ == #[trigger] service_name_of(service),
            call matches Ok(call) ==> {
                &&& service_name_of(call.service) == service_name@
                &&& call.domain@ == domain_name@
                &&& call.method@ == method_name@
                &&& call.payload == payload
            },
            self@.role == NearbyRole::HostProxy <==> call matches Err(CallError::NotAClient),
    {
        if self.role != NearbyRole::Client {
            return Err(CallError::NotAClient);
        }
        if self.rpc.is_none() {
            return Err(CallError::ClientUnavailable);
        }
        call_official_management_json_rpc(service_name, method_name, domain_name, payload)
    }

    /// Closes the session and hands over what is left to do: nothing, where it was
    /// closed before.
    pub fn shutdown(&mut self) -> (work: ShutdownWork<Task>)
        ensures
            is_shutdown(*old(self), *final(self), work),
            final(self)@.closed,
            !old(self)@.closed ==> work.tasks@ == old(self)@.tasks && work.stop_rpc == (old(
                self,
            )@.rpc is Some) && final(self)@.inbound is None && final(self)@.tasks.len() == 0,
            final(self)@.role == old(self)@.role,
            final(self)@.rpc == old(self)@.rpc,
            final(self)@.outbound == old(self)@.outbound,
            old(self).well_formed() ==> final(self).well_formed(),
    {
        if self.closed {
            return ShutdownWork { tasks: Vec::new(), stop_rpc: false };
        }
        self.closed = true;
        self.inbound = None;
        let mut tasks: Vec<Task> = Vec::new();
        std::mem::swap(&mut tasks, &mut self.tasks);
        ShutdownWork { tasks, stop_rpc: self.rpc.is_some() }
    }
}

/// Takes what came out of a queue, and says whether to ask for more.
pub fn drain_step(packets: &mut Vec<Vec<u8>>, received: Option<Vec<u8>>) -> (more: bool)
    ensures
        more == (received is Some),
        final(packets)@ == match received {
            Some(packet) => old(packets)@.push(packet),
            None => old(packets)@,
        },
{
    match received {
        Some(packet) => {
            packets.push(packet);
            true
        },
        None => false,
    }
}

/// A closed session takes no packet, and stays as it is.
pub proof fn lemma_closed_sessions_take_nothing<Rpc, Task>(
    before: NearbyManagementSession<Rpc, Task>,
    after: NearbyManagementSession<Rpc, Task>,
    bytes: Seq<u8>,
    packet_type: Option<u8>,
    codes: RpcPacketCodes,
    pushed: bool,
)
    requires
        before@.closed,
        is_push(before, after, bytes, packet_type, codes, pushed),
    ensures
        !pushed,
        after == before,
{
}

/// Only requests and responses of an admissible size ever reach the queue.
pub proof fn lemma_only_rpc_packets_are_pushed<Rpc, Task>(
    before: NearbyManagementSession<Rpc, Task>,
    after: NearbyManagementSession<Rpc, Task>,
    bytes: Seq<u8>,
    packet_type: Option<u8>,
    codes: RpcPacketCodes,
    pushed: bool,
)
    requires
        is_push(before, after, bytes, packet_type, codes, pushed),
    ensures
        pushed || after != before ==> is_rpc_packet(bytes, packet_type, codes),
{
}

/// A host's end never calls, whatever it is asked to call.
pub proof fn lemma_hosts_never_call<Rpc, Task>(
    session: NearbyManagementSession<Rpc, Task>,
    service_name: Seq<char>,
    method_name: Seq<char>,
    domain_name: Seq<char>,
    payload: Value,
    call: Result<ScopedCall, CallError>,
)
    requires
        session@.role == NearbyRole::HostProxy,
        session.answers_call(service_name, method_name, domain_name, payload, call),
    ensures
        call is Err,
        call->Err_0 is NotAClient,
{
}

/// A session that has been shut down stays closed, and there is nothing to do for it
/// twice.
pub proof fn lemma_shut_down_once<Rpc, Task>(
    before: NearbyManagementSession<Rpc, Task>,
    between: NearbyManagementSession<Rpc, Task>,
    after: NearbyManagementSession<Rpc, Task>,
    work: ShutdownWork<Task>,
    more_work: ShutdownWork<Task>,
)
    requires
        is_shutdown(before, between, work),
        is_shutdown(between, after, more_work),
    ensures
        between@.closed,
        after == between,
        more_work.tasks@.len() == 0,
        !more_work.stop_rpc,
{
}

/// Shutting down a session that was opened hands over the two tasks it was opened
/// with, whatever was pushed and drained in between.
pub proof fn lemma_shutdown_hands_over_the_tasks<Rpc, Task>(
    opened: NearbyManagementSession<Rpc, Task>,
    before: NearbyManagementSession<Rpc, Task>,
    after: NearbyManagementSession<Rpc, Task>,
    role: NearbyRole,
    rpc: Option<Rpc>,
    ends: SessionEnds,
    inbound_task: Task,
    outbound_task: Task,
    work: ShutdownWork<Task>,
)
    requires
        opened.is_opened(role, rpc, ends, inbound_task, outbound_task),
        before@ == (SessionState {
            inbound: before@.inbound,
            outbound: before@.outbound,
            ..opened@
        }),
        is_shutdown(before, after, work),
    ensures
        work.tasks@ == seq![inbound_task, outbound_task],
        work.stop_rpc == (rpc is Some),
        after@.closed,
        after@.inbound is None,
{
}

/// A packet that is pushed goes in last, and one that is not changes nothing of what
/// went in.
pub proof fn lemma_pushed_last<Rpc, Task>(
    before: NearbyManagementSession<Rpc, Task>,
    after: NearbyManagementSession<Rpc, Task>,
    bytes: Seq<u8>,
    packet_type: Option<u8>,
    codes: RpcPacketCodes,
    pushed: bool,
)
    requires
        before@.inbound is Some,
        is_push(before, after, bytes, packet_type, codes, pushed),
    ensures
        after@.inbound is Some,
        accepted(offers(after@.inbound->0)) == if pushed {
            accepted(offers(before@.inbound->0)).push(bytes)
        } else {
            accepted(offers(before@.inbound->0))
        },
{
    if before.takes(bytes, packet_type, codes) {
        assert(offers(after@.inbound->0).drop_last() =~= offers(before@.inbound->0));
    }
}

/// What the transport takes is, in order, what was pushed into the session, as long as
/// the queue hands out what went in, in order. After a packet that the transport
/// refuses, the transport is closed and takes no other.
pub proof fn lemma_transport_takes_what_was_pushed<Rpc, Task>(
    session: NearbyManagementSession<Rpc, Task>,
    events: Seq<InboundEvent>,
)
    requires
        session@.inbound is Some,
        is_inbound_run(events),
        received(events).is_prefix_of(accepted(offers(session@.inbound->0))),
    ensures
        taken(events).is_prefix_of(accepted(offers(session@.inbound->0))),
        received(events).len() <= taken(events).len() + 1,
        forall|i: int|
            0 <= i < events.len() && #[trigger] events[i] == InboundEvent::Sent(false)
                ==> events.len() <= i + 2 && (events.len() == i + 2 ==> events.last() is Closed),
{
    lemma_inbound_keeps_order(events);
    assert forall|i: int|
        0 <= i < events.len() && #[trigger] events[i] == InboundEvent::Sent(
            false,
        ) implies events.len() <= i + 2 && (events.len() == i + 2 ==> events.last() is Closed) by {
        lemma_inbound_stops(events, i);
    }
}

proof fn lemma_given_out_appended(before: Seq<Option<Seq<u8>>>, packets: Seq<Vec<u8>>)
    ensures
        given_out(before + handed_out(packets)) == given_out(before) + packets.map_values(
            |packet: Vec<u8>| packet@,
        ),
    decreases packets.len(),
{
    let views = packets.map_values(|packet: Vec<u8>| packet@);
    if packets.len() == 0 {
        assert(before + handed_out(packets) =~= before);
        assert(given_out(before) + views =~= given_out(before));
    } else {
        let fewer = packets.drop_last();
        lemma_given_out_appended(before, fewer);
        assert((before + handed_out(packets)).drop_last() =~= before + handed_out(fewer));
        assert((before + handed_out(packets)).last() == Some(packets.last()@));
        assert(given_out(before) + views =~= (given_out(before) + fewer.map_values(
            |packet: Vec<u8>| packet@,
        )).push(packets.last()@));
    }
}

/// What a drain hands out follows on what was handed out before.
pub proof fn lemma_drained_last<Rpc, Task>(
    before: NearbyManagementSession<Rpc, Task>,
    after: NearbyManagementSession<Rpc, Task>,
    packets: Seq<Vec<u8>>,
)
    requires
        is_drain(before, after, packets),
    ensures
        given_out(answers(after@.outbound)) == given_out(answers(before@.outbound))
            + packets.map_values(|packet: Vec<u8>| packet@),
{
    let start = answers(before@.outbound);
    lemma_given_out_appended(start, packets);
    if packets.len() < MAX_DRAIN_PACKETS {
        assert((start + drained(packets)).drop_last() =~= start + handed_out(packets));
    }
}

/// What a session hands out is, in order, what the transport yielded, up to its first
/// failure, as long as the queue hands out what went in, in order. `items` is all that
/// the transport would yield, packets and, as none, failures.
pub proof fn lemma_drained_is_what_the_transport_yielded<Rpc, Task>(
    session: NearbyManagementSession<Rpc, Task>,
    events: Seq<OutboundEvent>,
    items: Seq<Option<Seq<u8>>>,
)
    requires
        is_outbound_run(events),
        heard(events).is_prefix_of(items),
        given_out(answers(session@.outbound)).is_prefix_of(queued(events)),
    ensures
        given_out(answers(session@.outbound)).len() <= items.len(),
        forall|i: int|
            0 <= i < given_out(answers(session@.outbound)).len() ==> #[trigger] items[i] == Some(
                given_out(answers(session@.outbound))[i],
            ),
        forall|i: int|
            0 <= i < items.len() && #[trigger] items[i] is None ==> given_out(
                answers(session@.outbound),
            ).len() <= i,
{
    lemma_outbound_keeps_order(events, items);
}

/// An open session of either end offers every request and response of up to 64 KiB to
/// its queue, as it is and last, and nothing else of it changes.
pub proof fn lemma_open_sessions_offer_packets<Rpc, Task>(
    before: NearbyManagementSession<Rpc, Task>,
    after: NearbyManagementSession<Rpc, Task>,
    bytes: Seq<u8>,
    packet_type: Option<u8>,
    codes: RpcPacketCodes,
    pushed: bool,
)
    requires
        is_push(before, after, bytes, packet_type, codes, pushed),
        !before@.closed,
        before@.inbound is Some,
        0 < bytes.len() <= 65536,
        packet_type == Some(codes.request) || packet_type == Some(codes.response),
    ensures
        after@.inbound is Some,
        offers(after@.inbound->0).len() == offers(before@.inbound->0).len() + 1,
        offers(before@.inbound->0).is_prefix_of(offers(after@.inbound->0)),
        offers(after@.inbound->0).last() == (bytes, pushed),
        after@.role == before@.role,
        after@.rpc == before@.rpc,
        after@.outbound == before@.outbound,
        after@.tasks == before@.tasks,
        !after@.closed,
{
}

/// Whatever else a session of either end is given, it refuses, and stays as it is.
pub proof fn lemma_other_packets_are_refused<Rpc, Task>(
    before: NearbyManagementSession<Rpc, Task>,
    after: NearbyManagementSession<Rpc, Task>,
    bytes: Seq<u8>,
    packet_type: Option<u8>,
    codes: RpcPacketCodes,
    pushed: bool,
)
    requires
        is_push(before, after, bytes, packet_type, codes, pushed),
        before@.closed || before@.inbound is None || bytes.len() == 0 || bytes.len() > 65536 || (
        packet_type != Some(codes.request) && packet_type != Some(codes.response)),
    ensures
        !pushed,
        after == before,
{
}

/// A drain of a session of either end, open or closed, asks the queue until it has no
/// more packets or has handed out 256: it asks at least once, each packet is handed out
/// as the queue answered it, and where there are fewer the queue's last answer is that
/// there are no more.
pub proof fn lemma_drains_ask_until_nothing_is_left<Rpc, Task>(
    before: NearbyManagementSession<Rpc, Task>,
    after: NearbyManagementSession<Rpc, Task>,
    packets: Seq<Vec<u8>>,
)
    requires
        is_drain(before, after, packets),
    ensures
        packets.len() <= 256,
        answers(after@.outbound).len() > answers(before@.outbound).len(),
        answers(before@.outbound).is_prefix_of(answers(after@.outbound)),
        packets.len() == 256 ==> answers(after@.outbound).len() == answers(before@.outbound).len()
            + 256,
        packets.len() < 256 ==> answers(after@.outbound).len() == answers(before@.outbound).len()
            + packets.len() + 1 && answers(after@.outbound).last() is None,
        forall|i: int|
            0 <= i < packets.len() ==> answers(after@.outbound)[answers(before@.outbound).len() + i]
                == Some((#[trigger] packets[i])@),
        after@.role == before@.role,
        after@.rpc == before@.rpc,
        after@.inbound == before@.inbound,
        after@.tasks == before@.tasks,
        after@.closed == before@.closed,
{
}

/// A drain leaves nothing behind that the queue answered: no packet among the new
/// answers is missing from what is handed out.
pub proof fn lemma_drains_lose_nothing<Rpc, Task>(
    before: NearbyManagementSession<Rpc, Task>,
    after: NearbyManagementSession<Rpc, Task>,
    packets: Seq<Vec<u8>>,
    i: int,
)
    requires
        is_drain(before, after, packets),
        answers(before@.outbound).len() <= i < answers(after@.outbound).len(),
        answers(after@.outbound)[i] is Some,
    ensures
        i - answers(before@.outbound).len() < packets.len(),
        answers(after@.outbound)[i] == Some(packets[i - answers(before@.outbound).len()]@),
{
}

/// Shutting a session of either end down closes it, takes its sender and its tasks away
/// and leaves the rest, so that what has come from the transport can still be drained.
pub proof fn lemma_shutdown_closes<Rpc, Task>(
    before: NearbyManagementSession<Rpc, Task>,
    after: NearbyManagementSession<Rpc, Task>,
    work: ShutdownWork<Task>,
)
    requires
        is_shutdown(before, after, work),
    ensures
        after@.closed,
        !before@.closed ==> {
            &&& after@.inbound is None
            &&& after@.tasks.len() == 0
            &&& work.tasks@ == before@.tasks
            &&& work.stop_rpc <==> before@.rpc is Some
        },
        before@.closed ==> after == before && work.tasks@.len() == 0 && !work.stop_rpc,
        after@.role == before@.role,
        after@.rpc == before@.rpc,
        after@.outbound == before@.outbound,
{
}

/// A client with something to call with calls any service by its name, with the method,
/// the domain and the payload that were given.
pub proof fn lemma_clients_call_as_asked<Rpc, Task>(
    session: NearbyManagementSession<Rpc, Task>,
    service: ManagementService,
    method_name: Seq<char>,
    domain_name: Seq<char>,
    payload: Value,
    call: Result<ScopedCall, CallError>,
)
    requires
        session@.role == NearbyRole::Client,
        session@.rpc is Some,
        session.answers_call(service_name_of(service), method_name, domain_name, payload, call),
    ensures
        call is Ok,
        call->Ok_0.service == service,
        call->Ok_0.payload == payload,
        call->Ok_0.method@ == method_name,
        call->Ok_0.domain@ == domain_name,
{
    lemma_calls_carry_what_was_given(service, method_name, domain_name, payload, call);
}

/// A client without anything to call with says so, and only such a client does.
pub proof fn lemma_clients_without_rpc_say_so<Rpc, Task>(
    session: NearbyManagementSession<Rpc, Task>,
    service_name: Seq<char>,
    method_name: Seq<char>,
    domain_name: Seq<char>,
    payload: Value,
    call: Result<ScopedCall, CallError>,
)
    requires
        session.answers_call(service_name, method_name, domain_name, payload, call),
    ensures
        call matches Err(CallError::ClientUnavailable) <==> session@.role == NearbyRole::Client
            && session@.rpc is None,
        call matches Err(CallError::NotAClient) <==> session@.role == NearbyRole::HostProxy,
{
}

/// A session that is opened is open, in the given role, on the given ends and with the
/// two tasks in their order.
pub proof fn lemma_opened_as_asked<Rpc, Task>(
    session: NearbyManagementSession<Rpc, Task>,
    role: NearbyRole,
    rpc: Option<Rpc>,
    ends: SessionEnds,
    inbound_task: Task,
    outbound_task: Task,
)
    requires
        session.is_opened(role, rpc, ends, inbound_task, outbound_task),
    ensures
        session@.role == role,
        session@.rpc == rpc,
        session@.inbound == Some(ends.inbound),
        session@.outbound == ends.outbound,
        session@.tasks.len() == 2,
        session@.tasks[0] == inbound_task,
        session@.tasks[1] == outbound_task,
        !session@.closed,
{
}

} // verus!
