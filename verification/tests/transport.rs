use nearby_management::bridge::{
    inbound_step, outbound_step, InboundAction, InboundEvent, OutboundAction, OutboundEvent,
};
use nearby_management::keys::valid_session_key;
use nearby_management::packets::{
    valid_packet_size, valid_rpc_packet_bytes, RpcPacketCodes, MAX_PACKET_BYTES,
};
use nearby_management::session::{
    drain_step, packet_queues, BridgeEnds, NearbyManagementSession, NearbyRole, SessionEnds,
    MAX_DRAIN_PACKETS, PACKET_QUEUE_CAPACITY,
};
use nearby_management::sessions::{
    close_nearby_management_session, drain_nearby_management_packets,
    open_nearby_management_session, open_session, push_nearby_management_packet, Established,
    NearbySessions, MAX_NEARBY_SESSIONS,
};

const CODES: RpcPacketCodes = RpcPacketCodes { request: 8, response: 9 };

type Session = NearbyManagementSession<&'static str, u32>;
type Sessions = NearbySessions<&'static str, u32>;

fn client(rpc: &'static str) -> (Session, BridgeEnds) {
    let (ends, bridge) = packet_queues();
    (Session::client(rpc, ends, 7, 8), bridge)
}

/// Opens a client's session under a key.
fn open(sessions: &mut Sessions, key: &str, rpc: &'static str) -> Option<BridgeEnds> {
    open_as(sessions, key, NearbyRole::Client, Some(rpc))
}

fn open_as(
    sessions: &mut Sessions,
    key: &str,
    role: NearbyRole,
    rpc: Option<&'static str>,
) -> Option<BridgeEnds> {
    let (ends, bridge) = packet_queues();
    let established = Established { rpc, ends, inbound_task: 7, outbound_task: 8 };
    if open_session(sessions, key.to_owned(), role, Some(established)) {
        Some(bridge)
    } else {
        None
    }
}

fn host_proxy() -> (Session, BridgeEnds) {
    let (ends, bridge) = packet_queues();
    (Session::host_proxy(ends, 9, 10), bridge)
}

#[test]
fn rejects_non_rpc_packets_before_the_harmony_transport() {
    assert!(!valid_rpc_packet_bytes(&[], None, CODES));
    assert!(!valid_rpc_packet_bytes(&[1, 2, 3], None, CODES));
    assert!(!valid_session_key("contains space"));
    assert!(valid_session_key("42:client"));
}

#[test]
fn accepts_requests_and_responses_only() {
    let bytes = [0u8; 16];
    assert!(valid_rpc_packet_bytes(&bytes, Some(8), CODES));
    assert!(valid_rpc_packet_bytes(&bytes, Some(9), CODES));
    assert!(!valid_rpc_packet_bytes(&bytes, Some(1), CODES));
    assert!(!valid_rpc_packet_bytes(&bytes, None, CODES));
    assert!(!valid_rpc_packet_bytes(&[], Some(8), CODES));
}

#[test]
fn bounds_the_size_of_a_packet() {
    assert!(!valid_packet_size(&[]));
    assert!(valid_packet_size(&vec![0u8; MAX_PACKET_BYTES]));
    assert!(!valid_packet_size(&vec![0u8; MAX_PACKET_BYTES + 1]));
    assert_eq!(MAX_PACKET_BYTES, 64 * 1024);
    assert!(!valid_rpc_packet_bytes(&vec![0u8; MAX_PACKET_BYTES + 1], Some(8), CODES));
}

#[test]
fn bounds_the_length_and_characters_of_a_key() {
    assert!(!valid_session_key(""));
    assert!(valid_session_key(&"k".repeat(128)));
    assert!(!valid_session_key(&"k".repeat(129)));
    assert!(valid_session_key("aZ09-_:."));
    for bad in ["a/b", "a b", "a\n", "a@b", "a[b", "a`b", "a{b", "a;b", "\u{e9}", "\u{ff11}"] {
        assert!(!valid_session_key(bad), "{bad:?}");
    }
}

#[test]
fn opens_no_session_under_an_invalid_key() {
    assert_eq!(open_nearby_management_session("", true), None);
    assert_eq!(open_nearby_management_session("a", true), Some(NearbyRole::HostProxy));
    assert_eq!(open_nearby_management_session("a", false), Some(NearbyRole::Client));
    let mut sessions = Sessions::new();
    assert!(open(&mut sessions, "a b", "x").is_none());
    assert!(!open_session(&mut sessions, "a".to_owned(), NearbyRole::HostProxy, None));
    assert!(sessions.session("a").is_none());
    assert!(sessions.session("a b").is_none());
}

#[test]
fn opens_each_key_once_and_reopens_it_after_closing() {
    let mut sessions = Sessions::new();
    assert!(open(&mut sessions, "a", "x").is_some());
    assert!(open(&mut sessions, "a", "y").is_none());
    assert_eq!(sessions.session("a").unwrap().rpc(), Some(&"x"));
    assert!(sessions.session("b").is_none());
    assert!(close_nearby_management_session(&mut sessions, "b").is_none());
    assert!(close_nearby_management_session(&mut sessions, "a").is_some());
    assert!(close_nearby_management_session(&mut sessions, "a").is_none());
    assert!(open(&mut sessions, "a", "z").is_some());
    assert_eq!(sessions.session("a").unwrap().rpc(), Some(&"z"));
}

#[test]
fn opens_no_more_sessions_than_allowed() {
    let mut sessions = Sessions::new();
    for i in 0..MAX_NEARBY_SESSIONS {
        assert!(open(&mut sessions, &format!("s{i}"), "x").is_some());
    }
    assert!(open(&mut sessions, "more", "y").is_none());
    assert_eq!(MAX_NEARBY_SESSIONS, 8);
    assert!(close_nearby_management_session(&mut sessions, "s3").is_some());
    assert!(open(&mut sessions, "more", "y").is_some());
    assert!(sessions.session("s3").is_none());
    assert_eq!(sessions.session("s7").unwrap().rpc(), Some(&"x"));
    assert_eq!(sessions.session("more").unwrap().rpc(), Some(&"y"));
}

#[test]
fn closing_shuts_the_session_down() {
    let mut sessions = Sessions::new();
    let mut bridge = open(&mut sessions, "a", "rpc").unwrap();
    assert!(open_as(&mut sessions, "h", NearbyRole::HostProxy, None).is_some());
    let (mut closed, work) = close_nearby_management_session(&mut sessions, "a").unwrap();
    assert_eq!(work.tasks, vec![7, 8]);
    assert!(work.stop_rpc);
    assert!(!closed.push_packet(vec![1], Some(8), CODES));
    assert!(bridge.inbound.try_recv().is_err());
    let (_, work) = close_nearby_management_session(&mut sessions, "h").unwrap();
    assert_eq!(work.tasks, vec![7, 8]);
    assert!(!work.stop_rpc);
}

#[test]
fn sessions_are_opened_in_their_role() {
    let mut sessions = Sessions::new();
    assert!(open_as(&mut sessions, "c", NearbyRole::Client, None).is_none());
    assert!(sessions.session("c").is_none());
    let mut client_bridge = open_as(&mut sessions, "c", NearbyRole::Client, Some("rpc")).unwrap();
    let mut host_bridge = open_as(&mut sessions, "h", NearbyRole::HostProxy, Some("rpc")).unwrap();
    assert_eq!(sessions.session("c").unwrap().rpc(), Some(&"rpc"));
    assert_eq!(sessions.session("h").unwrap().rpc(), None);
    for (key, bridge) in [("c", &mut client_bridge), ("h", &mut host_bridge)] {
        assert!(push_nearby_management_packet(&mut sessions, key, vec![1], Some(8), CODES));
        assert_eq!(bridge.inbound.try_recv().unwrap(), vec![1]);
    }
}

#[test]
fn packets_go_in_and_come_out_in_order() {
    let (mut session, mut ends) = client("rpc");
    assert_eq!(session.rpc(), Some(&"rpc"));
    assert!(session.push_packet(vec![1], Some(8), CODES));
    assert!(session.push_packet(vec![2], Some(9), CODES));
    assert!(!session.push_packet(vec![3], Some(7), CODES));
    assert_eq!(ends.inbound.try_recv().unwrap(), vec![1]);
    assert_eq!(ends.inbound.try_recv().unwrap(), vec![2]);
    assert!(ends.inbound.try_recv().is_err());

    ends.outbound.try_send(vec![4]).unwrap();
    ends.outbound.try_send(vec![5]).unwrap();
    assert_eq!(session.drain_packets(), vec![vec![4], vec![5]]);
    assert!(session.drain_packets().is_empty());
}

#[test]
fn queues_are_bounded() {
    let (mut session, ends) = host_proxy();
    assert!(session.rpc().is_none());
    assert_eq!(PACKET_QUEUE_CAPACITY, 256);
    assert_eq!(ends.outbound.max_capacity(), PACKET_QUEUE_CAPACITY);
    for _ in 0..PACKET_QUEUE_CAPACITY {
        assert!(session.push_packet(vec![1], Some(8), CODES));
    }
    assert!(!session.push_packet(vec![1], Some(8), CODES));
}

#[test]
fn a_queue_without_a_reader_takes_nothing() {
    let (mut session, ends) = client("rpc");
    drop(ends);
    assert!(!session.push_packet(vec![1], Some(8), CODES));
    assert!(session.drain_packets().is_empty());
}

#[test]
fn hands_out_packets_up_to_a_limit() {
    let (sender, receiver) = tokio::sync::mpsc::channel(1000);
    for i in 0..600usize {
        sender.try_send(vec![(i % 256) as u8]).unwrap();
    }
    let (ends, _bridge) = packet_queues();
    let ends = SessionEnds { inbound: ends.inbound, outbound: receiver };
    let mut session = Session::from_split(NearbyRole::Client, None, ends, 1, 2);
    assert_eq!(MAX_DRAIN_PACKETS, 256);
    assert_eq!(session.drain_packets().len(), 256);
    assert_eq!(session.drain_packets().len(), 256);
    let rest = session.drain_packets();
    assert_eq!(rest.len(), 88);
    assert_eq!(rest[0], vec![0]);
}

#[test]
fn shuts_down_once_and_takes_nothing_afterwards() {
    let (mut session, mut ends) = client("rpc");
    let work = session.shutdown();
    assert_eq!(work.tasks, vec![7, 8]);
    assert!(work.stop_rpc);
    assert_eq!(session.rpc(), Some(&"rpc"));
    assert!(!session.push_packet(vec![1], Some(8), CODES));
    assert!(ends.inbound.try_recv().is_err());
    let again = session.shutdown();
    assert!(again.tasks.is_empty());
    assert!(!again.stop_rpc);
    let (mut host, _ends) = host_proxy();
    assert!(!host.shutdown().stop_rpc);
}

#[test]
fn a_missing_session_takes_and_gives_nothing() {
    let mut sessions = Sessions::new();
    let mut bridge = open(&mut sessions, "a", "rpc").unwrap();
    let mut other_bridge = open(&mut sessions, "b", "other").unwrap();
    assert!(!push_nearby_management_packet(&mut sessions, "c", vec![1], Some(8), CODES));
    assert!(drain_nearby_management_packets(&mut sessions, "c").is_empty());
    assert!(!push_nearby_management_packet(&mut sessions, "a", vec![1], Some(7), CODES));
    assert!(push_nearby_management_packet(&mut sessions, "a", vec![1], Some(8), CODES));
    assert_eq!(bridge.inbound.try_recv().unwrap(), vec![1]);
    assert!(other_bridge.inbound.try_recv().is_err());
    bridge.outbound.try_send(vec![9]).unwrap();
    assert!(drain_nearby_management_packets(&mut sessions, "b").is_empty());
    assert_eq!(drain_nearby_management_packets(&mut sessions, "a"), vec![vec![9]]);
    assert_eq!(sessions.session("b").unwrap().rpc(), Some(&"other"));
}

#[test]
fn draining_stops_at_the_first_empty_answer() {
    let mut packets = vec![];
    assert!(drain_step(&mut packets, Some(vec![1])));
    assert!(!drain_step(&mut packets, None));
    assert_eq!(packets, vec![vec![1]]);
}

/// What a transport takes that refuses a packet after `room` others, and how many
/// times it is closed.
fn feed(packets: Vec<Vec<u8>>, room: usize) -> (Vec<Vec<u8>>, usize) {
    let mut source = packets.into_iter();
    let mut taken: Vec<Vec<u8>> = vec![];
    let mut closings = 0;
    let mut event = InboundEvent::Started;
    loop {
        event = match inbound_step(event) {
            InboundAction::Receive => match source.next() {
                Some(packet) => InboundEvent::Received(packet),
                None => InboundEvent::QueueClosed,
            },
            InboundAction::Send(packet) => {
                let room_left = taken.len() < room;
                if room_left {
                    taken.push(packet);
                }
                InboundEvent::Sent(room_left)
            }
            InboundAction::Close => {
                closings += 1;
                InboundEvent::Closed
            }
            InboundAction::Finish => return (taken, closings),
        };
    }
}

#[test]
fn the_transport_takes_packets_in_order_until_it_refuses_one() {
    let packets = vec![vec![1], vec![2, 2], vec![3]];
    assert_eq!(feed(packets.clone(), 9), (packets.clone(), 1));
    assert_eq!(feed(packets.clone(), 2), (vec![vec![1], vec![2, 2]], 1));
    assert_eq!(feed(packets, 0), (vec![], 1));
}

/// What goes into a queue with the given room from a transport that yields `items`,
/// where `None` is a failure.
fn listen(items: Vec<Option<Vec<u8>>>, room: usize) -> Vec<Vec<u8>> {
    let mut source = items.into_iter();
    let mut queued: Vec<Vec<u8>> = vec![];
    let mut event = OutboundEvent::Started;
    loop {
        event = match outbound_step(event) {
            OutboundAction::Receive => match source.next() {
                Some(Some(packet)) => OutboundEvent::Received(packet),
                Some(None) => OutboundEvent::Failed,
                None => OutboundEvent::Ended,
            },
            OutboundAction::Enqueue(packet) => {
                let room_left = queued.len() < room;
                if room_left {
                    queued.push(packet);
                }
                OutboundEvent::Queued(room_left)
            }
            OutboundAction::Finish => return queued,
        };
    }
}

#[test]
fn nothing_is_queued_from_the_first_failure_on() {
    let items = vec![Some(vec![1]), Some(vec![2]), None, Some(vec![3])];
    assert_eq!(listen(items.clone(), 9), vec![vec![1], vec![2]]);
    assert_eq!(listen(items, 1), vec![vec![1]]);
    assert_eq!(listen(vec![Some(vec![4])], 9), vec![vec![4]]);
}

#[test]
fn the_inbound_task_ends_by_closing_the_transport() {
    assert!(matches!(inbound_step(InboundEvent::Started), InboundAction::Receive));
    assert!(matches!(
        inbound_step(InboundEvent::Received(vec![1, 2])),
        InboundAction::Send(packet) if packet == vec![1, 2]
    ));
    assert!(matches!(inbound_step(InboundEvent::Sent(true)), InboundAction::Receive));
    assert!(matches!(inbound_step(InboundEvent::Sent(false)), InboundAction::Close));
    assert!(matches!(inbound_step(InboundEvent::QueueClosed), InboundAction::Close));
    assert!(matches!(inbound_step(InboundEvent::Closed), InboundAction::Finish));
}

#[test]
fn the_outbound_task_ends_with_either_side() {
    assert!(matches!(outbound_step(OutboundEvent::Started), OutboundAction::Receive));
    assert!(matches!(
        outbound_step(OutboundEvent::Received(vec![3])),
        OutboundAction::Enqueue(packet) if packet == vec![3]
    ));
    assert!(matches!(outbound_step(OutboundEvent::Queued(true)), OutboundAction::Receive));
    assert!(matches!(outbound_step(OutboundEvent::Queued(false)), OutboundAction::Finish));
    assert!(matches!(outbound_step(OutboundEvent::Failed), OutboundAction::Finish));
    assert!(matches!(outbound_step(OutboundEvent::Ended), OutboundAction::Finish));
}
