use is2fp::codec::decode_message;
use is2fp::error::Ip2pError;
use is2fp::fluff::FluffQueue;
use is2fp::message::{Message, MessageLimits, MessageType};
use is2fp::network::{NetworkAction, NetworkEvent, NodeState};
use is2fp::pow::generate_problem;
use is2fp::relay::RelayDirectory;
use is2fp::router::handle_messages;

fn message_with(mid: &str, data: &str) -> Message {
    let mut m = Message::default();
    m.mid = String::from(mid);
    m.data = String::from(data);
    m
}

#[test]
fn validate_accepts_bounded_fields() {
    let mut m = Message::default();
    m.mid = "x".repeat(127);
    m.data = "y".repeat(1047);
    m.from = "f".repeat(127);
    m.to = "t".repeat(127);
    assert!(MessageLimits::validate(&m));
}

#[test]
fn validate_rejects_each_field_at_its_bound() {
    let ok = Message::default();
    assert!(MessageLimits::validate(&ok));
    let mut m = Message::default();
    m.mid = "x".repeat(128);
    assert!(!MessageLimits::validate(&m));
    let mut m = Message::default();
    m.data = "y".repeat(1048);
    assert!(!MessageLimits::validate(&m));
    let mut m = Message::default();
    m.from = "f".repeat(128);
    assert!(!MessageLimits::validate(&m));
    let mut m = Message::default();
    m.to = "t".repeat(128);
    assert!(!MessageLimits::validate(&m));
}

#[test]
fn directory_keeps_first_address() {
    let mut dir = RelayDirectory::new();
    let peer = String::from("peer-p");
    assert!(dir.lookup(&peer).is_none());
    assert!(dir.insert_if_absent(&peer, &String::from("addr123")));
    assert!(!dir.insert_if_absent(&peer, &String::from("addr999")));
    assert_eq!(dir.lookup(&peer).unwrap(), "addr123");
}

#[test]
fn directory_first_write_survives_interleaving() {
    let mut dir = RelayDirectory::new();
    let p = String::from("p");
    let q = String::from("q");
    assert!(dir.insert_if_absent(&p, &String::from("addr-p")));
    assert!(dir.insert_if_absent(&q, &String::from("addr-q")));
    assert!(!dir.insert_if_absent(&p, &String::from("addr-late")));
    assert_eq!(dir.lookup(&p).unwrap(), "addr-p");
    assert_eq!(dir.lookup(&q).unwrap(), "addr-q");
}

#[test]
fn router_records_then_treats_exchange_as_inbox_candidate() {
    // first exchange from P records addr123; the second is evaluated as a
    // normal inbox-candidate message and leaves the entry alone
    let mut dir = RelayDirectory::new();
    let mut inbox: Vec<Message> = Vec::new();
    let peer = String::from("P");
    let local = String::from("local-id");

    let mut first = message_with("1", "addr123");
    first.m_type = MessageType::B32Exchange;
    handle_messages(&mut dir, &mut inbox, first, &peer, &local);
    assert_eq!(dir.lookup(&peer).unwrap(), "addr123");
    assert_eq!(inbox.len(), 0);

    let mut second = message_with("2", "addr999");
    second.m_type = MessageType::B32Exchange;
    second.to = local.clone();
    handle_messages(&mut dir, &mut inbox, second, &peer, &local);
    assert_eq!(dir.lookup(&peer).unwrap(), "addr123");
    assert_eq!(inbox.len(), 1);
    assert_eq!(inbox[0].data, "addr999");
}

#[test]
fn router_drops_misaddressed_and_oversized_exchanges() {
    let mut dir = RelayDirectory::new();
    let mut inbox: Vec<Message> = Vec::new();
    let peer = String::from("P");
    let local = String::from("local-id");

    let mut first = message_with("1", "addr123");
    first.m_type = MessageType::B32Exchange;
    handle_messages(&mut dir, &mut inbox, first, &peer, &local);

    // addressed elsewhere
    let mut other = message_with("2", "hello");
    other.m_type = MessageType::B32Exchange;
    other.to = String::from("someone-else");
    handle_messages(&mut dir, &mut inbox, other, &peer, &local);
    assert_eq!(inbox.len(), 0);

    // addressed here but over the id bound
    let mut big = message_with(&"x".repeat(128), "hello");
    big.m_type = MessageType::B32Exchange;
    big.to = local.clone();
    handle_messages(&mut dir, &mut inbox, big, &peer, &local);
    assert_eq!(inbox.len(), 0);

    // stem messages are not the router's concern
    let stem = message_with("3", "hello");
    handle_messages(&mut dir, &mut inbox, stem, &peer, &local);
    assert_eq!(inbox.len(), 0);
}

#[test]
fn fluff_queue_drains_in_order_then_empty() {
    // enqueue A then B; drain returns [A, B] and leaves the queue empty
    let mut q = FluffQueue::new();
    q.enqueue(message_with("1", "a"));
    q.enqueue(message_with("2", "b"));
    assert_eq!(q.len(), 2);
    let batch = q.drain();
    assert_eq!(batch.len(), 2);
    assert_eq!(batch[0].mid, "1");
    assert_eq!(batch[1].mid, "2");
    assert_eq!(q.len(), 0);
    // a second drain with no intervening enqueue returns an empty batch
    let again = q.drain();
    assert_eq!(again.len(), 0);
}

#[test]
fn inject_rejects_unsolvable_pow_and_keeps_queue() {
    let mut q = FluffQueue::new();
    q.enqueue(message_with("1", "a"));
    let mut bad = message_with("2", "b");
    bad.m_type = MessageType::Fluff;
    bad.pow_problem = String::from("far");
    bad.pow_solution = String::from("from-matching");
    let r = q.inject_fluff(&bad, 42);
    assert_eq!(r, Err(Ip2pError::PowFailure));
    assert_eq!(q.len(), 1);
    let batch = q.drain();
    assert_eq!(batch[0].mid, "1");
}

#[test]
fn inject_accepts_solvable_pow_and_solves_it() {
    let mut q = FluffQueue::new();
    let mut msg = message_with("1", "the payload");
    msg.from = String::from("peer-a");
    msg.to = String::from("peer-b");
    msg.fluff_probability_bits = 77;
    msg.pow_problem = generate_problem(2);
    q.inject_fluff(&msg, 42).expect("a generated problem must inject");
    let batch = q.drain();
    assert_eq!(batch.len(), 1);
    // only the timestamp, the kind and the solution change
    assert_eq!(batch[0].mid, "1");
    assert_eq!(batch[0].data, "the payload");
    assert_eq!(batch[0].from, "peer-a");
    assert_eq!(batch[0].to, "peer-b");
    assert_eq!(batch[0].fluff_probability_bits, 77);
    assert_eq!(batch[0].created, 42);
    assert_eq!(batch[0].m_type, MessageType::Fluff);
    assert_eq!(batch[0].pow_solution, batch[0].pow_problem);
    assert_eq!(batch[0].pow_problem, msg.pow_problem);
}

#[test]
fn injected_batch_keeps_ids_and_order() {
    // inject A (id "1") then B (id "2"); the drained batch carries those ids
    // in that order and the queue is empty afterwards
    let mut q = FluffQueue::new();
    let mut a = message_with("1", "a");
    a.pow_problem = generate_problem(1);
    let mut b = message_with("2", "b");
    b.pow_problem = generate_problem(2);
    q.inject_fluff(&a, 10).unwrap();
    q.inject_fluff(&b, 11).unwrap();
    let batch = q.drain();
    assert_eq!(batch.len(), 2);
    assert_eq!(batch[0].mid, "1");
    assert_eq!(batch[1].mid, "2");
    assert_eq!(q.len(), 0);
}

#[test]
fn queue_survives_its_stored_byte_form() {
    let mut q = FluffQueue::new();
    let mut msg = message_with("1", "payload");
    msg.pow_problem = generate_problem(3);
    q.inject_fluff(&msg, 5).unwrap();
    let bytes = q.to_bytes();
    let mut back = FluffQueue::from_bytes(&bytes);
    let batch = back.drain();
    assert_eq!(batch.len(), 1);
    assert_eq!(batch[0].mid, "1");
    assert_eq!(batch[0].data, "payload");
    assert_eq!(batch[0].created, 5);
    assert_eq!(batch[0].m_type, MessageType::Fluff);
}

#[test]
fn loading_bad_bytes_yields_empty_queue() {
    // malformed bytes
    let mut q = FluffQueue::from_bytes(&vec![1, 2, 3]);
    assert_eq!(q.len(), 0);
    assert_eq!(q.drain().len(), 0);
    // a well-formed list whose fluff message breaks the proof-of-work pair
    let mut bad = message_with("1", "a");
    bad.m_type = MessageType::Fluff;
    bad.pow_problem = String::from("p");
    bad.pow_solution = String::from("q");
    let bytes = is2fp::codec::encode_messages(&vec![bad]);
    let q = FluffQueue::from_bytes(&bytes);
    assert_eq!(q.len(), 0);
}

#[test]
fn b32_broadcast_waits_for_second_peer() {
    // suppressed with exactly one peer connected, enabled once a second
    // connects
    let mut node = NodeState::new(String::from("local"), String::from("me.b32.i2p"));
    let first = node.on_connection_established(&String::from("peer-1"));
    assert_eq!(first.len(), 0);
    let second = node.on_connection_established(&String::from("peer-2"));
    assert_eq!(second.len(), 1);
    match &second[0] {
        NetworkAction::Broadcast { topic, data } => {
            assert_eq!(topic, "stem-peer-2");
            let msg = decode_message(data).unwrap();
            assert_eq!(msg.m_type, MessageType::B32Exchange);
            assert_eq!(msg.data, "me.b32.i2p");
        }
        other => panic!("expected a broadcast, got {:?}", other),
    }
}

#[test]
fn reconnecting_sole_peer_stays_suppressed() {
    let mut node = NodeState::new(String::from("local"), String::from("me.b32.i2p"));
    assert_eq!(node.on_connection_established(&String::from("peer-1")).len(), 0);
    // the same peer again is still a single connected peer
    assert_eq!(node.on_connection_established(&String::from("peer-1")).len(), 0);
}

#[test]
fn flush_broadcasts_each_message_once() {
    let mut node = NodeState::new(String::from("local"), String::from("me.b32.i2p"));
    node.fluff.enqueue(message_with("1", "a"));
    node.fluff.enqueue(message_with("2", "b"));
    let actions = node.flush_fluff();
    assert_eq!(actions.len(), 2);
    for (i, a) in actions.iter().enumerate() {
        match a {
            NetworkAction::Broadcast { topic, data } => {
                assert_eq!(topic, "fluff");
                let m = decode_message(data).unwrap();
                assert_eq!(m.mid, format!("{}", i + 1));
            }
            other => panic!("expected a broadcast, got {:?}", other),
        }
    }
    // exactly-once: a second flush has nothing to publish
    assert_eq!(node.flush_fluff().len(), 0);
}

#[test]
fn operator_lines_drive_dial_and_relay() {
    let mut node = NodeState::new(String::from("local"), String::from("me.b32.i2p"));
    let add = node.handle_event(NetworkEvent::OperatorLine {
        line: String::from("add peer /ip4/10.0.0.1/tcp/4001/p2p/QmPeer"),
    });
    assert_eq!(add.len(), 1);
    match &add[0] {
        NetworkAction::Connect { multiaddr } => {
            assert_eq!(multiaddr, "/ip4/10.0.0.1/tcp/4001/p2p/QmPeer")
        }
        other => panic!("expected a dial, got {:?}", other),
    }

    // a send with no connected peer is dropped
    let dropped = node.handle_event(NetworkEvent::OperatorLine {
        line: String::from("send hello"),
    });
    assert_eq!(dropped.len(), 0);

    // with a peer connected the message goes to a stem relay
    node.on_connection_established(&String::from("peer-1"));
    let sent = node.on_operator_line(&String::from("send hello"));
    assert_eq!(sent.len(), 1);
    match &sent[0] {
        NetworkAction::RelayForward { address, message } => {
            // peer-1 has no recorded address yet
            assert_eq!(address, "");
            assert_eq!(message.data, "hello");
            assert_eq!(message.m_type, MessageType::Stem);
            assert_eq!(message.pow_problem.len(), 128);
        }
        other => panic!("expected a relay forward, got {:?}", other),
    }

    // chatter that is no command decides nothing
    let noise = node.on_operator_line(&String::from("what is this"));
    assert_eq!(noise.len(), 0);
}

#[test]
fn gossip_event_routes_through_directory_and_inbox() {
    let mut node = NodeState::new(String::from("local"), String::from("me.b32.i2p"));
    let peer = String::from("remote-peer");

    let mut exchange = Message::default();
    exchange.m_type = MessageType::B32Exchange;
    exchange.data = String::from("their.b32.i2p");
    let bytes = is2fp::codec::encode_message(&exchange);
    node.handle_event(NetworkEvent::GossipMessage { source: peer.clone(), data: bytes });
    assert_eq!(node.directory.lookup(&peer).unwrap(), "their.b32.i2p");

    // a second exchange addressed to the local peer lands in the inbox
    let mut second = Message::default();
    second.m_type = MessageType::B32Exchange;
    second.data = String::from("note");
    second.to = String::from("local");
    let bytes = is2fp::codec::encode_message(&second);
    node.handle_event(NetworkEvent::GossipMessage { source: peer.clone(), data: bytes });
    assert_eq!(node.directory.lookup(&peer).unwrap(), "their.b32.i2p");
    assert_eq!(node.inbox.len(), 1);
    assert_eq!(node.inbox[0].data, "note");

    // malformed bytes route as the default stem message: no state change
    node.handle_event(NetworkEvent::GossipMessage { source: peer.clone(), data: vec![9, 9] });
    assert_eq!(node.inbox.len(), 1);
}

#[test]
fn expiry_forgets_peer_and_disconnects() {
    let mut node = NodeState::new(String::from("local"), String::from("me.b32.i2p"));
    node.on_connection_established(&String::from("peer-1"));
    node.on_connection_established(&String::from("peer-2"));
    assert_eq!(node.connected_peers.len(), 2);
    let acts = node.handle_event(NetworkEvent::PeerExpired { peer_id: String::from("peer-1") });
    assert_eq!(acts.len(), 1);
    match &acts[0] {
        NetworkAction::Disconnect { peer_id } => assert_eq!(peer_id, "peer-1"),
        other => panic!("expected a disconnect, got {:?}", other),
    }
    assert_eq!(node.connected_peers.len(), 1);
    assert_eq!(node.connected_peers[0], "peer-2");
}

#[test]
fn tick_jitter_stays_in_range() {
    for _ in 0..100 {
        assert!(is2fp::network::next_tick_millis() < 32);
    }
}
