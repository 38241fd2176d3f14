use is2fp::codec::{
    decode_message, decode_messages, decode_string, encode_message, encode_messages, encode_string,
};
use is2fp::message::{Message, MessageType};

fn sample_message() -> Message {
    Message {
        mid: String::from("msg-1"),
        data: String::from("payload \u{263a} with unicode"),
        created: 1700000000,
        from: String::from("peer-a"),
        to: String::from("peer-b"),
        m_type: MessageType::Fluff,
        fluff_probability_bits: 0x3FE0000000000000,
        pow_problem: String::from("prob"),
        pow_solution: String::from("prob"),
    }
}

fn assert_messages_equal(a: &Message, b: &Message) {
    assert_eq!(a.mid, b.mid);
    assert_eq!(a.data, b.data);
    assert_eq!(a.created, b.created);
    assert_eq!(a.from, b.from);
    assert_eq!(a.to, b.to);
    assert_eq!(a.m_type, b.m_type);
    assert_eq!(a.fluff_probability_bits, b.fluff_probability_bits);
    assert_eq!(a.pow_problem, b.pow_problem);
    assert_eq!(a.pow_solution, b.pow_solution);
}

#[test]
fn message_round_trip_keeps_every_field() {
    let m = sample_message();
    let bytes = encode_message(&m);
    let back = decode_message(&bytes).expect("an encoded message must decode");
    assert_messages_equal(&m, &back);
}

#[test]
fn default_message_round_trip() {
    let m = Message::default();
    let bytes = encode_message(&m);
    let back = decode_message(&bytes).unwrap();
    assert_messages_equal(&m, &back);
    assert_eq!(back.m_type, MessageType::Stem);
}

#[test]
fn message_list_round_trip_keeps_order() {
    let mut a = Message::default();
    a.mid = String::from("1");
    let mut b = Message::default();
    b.mid = String::from("2");
    let list = vec![a, b];
    let bytes = encode_messages(&list);
    let back = decode_messages(&bytes).unwrap();
    assert_eq!(back.len(), 2);
    assert_eq!(back[0].mid, "1");
    assert_eq!(back[1].mid, "2");
}

#[test]
fn empty_message_list_round_trip() {
    let bytes = encode_messages(&Vec::new());
    let back = decode_messages(&bytes).unwrap();
    assert_eq!(back.len(), 0);
}

#[test]
fn malformed_bytes_do_not_decode() {
    assert!(decode_message(&vec![1, 2, 3]).is_none());
    assert!(decode_messages(&vec![255; 7]).is_none());
    assert!(decode_string(&vec![0]).is_none());
    // trailing garbage after a whole message is refused too
    let mut bytes = encode_message(&Message::default());
    bytes.push(0);
    assert!(decode_message(&bytes).is_none());
}

#[test]
fn string_round_trip() {
    let bytes = encode_string("b32.example.i2p");
    let back = decode_string(&bytes).unwrap();
    assert_eq!(back, "b32.example.i2p");
    let empty = encode_string("");
    assert_eq!(decode_string(&empty).unwrap(), "");
}

#[test]
fn encoding_is_not_the_identity() {
    // the frame carries a length prefix, so even a one-character string
    // grows
    let bytes = encode_string("x");
    assert_eq!(bytes.len(), 12);
}
