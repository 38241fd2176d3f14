//! The unit of propagation and its validation limits.

use vstd::prelude::*;

verus! {

/// Kind of a message inside the propagation state machine.
///
/// `Stem` is the private forwarding phase, `Fluff` the public broadcast
/// phase, and `B32Exchange` the side-channel control message that carries a
/// peer's anonymous-network address.
#[derive(Clone, Copy, Debug, PartialEq, Eq, Structural)]
pub enum MessageType {
    B32Exchange,
    Stem,
    Fluff,
}

impl Default for MessageType {
    /// Operator-originated messages start in the stem phase.
    fn default() -> (r: Self)
        ensures
            r == MessageType::Stem,
    {
        MessageType::Stem
    }
}

/// Mathematical image of a [`Message`]: every string field as its character
/// sequence.
pub ghost struct MessageView {
    pub mid: Seq<char>,
    pub data: Seq<char>,
    pub created: u64,
    pub from_peer: Seq<char>,
    pub to_peer: Seq<char>,
    pub m_type: MessageType,
    pub fluff_probability_bits: u64,
    pub pow_problem: Seq<char>,
    pub pow_solution: Seq<char>,
}

/// The unit of propagation.
///
/// The dissemination weight is carried as the raw bit pattern of the wire
/// value (`fluff_probability_bits`); the propagation logic never reads it.
#[derive(Clone, Debug)]
pub struct Message {
    pub mid: String,
    pub data: String,
    pub created: u64,
    pub from: String,
    pub to: String,
    pub m_type: MessageType,
    pub fluff_probability_bits: u64,
    pub pow_problem: String,
    pub pow_solution: String,
}

impl View for Message {
    type V = MessageView;

    open spec fn view(&self) -> MessageView {
        MessageView {
            mid: self.mid@,
            data: self.data@,
            created: self.created,
            from_peer: self.from@,
            to_peer: self.to@,
            m_type: self.m_type,
            fluff_probability_bits: self.fluff_probability_bits,
            pow_problem: self.pow_problem@,
            pow_solution: self.pow_solution@,
        }
    }
}

/// The view of the all-empty stem message that `Message::default` returns.
pub open spec fn default_message_view() -> MessageView {
    MessageView {
        mid: Seq::<char>::empty(),
        data: Seq::<char>::empty(),
        created: 0u64,
        from_peer: Seq::<char>::empty(),
        to_peer: Seq::<char>::empty(),
        m_type: MessageType::Stem,
        fluff_probability_bits: 0u64,
        pow_problem: Seq::<char>::empty(),
        pow_solution: Seq::<char>::empty(),
    }
}

impl Default for Message {
    /// The all-empty stem message.
    fn default() -> (r: Self)
        ensures
            r@ == default_message_view(),
    {
        Message {
            mid: String::new(),
            data: String::new(),
            created: 0,
            from: String::new(),
            to: String::new(),
            m_type: MessageType::Stem,
            fluff_probability_bits: 0,
            pow_problem: String::new(),
            pow_solution: String::new(),
        }
    }
}

/// Configured upper bounds (exclusive) on the lengths of a message's
/// free-form fields.
#[derive(Clone, Copy, Debug)]
pub struct MessageLimits {
    pub mid: usize,
    pub data: usize,
    pub from: usize,
    pub to: usize,
}

impl Default for MessageLimits {
    /// The stock configuration of the field bounds.
    fn default() -> (r: Self)
        ensures
            r.mid == 128usize,
            r.data == 1048usize,
            r.from == 128usize,
            r.to == 128usize,
    {
        MessageLimits { mid: 128, data: 1048, from: 128, to: 128 }
    }
}

/// A message is valid exactly when each bounded field is strictly shorter
/// than its stock limit.
pub open spec fn valid_message(m: MessageView) -> bool {
    &&& m.mid.len() < 128
    &&& m.data.len() < 1048
    &&& m.from_peer.len() < 128
    &&& m.to_peer.len() < 128
}

impl MessageLimits {
    /// Holds iff every one of `mid`, `data`, `from`, `to` is strictly
    /// shorter than its configured bound.
    pub fn validate(m: &Message) -> (r: bool)
        ensures
            r == valid_message(m@),
    {
        let limit: MessageLimits = Default::default();
        m.mid.as_str().unicode_len() < limit.mid && m.data.as_str().unicode_len() < limit.data
            && m.from.as_str().unicode_len() < limit.from && m.to.as_str().unicode_len()
            < limit.to
    }
}

} // verus!
