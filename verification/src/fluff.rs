//! The fluff queue: messages awaiting public broadcast, with proof-of-work
//! gated injection and an exactly-once drain.

use vstd::prelude::*;

use crate::error::Ip2pError;
use crate::message::{Message, MessageType, MessageView};
use crate::pow::{solvable, solve};

verus! {

/// A fluff-kind message may only sit in the queue with a matching
/// proof-of-work pair.
pub open spec fn fluff_ok(m: Message) -> bool {
    m.m_type == MessageType::Fluff ==> m.pow_solution@ == m.pow_problem@
}

/// What one drain does: it hands out the whole batch and leaves the queue
/// empty.
pub open spec fn drain_spec(q: Seq<Message>) -> (Seq<Message>, Seq<Message>) {
    (q, Seq::<Message>::empty())
}

/// The view of the message a successful injection appends: the received
/// message with only the timestamp set, the kind moved to fluff, and the
/// solution re-derived from the puzzle (so it equals the puzzle); identity
/// fields, payload and dissemination weight are kept.
pub open spec fn injected_view(m: MessageView, created: u64) -> MessageView {
    MessageView {
        mid: m.mid,
        data: m.data,
        created,
        from_peer: m.from_peer,
        to_peer: m.to_peer,
        m_type: MessageType::Fluff,
        fluff_probability_bits: m.fluff_probability_bits,
        pow_problem: m.pow_problem,
        pow_solution: m.pow_problem,
    }
}

/// Every message of a stored list keeps the queue's proof-of-work
/// invariant.
pub open spec fn views_fluff_ok(vs: Seq<MessageView>) -> bool {
    forall|i: int|
        0 <= i < vs.len() ==> ((#[trigger] vs[i]).m_type == MessageType::Fluff ==> vs[
            i
        ].pow_solution == vs[i].pow_problem)
}

/// The queue a stored byte string yields: the decoded message list when it
/// is well formed and keeps the proof-of-work invariant, the empty queue
/// otherwise.
pub open spec fn loaded_queue(bytes: Seq<u8>) -> Seq<MessageView> {
    match crate::codec::dec_messages_full(bytes) {
        Option::Some(vs) => if views_fluff_ok(vs) {
            vs
        } else {
            Seq::<MessageView>::empty()
        },
        Option::None => Seq::<MessageView>::empty(),
    }
}

/// Ordered buffer of messages pending fluff-phase broadcast, guarded by an
/// advisory lock flag against a drain racing an injection.
pub struct FluffQueue {
    msgs: Vec<Message>,
    locked: bool,
}

impl FluffQueue {
    /// The queued messages, oldest first.
    pub closed spec fn messages(&self) -> Seq<Message> {
        self.msgs@
    }

    /// Whether an injection currently holds the queue.
    pub closed spec fn is_locked(&self) -> bool {
        self.locked
    }

    /// Every queued fluff message carries a matching proof-of-work pair.
    pub open spec fn wf(&self) -> bool {
        forall|i: int| 0 <= i < self.messages().len() ==> fluff_ok(#[trigger] self.messages()[i])
    }

    /// An empty, unlocked queue.
    pub fn new() -> (r: Self)
        ensures
            r.wf(),
            r.messages() == Seq::<Message>::empty(),
            !r.is_locked(),
    {
        FluffQueue { msgs: Vec::new(), locked: false }
    }

    /// How many messages are waiting.
    pub fn len(&self) -> (n: usize)
        ensures
            n == self.messages().len(),
    {
        self.msgs.len()
    }

    /// Whether an injection currently holds the queue.
    pub fn locked(&self) -> (b: bool)
        ensures
            b == self.is_locked(),
    {
        self.locked
    }

    /// Appends one message, holding the lock flag for the duration of the
    /// write.
    pub fn enqueue(&mut self, msg: Message)
        requires
            old(self).wf(),
            !old(self).is_locked(),
            fluff_ok(msg),
        ensures
            final(self).wf(),
            !final(self).is_locked(),
            final(self).messages() == old(self).messages().push(msg),
    {
        self.locked = true;
        self.msgs.push(msg);
        self.locked = false;
        proof {
            assert forall|i: int| 0 <= i < self.messages().len() implies fluff_ok(
                #[trigger] self.messages()[i],
            ) by {
                if i < old(self).messages().len() {
                    assert(self.messages()[i] == old(self).messages()[i]);
                } else {
                    assert(self.messages()[i] == msg);
                }
            }
        }
    }

    /// Re-derives the solution of the received message's puzzle and, when
    /// the puzzle is solvable, appends the message — timestamped, moved to
    /// the fluff kind, solution filled in, every other field as received; an
    /// unsolvable puzzle is rejected with `PowFailure` and the queue is left
    /// unchanged.
    pub fn inject_fluff(&mut self, msg: &Message, created: u64) -> (r: Result<(), Ip2pError>)
        requires
            old(self).wf(),
            !old(self).is_locked(),
        ensures
            final(self).wf(),
            !final(self).is_locked(),
            (r is Ok) == solvable(msg.pow_problem@),
            r matches Err(e) ==> e == Ip2pError::PowFailure && final(self).messages() == old(self).messages(),
            r is Ok ==> final(self).messages().len() == old(self).messages().len() + 1
                && final(self).messages().drop_last() == old(self).messages()
                && final(self).messages().last()@ == injected_view(msg@, created),
    {
        self.locked = true;
        match solve(&msg.pow_problem) {
            Result::Err(e) => {
                self.locked = false;
                Result::Err(e)
            },
            Result::Ok(solution) => {
                let new_msg = Message {
                    mid: msg.mid.clone(),
                    data: msg.data.clone(),
                    created,
                    from: msg.from.clone(),
                    to: msg.to.clone(),
                    m_type: MessageType::Fluff,
                    fluff_probability_bits: msg.fluff_probability_bits,
                    pow_problem: msg.pow_problem.clone(),
                    pow_solution: solution,
                };
                self.msgs.push(new_msg);
                self.locked = false;
                proof {
                    assert(self.messages().drop_last() =~= old(self).messages());
                }
                Result::Ok(())
            },
        }
    }

    /// The queue in its stored byte form, for persisting between cycles.
    pub fn to_bytes(&self) -> (r: Vec<u8>)
        ensures
            r@ == crate::codec::enc_messages(crate::codec::views_of(self.messages())),
    {
        crate::codec::encode_messages(&self.msgs)
    }

    /// Rebuilds the queue from its stored byte form; malformed bytes, and a
    /// stored list that breaks the proof-of-work invariant, yield the empty
    /// queue.
    pub fn from_bytes(bytes: &Vec<u8>) -> (r: FluffQueue)
        ensures
            r.wf(),
            !r.is_locked(),
            crate::codec::views_of(r.messages()) == loaded_queue(bytes@),
    {
        match crate::codec::decode_messages(bytes) {
            Option::None => {
                let r = FluffQueue::new();
                proof {
                    assert(crate::codec::views_of(r.messages()) =~= Seq::<MessageView>::empty());
                }
                r
            },
            Option::Some(msgs) => {
                let n = msgs.len();
                let mut i: usize = 0;
                while i < n
                    invariant
                        i <= n,
                        n == msgs.len(),
                        crate::codec::dec_messages_full(bytes@) == Option::Some(
                            crate::codec::views_of(msgs@),
                        ),
                        forall|j: int| 0 <= j < i ==> fluff_ok(#[trigger] msgs@[j]),
                    decreases n - i,
                {
                    let bad = msgs[i].m_type == MessageType::Fluff && !(msgs[i].pow_solution
                        == msgs[i].pow_problem);
                    if bad {
                        proof {
                            let vs = crate::codec::views_of(msgs@);
                            assert(vs[i as int] == msgs@[i as int]@);
                            assert(!views_fluff_ok(vs));
                        }
                        let r = FluffQueue::new();
                        proof {
                            assert(crate::codec::views_of(r.messages())
                                =~= Seq::<MessageView>::empty());
                        }
                        return r;
                    }
                    i = i + 1;
                }
                proof {
                    let vs = crate::codec::views_of(msgs@);
                    assert forall|j: int| 0 <= j < vs.len() implies ((#[trigger] vs[j]).m_type
                        == MessageType::Fluff ==> vs[j].pow_solution == vs[j].pow_problem) by {
                        assert(vs[j] == msgs@[j]@);
                        assert(fluff_ok(msgs@[j]));
                    }
                }
                FluffQueue { msgs, locked: false }
            },
        }
    }

    /// Hands out every queued message for broadcast and clears the queue.
    pub fn drain(&mut self) -> (r: Vec<Message>)
        requires
            old(self).wf(),
            !old(self).is_locked(),
        ensures
            final(self).wf(),
            !final(self).is_locked(),
            r@ == drain_spec(old(self).messages()).0,
            final(self).messages() == drain_spec(old(self).messages()).1,
    {
        let mut out: Vec<Message> = Vec::new();
        core::mem::swap(&mut out, &mut self.msgs);
        out
    }
}

/// Drain is exactly-once per batch: a second drain with no injection or
/// enqueue in between hands out an empty batch.
pub proof fn lemma_drain_exactly_once(q: Seq<Message>)
    ensures
        drain_spec(drain_spec(q).1).0 == Seq::<Message>::empty(),
{
}

} // verus!
