//! The message router: per-kind persistence and validation policy for
//! inbound gossip messages.

use vstd::prelude::*;

use crate::codec::views_of;
use crate::message::{valid_message, Message, MessageLimits, MessageType, MessageView};
use crate::relay::{dir_insert, RelayDirectory};

verus! {

/// What routing one message does to the relay directory and the inbox.
///
/// An address exchange from an unknown peer records the carried address,
/// first-write-wins.  An exchange from a peer that already has an address is
/// treated as a disguised inbound message instead: it reaches the inbox only
/// if it passes the field-length limits and is addressed to the local peer.
/// Stem and fluff messages are not the router's concern and change nothing.
pub open spec fn route_spec(
    dir: Map<Seq<char>, Seq<char>>,
    inbox: Seq<MessageView>,
    m: MessageView,
    peer: Seq<char>,
    local: Seq<char>,
) -> (Map<Seq<char>, Seq<char>>, Seq<MessageView>) {
    if m.m_type != MessageType::B32Exchange {
        (dir, inbox)
    } else if !dir.contains_key(peer) {
        (dir_insert(dir, peer, m.data), inbox)
    } else if valid_message(m) && m.to_peer == local {
        (dir, inbox.push(m))
    } else {
        (dir, inbox)
    }
}

/// Applies the routing policy of one received message.
pub fn handle_messages(
    directory: &mut RelayDirectory,
    inbox: &mut Vec<Message>,
    msg: Message,
    peer_id: &String,
    local_peer_id: &String,
)
    requires
        old(directory).wf(),
    ensures
        final(directory).wf(),
        final(directory)@ == route_spec(
            old(directory)@,
            views_of(old(inbox)@),
            msg@,
            peer_id@,
            local_peer_id@,
        ).0,
        views_of(final(inbox)@) == route_spec(
            old(directory)@,
            views_of(old(inbox)@),
            msg@,
            peer_id@,
            local_peer_id@,
        ).1,
{
    let ghost mv = msg@;
    if msg.m_type == MessageType::B32Exchange {
        let added = directory.insert_if_absent(peer_id, &msg.data);
        if !added {
            let is_valid = MessageLimits::validate(&msg);
            if is_valid && msg.to == *local_peer_id {
                inbox.push(msg);
                proof {
                    assert(views_of(inbox@) =~= views_of(old(inbox)@).push(mv));
                }
            }
        }
    }
}

} // verus!
