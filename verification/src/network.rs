//! The propagation event loop's decision core.
//!
//! The process boundary multiplexes operator input, gossip-transport events
//! and a jittered timer; every decision it takes — what to drain, what to
//! broadcast, whom to dial, how to route — is a function here, from node
//! state and event to new state and a list of actions to perform.

use vstd::prelude::*;

use crate::codec::{dec_message_full, decode_message, enc_message, encode_message, views_of};
use crate::fluff::FluffQueue;
use crate::message::{default_message_view, Message, MessageType, MessageView};
use crate::pow::{generate_random_problem, solvable};
use crate::relay::RelayDirectory;
use crate::rng::random_below;
use crate::router::{handle_messages, route_spec};
use crate::NETWORK_FLUFF;

verus! {

/// One event the loop can wake on.
#[derive(Debug)]
pub enum NetworkEvent {
    /// A line of operator input.
    OperatorLine { line: String },
    /// Peer discovery announced a reachable peer.
    PeerDiscovered { peer_id: String, multiaddr: String },
    /// A discovered peer expired.
    PeerExpired { peer_id: String },
    /// A gossip delivery from a peer.
    GossipMessage { source: String, data: Vec<u8> },
    /// A connection to a peer completed.
    ConnectionEstablished { peer_id: String },
    /// The transport started listening on a local address.
    NewListenAddr { address: String },
    /// The jittered timer fired.
    Tick,
}

/// One outward step the loop asks the transport to perform.
#[derive(Debug)]
pub enum NetworkAction {
    /// Dial the peer at this multiaddress.
    Connect { multiaddr: String },
    /// Publish bytes on a gossip topic.
    Broadcast { topic: String, data: Vec<u8> },
    /// Forward a stem message to a relay's anonymous address over the local
    /// HTTP proxy.
    RelayForward { address: String, message: Message },
    /// Tear down the session with an expired peer.
    Disconnect { peer_id: String },
}

/// The propagation engine's owned state.
pub struct NodeState {
    pub local_peer_id: String,
    pub local_destination: String,
    pub connected_peers: Vec<String>,
    pub directory: RelayDirectory,
    pub inbox: Vec<Message>,
    pub fluff: FluffQueue,
}

// ---------------------------------------------------------------------------
// Spec vocabulary
// ---------------------------------------------------------------------------

/// The peer identities as character sequences.
pub open spec fn peer_views(ps: Seq<String>) -> Seq<Seq<char>> {
    Seq::new(ps.len(), |i: int| ps[i]@)
}

/// `p` is one of the connected peers.
pub open spec fn has_peer(ps: Seq<String>, p: Seq<char>) -> bool {
    exists|i: int| 0 <= i < ps.len() && (#[trigger] ps[i])@ == p
}

/// The view of the address-exchange message announcing `dest`.
pub open spec fn exchange_view(dest: Seq<char>) -> MessageView {
    MessageView {
        mid: Seq::<char>::empty(),
        data: dest,
        created: 0u64,
        from_peer: Seq::<char>::empty(),
        to_peer: Seq::<char>::empty(),
        m_type: MessageType::B32Exchange,
        fluff_probability_bits: 0u64,
        pow_problem: Seq::<char>::empty(),
        pow_solution: Seq::<char>::empty(),
    }
}

/// The view of the stem message an operator's send command creates.
pub open spec fn send_view(text: Seq<char>) -> MessageView {
    MessageView {
        mid: Seq::<char>::empty(),
        data: text,
        created: 0u64,
        from_peer: Seq::<char>::empty(),
        to_peer: Seq::<char>::empty(),
        m_type: MessageType::Stem,
        fluff_probability_bits: 0u64,
        pow_problem: Seq::<char>::empty(),
        pow_solution: Seq::<char>::empty(),
    }
}

/// `m` with its puzzle replaced.
pub open spec fn with_problem(m: MessageView, p: Seq<char>) -> MessageView {
    MessageView { pow_problem: p, ..m }
}

/// The view a gossip payload routes as: the decoded message, or the default
/// message when the bytes are malformed.
pub open spec fn gossip_view(bytes: Seq<u8>) -> MessageView {
    match dec_message_full(bytes) {
        Option::Some(v) => v,
        Option::None => default_message_view(),
    }
}

/// `a` publishes `payload` on the public fluff topic.
pub open spec fn is_fluff_broadcast(a: NetworkAction, payload: Seq<u8>) -> bool {
    a matches NetworkAction::Broadcast { topic, data } && topic@ == "fluff"@ && data@ == payload
}

/// `a` publishes the exchange of `dest` on the stem topic of `peer`.
pub open spec fn is_exchange_broadcast(a: NetworkAction, peer: Seq<char>, dest: Seq<char>) -> bool {
    a matches NetworkAction::Broadcast { topic, data } && topic@ == "stem-"@ + peer && data@
        == enc_message(exchange_view(dest))
}

/// `addr` is the directory's answer for one of the peers: the recorded
/// address, or the empty address for a peer with no entry.
pub open spec fn stem_choice(
    peers: Seq<String>,
    dir: Map<Seq<char>, Seq<char>>,
    addr: Seq<char>,
) -> bool {
    exists|i: int|
        0 <= i < peers.len() && addr == (if dir.contains_key((#[trigger] peers[i])@) {
            dir[peers[i]@]
        } else {
            Seq::<char>::empty()
        })
}

/// `a` forwards a stem message carrying `text` and a solvable puzzle to an
/// address the directory answers for one of `pre`'s peers.
pub open spec fn stem_forward_ok(pre: NodeState, text: Seq<char>, a: NetworkAction) -> bool {
    a matches NetworkAction::RelayForward { address, message } && stem_choice(
        pre.connected_peers@,
        pre.directory@,
        address@,
    ) && message@ == with_problem(send_view(text), message@.pow_problem) && solvable(
        message@.pow_problem,
    )
}

/// The operator's dial command.
pub open spec fn add_cmd(line: Seq<char>) -> bool {
    crate::strings::matches_at(line, "add peer "@, 0)
}

/// The operator's send command.
pub open spec fn send_cmd(line: Seq<char>) -> bool {
    crate::strings::matches_at(line, "send "@, 0)
}

/// Everything but the fluff queue is untouched.
pub open spec fn frames_except_fluff(pre: NodeState, post: NodeState) -> bool {
    &&& post.local_peer_id == pre.local_peer_id
    &&& post.local_destination == pre.local_destination
    &&& post.connected_peers == pre.connected_peers
    &&& post.directory == pre.directory
    &&& post.inbox == pre.inbox
}

/// Everything but the connected-peer list is untouched.
pub open spec fn frames_except_peers(pre: NodeState, post: NodeState) -> bool {
    &&& post.local_peer_id == pre.local_peer_id
    &&& post.local_destination == pre.local_destination
    &&& post.directory == pre.directory
    &&& post.inbox == pre.inbox
    &&& post.fluff == pre.fluff
}

/// Everything but the relay directory and the inbox is untouched.
pub open spec fn frames_except_routing(pre: NodeState, post: NodeState) -> bool {
    &&& post.local_peer_id == pre.local_peer_id
    &&& post.local_destination == pre.local_destination
    &&& post.connected_peers == pre.connected_peers
    &&& post.fluff == pre.fluff
}

/// What one flush decides: nothing when the queue is empty, else one fluff
/// broadcast per queued message, in queue order, and an emptied queue.
pub open spec fn flush_post(pre: NodeState, post: NodeState, acts: Seq<NetworkAction>) -> bool {
    &&& frames_except_fluff(pre, post)
    &&& (pre.fluff.messages().len() == 0 ==> post.fluff == pre.fluff && acts.len() == 0)
    &&& (pre.fluff.messages().len() > 0 ==> {
        &&& post.fluff.messages().len() == 0
        &&& !post.fluff.is_locked()
        &&& acts.len() == pre.fluff.messages().len()
        &&& forall|i: int|
            0 <= i < acts.len() ==> is_fluff_broadcast(
                #[trigger] acts[i],
                enc_message(pre.fluff.messages()[i]@),
            )
    })
}

/// What a completed connection decides: the peer joins the connected set,
/// and the local address is announced on the peer's stem topic exactly when
/// a second peer is connected — never to a sole first peer.
pub open spec fn connection_established_post(
    pre: NodeState,
    post: NodeState,
    peer: Seq<char>,
    acts: Seq<NetworkAction>,
) -> bool {
    &&& frames_except_peers(pre, post)
    &&& peer_views(post.connected_peers@) == (if has_peer(pre.connected_peers@, peer) {
        peer_views(pre.connected_peers@)
    } else {
        peer_views(pre.connected_peers@).push(peer)
    })
    &&& acts.len() <= 1
    &&& ((acts.len() == 1) <==> post.connected_peers@.len() > 1)
    &&& (acts.len() == 1 ==> is_exchange_broadcast(acts[0], peer, pre.local_destination@))
}

/// What a peer expiry decides: the peer leaves the connected set and its
/// session is torn down.
pub open spec fn peer_expired_post(
    pre: NodeState,
    post: NodeState,
    peer: Seq<char>,
    acts: Seq<NetworkAction>,
) -> bool {
    &&& frames_except_peers(pre, post)
    &&& acts.len() == 1
    &&& (acts[0] matches NetworkAction::Disconnect { peer_id } && peer_id@ == peer)
    &&& (!has_peer(pre.connected_peers@, peer) ==> post.connected_peers == pre.connected_peers)
    &&& (has_peer(pre.connected_peers@, peer) ==> exists|i: int|
        0 <= i < pre.connected_peers@.len() && (#[trigger] pre.connected_peers@[i])@ == peer
            && post.connected_peers@ == pre.connected_peers@.remove(i))
}

/// What a discovery decides: dial the advertised address.
pub open spec fn peer_discovered_post(
    pre: NodeState,
    post: NodeState,
    addr: Seq<char>,
    acts: Seq<NetworkAction>,
) -> bool {
    &&& post == pre
    &&& acts.len() == 1
    &&& (acts[0] matches NetworkAction::Connect { multiaddr } && multiaddr@ == addr)
}

/// What a gossip delivery decides: the payload is decoded (malformed bytes
/// fall back to the default message) and routed, and nothing is published.
pub open spec fn gossip_post(
    pre: NodeState,
    post: NodeState,
    source: Seq<char>,
    bytes: Seq<u8>,
    acts: Seq<NetworkAction>,
) -> bool {
    &&& frames_except_routing(pre, post)
    &&& acts.len() == 0
    &&& post.directory@ == route_spec(
        pre.directory@,
        views_of(pre.inbox@),
        gossip_view(bytes),
        source,
        pre.local_peer_id@,
    ).0
    &&& views_of(post.inbox@) == route_spec(
        pre.directory@,
        views_of(pre.inbox@),
        gossip_view(bytes),
        source,
        pre.local_peer_id@,
    ).1
}

/// What an operator line decides: a dial for an add command, one stem
/// forward for a send command when any peer is connected, nothing otherwise.
pub open spec fn operator_post(pre: NodeState, line: Seq<char>, acts: Seq<NetworkAction>) -> bool {
    &&& (add_cmd(line) ==> acts.len() == 1 && (acts[0] matches NetworkAction::Connect { multiaddr }
        && multiaddr@ == line.skip(9)))
    &&& (!add_cmd(line) && send_cmd(line) ==> {
        &&& (pre.connected_peers@.len() == 0 ==> acts.len() == 0)
        &&& (pre.connected_peers@.len() > 0 ==> acts.len() == 1 && stem_forward_ok(
            pre,
            line.skip(5),
            acts[0],
        ))
    })
    &&& (!add_cmd(line) && !send_cmd(line) ==> acts.len() == 0)
}

// ---------------------------------------------------------------------------
// The decisions
// ---------------------------------------------------------------------------

/// Draws the next timer interval: jittered below `NETWORK_FLUFF`
/// milliseconds so an observer cannot correlate flush timing with message
/// origin.
pub fn next_tick_millis() -> (r: u64)
    ensures
        r < NETWORK_FLUFF,
{
    random_below(NETWORK_FLUFF)
}

/// Whether `p` is among the connected peers.
fn contains_peer(peers: &Vec<String>, p: &String) -> (r: bool)
    ensures
        r == has_peer(peers@, p@),
{
    let n = peers.len();
    let mut i: usize = 0;
    while i < n
        invariant
            i <= n,
            n == peers.len(),
            forall|j: int| 0 <= j < i ==> (#[trigger] peers@[j])@ != p@,
        decreases n - i,
    {
        if peers[i] == *p {
            return true;
        }
        i = i + 1;
    }
    false
}

/// Picks a relay peer at random, answers with its recorded anonymous
/// address (empty when the directory has none), and attaches a fresh,
/// solvable proof-of-work puzzle to the message.
pub fn select_invisible_stem(msg: Message, peers: &Vec<String>, directory: &RelayDirectory) -> (r: (
    String,
    Message,
))
    requires
        peers.len() > 0,
        directory.wf(),
    ensures
        stem_choice(peers@, directory@, r.0@),
        r.1@ == with_problem(msg@, r.1@.pow_problem),
        solvable(r.1@.pow_problem),
{
    let idx64 = random_below(peers.len() as u64);
    let idx = idx64 as usize;
    let peer = &peers[idx];
    let address = match directory.lookup(peer) {
        Option::Some(a) => a,
        Option::None => String::new(),
    };
    let problem = generate_random_problem();
    let mut out = msg;
    out.pow_problem = problem;
    proof {
        assert(0 <= idx < peers@.len() && r_choice_witness(peers@, directory@, address@, idx as int));
    }
    (address, out)
}

/// The directory's answer for the peer at `i` is `addr`.
spec fn r_choice_witness(
    peers: Seq<String>,
    dir: Map<Seq<char>, Seq<char>>,
    addr: Seq<char>,
    i: int,
) -> bool {
    addr == (if dir.contains_key((peers[i])@) {
        dir[peers[i]@]
    } else {
        Seq::<char>::empty()
    })
}

impl NodeState {
    /// The relay directory holds no duplicate peers and every queued fluff
    /// message carries a matching proof-of-work pair, with the queue lock
    /// released.
    pub open spec fn wf(&self) -> bool {
        &&& self.directory.wf()
        &&& self.fluff.wf()
        &&& !self.fluff.is_locked()
    }

    /// A fresh node with no peers, no directory entries, an empty inbox and
    /// an empty fluff queue.
    pub fn new(local_peer_id: String, local_destination: String) -> (r: Self)
        ensures
            r.wf(),
            r.local_peer_id == local_peer_id,
            r.local_destination == local_destination,
            r.connected_peers@ == Seq::<String>::empty(),
            r.directory@ == Map::<Seq<char>, Seq<char>>::empty(),
            r.inbox@ == Seq::<Message>::empty(),
            r.fluff.messages() == Seq::<Message>::empty(),
    {
        NodeState {
            local_peer_id,
            local_destination,
            connected_peers: Vec::new(),
            directory: RelayDirectory::new(),
            inbox: Vec::new(),
            fluff: FluffQueue::new(),
        }
    }

    /// The unconditional pre-wait step of every loop iteration: when the
    /// queue is non-empty and unlocked, drain it and publish every drained
    /// message on the public fluff topic, in order.
    pub fn flush_fluff(&mut self) -> (r: Vec<NetworkAction>)
        requires
            old(self).wf(),
        ensures
            final(self).wf(),
            flush_post(*old(self), *final(self), r@),
    {
        let mut actions: Vec<NetworkAction> = Vec::new();
        if self.fluff.len() > 0 && !self.fluff.locked() {
            let batch = self.fluff.drain();
            let n = batch.len();
            let mut i: usize = 0;
            while i < n
                invariant
                    i <= n,
                    n == batch.len(),
                    batch@ == old(self).fluff.messages(),
                    actions@.len() == i,
                    forall|j: int|
                        0 <= j < i ==> is_fluff_broadcast(
                            #[trigger] actions@[j],
                            enc_message(batch@[j]@),
                        ),
                decreases n - i,
            {
                let data = encode_message(&batch[i]);
                actions.push(NetworkAction::Broadcast { topic: String::from_str("fluff"), data });
                i = i + 1;
            }
        }
        actions
    }

    /// The connection-established step, gated by the two-peer heuristic: the
    /// local address is never announced to a sole first peer, and is
    /// announced on the new peer's stem topic as soon as a second peer is
    /// connected.
    pub fn on_connection_established(&mut self, peer_id: &String) -> (r: Vec<NetworkAction>)
        requires
            old(self).wf(),
        ensures
            final(self).wf(),
            connection_established_post(*old(self), *final(self), peer_id@, r@),
    {
        if !contains_peer(&self.connected_peers, peer_id) {
            self.connected_peers.push(peer_id.clone());
            proof {
                assert(peer_views(self.connected_peers@) =~= peer_views(
                    old(self).connected_peers@,
                ).push(peer_id@));
            }
        } else {
            proof {
                assert(peer_views(self.connected_peers@) =~= peer_views(
                    old(self).connected_peers@,
                ));
            }
        }
        let mut msg: Message = Default::default();
        msg.data = self.local_destination.clone();
        msg.m_type = MessageType::B32Exchange;
        proof {
            assert(msg@ == exchange_view(self.local_destination@));
        }
        let mut actions: Vec<NetworkAction> = Vec::new();
        if self.connected_peers.len() > 1 {
            let data = encode_message(&msg);
            let topic = String::from_str("stem-").concat(peer_id.as_str());
            actions.push(NetworkAction::Broadcast { topic, data });
        }
        actions
    }

    /// The peer-expiry step: forget the peer and tear the session down.
    pub fn on_peer_expired(&mut self, peer_id: &String) -> (r: Vec<NetworkAction>)
        requires
            old(self).wf(),
        ensures
            final(self).wf(),
            peer_expired_post(*old(self), *final(self), peer_id@, r@),
    {
        let n = self.connected_peers.len();
        let mut i: usize = 0;
        let mut actions: Vec<NetworkAction> = Vec::new();
        while i < n
            invariant
                i <= n,
                n == self.connected_peers.len(),
                self == old(self),
                old(self).wf(),
                actions@ == Seq::<NetworkAction>::empty(),
                forall|j: int| 0 <= j < i ==> (#[trigger] self.connected_peers@[j])@ != peer_id@,
            decreases n - i,
        {
            if self.connected_peers[i] == *peer_id {
                self.connected_peers.remove(i);
                actions.push(NetworkAction::Disconnect { peer_id: peer_id.clone() });
                return actions;
            }
            i = i + 1;
        }
        actions.push(NetworkAction::Disconnect { peer_id: peer_id.clone() });
        actions
    }

    /// The discovery step: dial the advertised multiaddress.
    pub fn on_peer_discovered(&self, multiaddr: &String) -> (r: Vec<NetworkAction>)
        ensures
            peer_discovered_post(*self, *self, multiaddr@, r@),
    {
        let mut actions: Vec<NetworkAction> = Vec::new();
        actions.push(NetworkAction::Connect { multiaddr: multiaddr.clone() });
        actions
    }

    /// The gossip-delivery step: decode the payload (malformed bytes fall
    /// back to the default message) and route it.
    pub fn on_gossip_message(&mut self, source: &String, data: &Vec<u8>)
        requires
            old(self).wf(),
        ensures
            final(self).wf(),
            gossip_post(*old(self), *final(self), source@, data@, Seq::<NetworkAction>::empty()),
    {
        let msg: Message = match decode_message(data) {
            Option::Some(m) => m,
            Option::None => Default::default(),
        };
        proof {
            assert(msg@ == gossip_view(data@));
        }
        handle_messages(&mut self.directory, &mut self.inbox, msg, source, &self.local_peer_id);
    }

    /// The operator-input step: `add peer <ADDR>` dials the address; `send
    /// <TEXT>` forwards a stem message through a randomly selected relay,
    /// and is dropped when no peer is connected; anything else is ignored.
    pub fn on_operator_line(&self, line: &String) -> (r: Vec<NetworkAction>)
        requires
            self.wf(),
        ensures
            operator_post(*self, line@, r@),
    {
        let mut actions: Vec<NetworkAction> = Vec::new();
        let n = line.as_str().unicode_len();
        if crate::strings::match_at(line.as_str(), 0, "add peer ") {
            proof {
                reveal_strlit("add peer ");
            }
            let rest = line.as_str().substring_char(9, n);
            actions.push(NetworkAction::Connect { multiaddr: String::from_str(rest) });
        } else if crate::strings::match_at(line.as_str(), 0, "send ") {
            proof {
                reveal_strlit("send ");
            }
            if self.connected_peers.len() > 0 {
                let rest = line.as_str().substring_char(5, n);
                let mut msg: Message = Default::default();
                msg.data = String::from_str(rest);
                proof {
                    assert(msg@ == send_view(line@.skip(5)));
                }
                let (address, message) = select_invisible_stem(
                    msg,
                    &self.connected_peers,
                    &self.directory,
                );
                actions.push(NetworkAction::RelayForward { address, message });
            }
        }
        actions
    }

    /// One turn of the event loop's decision function.
    pub fn handle_event(&mut self, event: NetworkEvent) -> (r: Vec<NetworkAction>)
        requires
            old(self).wf(),
        ensures
            final(self).wf(),
            event matches NetworkEvent::OperatorLine { line } ==> *final(self) == *old(self)
                && operator_post(*old(self), line@, r@),
            event matches NetworkEvent::PeerDiscovered { peer_id, multiaddr }
                ==> peer_discovered_post(*old(self), *final(self), multiaddr@, r@),
            event matches NetworkEvent::PeerExpired { peer_id } ==> peer_expired_post(
                *old(self),
                *final(self),
                peer_id@,
                r@,
            ),
            event matches NetworkEvent::GossipMessage { source, data } ==> gossip_post(
                *old(self),
                *final(self),
                source@,
                data@,
                r@,
            ),
            event matches NetworkEvent::ConnectionEstablished { peer_id }
                ==> connection_established_post(*old(self), *final(self), peer_id@, r@),
            event matches NetworkEvent::NewListenAddr { address } ==> *final(self) == *old(self)
                && r@.len() == 0,
            event matches NetworkEvent::Tick ==> *final(self) == *old(self) && r@.len() == 0,
    {
        match event {
            NetworkEvent::OperatorLine { line } => self.on_operator_line(&line),
            NetworkEvent::PeerDiscovered { peer_id: _, multiaddr } => self.on_peer_discovered(
                &multiaddr,
            ),
            NetworkEvent::PeerExpired { peer_id } => self.on_peer_expired(&peer_id),
            NetworkEvent::GossipMessage { source, data } => {
                self.on_gossip_message(&source, &data);
                Vec::new()
            },
            NetworkEvent::ConnectionEstablished { peer_id } => self.on_connection_established(
                &peer_id,
            ),
            NetworkEvent::NewListenAddr { address: _ } => Vec::new(),
            NetworkEvent::Tick => Vec::new(),
        }
    }
}

} // verus!
