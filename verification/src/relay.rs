//! The relay directory: peer identity to anonymous address, first-write-wins.

use vstd::prelude::*;

verus! {

/// The effect of recording an address: only an absent key is written, so the
/// first address seen for a peer is kept forever.
pub open spec fn dir_insert(
    m: Map<Seq<char>, Seq<char>>,
    k: Seq<char>,
    v: Seq<char>,
) -> Map<Seq<char>, Seq<char>> {
    if m.contains_key(k) {
        m
    } else {
        m.insert(k, v)
    }
}

/// Per-peer mapping from peer identity to its anonymous-network address,
/// built from address-exchange messages.
pub struct RelayDirectory {
    entries: Vec<(String, String)>,
}

/// The mapping held by an entry list: later entries would win, but the
/// directory never keeps two entries for one key.
pub closed spec fn map_of(entries: Seq<(String, String)>) -> Map<Seq<char>, Seq<char>>
    decreases entries.len(),
{
    if entries.len() == 0 {
        Map::<Seq<char>, Seq<char>>::empty()
    } else {
        map_of(entries.drop_last()).insert(entries.last().0@, entries.last().1@)
    }
}

proof fn lemma_map_of_contains(entries: Seq<(String, String)>, k: Seq<char>)
    ensures
        map_of(entries).contains_key(k) <==> exists|i: int|
            0 <= i < entries.len() && #[trigger] entries[i].0@ == k,
    decreases entries.len(),
{
    if entries.len() > 0 {
        lemma_map_of_contains(entries.drop_last(), k);
        if entries.last().0@ == k {
            assert(entries[entries.len() - 1].0@ == k);
        } else if map_of(entries).contains_key(k) {
            let i = choose|i: int| 0 <= i < entries.drop_last().len() && #[trigger] entries.drop_last()[i].0@ == k;
            assert(entries[i].0@ == k);
        } else {
            assert forall|i: int| 0 <= i < entries.len() && #[trigger] entries[i].0@ == k implies false by {
                if i < entries.len() - 1 {
                    assert(entries.drop_last()[i].0@ == k);
                }
            }
        }
    }
}

proof fn lemma_map_of_value(entries: Seq<(String, String)>, i: int)
    requires
        0 <= i < entries.len(),
        forall|a: int, b: int|
            0 <= a < b < entries.len() ==> (#[trigger] entries[a].0@) != (#[trigger] entries[b].0@),
    ensures
        map_of(entries).contains_key(entries[i].0@),
        map_of(entries)[entries[i].0@] == entries[i].1@,
    decreases entries.len(),
{
    if i == entries.len() - 1 {
    } else {
        lemma_map_of_value(entries.drop_last(), i);
        assert(entries.drop_last()[i] == entries[i]);
        assert(entries.last().0@ != entries[i].0@);
    }
}

impl View for RelayDirectory {
    type V = Map<Seq<char>, Seq<char>>;

    closed spec fn view(&self) -> Map<Seq<char>, Seq<char>> {
        map_of(self.entries@)
    }
}

impl RelayDirectory {
    /// No key is held twice.
    pub closed spec fn wf(&self) -> bool {
        forall|a: int, b: int|
            0 <= a < b < self.entries@.len() ==> (#[trigger] self.entries@[a].0@) != (
            #[trigger] self.entries@[b].0@)
    }

    /// An empty directory.
    pub fn new() -> (r: Self)
        ensures
            r.wf(),
            r@ == Map::<Seq<char>, Seq<char>>::empty(),
    {
        RelayDirectory { entries: Vec::new() }
    }

    /// The address recorded for `peer`, if one was ever recorded.
    pub fn lookup(&self, peer: &String) -> (r: Option<String>)
        requires
            self.wf(),
        ensures
            (r is Some) == self@.contains_key(peer@),
            r matches Some(a) ==> self@[peer@] == a@,
    {
        let n = self.entries.len();
        let mut i: usize = 0;
        while i < n
            invariant
                i <= n,
                n == self.entries.len(),
                self.wf(),
                forall|j: int| 0 <= j < i ==> (#[trigger] self.entries@[j].0@) != peer@,
            decreases n - i,
        {
            if self.entries[i].0 == *peer {
                proof {
                    lemma_map_of_contains(self.entries@, peer@);
                    lemma_map_of_value(self.entries@, i as int);
                }
                return Option::Some(self.entries[i].1.clone());
            }
            i = i + 1;
        }
        proof {
            lemma_map_of_contains(self.entries@, peer@);
        }
        Option::None
    }

    /// Records `address` for `peer` unless the peer already has one:
    /// first-write-wins.
    pub fn insert_if_absent(&mut self, peer: &String, address: &String) -> (added: bool)
        requires
            old(self).wf(),
        ensures
            final(self).wf(),
            added == !old(self)@.contains_key(peer@),
            final(self)@ == dir_insert(old(self)@, peer@, address@),
    {
        let n = self.entries.len();
        let mut i: usize = 0;
        while i < n
            invariant
                i <= n,
                n == self.entries.len(),
                self.wf(),
                self == old(self),
                forall|j: int| 0 <= j < i ==> (#[trigger] self.entries@[j].0@) != peer@,
            decreases n - i,
        {
            if self.entries[i].0 == *peer {
                proof {
                    lemma_map_of_contains(self.entries@, peer@);
                }
                return false;
            }
            i = i + 1;
        }
        proof {
            lemma_map_of_contains(self.entries@, peer@);
        }
        self.entries.push((peer.clone(), address.clone()));
        proof {
            assert(self.entries@.drop_last() =~= old(self).entries@);
            assert(self.entries@.last().0@ == peer@);
            assert forall|a: int, b: int| 0 <= a < b < self.entries@.len() implies (
            #[trigger] self.entries@[a].0@) != (#[trigger] self.entries@[b].0@) by {
                if b < self.entries@.len() - 1 {
                    assert(old(self).entries@[a] == self.entries@[a]);
                    assert(old(self).entries@[b] == self.entries@[b]);
                } else {
                    assert(old(self).entries@[a] == self.entries@[a]);
                }
            }
        }
        true
    }
}

/// First-write-wins: once a peer's address is recorded, a later exchange
/// from the same peer with a different address changes nothing, and the
/// directory keeps answering with the first address.
pub proof fn lemma_first_write_wins(
    m: Map<Seq<char>, Seq<char>>,
    p: Seq<char>,
    a1: Seq<char>,
    a2: Seq<char>,
)
    requires
        !m.contains_key(p),
    ensures
        dir_insert(dir_insert(m, p, a1), p, a2) == dir_insert(m, p, a1),
        dir_insert(dir_insert(m, p, a1), p, a2)[p] == a1,
{
}

/// Writes for other peers do not disturb a recorded address, so the
/// first-write-wins outcome is independent of how exchanges from other peers
/// interleave.
pub proof fn lemma_dir_insert_frames_other_keys(
    m: Map<Seq<char>, Seq<char>>,
    p: Seq<char>,
    q: Seq<char>,
    b: Seq<char>,
)
    requires
        p != q,
        m.contains_key(p),
    ensures
        dir_insert(m, q, b).contains_key(p),
        dir_insert(m, q, b)[p] == m[p],
{
}

} // verus!
