use crate::cluster::{Pubkey, SocketAddr};
use vstd::prelude::*;

verus! {

/// Where each leader takes transactions. No leader occurs twice.
#[derive(Debug)]
pub struct LeaderTpuMap {
    entries: Vec<(Pubkey, SocketAddr)>,
}

impl View for LeaderTpuMap {
    type V = Map<Seq<u8>, SocketAddr>;

    closed spec fn view(&self) -> Map<Seq<u8>, SocketAddr> {
        Map::new(
            |key: Seq<u8>| exists|i: int| self.holds(i, key),
            |key: Seq<u8>| self.entries@[choose|i: int| self.holds(i, key)].1,
        )
    }
}

impl LeaderTpuMap {
    spec fn holds(&self, i: int, key: Seq<u8>) -> bool {
        0 <= i < self.entries@.len() && self.entries@[i].0.bytes@ == key
    }

    /// No leader occurs twice.
    pub closed spec fn wf(&self) -> bool {
        forall|i: int, j: int|
            0 <= i < j < self.entries@.len() ==> #[trigger] self.entries@[i].0.bytes@
                != #[trigger] self.entries@[j].0.bytes@
    }

    pub fn new() -> (map: Self)
        ensures
            map.wf(),
            map@ == Map::<Seq<u8>, SocketAddr>::empty(),
    {
        let map = LeaderTpuMap { entries: Vec::new() };
        assert(map@ =~= Map::<Seq<u8>, SocketAddr>::empty());
        map
    }

    /// The socket of `leader`, where one is known.
    pub fn get(&self, leader: &Pubkey) -> (socket: Option<SocketAddr>)
        requires
            self.wf(),
        ensures
            socket is Some <==> self@.dom().contains(leader.bytes@),
            socket matches Some(s) ==> s == self@[leader.bytes@],
    {
        let found: usize = self.position(leader);
        if found < self.entries.len() {
            proof {
                self.lemma_entry(found as int);
            }
            Some(self.entries[found].1)
        } else {
            None
        }
    }

    /// Sets the socket of `leader`, in place of an earlier one.
    pub fn insert(&mut self, leader: Pubkey, socket: SocketAddr)
        requires
            old(self).wf(),
        ensures
            final(self).wf(),
            final(self)@ == old(self)@.insert(leader.bytes@, socket),
    {
        let ghost before = *self;
        let found: usize = self.position(&leader);
        if found < self.entries.len() {
            self.entries.set(found, (leader, socket));
        } else {
            self.entries.push((leader, socket));
        }
        proof {
            assert(self.entries@[found as int] == (leader, socket));
            assert(forall|i: int|
                0 <= i < self.entries@.len() && i != found ==> self.entries@[i]
                    == before.entries@[i]);
            assert(self.wf());
            assert forall|key: Seq<u8>| #[trigger]
                self@.dom().contains(key) == before@.insert(leader.bytes@, socket).dom().contains(
                    key,
                ) by {
                if key == leader.bytes@ {
                    assert(self.holds(found as int, key));
                } else if before@.dom().contains(key) {
                    let i = choose|i: int| before.holds(i, key);
                    assert(i != found);
                    assert(self.holds(i, key));
                } else if self@.dom().contains(key) {
                    let i = choose|i: int| self.holds(i, key);
                    assert(before.holds(i, key));
                }
            }
            assert forall|key: Seq<u8>| #[trigger] self@.dom().contains(key) implies self@[key]
                == before@.insert(leader.bytes@, socket)[key] by {
                let i = choose|i: int| self.holds(i, key);
                self.lemma_entry(i);
                if i != found {
                    before.lemma_entry(i);
                }
            }
            assert(self@ =~= before@.insert(leader.bytes@, socket));
        }
    }

    proof fn lemma_entry(&self, i: int)
        requires
            self.wf(),
            0 <= i < self.entries@.len(),
        ensures
            self@.dom().contains(self.entries@[i].0.bytes@),
            self@[self.entries@[i].0.bytes@] == self.entries@[i].1,
    {
        let key = self.entries@[i].0.bytes@;
        assert(self.holds(i, key));
        let j = choose|j: int| self.holds(j, key);
        assert(self.entries@[j].0.bytes@ == key);
        assert(i == j);
    }

    fn position(&self, leader: &Pubkey) -> (found: usize)
        ensures
            found <= self.entries@.len(),
            found < self.entries@.len() ==> self.entries@[found as int].0.bytes@ == leader.bytes@,
            found == self.entries@.len() ==> !self@.dom().contains(leader.bytes@) && forall|i: int|
                0 <= i < found ==> #[trigger] self.entries@[i].0.bytes@ != leader.bytes@,
    {
        let mut next: usize = 0;
        while next < self.entries.len()
            invariant
                next <= self.entries@.len(),
                forall|i: int|
                    0 <= i < next ==> #[trigger] self.entries@[i].0.bytes@ != leader.bytes@,
            decreases self.entries@.len() - next,
        {
            if self.entries[next].0.same_as(leader) {
                return next;
            }
            proof {
                let key = self.entries@[next as int].0;
                if key.bytes@ == leader.bytes@ {
                    assert(key.bytes =~= leader.bytes);
                }
            }
            next = next + 1;
        }
        proof {
            if self@.dom().contains(leader.bytes@) {
                let i = choose|i: int| self.holds(i, leader.bytes@);
                assert(self.entries@[i].0.bytes@ == leader.bytes@);
            }
        }
        next
    }
}

} // verus!
