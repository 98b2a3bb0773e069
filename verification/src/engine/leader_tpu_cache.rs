use crate::cluster::{ClientError, EpochInfo, Protocol, Pubkey, RpcContactInfo, SocketAddr};
use crate::engine::leader_tpu_map::LeaderTpuMap;
use crate::engine::recent_leaders_slot::{Slot, MAX_FANOUT_SLOTS};
use crate::outside;
use vstd::prelude::*;

verus! {

/// What was fetched to bring the cache up to date; `None` where nothing was asked for.
#[derive(Debug)]
pub struct LeaderTpuCacheUpdateInfo {
    pub maybe_cluster_nodes: Option<Result<Vec<RpcContactInfo>, ClientError>>,
    pub maybe_epoch_info: Option<Result<EpochInfo, ClientError>>,
    pub maybe_slot_leaders: Option<Result<Vec<Pubkey>, ClientError>>,
}

impl LeaderTpuCacheUpdateInfo {
    pub open spec fn spec_has_some(&self) -> bool {
        self.maybe_cluster_nodes is Some || self.maybe_epoch_info is Some
            || self.maybe_slot_leaders is Some
    }

    /// Tells whether anything was asked for.
    pub fn has_some(&self) -> (some: bool)
        ensures
            some == self.spec_has_some(),
            some == (self.maybe_cluster_nodes is Some || self.maybe_epoch_info is Some
                || self.maybe_slot_leaders is Some),
    {
        self.maybe_cluster_nodes.is_some() || self.maybe_epoch_info.is_some()
            || self.maybe_slot_leaders.is_some()
    }
}

/// The leader schedule and the sockets of the leaders, as values.
pub struct LeaderSchedule {
    pub protocol: Protocol,
    pub first_slot: Slot,
    pub leaders: Seq<Pubkey>,
    pub sockets: Map<Seq<u8>, SocketAddr>,
    pub slots_in_epoch: Slot,
    pub last_epoch_info_slot: Slot,
}

impl LeaderSchedule {
    /// The last slot with a known leader; the first slot where none is known.
    pub open spec fn last_slot(self) -> int {
        if self.leaders.len() == 0 {
            self.first_slot as int
        } else {
            self.first_slot + self.leaders.len() - 1
        }
    }

    /// The leader of `slot`, where the schedule reaches it.
    pub open spec fn leader_at(self, slot: int) -> Option<Pubkey> {
        if self.first_slot <= slot < self.first_slot + self.leaders.len() {
            Some(self.leaders[slot - self.first_slot])
        } else {
            None
        }
    }

    /// The socket of the leader of `slot`, where both are known.
    pub open spec fn socket_at(self, slot: int) -> Option<SocketAddr> {
        match self.leader_at(slot) {
            Some(leader) if self.sockets.dom().contains(leader.bytes@) => Some(
                self.sockets[leader.bytes@],
            ),
            _ => None,
        }
    }

    /// Where the lookup starts: the schedule may have advanced past the slot
    /// that the caller read.
    pub open spec fn lookup_start(self, estimated_current_slot: Slot) -> Slot {
        if estimated_current_slot >= self.first_slot {
            estimated_current_slot
        } else {
            self.first_slot
        }
    }

    /// The end of the lookup is a slot number.
    pub open spec fn lookup_fits(self, estimated_current_slot: Slot, fanout_slots: u64) -> bool {
        self.lookup_start(estimated_current_slot) + fanout_slots <= u64::MAX
    }

    /// The known sockets of the leaders from the current slot on, one for each
    /// run of consecutive slots within the fanout, in the order of their slots.
    pub open spec fn leader_sockets(
        self,
        estimated_current_slot: Slot,
        fanout_slots: u64,
    ) -> Seq<SocketAddr> {
        visited_slots(
            self.lookup_start(estimated_current_slot) as int,
            fanout_slots as int,
        ).filter_map(|slot: int| self.socket_at(slot))
    }

    /// The same sockets, each where it occurs first and nowhere else.
    pub open spec fn unique_leader_sockets(
        self,
        estimated_current_slot: Slot,
        fanout_slots: u64,
    ) -> Seq<SocketAddr> {
        self.leader_sockets(estimated_current_slot, fanout_slots).remove_duplicates(seq![])
    }

    /// The schedule after an update that arrived at `estimated_current_slot`:
    /// what was fetched replaces what was known, what failed or was not asked
    /// for stays.
    pub open spec fn updated(
        self,
        estimated_current_slot: Slot,
        info: LeaderTpuCacheUpdateInfo,
    ) -> LeaderSchedule {
        LeaderSchedule {
            protocol: self.protocol,
            first_slot: match info.maybe_slot_leaders {
                Some(Ok(_)) => estimated_current_slot,
                _ => self.first_slot,
            },
            leaders: match info.maybe_slot_leaders {
                Some(Ok(slot_leaders)) => slot_leaders@,
                _ => self.leaders,
            },
            sockets: match info.maybe_cluster_nodes {
                Some(Ok(nodes)) => cluster_tpu_sockets(self.protocol, nodes@),
                _ => self.sockets,
            },
            slots_in_epoch: match info.maybe_epoch_info {
                Some(Ok(epoch_info)) => epoch_info.slots_in_epoch,
                _ => self.slots_in_epoch,
            },
            last_epoch_info_slot: match info.maybe_epoch_info {
                Some(Ok(_)) => estimated_current_slot,
                _ => self.last_epoch_info_slot,
            },
        }
    }
}

/// The slots at which a lookup asks for a leader: every `consecutive_leader_slots`-th
/// slot of the fanout.
pub open spec fn visited_slots(start: int, fanout_slots: int) -> Seq<int> {
    let step = outside::consecutive_leader_slots() as int;
    Seq::new(((fanout_slots + step - 1) / step) as nat, |i: int| start + step * i)
}

/// Where a node takes transactions over `protocol`. A node that names no QUIC
/// socket takes QUIC at a fixed distance above its UDP port.
pub open spec fn contact_socket(protocol: Protocol, contact: RpcContactInfo) -> Option<SocketAddr> {
    match protocol {
        Protocol::UDP => contact.tpu,
        Protocol::QUIC => match (contact.tpu_quic, contact.tpu) {
            (Some(socket), _) => Some(socket),
            (None, Some(socket)) if socket.spec_port() + outside::quic_port_offset()
                <= u16::MAX => Some(
                socket.at_port((socket.spec_port() + outside::quic_port_offset()) as u16),
            ),
            _ => None,
        },
    }
}

/// The identities that the contacts spell.
pub open spec fn identities(contacts: Seq<RpcContactInfo>) -> Seq<Option<Seq<u8>>> {
    contacts.map_values(|contact: RpcContactInfo| outside::address_of(contact.pubkey@))
}

/// The sockets by identity: of two contacts with one identity the later one
/// counts, and a contact without identity or without socket does not.
pub open spec fn sockets_by_identity(
    protocol: Protocol,
    keys: Seq<Option<Seq<u8>>>,
    contacts: Seq<RpcContactInfo>,
) -> Map<Seq<u8>, SocketAddr>
    decreases contacts.len(),
{
    if contacts.len() == 0 {
        Map::empty()
    } else {
        let earlier = sockets_by_identity(protocol, keys.drop_last(), contacts.drop_last());
        match (keys.last(), contact_socket(protocol, contacts.last())) {
            (Some(key), Some(socket)) => earlier.insert(key, socket),
            _ => earlier,
        }
    }
}

/// The sockets that a list of contacts gives.
pub open spec fn cluster_tpu_sockets(protocol: Protocol, contacts: Seq<RpcContactInfo>) -> Map<
    Seq<u8>,
    SocketAddr,
> {
    sockets_by_identity(protocol, identities(contacts), contacts)
}

/// The keys, as bytes.
pub open spec fn key_bytes(keys: Seq<Option<Pubkey>>) -> Seq<Option<Seq<u8>>> {
    keys.map_values(
        |key: Option<Pubkey>|
            match key {
                Some(key) => Some(key.bytes@),
                None => None,
            },
    )
}

/// The socket of one contact.
pub fn tpu_socket(protocol: Protocol, contact: &RpcContactInfo) -> (socket: Option<SocketAddr>)
    ensures
        socket == contact_socket(protocol, *contact),
{
    match protocol {
        Protocol::UDP => contact.tpu,
        Protocol::QUIC => match contact.tpu_quic {
            Some(socket) => Some(socket),
            None => match contact.tpu {
                Some(mut socket) => match socket.port().checked_add(outside::quic_offset()) {
                    Some(port) => {
                        socket.set_port(port);
                        Some(socket)
                    },
                    None => None,
                },
                None => None,
            },
        },
    }
}

/// Collects the sockets of the contacts whose identities are `keys`.
pub fn collect_tpu_sockets(
    protocol: Protocol,
    keys: &Vec<Option<Pubkey>>,
    contacts: &Vec<RpcContactInfo>,
) -> (map: LeaderTpuMap)
    requires
        keys@.len() == contacts@.len(),
    ensures
        map.wf(),
        map@ == sockets_by_identity(protocol, key_bytes(keys@), contacts@),
{
    let mut map = LeaderTpuMap::new();
    let mut next: usize = 0;
    while next < contacts.len()
        invariant
            next <= contacts@.len(),
            keys@.len() == contacts@.len(),
            map.wf(),
            map@ == sockets_by_identity(
                protocol,
                key_bytes(keys@).take(next as int),
                contacts@.take(next as int),
            ),
        decreases contacts@.len() - next,
    {
        proof {
            let k = key_bytes(keys@).take(next + 1);
            let c = contacts@.take(next + 1);
            assert(k.drop_last() =~= key_bytes(keys@).take(next as int));
            assert(c.drop_last() =~= contacts@.take(next as int));
        }
        if let Some(key) = keys[next] {
            if let Some(socket) = tpu_socket(protocol, &contacts[next]) {
                map.insert(key, socket);
            }
        }
        next = next + 1;
    }
    assert(key_bytes(keys@).take(next as int) =~= key_bytes(keys@));
    assert(contacts@.take(next as int) =~= contacts@);
    map
}

/// The leader schedule of a range of slots, with the sockets of the leaders.
#[derive(Debug)]
pub struct LeaderTpuCache {
    protocol: Protocol,
    first_slot: Slot,
    leaders: Vec<Pubkey>,
    leader_tpu_map: LeaderTpuMap,
    slots_in_epoch: Slot,
    last_epoch_info_slot: Slot,
}

impl View for LeaderTpuCache {
    type V = LeaderSchedule;

    closed spec fn view(&self) -> LeaderSchedule {
        LeaderSchedule {
            protocol: self.protocol,
            first_slot: self.first_slot,
            leaders: self.leaders@,
            sockets: self.leader_tpu_map@,
            slots_in_epoch: self.slots_in_epoch,
            last_epoch_info_slot: self.last_epoch_info_slot,
        }
    }
}

impl LeaderTpuCache {
    /// No leader has two sockets.
    pub closed spec fn wf(&self) -> bool {
        self.leader_tpu_map.wf()
    }

    pub fn new(
        first_slot: Slot,
        slots_in_epoch: Slot,
        leaders: Vec<Pubkey>,
        cluster_nodes: Vec<RpcContactInfo>,
        protocol: Protocol,
    ) -> (cache: Self)
        ensures
            cache.wf(),
            cache@ == (LeaderSchedule {
                protocol,
                first_slot,
                leaders: leaders@,
                sockets: cluster_tpu_sockets(protocol, cluster_nodes@),
                slots_in_epoch,
                last_epoch_info_slot: first_slot,
            }),
    {
        let leader_tpu_map = Self::extract_cluster_tpu_sockets(protocol, &cluster_nodes);
        LeaderTpuCache {
            protocol,
            first_slot,
            leaders,
            leader_tpu_map,
            slots_in_epoch,
            last_epoch_info_slot: first_slot,
        }
    }

    /// The last slot that has a cached leader.
    pub fn last_slot(&self) -> (slot: Slot)
        requires
            self@.last_slot() <= u64::MAX,
        ensures
            slot == self@.last_slot(),
    {
        if self.leaders.len() == 0 {
            self.first_slot
        } else {
            self.first_slot + (self.leaders.len() - 1) as u64
        }
    }

    /// Tells whether the last cached slot is a slot number.
    pub fn last_slot_fits(&self) -> (fits: bool)
        ensures
            fits == (self@.last_slot() <= u64::MAX),
    {
        self.leaders.len() == 0 || (self.leaders.len() - 1) as u64 <= u64::MAX - self.first_slot
    }

    /// The last slot that has a cached leader, the slot of the last epoch
    /// information, and the length of the epoch.
    pub fn slot_info(&self) -> (info: (Slot, Slot, Slot))
        requires
            self@.last_slot() <= u64::MAX,
        ensures
            info.0 == self@.last_slot(),
            info.1 == self@.last_epoch_info_slot,
            info.2 == self@.slots_in_epoch,
    {
        (self.last_slot(), self.last_epoch_info_slot, self.slots_in_epoch)
    }

    /// The TPU sockets of the current leader and the upcoming leaders within
    /// the fanout, each socket once.
    pub fn get_unique_leader_sockets(
        &self,
        estimated_current_slot: Slot,
        fanout_slots: u64,
    ) -> (sockets: Vec<SocketAddr>)
        requires
            self.wf(),
            self@.lookup_fits(estimated_current_slot, fanout_slots),
        ensures
            sockets@ == self@.unique_leader_sockets(estimated_current_slot, fanout_slots),
    {
        let all: Vec<SocketAddr> = self.get_leader_sockets(estimated_current_slot, fanout_slots);
        let mut unique: Vec<SocketAddr> = Vec::new();
        let mut next: usize = 0;
        proof {
            assert(all@.take(0) =~= seq![]);
        }
        while next < all.len()
            invariant
                next <= all@.len(),
                unique@ == all@.take(next as int).remove_duplicates(seq![]),
            decreases all@.len() - next,
        {
            let socket: SocketAddr = all[next];
            proof {
                let front = all@.take(next as int);
                assert(all@.take(next + 1) =~= front + seq![socket]);
                assert(front + Seq::<SocketAddr>::empty() =~= front);
                front.lemma_remove_duplicates_append(socket, seq![]);
                front.lemma_remove_duplicates_properties(seq![]);
            }
            if !holds_socket(&unique, socket) {
                unique.push(socket);
            }
            next = next + 1;
        }
        assert(all@.take(next as int) =~= all@);
        unique
    }

    /// The TPU sockets of the current leader and the upcoming leaders within
    /// the fanout.
    pub fn get_leader_sockets(
        &self,
        estimated_current_slot: Slot,
        fanout_slots: u64,
    ) -> (sockets: Vec<SocketAddr>)
        requires
            self.wf(),
            self@.lookup_fits(estimated_current_slot, fanout_slots),
        ensures
            sockets@ == self@.leader_sockets(estimated_current_slot, fanout_slots),
    {
        let step: u64 = outside::num_consecutive_leader_slots();
        let start: Slot = if estimated_current_slot >= self.first_slot {
            estimated_current_slot
        } else {
            self.first_slot
        };
        let ghost visited = visited_slots(start as int, fanout_slots as int);
        let ghost socket_at = |slot: int| self@.socket_at(slot);
        let mut sockets: Vec<SocketAddr> = Vec::new();
        let mut slot: Slot = start;
        let mut left: u64 = fanout_slots;
        let ghost mut seen: int = 0;
        while left > 0
            invariant
                self.wf(),
                step == outside::consecutive_leader_slots(),
                start + fanout_slots <= u64::MAX,
                visited == visited_slots(start as int, fanout_slots as int),
                socket_at == (|slot: int| self@.socket_at(slot)),
                0 <= seen <= visited.len(),
                left == 0 ==> seen == visited.len(),
                left > 0 ==> left == fanout_slots - 4 * seen && slot == start + 4 * seen,
                sockets@ == visited.take(seen).filter_map(socket_at),
            decreases left,
        {
            proof {
                assert(seen < visited.len());
                assert(visited[seen] == slot);
                visited.lemma_filter_map_take_succ(socket_at, seen);
            }
            if let Some(leader) = self.get_slot_leader(slot) {
                if let Some(socket) = self.leader_tpu_map.get(leader) {
                    sockets.push(socket);
                }
            }
            proof {
                assert(sockets@ =~= visited.take(seen + 1).filter_map(socket_at));
                seen = seen + 1;
            }
            if left <= step {
                left = 0;
            } else {
                left = left - step;
                slot = slot + step;
            }
        }
        assert(visited.take(seen) =~= visited);
        sockets
    }

    /// Tells whether the end of a lookup is a slot number.
    pub fn lookup_in_range(&self, estimated_current_slot: Slot, fanout_slots: u64) -> (fits: bool)
        ensures
            fits == self@.lookup_fits(estimated_current_slot, fanout_slots),
    {
        estimated_current_slot <= u64::MAX - fanout_slots && self.first_slot <= u64::MAX
            - fanout_slots
    }

    /// The leader of `slot`, where the cache reaches it.
    pub fn get_slot_leader(&self, slot: Slot) -> (leader: Option<&Pubkey>)
        ensures
            leader is Some <==> self@.leader_at(slot as int) is Some,
            leader matches Some(l) ==> self@.leader_at(slot as int) == Some(*l),
    {
        if slot >= self.first_slot && slot - self.first_slot < self.leaders.len() as u64 {
            Some(&self.leaders[(slot - self.first_slot) as usize])
        } else {
            None
        }
    }

    /// The sockets that a list of contacts gives.
    pub fn extract_cluster_tpu_sockets(
        protocol: Protocol,
        cluster_contact_info: &Vec<RpcContactInfo>,
    ) -> (map: LeaderTpuMap)
        ensures
            map.wf(),
            map@ == cluster_tpu_sockets(protocol, cluster_contact_info@),
    {
        let mut keys: Vec<Option<Pubkey>> = Vec::new();
        let mut next: usize = 0;
        while next < cluster_contact_info.len()
            invariant
                next <= cluster_contact_info@.len(),
                key_bytes(keys@) == identities(cluster_contact_info@).take(next as int),
                keys@.len() == next,
            decreases cluster_contact_info@.len() - next,
        {
            let ghost before = keys@;
            let key = outside::parse_pubkey(cluster_contact_info[next].pubkey.as_str());
            keys.push(key);
            next = next + 1;
            proof {
                let all = identities(cluster_contact_info@);
                assert(key_bytes(keys@) =~= key_bytes(before).push(all[next - 1]));
                assert(all.take(next as int) =~= all.take(next - 1).push(all[next - 1]));
            }
        }
        assert(identities(cluster_contact_info@).take(next as int) =~= identities(
            cluster_contact_info@,
        ));
        collect_tpu_sockets(protocol, &keys, cluster_contact_info)
    }

    /// How many slots of the leader schedule to ask for.
    pub fn fanout(slots_in_epoch: Slot) -> (slots: Slot)
        ensures
            slots == schedule_fanout(slots_in_epoch),
            slots == if slots_in_epoch < 200 {
                slots_in_epoch
            } else {
                200
            },
    {
        if 2 * MAX_FANOUT_SLOTS <= slots_in_epoch {
            2 * MAX_FANOUT_SLOTS
        } else {
            slots_in_epoch
        }
    }

    /// Takes over what was fetched. Tells whether the contacts or the leaders
    /// could not be fetched, and whether the contacts are fresh.
    pub fn update_all(
        &mut self,
        estimated_current_slot: Slot,
        cache_update_info: LeaderTpuCacheUpdateInfo,
    ) -> (outcome: (bool, bool))
        requires
            old(self).wf(),
        ensures
            final(self).wf(),
            final(self)@ == old(self)@.updated(estimated_current_slot, cache_update_info),
            final(self)@.protocol == old(self)@.protocol,
            !(cache_update_info.maybe_cluster_nodes matches Some(Ok(_))) ==> final(self)@.sockets
                == old(self)@.sockets,
            !(cache_update_info.maybe_epoch_info matches Some(Ok(_))) ==> final(self)@.slots_in_epoch
                == old(self)@.slots_in_epoch && final(self)@.last_epoch_info_slot
                == old(self)@.last_epoch_info_slot,
            !(cache_update_info.maybe_slot_leaders matches Some(Ok(_))) ==> final(self)@.first_slot
                == old(self)@.first_slot && final(self)@.leaders == old(self)@.leaders,
            outcome.0 == ((cache_update_info.maybe_cluster_nodes matches Some(Err(_))) || (
            cache_update_info.maybe_slot_leaders matches Some(Err(_)))),
            outcome.0 == update_failed(cache_update_info),
            outcome.1 == (cache_update_info.maybe_cluster_nodes matches Some(Ok(_))),
    {
        let mut has_error: bool = false;
        let mut cluster_refreshed: bool = false;
        match cache_update_info.maybe_cluster_nodes {
            Some(Ok(cluster_nodes)) => {
                self.leader_tpu_map =
                Self::extract_cluster_tpu_sockets(self.protocol, &cluster_nodes);
                cluster_refreshed = true;
            },
            Some(Err(_)) => {
                has_error = true;
            },
            None => {},
        }
        if let Some(Ok(epoch_info)) = cache_update_info.maybe_epoch_info {
            self.slots_in_epoch = epoch_info.slots_in_epoch;
            self.last_epoch_info_slot = estimated_current_slot;
        }
        match cache_update_info.maybe_slot_leaders {
            Some(Ok(slot_leaders)) => {
                self.first_slot = estimated_current_slot;
                self.leaders = slot_leaders;
            },
            Some(Err(_)) => {
                has_error = true;
            },
            None => {},
        }
        (has_error, cluster_refreshed)
    }
}

/// Twice the largest fanout, or the whole epoch where that is shorter.
pub open spec fn schedule_fanout(slots_in_epoch: Slot) -> Slot {
    if slots_in_epoch < 2 * MAX_FANOUT_SLOTS {
        slots_in_epoch
    } else {
        (2 * MAX_FANOUT_SLOTS) as u64
    }
}

/// The contacts or the leaders were asked for and could not be fetched. Epoch
/// information that could not be fetched does not count.
pub open spec fn update_failed(info: LeaderTpuCacheUpdateInfo) -> bool {
    (info.maybe_cluster_nodes matches Some(Err(_))) || (info.maybe_slot_leaders matches Some(
        Err(_),
    ))
}

fn holds_socket(sockets: &Vec<SocketAddr>, socket: SocketAddr) -> (found: bool)
    ensures
        found == sockets@.contains(socket),
{
    let mut next: usize = 0;
    while next < sockets.len()
        invariant
            next <= sockets@.len(),
            forall|i: int| 0 <= i < next ==> sockets@[i] != socket,
        decreases sockets@.len() - next,
    {
        if sockets[next] == socket {
            return true;
        }
        next = next + 1;
    }
    false
}

} // verus!
