//! What holds of every lookup in the leader cache and of every update of it.

use crate::cluster::{ClientError, EpochInfo, Protocol, Pubkey, RpcContactInfo, SocketAddr};
use crate::engine::leader_tpu_cache;
use crate::engine::leader_tpu_cache::{LeaderSchedule, LeaderTpuCacheUpdateInfo};
use crate::engine::recent_leaders_slot::Slot;
use crate::ordering;
use crate::outside;
use vstd::prelude::*;

verus! {

/// A lookup asks at the current slot first, and never outside the fanout.
pub proof fn law_lookup_stays_in_the_fanout(start: int, fanout_slots: int)
    requires
        0 <= fanout_slots,
    ensures
        forall|i: int|
            0 <= i < leader_tpu_cache::visited_slots(start, fanout_slots).len() ==> start
                <= #[trigger] leader_tpu_cache::visited_slots(start, fanout_slots)[i] < start
                + fanout_slots,
        fanout_slots > 0 ==> leader_tpu_cache::visited_slots(start, fanout_slots).len() > 0
            && leader_tpu_cache::visited_slots(start, fanout_slots)[0] == start,
{
}

/// Of any run of slots that one leader has, and that lies in the fanout, a
/// lookup asks at exactly one: no upcoming leader is missed, none is asked
/// for twice in one run.
pub proof fn law_every_run_is_visited_once(start: int, fanout_slots: int, run: int)
    requires
        start <= run,
        run + outside::consecutive_leader_slots() <= start + fanout_slots,
    ensures
        exists|i: int|
            0 <= i < leader_tpu_cache::visited_slots(start, fanout_slots).len() && run
                <= #[trigger] leader_tpu_cache::visited_slots(start, fanout_slots)[i] < run
                + outside::consecutive_leader_slots(),
        forall|i: int, j: int|
            0 <= i < j < leader_tpu_cache::visited_slots(start, fanout_slots).len() ==> !(run
                <= #[trigger] leader_tpu_cache::visited_slots(start, fanout_slots)[i] < run
                + outside::consecutive_leader_slots() && run
                <= #[trigger] leader_tpu_cache::visited_slots(start, fanout_slots)[j] < run
                + outside::consecutive_leader_slots()),
{
    let visited = leader_tpu_cache::visited_slots(start, fanout_slots);
    let i = (run - start + 3) / 4;
    assert(run <= start + 4 * i < run + 4);
    assert(0 <= i < visited.len());
    assert(visited[i] == start + 4 * i);
}

/// A socket is looked up exactly where it is the known socket of the leader of
/// a slot at which the lookup asks, and there is at most one for each such slot.
pub proof fn law_sockets_are_those_of_leaders(
    schedule: LeaderSchedule,
    estimated_current_slot: Slot,
    fanout_slots: u64,
)
    ensures
        forall|socket: SocketAddr| #[trigger]
            schedule.leader_sockets(estimated_current_slot, fanout_slots).contains(socket)
                <==> exists|slot: int|
                #![trigger schedule.socket_at(slot)]
                leader_tpu_cache::visited_slots(
                    schedule.lookup_start(estimated_current_slot) as int,
                    fanout_slots as int,
                ).contains(slot) && schedule.socket_at(slot) == Some(socket),
        schedule.leader_sockets(estimated_current_slot, fanout_slots).len()
            <= leader_tpu_cache::visited_slots(
            schedule.lookup_start(estimated_current_slot) as int,
            fanout_slots as int,
        ).len(),
{
    let visited = leader_tpu_cache::visited_slots(
        schedule.lookup_start(estimated_current_slot) as int,
        fanout_slots as int,
    );
    let socket_at = |slot: int| schedule.socket_at(slot);
    assert forall|socket: SocketAddr| #[trigger]
        schedule.leader_sockets(estimated_current_slot, fanout_slots).contains(
            socket,
        ) <==> exists|slot: int|
        #![trigger schedule.socket_at(slot)]
        visited.contains(slot) && schedule.socket_at(slot) == Some(socket) by {
        if visited.filter_map(socket_at).contains(socket) {
            visited.lemma_filter_map_contains(socket_at, socket);
            let slot = choose|slot: int| #[trigger]
                visited.contains(slot) && socket_at(slot) == Some(socket);
            assert(schedule.socket_at(slot) == Some(socket));
        }
        if exists|slot: int|
            #![trigger schedule.socket_at(slot)]
            visited.contains(slot) && schedule.socket_at(slot) == Some(socket) {
            let slot = choose|slot: int|
                #![trigger schedule.socket_at(slot)]
                visited.contains(slot) && schedule.socket_at(slot) == Some(socket);
            lemma_filter_map_holds(visited, socket_at, slot, socket);
        }
    }
    lemma_filter_map_is_no_longer(visited, socket_at);
}

proof fn lemma_filter_map_holds(
    slots: Seq<int>,
    socket_at: spec_fn(int) -> Option<SocketAddr>,
    slot: int,
    socket: SocketAddr,
)
    requires
        slots.contains(slot),
        socket_at(slot) == Some(socket),
    ensures
        slots.filter_map(socket_at).contains(socket),
    decreases slots.len(),
{
    let rest = slots.drop_last();
    let found = slots.filter_map(socket_at);
    let earlier = rest.filter_map(socket_at);
    if slots.last() == slot {
        assert(found[found.len() - 1] == socket);
    } else {
        let i = choose|i: int| 0 <= i < slots.len() && slots[i] == slot;
        assert(rest[i] == slot);
        lemma_filter_map_holds(rest, socket_at, slot, socket);
        let j = choose|j: int| 0 <= j < earlier.len() && earlier[j] == socket;
        assert(found[j] == socket);
    }
}

proof fn lemma_filter_map_is_no_longer(
    slots: Seq<int>,
    socket_at: spec_fn(int) -> Option<SocketAddr>,
)
    ensures
        slots.filter_map(socket_at).len() <= slots.len(),
    decreases slots.len(),
{
    if slots.len() > 0 {
        lemma_filter_map_is_no_longer(slots.drop_last(), socket_at);
    }
}

/// The unique sockets are the looked-up sockets, none twice, in the order in
/// which they occur first: wherever a later one occurs in the lookup, each
/// earlier one occurs before it.
pub proof fn law_unique_sockets_keep_first_occurrences(
    schedule: LeaderSchedule,
    estimated_current_slot: Slot,
    fanout_slots: u64,
)
    ensures
        schedule.unique_leader_sockets(estimated_current_slot, fanout_slots).no_duplicates(),
        forall|socket: SocketAddr|
            schedule.unique_leader_sockets(estimated_current_slot, fanout_slots).contains(socket)
                <==> #[trigger] schedule.leader_sockets(
                estimated_current_slot,
                fanout_slots,
            ).contains(socket),
        forall|i: int, j: int, q: int|
            #![trigger schedule.unique_leader_sockets(estimated_current_slot, fanout_slots)[i], schedule.unique_leader_sockets(estimated_current_slot, fanout_slots)[j], schedule.leader_sockets(estimated_current_slot, fanout_slots)[q]]
            0 <= i < j < schedule.unique_leader_sockets(estimated_current_slot, fanout_slots).len()
                && 0 <= q < schedule.leader_sockets(estimated_current_slot, fanout_slots).len()
                && schedule.leader_sockets(estimated_current_slot, fanout_slots)[q]
                == schedule.unique_leader_sockets(estimated_current_slot, fanout_slots)[j]
                ==> schedule.leader_sockets(estimated_current_slot, fanout_slots).take(q).contains(
                schedule.unique_leader_sockets(estimated_current_slot, fanout_slots)[i],
            ),
{
    let all = schedule.leader_sockets(estimated_current_slot, fanout_slots);
    let unique = schedule.unique_leader_sockets(estimated_current_slot, fanout_slots);
    lemma_first_occurrences(all);
    assert(all + Seq::<SocketAddr>::empty() =~= all);
    all.lemma_remove_duplicates_properties(seq![]);
    assert forall|socket: SocketAddr| unique.contains(socket) <==> #[trigger] all.contains(
        socket,
    ) by {
        assert((all + Seq::<SocketAddr>::empty()).contains(socket) <==> unique.contains(socket));
    }
}

proof fn lemma_first_occurrences(all: Seq<SocketAddr>)
    ensures
        all.remove_duplicates(seq![]).no_duplicates(),
        forall|i: int, j: int, q: int|
            #![trigger all.remove_duplicates(seq![])[i], all.remove_duplicates(seq![])[j], all[q]]
            0 <= i < j < all.remove_duplicates(seq![]).len() && 0 <= q < all.len() && all[q]
                == all.remove_duplicates(seq![])[j] ==> all.take(q).contains(
                all.remove_duplicates(seq![])[i],
            ),
    decreases all.len(),
{
    if all.len() > 0 {
        let front = all.drop_last();
        let last = all.last();
        let none = Seq::<SocketAddr>::empty();
        lemma_first_occurrences(front);
        assert(all =~= front + seq![last]);
        assert(front + none =~= front);
        front.lemma_remove_duplicates_append(last, none);
        front.lemma_remove_duplicates_properties(none);
        let kept = front.remove_duplicates(none);
        let unique = all.remove_duplicates(none);
        assert(seq![] =~= none);
        assert forall|i: int, j: int, q: int|
            #![trigger unique[i], unique[j], all[q]]
            0 <= i < j < unique.len() && 0 <= q < all.len() && all[q]
                == unique[j] implies all.take(q).contains(unique[i]) by {
            assert(unique[i] == kept[i]);
            if q < front.len() {
                assert(front[q] == all[q]);
                assert(front.take(q) =~= all.take(q));
                if j < kept.len() {
                    assert(kept[j] == unique[j]);
                } else {
                    assert(front.contains(front[q]));
                }
            } else {
                assert(all.take(q) =~= front);
                assert(kept.contains(kept[i]));
                assert((front + none).contains(kept[i]));
            }
        }
    }
}

/// There are no more unique sockets than runs of consecutive slots in the fanout.
pub proof fn law_fanout_bounds_the_targets(
    schedule: LeaderSchedule,
    estimated_current_slot: Slot,
    fanout_slots: u64,
)
    ensures
        schedule.unique_leader_sockets(estimated_current_slot, fanout_slots).len() <= (fanout_slots
            + outside::consecutive_leader_slots() - 1)
            / outside::consecutive_leader_slots() as int,
{
    law_sockets_are_those_of_leaders(schedule, estimated_current_slot, fanout_slots);
    schedule.leader_sockets(
        estimated_current_slot,
        fanout_slots,
    ).lemma_remove_duplicates_properties(seq![]);
}

/// A caller that read its slot before the schedule advanced is served from the
/// start of the schedule.
pub proof fn law_stale_slot_reads_the_latest_schedule(
    schedule: LeaderSchedule,
    stale_slot: Slot,
    fanout_slots: u64,
)
    requires
        stale_slot <= schedule.first_slot,
    ensures
        schedule.leader_sockets(stale_slot, fanout_slots) == schedule.leader_sockets(
            schedule.first_slot,
            fanout_slots,
        ),
{
}

/// `i` is the last of the contacts with identity `key` that has a socket.
pub open spec fn is_last_usable(
    protocol: Protocol,
    keys: Seq<Option<Seq<u8>>>,
    contacts: Seq<RpcContactInfo>,
    key: Seq<u8>,
    i: int,
) -> bool {
    &&& 0 <= i < contacts.len()
    &&& keys[i] == Some(key)
    &&& leader_tpu_cache::contact_socket(protocol, contacts[i]) is Some
    &&& forall|j: int|
        i < j < contacts.len() && #[trigger] keys[j] == Some(key)
            ==> leader_tpu_cache::contact_socket(protocol, contacts[j]) is None
}

/// An identity has a socket exactly where one of its contacts has one, and it
/// is the socket of the last such contact.
pub proof fn law_last_usable_contact_counts(
    protocol: Protocol,
    keys: Seq<Option<Seq<u8>>>,
    contacts: Seq<RpcContactInfo>,
    key: Seq<u8>,
)
    requires
        keys.len() == contacts.len(),
    ensures
        leader_tpu_cache::sockets_by_identity(protocol, keys, contacts).dom().contains(key)
            <==> exists|i: int| is_last_usable(protocol, keys, contacts, key, i),
        forall|i: int| #[trigger]
            is_last_usable(protocol, keys, contacts, key, i) ==> Some(
                leader_tpu_cache::sockets_by_identity(protocol, keys, contacts)[key],
            ) == leader_tpu_cache::contact_socket(protocol, contacts[i]),
    decreases contacts.len(),
{
    if contacts.len() > 0 {
        let k = keys.drop_last();
        let c = contacts.drop_last();
        let end = contacts.len() - 1;
        law_last_usable_contact_counts(protocol, k, c, key);
        if keys[end] == Some(key) && leader_tpu_cache::contact_socket(
            protocol,
            contacts[end],
        ) is Some {
            assert(is_last_usable(protocol, keys, contacts, key, end));
            assert forall|i: int| #[trigger]
                is_last_usable(protocol, keys, contacts, key, i) implies i == end by {
                assert(keys[end] == Some(key));
            }
        } else {
            assert forall|i: int|
                is_last_usable(protocol, keys, contacts, key, i) <==> is_last_usable(
                    protocol,
                    k,
                    c,
                    key,
                    i,
                ) by {
                if is_last_usable(protocol, keys, contacts, key, i) {
                    assert(i < end);
                    assert forall|j: int|
                        i < j < c.len() && #[trigger] k[j] == Some(
                            key,
                        ) implies leader_tpu_cache::contact_socket(protocol, c[j]) is None by {
                        assert(keys[j] == Some(key));
                    }
                }
                if is_last_usable(protocol, k, c, key, i) {
                    assert forall|j: int|
                        i < j < contacts.len() && #[trigger] keys[j] == Some(
                            key,
                        ) implies leader_tpu_cache::contact_socket(protocol, contacts[j]) is None by {
                        if j < end {
                            assert(k[j] == Some(key));
                        }
                    }
                }
            }
        }
    }
}

/// What failed or was not asked for changes nothing.
pub proof fn law_failed_update_changes_nothing(
    schedule: LeaderSchedule,
    estimated_current_slot: Slot,
    info: LeaderTpuCacheUpdateInfo,
)
    requires
        !(info.maybe_cluster_nodes matches Some(Ok(_))),
        !(info.maybe_epoch_info matches Some(Ok(_))),
        !(info.maybe_slot_leaders matches Some(Ok(_))),
    ensures
        schedule.updated(estimated_current_slot, info) == schedule,
{
}

/// After leaders were fetched, the leader of the `i`-th slot from the current
/// one on is the `i`-th that was fetched, and no other slot has a leader.
pub proof fn law_fetched_leaders_are_served(
    schedule: LeaderSchedule,
    estimated_current_slot: Slot,
    info: LeaderTpuCacheUpdateInfo,
    slot: int,
)
    requires
        info.maybe_slot_leaders matches Some(Ok(_)),
    ensures
        info.maybe_slot_leaders matches Some(Ok(leaders)) && schedule.updated(
            estimated_current_slot,
            info,
        ).leader_at(slot) == if 0 <= slot - estimated_current_slot < leaders@.len() {
            Some(leaders@[slot - estimated_current_slot])
        } else {
            None
        },
{
}

/// After leaders and contacts were fetched, the leader of a slot is reached where
/// its last usable contact says, and not at all where it has none.
pub proof fn law_leader_is_reached_at_its_last_contact(
    schedule: LeaderSchedule,
    estimated_current_slot: Slot,
    info: LeaderTpuCacheUpdateInfo,
    leaders: Vec<Pubkey>,
    nodes: Vec<RpcContactInfo>,
    slot: int,
    leader: Pubkey,
)
    requires
        info.maybe_slot_leaders == Some(Ok::<Vec<Pubkey>, ClientError>(leaders)),
        info.maybe_cluster_nodes == Some(Ok::<Vec<RpcContactInfo>, ClientError>(nodes)),
        0 <= slot - estimated_current_slot < leaders@.len(),
        leader == leaders@[slot - estimated_current_slot],
    ensures
        forall|i: int| #[trigger]
            is_last_usable(
                schedule.protocol,
                leader_tpu_cache::identities(nodes@),
                nodes@,
                leader.bytes@,
                i,
            ) ==> schedule.updated(estimated_current_slot, info).socket_at(slot)
                == leader_tpu_cache::contact_socket(schedule.protocol, nodes@[i]),
        (forall|i: int|
            !is_last_usable(
                schedule.protocol,
                leader_tpu_cache::identities(nodes@),
                nodes@,
                leader.bytes@,
                i,
            )) ==> schedule.updated(estimated_current_slot, info).socket_at(slot) is None,
{
    law_fetched_leaders_are_served(schedule, estimated_current_slot, info, slot);
    law_last_usable_contact_counts(
        schedule.protocol,
        leader_tpu_cache::identities(nodes@),
        nodes@,
        leader.bytes@,
    );
}

/// A lookup asks at the current slot and at every fourth one after it, in
/// ascending order, up to the end of the fanout.
pub proof fn law_lookup_asks_in_ascending_order(start: int, fanout_slots: int)
    requires
        0 <= fanout_slots,
    ensures
        forall|i: int, j: int|
            0 <= i < j < leader_tpu_cache::visited_slots(start, fanout_slots).len()
                ==> #[trigger] leader_tpu_cache::visited_slots(start, fanout_slots)[i]
                < #[trigger] leader_tpu_cache::visited_slots(start, fanout_slots)[j],
        forall|slot: int| #[trigger]
            leader_tpu_cache::visited_slots(start, fanout_slots).contains(slot) <==> start <= slot
                < start + fanout_slots && (slot - start) % 4 == 0,
{
    let visited = leader_tpu_cache::visited_slots(start, fanout_slots);
    assert forall|slot: int| #[trigger] visited.contains(slot) <==> start <= slot < start
        + fanout_slots && (slot - start) % 4 == 0 by {
        if start <= slot < start + fanout_slots && (slot - start) % 4 == 0 {
            assert(visited[(slot - start) / 4] == slot);
        }
        if visited.contains(slot) {
            let i = choose|i: int| 0 <= i < visited.len() && visited[i] == slot;
            assert(slot == start + 4 * i);
        }
    }
}

/// The leader of a slot is the one at that place of the schedule, counted from its
/// first slot; a slot outside the schedule has none. It is reached at the socket
/// that is known for it, and not at all where none is.
pub proof fn law_schedule_is_read_from_its_first_slot(schedule: LeaderSchedule, i: int)
    ensures
        0 <= i < schedule.leaders.len() ==> {
            let leader = schedule.leaders[i];
            &&& schedule.leader_at(schedule.first_slot + i) == Some(leader)
            &&& schedule.sockets.dom().contains(leader.bytes@) ==> schedule.socket_at(
                schedule.first_slot + i,
            ) == Some(schedule.sockets[leader.bytes@])
            &&& !schedule.sockets.dom().contains(leader.bytes@) ==> schedule.socket_at(
                schedule.first_slot + i,
            ) is None
        },
        !(0 <= i < schedule.leaders.len()) ==> schedule.leader_at(schedule.first_slot + i) is None
            && schedule.socket_at(schedule.first_slot + i) is None,
        schedule.leaders.len() > 0 ==> schedule.last_slot() == schedule.first_slot
            + schedule.leaders.len() - 1,
        schedule.leaders.len() == 0 ==> schedule.last_slot() == schedule.first_slot,
{
}

/// A lookup starts at the slot that was asked for, or at the first slot of the
/// schedule where that is later, and can be made exactly where it does not run past
/// the last slot number.
pub proof fn law_lookup_starts_at_the_later_slot(
    schedule: LeaderSchedule,
    estimated_current_slot: Slot,
    fanout_slots: u64,
)
    ensures
        schedule.lookup_start(estimated_current_slot) >= estimated_current_slot,
        schedule.lookup_start(estimated_current_slot) >= schedule.first_slot,
        schedule.lookup_start(estimated_current_slot) == estimated_current_slot
            || schedule.lookup_start(estimated_current_slot) == schedule.first_slot,
        schedule.lookup_fits(estimated_current_slot, fanout_slots) <==> estimated_current_slot
            + fanout_slots <= u64::MAX && schedule.first_slot + fanout_slots <= u64::MAX,
{
}

/// The looked-up sockets are those of the leaders in the order of their slots: to
/// each socket belongs the slot of its leader, one of the current slot and every
/// fourth after it within the fanout; a socket that stands before another belongs to
/// the earlier slot; and no such slot is left out whose leader has a known socket.
pub proof fn law_sockets_stand_in_slot_order(
    schedule: LeaderSchedule,
    estimated_current_slot: Slot,
    fanout_slots: u64,
    start: int,
) -> (slots: Seq<int>)
    requires
        start == if schedule.first_slot < estimated_current_slot {
            estimated_current_slot
        } else {
            schedule.first_slot
        },
    ensures
        slots.len() == schedule.leader_sockets(estimated_current_slot, fanout_slots).len(),
        forall|k: int|
            0 <= k < slots.len() ==> {
                &&& start <= #[trigger] slots[k] < start + fanout_slots
                &&& (slots[k] - start) % 4 == 0
                &&& slots[k] - schedule.first_slot < schedule.leaders.len()
                &&& schedule.sockets.dom().contains(
                    schedule.leaders[slots[k] - schedule.first_slot].bytes@,
                )
                &&& schedule.leader_sockets(estimated_current_slot, fanout_slots)[k]
                    == schedule.sockets[schedule.leaders[slots[k] - schedule.first_slot].bytes@]
            },
        forall|k: int, l: int|
            0 <= k < l < slots.len() ==> #[trigger] slots[k] < #[trigger] slots[l],
        forall|slot: int|
            start <= slot < start + fanout_slots && (slot - start) % 4 == 0 && slot
                - schedule.first_slot < schedule.leaders.len() && schedule.sockets.dom().contains(
                schedule.leaders[slot - schedule.first_slot].bytes@,
            ) ==> #[trigger] slots.contains(slot),
{
    let visited = leader_tpu_cache::visited_slots(start, fanout_slots as int);
    let socket_at = |slot: int| schedule.socket_at(slot);
    law_lookup_asks_in_ascending_order(start, fanout_slots as int);
    let kept = ordering::lemma_kept_positions(visited, socket_at);
    let slots = kept.map_values(|i: int| visited[i]);
    assert forall|k: int| 0 <= k < slots.len() implies {
        &&& start <= #[trigger] slots[k] < start + fanout_slots
        &&& (slots[k] - start) % 4 == 0
        &&& slots[k] - schedule.first_slot < schedule.leaders.len()
        &&& schedule.sockets.dom().contains(
            schedule.leaders[slots[k] - schedule.first_slot].bytes@,
        )
        &&& schedule.leader_sockets(estimated_current_slot, fanout_slots)[k]
            == schedule.sockets[schedule.leaders[slots[k] - schedule.first_slot].bytes@]
    } by {
        let slot = visited[kept[k]];
        assert(visited.contains(slot));
        assert(socket_at(slot) == schedule.socket_at(slot));
    }
    assert forall|k: int, l: int| 0 <= k < l < slots.len() implies #[trigger] slots[k]
        < #[trigger] slots[l] by {
        assert(kept[k] < kept[l]);
        assert(visited[kept[k]] < visited[kept[l]]);
    }
    assert forall|slot: int|
        start <= slot < start + fanout_slots && (slot - start) % 4 == 0 && slot
            - schedule.first_slot < schedule.leaders.len() && schedule.sockets.dom().contains(
            schedule.leaders[slot - schedule.first_slot].bytes@,
        ) implies #[trigger] slots.contains(slot) by {
        assert(visited.contains(slot));
        let i = choose|i: int| 0 <= i < visited.len() && visited[i] == slot;
        assert(socket_at(visited[i]) is Some);
        assert(kept.contains(i));
        let k = choose|k: int| 0 <= k < kept.len() && kept[k] == i;
        assert(slots[k] == slot);
    }
    slots
}

/// A lookup is made of shorter ones: that of the first part of the fanout, where it
/// is a whole number of runs, and then that of the rest.
pub proof fn law_lookups_join(
    schedule: LeaderSchedule,
    estimated_current_slot: Slot,
    later_slot: Slot,
    part: u64,
    rest: u64,
    fanout_slots: u64,
)
    requires
        schedule.first_slot <= estimated_current_slot,
        later_slot == estimated_current_slot + part,
        part % 4 == 0,
        fanout_slots == part + rest,
    ensures
        schedule.leader_sockets(estimated_current_slot, fanout_slots) == schedule.leader_sockets(
            estimated_current_slot,
            part,
        ) + schedule.leader_sockets(later_slot, rest),
{
    let start = estimated_current_slot as int;
    let first = leader_tpu_cache::visited_slots(start, part as int);
    let second = leader_tpu_cache::visited_slots(start + part, rest as int);
    let socket_at = |slot: int| schedule.socket_at(slot);
    assert(leader_tpu_cache::visited_slots(start, fanout_slots as int) =~= first + second);
    ordering::lemma_filter_map_of_parts(first, second, socket_at);
}

/// Where a node takes transactions: over UDP at its UDP socket; over QUIC at its QUIC
/// socket, or where it names none, at its UDP socket with the port six higher. It
/// takes none where there is no such socket or no such port.
pub proof fn law_contact_is_reached_over_the_protocol(contact: RpcContactInfo)
    ensures
        leader_tpu_cache::contact_socket(Protocol::UDP, contact) == contact.tpu,
        contact.tpu_quic is Some ==> leader_tpu_cache::contact_socket(Protocol::QUIC, contact)
            == contact.tpu_quic,
        contact.tpu_quic is None && contact.tpu is None ==> leader_tpu_cache::contact_socket(
            Protocol::QUIC,
            contact,
        ) is None,
        contact.tpu_quic is None ==> match contact.tpu {
            Some(SocketAddr::V4 { ip, port }) => leader_tpu_cache::contact_socket(
                Protocol::QUIC,
                contact,
            ) == if port <= 65529 {
                Some(SocketAddr::V4 { ip, port: (port + 6) as u16 })
            } else {
                None
            },
            Some(SocketAddr::V6 { ip, port, flowinfo, scope_id }) =>
            leader_tpu_cache::contact_socket(Protocol::QUIC, contact) == if port <= 65529 {
                Some(SocketAddr::V6 { ip, port: (port + 6) as u16, flowinfo, scope_id })
            } else {
                None
            },
            None => true,
        },
{
}

/// The sockets that a list of contacts gives: an identity has one exactly where some
/// contact spells that identity and has a socket; and it is that of the last such
/// contact.
pub proof fn law_identity_has_the_socket_of_its_last_contact(
    protocol: Protocol,
    contacts: Seq<RpcContactInfo>,
    key: Seq<u8>,
)
    ensures
        forall|i: int|
            #![trigger contacts[i]]
            0 <= i < contacts.len() && outside::address_of(contacts[i].pubkey@) == Some(key)
                && leader_tpu_cache::contact_socket(protocol, contacts[i]) is Some
                ==> leader_tpu_cache::cluster_tpu_sockets(protocol, contacts).dom().contains(key),
        leader_tpu_cache::cluster_tpu_sockets(protocol, contacts).dom().contains(key) ==> exists|
            i: int,
        |
            #![trigger contacts[i]]
            {
                &&& 0 <= i < contacts.len()
                &&& outside::address_of(contacts[i].pubkey@) == Some(key)
                &&& leader_tpu_cache::contact_socket(protocol, contacts[i]) == Some(
                    leader_tpu_cache::cluster_tpu_sockets(protocol, contacts)[key],
                )
                &&& forall|j: int|
                    #![trigger contacts[j]]
                    i < j < contacts.len() && outside::address_of(contacts[j].pubkey@) == Some(key)
                        ==> leader_tpu_cache::contact_socket(protocol, contacts[j]) is None
            },
    decreases contacts.len(),
{
    if contacts.len() > 0 {
        let end = contacts.len() - 1;
        let front = contacts.drop_last();
        law_identity_has_the_socket_of_its_last_contact(protocol, front, key);
        let all = leader_tpu_cache::cluster_tpu_sockets(protocol, contacts);
        let earlier = leader_tpu_cache::cluster_tpu_sockets(protocol, front);
        assert(leader_tpu_cache::identities(contacts).drop_last()
            =~= leader_tpu_cache::identities(front));
        let own = outside::address_of(contacts[end].pubkey@);
        assert(leader_tpu_cache::identities(contacts).last() == own);
        assert(contacts.last() == contacts[end]);
        assert(front.len() == end);
        assert forall|i: int|
            #![trigger contacts[i]]
            0 <= i < contacts.len() && outside::address_of(contacts[i].pubkey@) == Some(key)
                && leader_tpu_cache::contact_socket(
                protocol,
                contacts[i],
            ) is Some implies all.dom().contains(key) by {
            if i < end {
                assert(front[i] == contacts[i]);
                assert(earlier.dom().contains(key));
            }
        }
        if all.dom().contains(key) {
            if own == Some(key) && leader_tpu_cache::contact_socket(
                protocol,
                contacts[end],
            ) is Some {
                assert(Some(all[key]) == leader_tpu_cache::contact_socket(
                    protocol,
                    contacts[end],
                ));
            } else {
                assert(earlier.dom().contains(key) && earlier[key] == all[key]);
                let i = choose|i: int|
                    #![trigger front[i]]
                    {
                        &&& 0 <= i < front.len()
                        &&& outside::address_of(front[i].pubkey@) == Some(key)
                        &&& leader_tpu_cache::contact_socket(protocol, front[i]) == Some(
                            earlier[key],
                        )
                        &&& forall|j: int|
                            #![trigger front[j]]
                            i < j < front.len() && outside::address_of(front[j].pubkey@) == Some(
                                key,
                            ) ==> leader_tpu_cache::contact_socket(protocol, front[j]) is None
                    };
                assert(contacts[i] == front[i]);
                assert forall|j: int|
                    #![trigger contacts[j]]
                    i < j < contacts.len() && outside::address_of(contacts[j].pubkey@) == Some(
                        key,
                    ) implies leader_tpu_cache::contact_socket(protocol, contacts[j]) is None by {
                    if j < end {
                        assert(front[j] == contacts[j]);
                    }
                }
            }
        }
    }
}

/// Each part of an update changes its own part of the cache and no other: the
/// contacts change the sockets, epoch information changes the length of the epoch
/// and when it was learnt, the leaders change the schedule and where it starts.
/// A part that failed or was not asked for changes nothing, whatever the others did.
pub proof fn law_update_changes_only_what_was_fetched(
    schedule: LeaderSchedule,
    estimated_current_slot: Slot,
    info: LeaderTpuCacheUpdateInfo,
)
    ensures
        schedule.updated(estimated_current_slot, info).protocol == schedule.protocol,
        !(info.maybe_cluster_nodes matches Some(Ok(_))) ==> schedule.updated(
            estimated_current_slot,
            info,
        ).sockets == schedule.sockets,
        !(info.maybe_slot_leaders matches Some(Ok(_))) ==> schedule.updated(
            estimated_current_slot,
            info,
        ).first_slot == schedule.first_slot && schedule.updated(
            estimated_current_slot,
            info,
        ).leaders == schedule.leaders,
        !(info.maybe_epoch_info matches Some(Ok(_))) ==> schedule.updated(
            estimated_current_slot,
            info,
        ).slots_in_epoch == schedule.slots_in_epoch && schedule.updated(
            estimated_current_slot,
            info,
        ).last_epoch_info_slot == schedule.last_epoch_info_slot,
        info.maybe_cluster_nodes matches Some(Ok(nodes)) ==> schedule.updated(
            estimated_current_slot,
            info,
        ).sockets == leader_tpu_cache::cluster_tpu_sockets(schedule.protocol, nodes@),
        info.maybe_slot_leaders matches Some(Ok(leaders)) ==> schedule.updated(
            estimated_current_slot,
            info,
        ).first_slot == estimated_current_slot && schedule.updated(
            estimated_current_slot,
            info,
        ).leaders == leaders@,
        info.maybe_epoch_info matches Some(Ok(epoch_info)) ==> schedule.updated(
            estimated_current_slot,
            info,
        ).slots_in_epoch == epoch_info.slots_in_epoch && schedule.updated(
            estimated_current_slot,
            info,
        ).last_epoch_info_slot == estimated_current_slot,
{
}

/// An update with epoch information alone leaves every lookup as it was.
pub proof fn law_epoch_information_leaves_lookups_alone(
    schedule: LeaderSchedule,
    estimated_current_slot: Slot,
    epoch_info: Option<Result<EpochInfo, ClientError>>,
    slot: Slot,
    fanout_slots: u64,
)
    ensures
        schedule.updated(
            estimated_current_slot,
            LeaderTpuCacheUpdateInfo {
                maybe_cluster_nodes: None,
                maybe_epoch_info: epoch_info,
                maybe_slot_leaders: None,
            },
        ).leader_sockets(slot, fanout_slots) == schedule.leader_sockets(slot, fanout_slots),
{
    let info = LeaderTpuCacheUpdateInfo {
        maybe_cluster_nodes: None,
        maybe_epoch_info: epoch_info,
        maybe_slot_leaders: None,
    };
    let after = schedule.updated(estimated_current_slot, info);
    assert forall|at: int| after.socket_at(at) == #[trigger] schedule.socket_at(at) by {}
    assert((|at: int| after.socket_at(at)) =~= (|at: int| schedule.socket_at(at)));
}

/// An update counts as failed exactly where the contacts or the leaders were asked
/// for and did not arrive, and was asked for at all where any part was.
pub proof fn law_update_fails_with_contacts_or_leaders(info: LeaderTpuCacheUpdateInfo)
    ensures
        info.maybe_cluster_nodes matches Some(Err(_)) ==> leader_tpu_cache::update_failed(info),
        info.maybe_slot_leaders matches Some(Err(_)) ==> leader_tpu_cache::update_failed(info),
        !(info.maybe_cluster_nodes matches Some(Err(_))) && !(
        info.maybe_slot_leaders matches Some(Err(_))) ==> !leader_tpu_cache::update_failed(info),
        info.spec_has_some() <==> !(info.maybe_cluster_nodes is None && info.maybe_epoch_info is None
            && info.maybe_slot_leaders is None),
{
}

/// The leaders of 200 slots are asked for, or of the whole epoch where it is shorter.
pub proof fn law_leaders_of_two_hundred_slots_are_asked_for(slots_in_epoch: Slot)
    ensures
        slots_in_epoch <= 200 ==> leader_tpu_cache::schedule_fanout(slots_in_epoch)
            == slots_in_epoch,
        slots_in_epoch >= 200 ==> leader_tpu_cache::schedule_fanout(slots_in_epoch) == 200,
{
}

} // verus!
