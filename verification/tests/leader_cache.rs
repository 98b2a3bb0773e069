use tpu_sender::cluster::{ClientError, EpochInfo, Protocol, Pubkey, RpcContactInfo, SocketAddr};
use tpu_sender::engine::leader_tpu_cache::{
    collect_tpu_sockets, tpu_socket, LeaderTpuCache, LeaderTpuCacheUpdateInfo,
};
use tpu_sender::engine::leader_tpu_map::LeaderTpuMap;

fn key(tag: u8) -> Pubkey {
    Pubkey { bytes: [tag; 32] }
}

fn base58(tag: u8) -> String {
    solana_sdk::pubkey::Pubkey::new_from_array([tag; 32]).to_string()
}

fn v4(port: u16) -> SocketAddr {
    SocketAddr::V4 { ip: 0x7f00_0001, port }
}

fn node(tag: u8, tpu: Option<SocketAddr>, tpu_quic: Option<SocketAddr>) -> RpcContactInfo {
    RpcContactInfo { pubkey: base58(tag), tpu, tpu_quic }
}

fn nothing() -> LeaderTpuCacheUpdateInfo {
    LeaderTpuCacheUpdateInfo {
        maybe_cluster_nodes: None,
        maybe_epoch_info: None,
        maybe_slot_leaders: None,
    }
}

fn failure() -> ClientError {
    ClientError::Other("refused".to_string())
}

/// Leaders 1, 2, 1, 3 with four slots each, from slot 1000 on; leader 3 is unknown.
fn cache() -> LeaderTpuCache {
    let mut leaders = vec![];
    for tag in [1, 2, 1, 3] {
        leaders.extend([key(tag); 4]);
    }
    let nodes = vec![
        node(1, Some(v4(8001)), Some(v4(8101))),
        node(2, Some(v4(8002)), Some(v4(8102))),
    ];
    LeaderTpuCache::new(1000, 432_000, leaders, nodes, Protocol::QUIC)
}

#[test]
fn ports_are_read_and_set() {
    let mut socket = SocketAddr::V6 { ip: 1, port: 9, flowinfo: 2, scope_id: 3 };
    assert_eq!(socket.port(), 9);
    socket.set_port(10);
    assert_eq!(socket, SocketAddr::V6 { ip: 1, port: 10, flowinfo: 2, scope_id: 3 });
    let mut socket = v4(80);
    socket.set_port(81);
    assert_eq!(socket, v4(81));
    assert_eq!(socket.port(), 81);
}

#[test]
fn addresses_are_compared_by_their_bytes() {
    assert!(key(4).same_as(&key(4)));
    let mut other = key(4);
    other.bytes[31] = 5;
    assert!(!key(4).same_as(&other));
}

#[test]
fn a_map_keeps_the_last_socket_of_a_leader() {
    let mut map = LeaderTpuMap::new();
    assert_eq!(map.get(&key(1)), None);
    map.insert(key(1), v4(1));
    map.insert(key(2), v4(2));
    map.insert(key(1), v4(3));
    assert_eq!(map.get(&key(1)), Some(v4(3)));
    assert_eq!(map.get(&key(2)), Some(v4(2)));
    assert_eq!(map.get(&key(3)), None);
}

#[test]
fn the_socket_goes_by_the_protocol() {
    let both = node(1, Some(v4(8001)), Some(v4(9001)));
    assert_eq!(tpu_socket(Protocol::UDP, &both), Some(v4(8001)));
    assert_eq!(tpu_socket(Protocol::QUIC, &both), Some(v4(9001)));
    let udp_only = node(1, Some(v4(8001)), None);
    assert_eq!(tpu_socket(Protocol::QUIC, &udp_only), Some(v4(8007)));
    let quic_only = node(1, None, Some(v4(9001)));
    assert_eq!(tpu_socket(Protocol::UDP, &quic_only), None);
    assert_eq!(tpu_socket(Protocol::QUIC, &quic_only), Some(v4(9001)));
    let neither = node(1, None, None);
    assert_eq!(tpu_socket(Protocol::QUIC, &neither), None);
}

#[test]
fn the_quic_port_must_be_a_port() {
    assert_eq!(tpu_socket(Protocol::QUIC, &node(1, Some(v4(65529)), None)), Some(v4(65535)));
    assert_eq!(tpu_socket(Protocol::QUIC, &node(1, Some(v4(65530)), None)), None);
}

#[test]
fn identities_are_read_from_base58() {
    let nodes = vec![
        node(7, Some(v4(7)), None),
        RpcContactInfo { pubkey: "not an address".to_string(), tpu: Some(v4(8)), tpu_quic: None },
        RpcContactInfo { pubkey: "1".repeat(45), tpu: Some(v4(9)), tpu_quic: None },
        RpcContactInfo { pubkey: "1".repeat(32), tpu: Some(v4(10)), tpu_quic: None },
    ];
    let map = LeaderTpuCache::extract_cluster_tpu_sockets(Protocol::UDP, &nodes);
    assert_eq!(map.get(&key(7)), Some(v4(7)));
    assert_eq!(map.get(&key(0)), Some(v4(10)));
    assert_eq!(map.get(&key(8)), None);
}

#[test]
fn the_last_usable_contact_counts() {
    let nodes = vec![
        node(1, Some(v4(1)), None),
        node(1, Some(v4(2)), None),
        node(1, None, None),
        node(2, None, None),
    ];
    let map = LeaderTpuCache::extract_cluster_tpu_sockets(Protocol::UDP, &nodes);
    assert_eq!(map.get(&key(1)), Some(v4(2)));
    assert_eq!(map.get(&key(2)), None);
}

#[test]
fn contacts_without_identity_are_left_out() {
    let nodes = vec![node(1, Some(v4(1)), None), node(2, Some(v4(2)), None)];
    let keys = vec![None, Some(key(9))];
    let map = collect_tpu_sockets(Protocol::UDP, &keys, &nodes);
    assert_eq!(map.get(&key(1)), None);
    assert_eq!(map.get(&key(9)), Some(v4(2)));
}

#[test]
fn leaders_are_looked_up_once_for_four_slots() {
    assert_eq!(cache().get_leader_sockets(1000, 16), vec![v4(8101), v4(8102), v4(8101)]);
    assert_eq!(cache().get_leader_sockets(1000, 4), vec![v4(8101)]);
    assert_eq!(cache().get_leader_sockets(1000, 5), vec![v4(8101), v4(8102)]);
    assert_eq!(cache().get_leader_sockets(1003, 5), vec![v4(8101), v4(8102)]);
    assert_eq!(cache().get_leader_sockets(1000, 0), vec![]);
}

#[test]
fn the_lookup_ends_with_the_schedule() {
    assert_eq!(cache().get_leader_sockets(1008, 100), vec![v4(8101)]);
    assert_eq!(cache().get_leader_sockets(1016, 100), vec![]);
}

#[test]
fn a_stale_slot_is_served_from_the_start_of_the_schedule() {
    assert_eq!(cache().get_leader_sockets(3, 8), cache().get_leader_sockets(1000, 8));
    assert_eq!(cache().get_leader_sockets(3, 8), vec![v4(8101), v4(8102)]);
}

#[test]
fn unique_sockets_occur_once_in_their_first_place() {
    assert_eq!(cache().get_unique_leader_sockets(1000, 16), vec![v4(8101), v4(8102)]);
    assert_eq!(cache().get_unique_leader_sockets(1004, 8), vec![v4(8102), v4(8101)]);
    assert_eq!(cache().get_unique_leader_sockets(1012, 8), vec![]);
}

#[test]
fn slots_have_the_leaders_of_the_schedule() {
    let cache = cache();
    assert!(cache.get_slot_leader(999).is_none());
    assert_eq!(cache.get_slot_leader(1000).unwrap().bytes, [1; 32]);
    assert_eq!(cache.get_slot_leader(1007).unwrap().bytes, [2; 32]);
    assert_eq!(cache.get_slot_leader(1015).unwrap().bytes, [3; 32]);
    assert!(cache.get_slot_leader(1016).is_none());
    assert!(cache.get_slot_leader(u64::MAX).is_none());
}

#[test]
fn the_last_slot_is_the_end_of_the_schedule() {
    assert_eq!(cache().last_slot(), 1015);
    assert_eq!(cache().slot_info(), (1015, 1000, 432_000));
    let empty = LeaderTpuCache::new(17, 10, vec![], vec![], Protocol::UDP);
    assert_eq!(empty.last_slot(), 17);
    let full = LeaderTpuCache::new(u64::MAX, 10, vec![key(1), key(1)], vec![], Protocol::UDP);
    assert!(!full.last_slot_fits());
    assert!(empty.last_slot_fits());
}

#[test]
fn lookups_past_the_last_slot_number_are_told_apart() {
    assert!(cache().lookup_in_range(u64::MAX - 100, 100));
    assert!(!cache().lookup_in_range(u64::MAX - 99, 100));
}

#[test]
fn the_schedule_is_asked_for_up_to_the_epoch() {
    assert_eq!(LeaderTpuCache::fanout(432_000), 200);
    assert_eq!(LeaderTpuCache::fanout(200), 200);
    assert_eq!(LeaderTpuCache::fanout(199), 199);
    assert_eq!(LeaderTpuCache::fanout(0), 0);
}

#[test]
fn an_update_has_something_where_anything_was_asked_for() {
    assert!(!nothing().has_some());
    let info = LeaderTpuCacheUpdateInfo { maybe_epoch_info: Some(Err(failure())), ..nothing() };
    assert!(info.has_some());
    let info = LeaderTpuCacheUpdateInfo { maybe_cluster_nodes: Some(Ok(vec![])), ..nothing() };
    assert!(info.has_some());
    let info = LeaderTpuCacheUpdateInfo { maybe_slot_leaders: Some(Ok(vec![])), ..nothing() };
    assert!(info.has_some());
}

#[test]
fn an_empty_update_changes_nothing() {
    let mut cache = cache();
    assert_eq!(cache.update_all(1005, nothing()), (false, false));
    assert_eq!(cache.slot_info(), (1015, 1000, 432_000));
    assert_eq!(cache.get_leader_sockets(1000, 8), vec![v4(8101), v4(8102)]);
}

#[test]
fn fetched_contacts_replace_the_known_ones() {
    let mut cache = cache();
    let nodes = vec![node(2, Some(v4(500)), None)];
    let info = LeaderTpuCacheUpdateInfo { maybe_cluster_nodes: Some(Ok(nodes)), ..nothing() };
    assert_eq!(cache.update_all(1005, info), (false, true));
    assert_eq!(cache.get_leader_sockets(1000, 16), vec![v4(506)]);
    assert_eq!(cache.slot_info(), (1015, 1000, 432_000));
}

#[test]
fn fetched_leaders_start_at_the_current_slot() {
    let mut cache = cache();
    let info = LeaderTpuCacheUpdateInfo {
        maybe_slot_leaders: Some(Ok(vec![key(2); 8])),
        ..nothing()
    };
    assert_eq!(cache.update_all(2000, info), (false, false));
    assert_eq!(cache.slot_info(), (2007, 1000, 432_000));
    assert_eq!(cache.get_leader_sockets(2000, 4), vec![v4(8102)]);
    assert!(cache.get_slot_leader(1000).is_none());
}

#[test]
fn fetched_epoch_information_is_taken_over() {
    let mut cache = cache();
    let info = LeaderTpuCacheUpdateInfo {
        maybe_epoch_info: Some(Ok(EpochInfo { slots_in_epoch: 77 })),
        ..nothing()
    };
    assert_eq!(cache.update_all(1010, info), (false, false));
    assert_eq!(cache.slot_info(), (1015, 1010, 77));
}

#[test]
fn failures_are_told_and_change_nothing() {
    let mut cache = cache();
    let info = LeaderTpuCacheUpdateInfo { maybe_cluster_nodes: Some(Err(failure())), ..nothing() };
    assert_eq!(cache.update_all(1010, info), (true, false));
    let info = LeaderTpuCacheUpdateInfo { maybe_slot_leaders: Some(Err(failure())), ..nothing() };
    assert_eq!(cache.update_all(1010, info), (true, false));
    let info = LeaderTpuCacheUpdateInfo { maybe_epoch_info: Some(Err(failure())), ..nothing() };
    assert_eq!(cache.update_all(1010, info), (false, false));
    assert_eq!(cache.slot_info(), (1015, 1000, 432_000));
    assert_eq!(cache.get_leader_sockets(1000, 8), vec![v4(8101), v4(8102)]);
}

#[test]
fn the_lookup_constants_are_those_of_the_cluster() {
    assert_eq!(solana_sdk::clock::NUM_CONSECUTIVE_LEADER_SLOTS, 4);
    assert_eq!(solana_sdk::quic::QUIC_PORT_OFFSET, 6);
    assert_eq!(solana_sdk::clock::DEFAULT_MS_PER_SLOT, 400);
}
