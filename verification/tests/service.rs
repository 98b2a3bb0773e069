use tpu_sender::cluster::{
    ClientError, EpochInfo, Protocol, Pubkey, RpcContactInfo, SlotUpdate, SocketAddr,
};
use tpu_sender::engine::cache_refresher::{CacheRefresher, RefreshAction, RefreshEvent};
use tpu_sender::engine::leader_tpu_cache::LeaderTpuCacheUpdateInfo;
use tpu_sender::engine::leader_tpu_service::{
    LeaderTpuService, LeadersRequest, WatchAction, WatchEvent, SLOT_UPDATE_TIMEOUT_MS,
};
use tpu_sender::engine::service_startup::{
    is_invalid_slot_range_error, LeadersFailure, ServiceStartup, StartupAction, StartupEvent,
};
use tpu_sender::text::contains;

fn key(tag: u8) -> Pubkey {
    Pubkey { bytes: [tag; 32] }
}

fn v4(port: u16) -> SocketAddr {
    SocketAddr::V4 { ip: 0x0a00_0001, port }
}

fn node(tag: u8, port: u16) -> RpcContactInfo {
    let pubkey = solana_sdk::pubkey::Pubkey::new_from_array([tag; 32]).to_string();
    RpcContactInfo { pubkey, tpu: Some(v4(port)), tpu_quic: None }
}

fn no_schedule_yet() -> ClientError {
    ClientError::RpcResponse {
        code: -32602,
        message: "Invalid slot range: leader schedule for epoch 12 is unavailable".to_string(),
    }
}

fn refused() -> ClientError {
    ClientError::Other("refused".to_string())
}

/// Leader 1 in all of 200 slots from 5000 on.
fn service() -> LeaderTpuService {
    LeaderTpuService::new(5000, 432_000, vec![key(1); 200], vec![node(1, 80)], Protocol::UDP)
}

#[test]
fn a_new_service_is_at_its_start_slot() {
    assert_eq!(service().estimated_current_slot(), 5000);
    assert_eq!(service().leader_tpu_sockets(12), vec![v4(80); 3]);
    assert_eq!(service().unique_leader_tpu_sockets(12), vec![v4(80)]);
    assert!(service().slots_in_range());
    assert!(service().can_fan_out(100));
}

#[test]
fn slots_out_of_range_are_told() {
    let service = LeaderTpuService::new(u64::MAX - 10, 1, vec![], vec![], Protocol::UDP);
    assert!(!service.slots_in_range());
    assert!(!service.can_fan_out(1));
    let service = LeaderTpuService::new(u64::MAX - 60, 1, vec![], vec![], Protocol::UDP);
    assert!(service.slots_in_range());
    assert!(service.can_fan_out(60));
    assert!(!service.can_fan_out(61));
}

#[test]
fn notifications_move_the_current_slot() {
    let mut service = service();
    let update = WatchEvent::Update(SlotUpdate::Completed { slot: 5003 });
    assert_eq!(service.watch_slots(update, true), WatchAction::Poll);
    assert_eq!(service.estimated_current_slot(), 5004);
    let update = WatchEvent::Update(SlotUpdate::FirstShredReceived { slot: 5009 });
    assert_eq!(service.watch_slots(update, false), WatchAction::Poll);
    assert_eq!(service.estimated_current_slot(), 5009);
}

#[test]
fn other_notifications_are_passed_over() {
    let mut service = service();
    for update in [
        SlotUpdate::CreatedBank { slot: 5010 },
        SlotUpdate::Frozen { slot: 5010 },
        SlotUpdate::Dead { slot: 5010 },
        SlotUpdate::OptimisticConfirmation { slot: 5010 },
        SlotUpdate::Root { slot: 5010 },
    ] {
        assert_eq!(service.watch_slots(WatchEvent::Update(update), true), WatchAction::Poll);
        assert_eq!(service.estimated_current_slot(), 5000);
    }
}

#[test]
fn the_last_slot_number_completes_into_itself() {
    let mut service = LeaderTpuService::new(0, 1, vec![], vec![], Protocol::UDP);
    let update = WatchEvent::Update(SlotUpdate::Completed { slot: u64::MAX });
    service.watch_slots(update, false);
    assert_eq!(service.estimated_current_slot(), 0);
}

#[test]
fn the_watcher_stops_in_a_quiet_moment() {
    let mut service = service();
    assert_eq!(service.watch_slots(WatchEvent::Quiet, false), WatchAction::Poll);
    assert_eq!(service.watch_slots(WatchEvent::Quiet, true), WatchAction::Shutdown);
    assert!(SLOT_UPDATE_TIMEOUT_MS < solana_sdk::clock::DEFAULT_MS_PER_SLOT);
}

#[test]
fn the_plan_goes_by_the_current_slot() {
    let mut service = service();
    let plan = service.fetch_plan();
    assert!(plan.epoch_info);
    assert_eq!(plan.slot_leaders, None);
    // The last slot is 5199, so new leaders are due from 5099 on.
    let update = |slot| WatchEvent::Update(SlotUpdate::FirstShredReceived { slot });
    for _ in 0..12 {
        service.watch_slots(update(5098), false);
    }
    assert_eq!(service.fetch_plan().slot_leaders, None);
    service.watch_slots(update(5099), false);
    let request = LeadersRequest { start: 5099, limit: 200 };
    assert_eq!(service.fetch_plan().slot_leaders, Some(request));
}

#[test]
fn epoch_information_is_not_due_long_before_the_last() {
    let mut service = LeaderTpuService::new(9_000, 100, vec![], vec![], Protocol::UDP);
    for _ in 0..12 {
        service.watch_slots(
            WatchEvent::Update(SlotUpdate::FirstShredReceived { slot: 8_899 }),
            false,
        );
    }
    assert_eq!(service.estimated_current_slot(), 8_899);
    assert!(!service.fetch_plan().epoch_info);
    assert_eq!(service.fetch_plan().slot_leaders, None);
    service.watch_slots(
        WatchEvent::Update(SlotUpdate::FirstShredReceived { slot: 8_900 }),
        false,
    );
    assert!(service.fetch_plan().epoch_info);
    let request = LeadersRequest { start: 8_900, limit: 100 };
    assert_eq!(service.fetch_plan().slot_leaders, Some(request));
}

#[test]
fn an_update_is_taken_over_at_the_current_slot() {
    let mut service = service();
    service.watch_slots(WatchEvent::Update(SlotUpdate::FirstShredReceived { slot: 5010 }), false);
    let info = LeaderTpuCacheUpdateInfo {
        maybe_cluster_nodes: Some(Ok(vec![node(2, 90)])),
        maybe_epoch_info: None,
        maybe_slot_leaders: Some(Ok(vec![key(2); 200])),
    };
    assert_eq!(service.apply_update(info), (false, true));
    assert_eq!(service.unique_leader_tpu_sockets(64), vec![v4(90)]);
    assert_eq!(service.fetch_plan().slot_leaders, None);
}

#[test]
fn a_cycle_fetches_all_that_is_due_in_order() {
    let mut service = LeaderTpuService::new(5000, 432_000, vec![], vec![], Protocol::UDP);
    let (refresher, action) = CacheRefresher::start(false);
    assert_eq!(action, RefreshAction::Sleep { ms: 400, contacts_are_fresh: false });
    let woke = RefreshEvent::Woke { since_cluster_refresh_ns: 300_000_000_001 };
    let (refresher, action) = refresher.step(&mut service, woke, false);
    assert_eq!(action, RefreshAction::FetchClusterNodes);
    let nodes = RefreshEvent::ClusterNodes(Ok(vec![node(1, 80)]));
    let (refresher, action) = refresher.step(&mut service, nodes, false);
    assert_eq!(action, RefreshAction::FetchEpochInfo);
    let epoch = RefreshEvent::EpochInfo(Ok(EpochInfo { slots_in_epoch: 150 }));
    let (refresher, action) = refresher.step(&mut service, epoch, false);
    assert_eq!(
        action,
        RefreshAction::FetchSlotLeaders(LeadersRequest { start: 5000, limit: 200 })
    );
    assert_eq!(service.leader_tpu_sockets(4), vec![]);
    let leaders = RefreshEvent::SlotLeaders(Ok(vec![key(1); 8]));
    let (refresher, action) = refresher.step(&mut service, leaders, false);
    assert_eq!(action, RefreshAction::Sleep { ms: 400, contacts_are_fresh: true });
    assert!(matches!(refresher, CacheRefresher::Asleep));
    assert_eq!(service.leader_tpu_sockets(8), vec![v4(80), v4(80)]);
    assert_eq!(
        service.fetch_plan().slot_leaders,
        Some(LeadersRequest { start: 5000, limit: 150 })
    );
}

#[test]
fn contacts_are_fetched_after_five_minutes_only() {
    let mut service = service();
    let (refresher, _) = CacheRefresher::start(false);
    let woke = RefreshEvent::Woke { since_cluster_refresh_ns: 300_000_000_000 };
    let (_, action) = refresher.step(&mut service, woke, false);
    assert_eq!(action, RefreshAction::FetchEpochInfo);
}

#[test]
fn a_failed_fetch_shortens_the_sleep() {
    let mut service = LeaderTpuService::new(5000, 432_000, vec![], vec![], Protocol::UDP);
    let (refresher, _) = CacheRefresher::start(false);
    let woke = RefreshEvent::Woke { since_cluster_refresh_ns: 0 };
    let (refresher, _) = refresher.step(&mut service, woke, false);
    let epoch = RefreshEvent::EpochInfo(Err(refused()));
    let (refresher, action) = refresher.step(&mut service, epoch, false);
    assert!(matches!(action, RefreshAction::FetchSlotLeaders(_)));
    let leaders = RefreshEvent::SlotLeaders(Err(refused()));
    let (_, action) = refresher.step(&mut service, leaders, false);
    assert_eq!(action, RefreshAction::Sleep { ms: 100, contacts_are_fresh: false });
}

#[test]
fn failed_epoch_information_does_not_shorten_the_sleep() {
    let mut service = service();
    let (refresher, _) = CacheRefresher::start(false);
    let woke = RefreshEvent::Woke { since_cluster_refresh_ns: 0 };
    let (refresher, _) = refresher.step(&mut service, woke, false);
    let epoch = RefreshEvent::EpochInfo(Err(refused()));
    let (_, action) = refresher.step(&mut service, epoch, false);
    assert_eq!(action, RefreshAction::Sleep { ms: 400, contacts_are_fresh: false });
}

#[test]
fn the_refresher_stops_between_cycles() {
    let mut service = service();
    assert_eq!(CacheRefresher::start(true).1, RefreshAction::Stop);
    let (refresher, _) = CacheRefresher::start(false);
    let woke = RefreshEvent::Woke { since_cluster_refresh_ns: 0 };
    let (refresher, action) = refresher.step(&mut service, woke, true);
    assert_eq!(action, RefreshAction::FetchEpochInfo);
    let epoch = RefreshEvent::EpochInfo(Ok(EpochInfo { slots_in_epoch: 9 }));
    let (_, action) = refresher.step(&mut service, epoch, true);
    assert_eq!(action, RefreshAction::Stop);
}

#[test]
fn texts_are_searched_for_parts() {
    assert!(contains("abcabd", "abd"));
    assert!(contains("abc", ""));
    assert!(contains("", ""));
    assert!(!contains("ab", "abc"));
    assert!(!contains("abcab", "abd"));
    assert!(contains("grün bleibt", "ün b"));
}

#[test]
fn a_missing_schedule_is_recognised() {
    assert!(is_invalid_slot_range_error(&no_schedule_yet()));
    assert!(!is_invalid_slot_range_error(&ClientError::RpcResponse {
        code: -32601,
        message: "Invalid slot range: leader schedule for epoch 12".to_string(),
    }));
    assert!(!is_invalid_slot_range_error(&ClientError::RpcResponse {
        code: -32602,
        message: "Invalid slot range".to_string(),
    }));
    assert!(!is_invalid_slot_range_error(&ClientError::Other(
        "Invalid slot range: leader schedule for epoch".to_string()
    )));
}

fn answered(reply: Result<Vec<Pubkey>, ClientError>, elapsed_ns: u128) -> StartupEvent {
    StartupEvent::SlotLeaders { reply, elapsed_ns }
}

fn leaders_requested(url: &str) -> ServiceStartup {
    let (startup, action) = ServiceStartup::start();
    assert!(matches!(action, StartupAction::FetchSlot));
    let (startup, action) = startup.step(StartupEvent::Slot(Ok(5000)), Protocol::UDP, url);
    assert!(matches!(action, StartupAction::FetchEpochInfo));
    let epoch = StartupEvent::EpochInfo(Ok(EpochInfo { slots_in_epoch: 64 }));
    let (startup, action) = startup.step(epoch, Protocol::UDP, url);
    let expected = LeadersRequest { start: 5000, limit: 64 };
    assert!(matches!(
        action,
        StartupAction::FetchSlotLeaders { request, within_ns: 20_000_000_000 } if request == expected
    ));
    startup
}

#[test]
fn a_start_without_failures_runs_the_service() {
    for (url, expected) in [("ws://localhost:8900", true), ("", false)] {
        let startup = leaders_requested(url);
        let leaders = answered(Ok(vec![key(1); 64]), 5);
        let (startup, action) = startup.step(leaders, Protocol::UDP, url);
        assert!(matches!(action, StartupAction::FetchClusterNodes));
        let nodes = StartupEvent::ClusterNodes(Ok(vec![node(1, 80)]));
        let (startup, action) = startup.step(nodes, Protocol::UDP, url);
        assert!(matches!(startup, ServiceStartup::Over));
        match action {
            StartupAction::Run { service, subscribe } => {
                assert_eq!(subscribe, expected);
                assert_eq!(service.estimated_current_slot(), 5000);
                assert_eq!(service.unique_leader_tpu_sockets(64), vec![v4(80)]);
            }
            other => panic!("{:?}", other),
        }
    }
}

#[test]
fn a_missing_schedule_is_asked_for_again() {
    let startup = leaders_requested("");
    let rejected = answered(Err(no_schedule_yet()), 7);
    let (startup, action) = startup.step(rejected, Protocol::UDP, "");
    assert!(matches!(action, StartupAction::Wait { ns: 1_000_000_000 }));
    let waited = StartupEvent::Waited { elapsed_ns: 1_000_000_008 };
    let (startup, action) = startup.step(waited, Protocol::UDP, "");
    let expected = LeadersRequest { start: 5000, limit: 64 };
    assert!(matches!(
        action,
        StartupAction::FetchSlotLeaders { request, within_ns: 18_999_999_992 } if request == expected
    ));
    assert!(matches!(startup, ServiceStartup::FetchingSlotLeaders { start_slot: 5000, .. }));
}

#[test]
fn any_other_rejection_of_the_leaders_is_fatal() {
    let startup = leaders_requested("");
    let rejected = answered(Err(refused()), u128::MAX);
    let (_, action) = startup.step(rejected, Protocol::UDP, "");
    assert!(matches!(action, StartupAction::Abort(LeadersFailure::Rejected(_))));
}

#[test]
fn leaders_that_do_not_arrive_are_fatal() {
    let startup = leaders_requested("ws://host");
    let timed_out = StartupEvent::TimedOut { elapsed_ns: 20_000_000_000 };
    let (_, action) = startup.step(timed_out, Protocol::UDP, "ws://host");
    match action {
        StartupAction::Abort(LeadersFailure::TimedOut(error)) => assert_eq!(
            error.message(),
            "Custom error: Failed to get slot leaders connecting to: ws://host, \
             timeout: 20s. Invalid slot range"
        ),
        other => panic!("{:?}", other),
    }
}

#[test]
fn waiting_for_leaders_can_time_out_too() {
    let startup = leaders_requested("");
    let rejected = answered(Err(no_schedule_yet()), 19_500_000_000);
    let (startup, action) = startup.step(rejected, Protocol::UDP, "");
    assert!(matches!(action, StartupAction::Wait { ns: 500_000_000 }));
    let waited = StartupEvent::Waited { elapsed_ns: 20_000_000_000 };
    let (startup, action) = startup.step(waited, Protocol::UDP, "");
    assert!(matches!(startup, ServiceStartup::Over));
    assert!(matches!(action, StartupAction::Abort(LeadersFailure::TimedOut(_))));
}

#[test]
fn a_retry_has_the_time_that_is_left() {
    let startup = leaders_requested("");
    let (startup, _) = startup.step(answered(Err(no_schedule_yet()), 0), Protocol::UDP, "");
    let waited = StartupEvent::Waited { elapsed_ns: 19_999_999_999 };
    let (startup, action) = startup.step(waited, Protocol::UDP, "");
    assert!(matches!(action, StartupAction::FetchSlotLeaders { within_ns: 1, .. }));
    let late = answered(Err(no_schedule_yet()), 20_000_000_000);
    let (_, action) = startup.step(late, Protocol::UDP, "");
    assert!(matches!(action, StartupAction::Abort(LeadersFailure::TimedOut(_))));
}

#[test]
fn steps_past_the_last_slot_number_are_told_apart() {
    let mut service = LeaderTpuService::new(u64::MAX, 1, vec![], vec![], Protocol::UDP);
    assert!(!service.can_estimate());
    let (refresher, _) = CacheRefresher::start(false);
    let woke = RefreshEvent::Woke { since_cluster_refresh_ns: 0 };
    assert!(!refresher.can_step(&service, &woke));
    let woke = RefreshEvent::Woke { since_cluster_refresh_ns: 300_000_000_001 };
    assert!(refresher.can_step(&service, &woke));
    let (refresher, action) = refresher.step(&mut service, woke, false);
    assert_eq!(action, RefreshAction::FetchClusterNodes);
    assert!(!refresher.can_step(&service, &RefreshEvent::ClusterNodes(Ok(vec![]))));
    let refresher = CacheRefresher::FetchingEpochInfo {
        nodes: None,
        slot_leaders: Some(LeadersRequest { start: 1, limit: 2 }),
    };
    let epoch = RefreshEvent::EpochInfo(Ok(EpochInfo { slots_in_epoch: 9 }));
    assert!(refresher.can_step(&service, &epoch));
    let (refresher, action) = refresher.step(&mut service, epoch, false);
    assert_eq!(action, RefreshAction::FetchSlotLeaders(LeadersRequest { start: 1, limit: 2 }));
    assert!(!refresher.can_step(&service, &RefreshEvent::SlotLeaders(Ok(vec![]))));
}

#[test]
fn other_failures_end_the_start() {
    let (startup, _) = ServiceStartup::start();
    let (startup, action) = startup.step(StartupEvent::Slot(Err(refused())), Protocol::UDP, "");
    assert!(matches!(startup, ServiceStartup::Over));
    assert!(matches!(action, StartupAction::Fail(ClientError::Other(text)) if text == "refused"));
    let (startup, _) = ServiceStartup::start();
    let (startup, _) = startup.step(StartupEvent::Slot(Ok(1)), Protocol::UDP, "");
    let (_, action) = startup.step(StartupEvent::EpochInfo(Err(refused())), Protocol::UDP, "");
    assert!(matches!(action, StartupAction::Fail(_)));
    let startup = leaders_requested("");
    let leaders = answered(Ok(vec![]), 20_000_000_001);
    let (startup, _) = startup.step(leaders, Protocol::UDP, "");
    let nodes = StartupEvent::ClusterNodes(Err(refused()));
    let (_, action) = startup.step(nodes, Protocol::UDP, "");
    assert!(matches!(action, StartupAction::Fail(_)));
}
