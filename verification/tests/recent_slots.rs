use tpu_sender::engine::recent_leaders_slot::{
    RecentLeaderSlots, TpuClientConfig, DEFAULT_FANOUT_SLOTS, DEFAULT_TPU_CONNECTION_POOL_SIZE,
    DEFAULT_TPU_ENABLE_UDP, DEFAULT_TPU_USE_QUIC, MAX_FANOUT_SLOTS, MAX_SLOT_SKIP_DISTANCE,
    RECENT_SLOTS,
};
use tpu_sender::ordering::sort_ascending;

fn recorded(slots: &[u64]) -> RecentLeaderSlots {
    let mut recent = RecentLeaderSlots::new(slots[0]);
    for slot in &slots[1..] {
        recent.record_slot(*slot);
    }
    recent
}

#[test]
fn settings_have_their_defaults() {
    assert_eq!(TpuClientConfig::default().fanout_slots, 64);
    assert_eq!(DEFAULT_FANOUT_SLOTS, 64);
    assert_eq!(MAX_FANOUT_SLOTS, 100);
    assert_eq!(MAX_SLOT_SKIP_DISTANCE, 48);
    assert_eq!(RECENT_SLOTS, 12);
    assert!(!DEFAULT_TPU_ENABLE_UDP);
    assert!(DEFAULT_TPU_USE_QUIC);
    assert_eq!(DEFAULT_TPU_CONNECTION_POOL_SIZE, 1);
}

#[test]
fn sorting_orders_and_keeps_the_values() {
    let mut values = vec![5, 1, 4, 1, 9, 0, 5];
    sort_ascending(&mut values);
    assert_eq!(values, vec![0, 1, 1, 4, 5, 5, 9]);
    let mut none: Vec<u64> = vec![];
    sort_ascending(&mut none);
    assert!(none.is_empty());
}

#[test]
fn a_single_slot_is_the_estimate() {
    assert_eq!(recorded(&[0]).estimated_current_slot(), 0);
    assert_eq!(recorded(&[1234]).estimated_current_slot(), 1234);
}

#[test]
fn the_highest_reasonable_slot_is_the_estimate() {
    // The lower median of two is 10; 10 + 1 + 48 = 59 is still reasonable.
    assert_eq!(recorded(&[10, 59]).estimated_current_slot(), 59);
    assert_eq!(recorded(&[10, 60]).estimated_current_slot(), 10);
    // The median of three is 11; 11 + 1 + 48 = 60.
    assert_eq!(recorded(&[10, 60, 11]).estimated_current_slot(), 60);
    assert_eq!(recorded(&[10, 61, 11]).estimated_current_slot(), 11);
}

#[test]
fn a_full_run_of_slots_gives_the_newest() {
    let slots: Vec<u64> = (1..=12).collect();
    assert_eq!(recorded(&slots).estimated_current_slot(), 12);
}

#[test]
fn one_far_future_slot_does_not_count() {
    let mut slots: Vec<u64> = (1..=11).collect();
    slots.push(1_000_000);
    assert_eq!(recorded(&slots).estimated_current_slot(), 11);
}

#[test]
fn six_far_future_slots_do_not_count_and_seven_do() {
    let mut slots: Vec<u64> = vec![100; 6];
    slots.extend(vec![5_000; 6]);
    assert_eq!(recorded(&slots).estimated_current_slot(), 100);
    let mut slots: Vec<u64> = vec![100; 5];
    slots.extend(vec![5_000; 7]);
    assert_eq!(recorded(&slots).estimated_current_slot(), 5_000);
}

#[test]
fn stale_slots_do_not_hold_the_estimate_back() {
    let mut slots: Vec<u64> = vec![1; 5];
    slots.extend(vec![700; 7]);
    assert_eq!(recorded(&slots).estimated_current_slot(), 700);
}

#[test]
fn only_twelve_slots_are_kept() {
    // The thirteenth record pushes out the first.
    let mut slots: Vec<u64> = vec![9_000];
    slots.extend(vec![5; 12]);
    let recent = recorded(&slots);
    assert_eq!(recent.estimated_current_slot(), 5);
    let mut slots: Vec<u64> = vec![5; 6];
    slots.extend(vec![9_000; 6]);
    let mut recent = recorded(&slots);
    assert_eq!(recent.estimated_current_slot(), 5);
    recent.record_slot(9_000);
    assert_eq!(recent.estimated_current_slot(), 9_000);
}

#[test]
fn the_order_of_the_records_does_not_matter() {
    let forward = recorded(&[3, 8, 5, 200, 7]);
    let backward = recorded(&[7, 200, 5, 8, 3]);
    assert_eq!(forward.estimated_current_slot(), 8);
    assert_eq!(backward.estimated_current_slot(), 8);
}

#[test]
fn slots_at_the_end_of_the_range_cannot_be_estimated() {
    assert!(recorded(&[u64::MAX - 48]).can_estimate());
    assert_eq!(recorded(&[u64::MAX - 48]).estimated_current_slot(), u64::MAX - 48);
    assert!(!recorded(&[u64::MAX - 47]).can_estimate());
    assert!(recorded(&[5, u64::MAX]).can_estimate());
}
