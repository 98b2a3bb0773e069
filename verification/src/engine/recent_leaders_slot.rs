use crate::ordering;
use std::collections::VecDeque;
use vstd::prelude::*;

pub use solana_sdk::clock::Slot;

verus! {

pub const DEFAULT_TPU_ENABLE_UDP: bool = false;

pub const DEFAULT_TPU_USE_QUIC: bool = true;

/// One connection per address is enough for most uses.
pub const DEFAULT_TPU_CONNECTION_POOL_SIZE: usize = 1;

/// Default number of slots used to build the TPU socket fanout set.
pub const DEFAULT_FANOUT_SLOTS: u64 = 64;

/// Maximum number of slots used to build the TPU socket fanout set.
pub const MAX_FANOUT_SLOTS: u64 = 100;

/// How far past the expected slot a recorded slot may lie and still be believed.
/// It is unlikely that 12 leaders in a row miss their slots.
pub const MAX_SLOT_SKIP_DISTANCE: u64 = 48;

/// How many recorded slots are kept. This many keep one misbehaving validator
/// from moving the median.
pub const RECENT_SLOTS: usize = 12;

/// Settings of the client.
#[derive(Clone, Copy, Debug)]
pub struct TpuClientConfig {
    /// The range of upcoming slots in which leaders are looked up
    /// (at least 1, at most `MAX_FANOUT_SLOTS`).
    pub fanout_slots: u64,
}

impl Default for TpuClientConfig {
    fn default() -> (config: Self)
        ensures
            config.fanout_slots == DEFAULT_FANOUT_SLOTS,
            config.fanout_slots == 64,
    {
        TpuClientConfig { fanout_slots: DEFAULT_FANOUT_SLOTS }
    }
}

/// The newest entries of `s`, `RECENT_SLOTS` at most.
pub open spec fn newest(s: Seq<Slot>) -> Seq<Slot> {
    if s.len() <= RECENT_SLOTS {
        s
    } else {
        s.skip(s.len() - RECENT_SLOTS)
    }
}

/// The position of the median among `len` values in ascending order; of two
/// middle positions the lower one.
pub open spec fn median_index(len: nat) -> int {
    (len - 1) / 2
}

/// The median of the recorded slots.
pub open spec fn median_slot(recent: Seq<Slot>) -> Slot {
    ordering::ascending(recent)[median_index(recent.len())]
}

/// The highest slot that is in line with the recorded ones: the median, one
/// slot for each record after it, and the distance that may be skipped.
pub open spec fn max_reasonable_slot(recent: Seq<Slot>) -> int {
    median_slot(recent) + (recent.len() - 1 - median_index(recent.len())) + MAX_SLOT_SKIP_DISTANCE
}

/// `slot` is the highest recorded slot that is still reasonable.
pub open spec fn is_estimate(recent: Seq<Slot>, slot: Slot) -> bool {
    &&& recent.contains(slot)
    &&& slot <= max_reasonable_slot(recent)
    &&& forall|other: Slot| #[trigger]
        recent.contains(other) && other <= max_reasonable_slot(recent) ==> other <= slot
}

/// The slot that the recorded slots point to.
pub open spec fn estimate(recent: Seq<Slot>) -> Slot {
    choose|slot: Slot| is_estimate(recent, slot)
}

/// What is kept after `slots` were recorded one after the other.
pub open spec fn record_all(recent: Seq<Slot>, slots: Seq<Slot>) -> Seq<Slot>
    decreases slots.len(),
{
    if slots.len() == 0 {
        recent
    } else {
        newest(record_all(recent, slots.drop_last()).push(slots.last()))
    }
}

/// The slots that were reported most recently, oldest first.
#[derive(Debug)]
pub struct RecentLeaderSlots {
    slots: VecDeque<Slot>,
}

impl View for RecentLeaderSlots {
    type V = Seq<Slot>;

    closed spec fn view(&self) -> Seq<Slot> {
        self.slots@
    }
}

impl RecentLeaderSlots {
    /// At least one slot is recorded, and no more than are kept.
    pub open spec fn wf(&self) -> bool {
        1 <= self@.len() <= RECENT_SLOTS
    }

    /// The highest reasonable slot is a slot number.
    pub open spec fn estimable(&self) -> bool {
        max_reasonable_slot(self@) <= u64::MAX
    }

    pub fn new(current_slot: Slot) -> (recent: Self)
        ensures
            recent.wf(),
            recent@ == seq![current_slot],
    {
        let mut slots: VecDeque<Slot> = VecDeque::new();
        slots.push_back(current_slot);
        let recent = RecentLeaderSlots { slots };
        assert(recent@ =~= seq![current_slot]);
        recent
    }

    /// Records `current_slot` and forgets the oldest record where there are too many.
    pub fn record_slot(&mut self, current_slot: Slot)
        requires
            old(self).wf(),
        ensures
            final(self).wf(),
            final(self)@ == newest(old(self)@.push(current_slot)),
            final(self)@.len() == if old(self)@.len() < 12 {
                old(self)@.len() + 1
            } else {
                12
            },
            final(self)@.last() == current_slot,
            forall|back: int|
                1 <= back < final(self)@.len() ==> #[trigger] final(self)@[final(self)@.len() - 1
                    - back] == old(self)@[old(self)@.len() - back],
    {
        self.slots.push_back(current_slot);
        let ghost all = self.slots@;
        let ghost mut gone: int = 0;
        while self.slots.len() > RECENT_SLOTS
            invariant
                0 <= gone <= all.len(),
                self.slots@ == all.skip(gone),
                gone == 0 || self.slots@.len() >= RECENT_SLOTS,
            decreases self.slots@.len(),
        {
            let _ = self.slots.pop_front();
            proof {
                gone = gone + 1;
                assert(self.slots@ =~= all.skip(gone));
            }
        }
        assert(self@ =~= newest(old(self)@.push(current_slot)));
    }

    /// Estimates the current slot from the recorded ones.
    ///
    /// Validators can broadcast blocks that are far in the future, so the highest
    /// record counts only where it is in line with the recent progression.
    pub fn estimated_current_slot(&self) -> (slot: Slot)
        requires
            self.wf(),
            self.estimable(),
        ensures
            is_estimate(self@, slot),
            slot == estimate(self@),
    {
        let sorted: Vec<Slot> = self.in_ascending_order();
        let max_index: usize = sorted.len() - 1;
        let median_index: usize = max_index / 2;
        let expected_current_slot: u64 = sorted[median_index] + (max_index - median_index) as u64;
        let max_reasonable_current_slot: u64 = expected_current_slot + MAX_SLOT_SKIP_DISTANCE;
        proof {
            ordering::lemma_ascending(self@);
        }
        let mut index: usize = max_index;
        while sorted[index] > max_reasonable_current_slot
            invariant
                median_index <= index < sorted@.len(),
                sorted@[median_index as int] <= max_reasonable_current_slot,
                forall|i: int| index < i < sorted@.len() ==> sorted@[i] > max_reasonable_current_slot,
            decreases index,
        {
            index = index - 1;
        }
        let slot: Slot = sorted[index];
        proof {
            assert(sorted@.contains(slot));
            assert forall|other: Slot| #[trigger]
                self@.contains(other) && other <= max_reasonable_slot(self@) implies other
                <= slot by {
                assert(sorted@.contains(other));
                let i = choose|i: int| 0 <= i < sorted@.len() && sorted@[i] == other;
                assert(i <= index);
            }
            lemma_estimate_is_unique(self@, slot, estimate(self@));
        }
        slot
    }

    /// Tells whether the highest reasonable slot is a slot number.
    pub fn can_estimate(&self) -> (fits: bool)
        requires
            self.wf(),
        ensures
            fits == self.estimable(),
    {
        let sorted: Vec<Slot> = self.in_ascending_order();
        proof {
            ordering::lemma_ascending(self@);
        }
        let max_index: usize = sorted.len() - 1;
        let median_index: usize = max_index / 2;
        let ahead: u64 = (max_index - median_index) as u64 + MAX_SLOT_SKIP_DISTANCE;
        sorted[median_index] <= u64::MAX - ahead
    }

    fn in_ascending_order(&self) -> (sorted: Vec<Slot>)
        ensures
            sorted@ == ordering::ascending(self@),
            sorted@.len() == self@.len(),
    {
        let mut sorted: Vec<Slot> = Vec::new();
        let mut next: usize = 0;
        while next < self.slots.len()
            invariant
                next <= self.slots@.len(),
                sorted@ == self.slots@.take(next as int),
            decreases self.slots@.len() - next,
        {
            sorted.push(self.slots[next]);
            next = next + 1;
            assert(sorted@ =~= self.slots@.take(next as int));
        }
        assert(sorted@ =~= self@);
        ordering::sort_ascending(&mut sorted);
        proof {
            ordering::lemma_ascending(self@);
        }
        sorted
    }
}

proof fn lemma_estimate_is_unique(recent: Seq<Slot>, a: Slot, b: Slot)
    requires
        is_estimate(recent, a),
        is_estimate(recent, b),
    ensures
        a == b,
{
}

/// However many slots are recorded, what is kept is the newest of all that ever were.
pub proof fn law_window_keeps_the_newest(recent: Seq<Slot>, slots: Seq<Slot>)
    requires
        recent.len() <= RECENT_SLOTS,
    ensures
        record_all(recent, slots) == newest(recent + slots),
    decreases slots.len(),
{
    if slots.len() == 0 {
        assert(recent + slots =~= recent);
    } else {
        law_window_keeps_the_newest(recent, slots.drop_last());
        assert(record_all(recent, slots) =~= newest(recent + slots));
    }
}

/// Some recorded slot is the estimate, and it is neither below the median nor
/// above the highest reasonable slot.
pub proof fn law_estimate_is_between_median_and_bound(recent: Seq<Slot>)
    requires
        recent.len() >= 1,
    ensures
        is_estimate(recent, estimate(recent)),
        median_slot(recent) <= estimate(recent) <= max_reasonable_slot(recent),
{
    ordering::lemma_ascending(recent);
    let bound = max_reasonable_slot(recent);
    let median = median_slot(recent);
    assert(ordering::ascending(recent).contains(median));
    let slot = lemma_highest_up_to(recent, bound, median);
    assert(is_estimate(recent, slot));
}

proof fn lemma_highest_up_to(recent: Seq<Slot>, bound: int, witness: Slot) -> (slot: Slot)
    requires
        recent.contains(witness),
        witness <= bound,
    ensures
        recent.contains(slot),
        slot <= bound,
        forall|other: Slot| #[trigger] recent.contains(other) && other <= bound ==> other <= slot,
    decreases recent.len(),
{
    let rest = recent.drop_last();
    let last = recent.last();
    assert forall|other: Slot| #[trigger] recent.contains(other) implies rest.contains(other)
        || other == last by {
        let i = choose|i: int| 0 <= i < recent.len() && recent[i] == other;
        if i < rest.len() {
            assert(rest[i] == other);
        }
    }
    assert(recent[recent.len() - 1] == last);
    assert forall|other: Slot| #[trigger] rest.contains(other) implies recent.contains(other) by {
        let i = choose|i: int| 0 <= i < rest.len() && rest[i] == other;
        assert(recent[i] == other);
    }
    if exists|other: Slot| #[trigger] rest.contains(other) && other <= bound {
        let other = choose|other: Slot| #[trigger] rest.contains(other) && other <= bound;
        let below = lemma_highest_up_to(rest, bound, other);
        if below < last && last <= bound {
            last
        } else {
            below
        }
    } else {
        last
    }
}

/// Where every record is reasonable, the estimate is the highest one.
pub proof fn law_estimate_is_highest_reasonable(recent: Seq<Slot>, highest: Slot)
    requires
        recent.contains(highest),
        forall|other: Slot| #[trigger] recent.contains(other) ==> other <= highest,
        highest <= max_reasonable_slot(recent),
    ensures
        estimate(recent) == highest,
{
    assert(is_estimate(recent, highest));
}

/// The estimate goes by the recorded values alone, not by the order in which
/// they were recorded.
pub proof fn law_estimate_ignores_order(recent: Seq<Slot>, other: Seq<Slot>)
    requires
        recent.len() >= 1,
        recent.to_multiset() == other.to_multiset(),
    ensures
        estimate(recent) == estimate(other),
        max_reasonable_slot(recent) == max_reasonable_slot(other),
{
    ordering::lemma_ascending(recent);
    ordering::lemma_ascending(other);
    ordering::lemma_ascending_is_unique(other, ordering::ascending(recent));
    assert forall|slot: Slot| recent.contains(slot) <==> other.contains(slot) by {
        assert(ordering::ascending(recent).contains(slot) <==> recent.contains(slot));
        assert(ordering::ascending(other).contains(slot) <==> other.contains(slot));
    }
    law_estimate_is_between_median_and_bound(recent);
    assert(is_estimate(other, estimate(recent)));
}

/// Slots in the far future cannot drag the estimate along: where more records
/// than lie in front of the median are at most `honest`, the estimate passes
/// `honest` by no more than the records after the median and the distance that
/// may be skipped, whatever the other records are.
pub proof fn law_far_future_slots_are_bounded(recent: Seq<Slot>, honest: Slot)
    requires
        recent.len() >= 1,
        ordering::count_where(recent, |slot: Slot| slot <= honest) > median_index(recent.len()),
    ensures
        median_slot(recent) <= honest,
        estimate(recent) <= honest + (recent.len() - 1 - median_index(recent.len()))
            + MAX_SLOT_SKIP_DISTANCE,
{
    let pred = |slot: Slot| slot <= honest;
    let sorted = ordering::ascending(recent);
    let middle = median_index(recent.len());
    ordering::lemma_ascending(recent);
    ordering::lemma_count_ignores_order(recent, sorted, pred);
    if sorted[middle] > honest {
        assert forall|i: int| middle <= i < sorted.len() implies !pred(#[trigger] sorted[i]) by {
            assert(sorted[middle] <= sorted[i]);
        }
        ordering::lemma_count_in_front(sorted, pred, middle);
    }
    law_estimate_is_between_median_and_bound(recent);
}

/// Stale slots cannot hold the estimate back: where enough records to reach the
/// median from above are at least `honest`, so is the estimate, whatever the
/// other records are.
pub proof fn law_stale_slots_do_not_hold_back(recent: Seq<Slot>, honest: Slot)
    requires
        recent.len() >= 1,
        ordering::count_where(recent, |slot: Slot| slot >= honest) >= recent.len() - median_index(
            recent.len(),
        ),
    ensures
        median_slot(recent) >= honest,
        estimate(recent) >= honest,
{
    let pred = |slot: Slot| slot >= honest;
    let sorted = ordering::ascending(recent);
    let middle = median_index(recent.len());
    ordering::lemma_ascending(recent);
    ordering::lemma_count_ignores_order(recent, sorted, pred);
    if sorted[middle] < honest {
        assert forall|i: int| 0 <= i < middle + 1 implies !pred(#[trigger] sorted[i]) by {
            assert(sorted[i] <= sorted[middle]);
        }
        ordering::lemma_count_behind(sorted, pred, middle + 1);
    }
    law_estimate_is_between_median_and_bound(recent);
}

/// Whatever was recorded, the window holds the last twelve records in the order
/// in which they came, and all records while there are no more than twelve: seen
/// from the newest, each kept record is the one that came at that place.
pub proof fn law_window_holds_the_last_twelve(recent: Seq<Slot>, slots: Seq<Slot>, back: int)
    requires
        recent.len() <= 12,
    ensures
        record_all(recent, slots).len() == if recent.len() + slots.len() <= 12 {
            recent.len() + slots.len()
        } else {
            12
        },
        0 <= back < record_all(recent, slots).len() ==> record_all(recent, slots)[record_all(
            recent,
            slots,
        ).len() - 1 - back] == (recent + slots)[recent.len() + slots.len() - 1 - back],
        record_all(recent, seq![]) == recent,
        forall|slot: Slot|
            record_all(recent, slots.push(slot)) == #[trigger] newest(
                record_all(recent, slots).push(slot),
            ),
{
    law_window_keeps_the_newest(recent, slots);
    assert forall|slot: Slot|
        record_all(recent, slots.push(slot)) == #[trigger] newest(
            record_all(recent, slots).push(slot),
        ) by {
        assert(slots.push(slot).drop_last() =~= slots);
    }
}

/// The estimate is the highest record that lies no further past the median than
/// the number of records after the median and 48 slots more, however many records
/// there are. The median is the middle record in ascending order, the lower one of
/// two.
pub proof fn law_every_reasonable_record_is_believed(recent: Seq<Slot>, sorted: Seq<Slot>)
    requires
        recent.len() >= 1,
        sorted.to_multiset() == recent.to_multiset(),
        forall|i: int, j: int| 0 <= i <= j < sorted.len() ==> sorted[i] <= sorted[j],
    ensures
        recent.contains(estimate(recent)),
        estimate(recent) <= sorted[(recent.len() - 1) / 2] + recent.len() / 2 + 48,
        forall|slot: Slot| #[trigger]
            recent.contains(slot) && slot <= sorted[(recent.len() - 1) / 2] + recent.len() / 2 + 48
                ==> slot <= estimate(recent),
        max_reasonable_slot(recent) == sorted[(recent.len() - 1) / 2] + recent.len() / 2 + 48,
        median_slot(recent) == sorted[(recent.len() - 1) / 2],
{
    ordering::lemma_ascending_is_unique(recent, sorted);
    law_estimate_is_between_median_and_bound(recent);
}

/// No record is lost to the estimate while all lie close together: where no record
/// is more than 48 slots past any other, the estimate is the highest of all.
pub proof fn law_close_records_are_all_believed(recent: Seq<Slot>, slot: Slot)
    requires
        recent.contains(slot),
        forall|a: Slot, b: Slot| #[trigger]
            recent.contains(a) && #[trigger] recent.contains(b) ==> a <= b + 48,
    ensures
        slot <= estimate(recent),
        recent.contains(estimate(recent)),
{
    let sorted = ordering::ascending(recent);
    ordering::lemma_ascending(recent);
    law_every_reasonable_record_is_believed(recent, sorted);
    let middle = (recent.len() - 1) / 2;
    let median = sorted[middle];
    assert(sorted.contains(median));
    assert(recent.contains(median));
    assert(slot <= median + 48);
}

/// The estimate moves with the slots: where every record is `by` slots later, so is
/// the estimate.
pub proof fn law_estimate_moves_with_the_records(recent: Seq<Slot>, later: Seq<Slot>, by: int)
    requires
        recent.len() >= 1,
        later.len() == recent.len(),
        forall|i: int| 0 <= i < recent.len() ==> #[trigger] later[i] == recent[i] + by,
    ensures
        estimate(later) == estimate(recent) + by,
{
    let sorted = ordering::ascending(recent);
    ordering::lemma_ascending(recent);
    let shift = |slot: u64| (slot + by) as u64;
    let moved = sorted.map_values(shift);
    assert(later =~= recent.map_values(shift));
    ordering::lemma_map_keeps_values(recent, sorted, shift);
    assert forall|i: int| 0 <= i < sorted.len() implies #[trigger] moved[i] == sorted[i] + by by {
        let slot = sorted[i];
        assert(sorted.contains(slot));
        assert(recent.contains(slot));
        let j = choose|j: int| 0 <= j < recent.len() && recent[j] == slot;
        assert(later[j] == recent[j] + by);
    }
    assert(moved.len() == sorted.len());
    law_every_reasonable_record_is_believed(recent, sorted);
    law_every_reasonable_record_is_believed(later, moved);
    let from = estimate(recent);
    let i = choose|i: int| 0 <= i < recent.len() && recent[i] == from;
    assert(later[i] == from + by);
    assert(later.contains(later[i]));
    let to = estimate(later);
    let j = choose|j: int| 0 <= j < later.len() && later[j] == to;
    assert(recent.contains(recent[j]));
}

} // verus!
