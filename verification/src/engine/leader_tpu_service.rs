use crate::cluster::{Protocol, Pubkey, RpcContactInfo, SlotUpdate, SocketAddr};
use crate::engine::leader_tpu_cache;
use crate::engine::leader_tpu_cache::{LeaderSchedule, LeaderTpuCache, LeaderTpuCacheUpdateInfo};
use crate::engine::recent_leaders_slot;
use crate::engine::recent_leaders_slot::{RecentLeaderSlots, Slot, MAX_FANOUT_SLOTS};
use vstd::prelude::*;

verus! {

/// How long to wait for a slot notification, in milliseconds. It is shorter than
/// a slot, so that a watcher comes to rest between notifications and can stop.
pub const SLOT_UPDATE_TIMEOUT_MS: u64 = 10;

/// The recorded slots and the leader schedule, as values.
pub struct ServiceState {
    pub recent: Seq<Slot>,
    pub schedule: LeaderSchedule,
}

impl ServiceState {
    /// The estimate of the current slot.
    pub open spec fn current_slot(self) -> Slot {
        recent_leaders_slot::estimate(self.recent)
    }

    /// The current slot can be estimated.
    pub open spec fn estimate_in_range(self) -> bool {
        recent_leaders_slot::max_reasonable_slot(self.recent) <= u64::MAX
    }

    /// The slots that are computed from the state are slot numbers.
    pub open spec fn in_range(self) -> bool {
        &&& self.estimate_in_range()
        &&& self.schedule.last_slot() <= u64::MAX
    }

    /// The end of a lookup is a slot number.
    pub open spec fn fanout_in_range(self, fanout_slots: u64) -> bool {
        &&& self.estimate_in_range()
        &&& self.schedule.lookup_fits(self.current_slot(), fanout_slots)
    }

    /// Fresh epoch information is wanted.
    pub open spec fn epoch_info_due(self) -> bool {
        self.current_slot() >= self.schedule.last_epoch_info_slot - self.schedule.slots_in_epoch
    }

    /// The schedule does not reach the largest fanout past the current slot, or
    /// barely does.
    pub open spec fn slot_leaders_due(self) -> bool {
        self.current_slot() >= self.schedule.last_slot() - MAX_FANOUT_SLOTS
    }

    /// The slots whose leaders are asked for: the first one and their number.
    pub open spec fn leaders_request(self) -> LeadersRequest {
        LeadersRequest {
            start: self.current_slot(),
            limit: leader_tpu_cache::schedule_fanout(self.schedule.slots_in_epoch),
        }
    }

    /// The state after an update arrived.
    pub open spec fn updated(self, info: LeaderTpuCacheUpdateInfo) -> ServiceState {
        ServiceState {
            recent: self.recent,
            schedule: self.schedule.updated(self.current_slot(), info),
        }
    }
}

/// A range of slots whose leaders are asked for.
#[derive(Clone, Copy, Debug, PartialEq, Eq, Structural)]
pub struct LeadersRequest {
    pub start: Slot,
    pub limit: u64,
}

/// What is to be fetched besides the contacts.
#[derive(Clone, Copy, Debug, PartialEq, Eq, Structural)]
pub struct FetchPlan {
    pub epoch_info: bool,
    pub slot_leaders: Option<LeadersRequest>,
}

/// The slot that a notification reports as current, where it reports one. A
/// completed slot is over, so its leader takes no more transactions; a slot
/// whose first shred arrived is under way.
pub open spec fn reported_slot(update: SlotUpdate) -> Option<Slot> {
    match update {
        SlotUpdate::Completed { slot } => Some(
            if slot < u64::MAX {
                (slot + 1) as u64
            } else {
                u64::MAX
            },
        ),
        SlotUpdate::FirstShredReceived { slot } => Some(slot),
        _ => None,
    }
}

/// What was heard on the stream of slot notifications: one of them, or nothing
/// for a while.
#[derive(Clone, Copy, Debug, PartialEq, Eq, Structural)]
pub enum WatchEvent {
    Update(SlotUpdate),
    Quiet,
}

/// What the slot watcher does next.
#[derive(Clone, Copy, Debug, PartialEq, Eq, Structural)]
pub enum WatchAction {
    Poll,
    Shutdown,
}

/// Follows the slots of the cluster and knows the sockets of the upcoming leaders.
#[derive(Debug)]
pub struct LeaderTpuService {
    recent_slots: RecentLeaderSlots,
    leader_tpu_cache: LeaderTpuCache,
}

impl View for LeaderTpuService {
    type V = ServiceState;

    closed spec fn view(&self) -> ServiceState {
        ServiceState { recent: self.recent_slots@, schedule: self.leader_tpu_cache@ }
    }
}

impl LeaderTpuService {
    pub closed spec fn wf(&self) -> bool {
        self.recent_slots.wf() && self.leader_tpu_cache.wf()
    }

    /// A service that starts at `start_slot` with what was fetched there.
    pub fn new(
        start_slot: Slot,
        slots_in_epoch: Slot,
        leaders: Vec<Pubkey>,
        cluster_nodes: Vec<RpcContactInfo>,
        protocol: Protocol,
    ) -> (service: Self)
        ensures
            service.wf(),
            service@.recent == seq![start_slot],
            service@.schedule == (LeaderSchedule {
                protocol,
                first_slot: start_slot,
                leaders: leaders@,
                sockets: leader_tpu_cache::cluster_tpu_sockets(protocol, cluster_nodes@),
                slots_in_epoch,
                last_epoch_info_slot: start_slot,
            }),
    {
        let recent_slots = RecentLeaderSlots::new(start_slot);
        let leader_tpu_cache = LeaderTpuCache::new(
            start_slot,
            slots_in_epoch,
            leaders,
            cluster_nodes,
            protocol,
        );
        LeaderTpuService { recent_slots, leader_tpu_cache }
    }

    /// The estimate of the current slot.
    pub fn estimated_current_slot(&self) -> (slot: Slot)
        requires
            self.wf(),
            self@.estimate_in_range(),
        ensures
            slot == self@.current_slot(),
            slot == recent_leaders_slot::estimate(self@.recent),
            recent_leaders_slot::is_estimate(self@.recent, slot),
    {
        self.recent_slots.estimated_current_slot()
    }

    /// Tells whether the current slot can be estimated.
    pub fn can_estimate(&self) -> (fits: bool)
        requires
            self.wf(),
        ensures
            fits == self@.estimate_in_range(),
    {
        self.recent_slots.can_estimate()
    }

    /// Tells whether the slots that are computed from the state are slot numbers.
    pub fn slots_in_range(&self) -> (fits: bool)
        requires
            self.wf(),
        ensures
            fits == self@.in_range(),
    {
        self.recent_slots.can_estimate() && self.leader_tpu_cache.last_slot_fits()
    }

    /// Tells whether a lookup ends at a slot number.
    pub fn can_fan_out(&self, fanout_slots: u64) -> (fits: bool)
        requires
            self.wf(),
        ensures
            fits == self@.fanout_in_range(fanout_slots),
    {
        self.recent_slots.can_estimate() && self.leader_tpu_cache.lookup_in_range(
            self.recent_slots.estimated_current_slot(),
            fanout_slots,
        )
    }

    /// The TPU sockets of the current and the upcoming leaders, each socket once.
    pub fn unique_leader_tpu_sockets(&self, fanout_slots: u64) -> (sockets: Vec<SocketAddr>)
        requires
            self.wf(),
            self@.fanout_in_range(fanout_slots),
        ensures
            sockets@ == self@.schedule.unique_leader_sockets(self@.current_slot(), fanout_slots),
    {
        let current_slot: Slot = self.recent_slots.estimated_current_slot();
        self.leader_tpu_cache.get_unique_leader_sockets(current_slot, fanout_slots)
    }

    /// The TPU sockets of the current and the upcoming leaders.
    pub fn leader_tpu_sockets(&self, fanout_slots: u64) -> (sockets: Vec<SocketAddr>)
        requires
            self.wf(),
            self@.fanout_in_range(fanout_slots),
        ensures
            sockets@ == self@.schedule.leader_sockets(self@.current_slot(), fanout_slots),
    {
        let current_slot: Slot = self.recent_slots.estimated_current_slot();
        self.leader_tpu_cache.get_leader_sockets(current_slot, fanout_slots)
    }

    /// One step of the slot watcher. A notification is taken in and the stream
    /// polled again; in a quiet moment the watcher stops if it is told to `exit`.
    pub fn watch_slots(&mut self, event: WatchEvent, exit: bool) -> (action: WatchAction)
        requires
            old(self).wf(),
        ensures
            final(self).wf(),
            final(self)@.schedule == old(self)@.schedule,
            final(self)@.recent == match event {
                WatchEvent::Update(update) => match reported_slot(update) {
                    Some(slot) => recent_leaders_slot::newest(old(self)@.recent.push(slot)),
                    None => old(self)@.recent,
                },
                WatchEvent::Quiet => old(self)@.recent,
            },
            action == (if event == WatchEvent::Quiet && exit {
                WatchAction::Shutdown
            } else {
                WatchAction::Poll
            }),
    {
        match event {
            WatchEvent::Update(update) => {
                match update {
                    SlotUpdate::Completed { slot } => {
                        self.recent_slots.record_slot(slot.saturating_add(1));
                    },
                    SlotUpdate::FirstShredReceived { slot } => {
                        self.recent_slots.record_slot(slot);
                    },
                    _ => {},
                }
                WatchAction::Poll
            },
            WatchEvent::Quiet => {
                if exit {
                    WatchAction::Shutdown
                } else {
                    WatchAction::Poll
                }
            },
        }
    }

    /// What is to be fetched at the current slot besides the contacts.
    pub fn fetch_plan(&self) -> (plan: FetchPlan)
        requires
            self.wf(),
            self@.in_range(),
        ensures
            plan.epoch_info == self@.epoch_info_due(),
            plan.slot_leaders is Some <==> self@.slot_leaders_due(),
            plan.slot_leaders matches Some(request) ==> request.start == self@.current_slot(),
            plan.slot_leaders == (if self@.slot_leaders_due() {
                Some(self@.leaders_request())
            } else {
                None
            }),
    {
        let estimated_current_slot: Slot = self.recent_slots.estimated_current_slot();
        let (last_slot, last_epoch_info_slot, slots_in_epoch) = self.leader_tpu_cache.slot_info();
        let epoch_info: bool = estimated_current_slot >= last_epoch_info_slot.saturating_sub(
            slots_in_epoch,
        );
        let slot_leaders = if estimated_current_slot >= last_slot.saturating_sub(MAX_FANOUT_SLOTS) {
            Some(
                LeadersRequest {
                    start: estimated_current_slot,
                    limit: LeaderTpuCache::fanout(slots_in_epoch),
                },
            )
        } else {
            None
        };
        FetchPlan { epoch_info, slot_leaders }
    }

    /// Takes over what was fetched, as of the current slot. Tells whether the
    /// contacts or the leaders could not be fetched, and whether the contacts
    /// are fresh.
    pub fn apply_update(&mut self, info: LeaderTpuCacheUpdateInfo) -> (outcome: (bool, bool))
        requires
            old(self).wf(),
            old(self)@.estimate_in_range(),
        ensures
            final(self).wf(),
            final(self)@ == old(self)@.updated(info),
            final(self)@.recent == old(self)@.recent,
            outcome.0 == leader_tpu_cache::update_failed(info),
            outcome.0 == ((info.maybe_cluster_nodes matches Some(Err(_))) || (
            info.maybe_slot_leaders matches Some(Err(_)))),
            outcome.1 == (info.maybe_cluster_nodes matches Some(Ok(_))),
    {
        let estimated_current_slot: Slot = self.recent_slots.estimated_current_slot();
        self.leader_tpu_cache.update_all(estimated_current_slot, info)
    }
}

/// While no new leaders are due, every slot at which a lookup within the largest
/// fanout asks has a known leader.
pub proof fn law_schedule_covers_every_fanout(state: ServiceState, fanout_slots: u64, slot: int)
    requires
        !state.slot_leaders_due(),
        fanout_slots <= MAX_FANOUT_SLOTS,
        leader_tpu_cache::visited_slots(
            state.schedule.lookup_start(state.current_slot()) as int,
            fanout_slots as int,
        ).contains(slot),
        state.schedule.first_slot <= state.current_slot(),
    ensures
        state.schedule.leader_at(slot) is Some,
{
}

/// Where all leaders that were asked for arrive while their first slot is still
/// the current one, no new leaders are due, unless the epoch is hardly longer
/// than the largest fanout.
pub proof fn law_fetched_leaders_last(state: ServiceState, info: LeaderTpuCacheUpdateInfo)
    requires
        state.schedule.slots_in_epoch > MAX_FANOUT_SLOTS + 1,
        info.maybe_slot_leaders matches Some(Ok(leaders)) && leaders@.len()
            == state.leaders_request().limit,
    ensures
        !state.updated(info).slot_leaders_due(),
{
}

/// A slot that is completed is over, so the one after it is current, or the last
/// slot number where there is none after it. A slot whose first shred arrived is
/// current itself. No other notification says which slot is current.
pub proof fn law_notifications_tell_the_current_slot(slot: Slot)
    ensures
        slot < u64::MAX ==> reported_slot(SlotUpdate::Completed { slot }) == Some(
            (slot + 1) as u64,
        ),
        reported_slot(SlotUpdate::Completed { slot: u64::MAX }) == Some(u64::MAX),
        reported_slot(SlotUpdate::FirstShredReceived { slot }) == Some(slot),
        reported_slot(SlotUpdate::CreatedBank { slot }) is None,
        reported_slot(SlotUpdate::Frozen { slot }) is None,
        reported_slot(SlotUpdate::Dead { slot }) is None,
        reported_slot(SlotUpdate::OptimisticConfirmation { slot }) is None,
        reported_slot(SlotUpdate::Root { slot }) is None,
{
}

/// Epoch information is wanted from one epoch before the slot on at which it was last
/// learnt; leaders from 100 slots before the last known one on. What is then asked
/// for starts at the current slot and has 200 slots, or as many as the epoch where
/// that is shorter.
pub proof fn law_fetches_are_due_in_time(state: ServiceState)
    ensures
        state.epoch_info_due() <==> recent_leaders_slot::estimate(state.recent)
            + state.schedule.slots_in_epoch >= state.schedule.last_epoch_info_slot,
        state.schedule.leaders.len() > 0 ==> (state.slot_leaders_due()
            <==> recent_leaders_slot::estimate(state.recent) + 101 >= state.schedule.first_slot
            + state.schedule.leaders.len()),
        state.schedule.leaders.len() == 0 ==> (state.slot_leaders_due()
            <==> recent_leaders_slot::estimate(state.recent) + 100 >= state.schedule.first_slot),
        state.leaders_request().start == recent_leaders_slot::estimate(state.recent),
        state.schedule.slots_in_epoch <= 200 ==> state.leaders_request().limit
            == state.schedule.slots_in_epoch,
        state.schedule.slots_in_epoch >= 200 ==> state.leaders_request().limit == 200,
{
}

/// An update is taken over as of the current slot and leaves the recorded slots
/// alone, so that the current slot stays what it was.
pub proof fn law_update_is_as_of_the_current_slot(
    state: ServiceState,
    info: LeaderTpuCacheUpdateInfo,
)
    ensures
        state.current_slot() == recent_leaders_slot::estimate(state.recent),
        state.updated(info).recent == state.recent,
        state.updated(info).current_slot() == state.current_slot(),
        state.updated(info).schedule == state.schedule.updated(
            recent_leaders_slot::estimate(state.recent),
            info,
        ),
{
}

/// A state is within bounds exactly where no slot that is computed from it runs past
/// the last slot number: the highest reasonable one, the last of the schedule, and
/// the end of a lookup.
pub proof fn law_bounds_are_those_of_slot_numbers(
    state: ServiceState,
    sorted: Seq<Slot>,
    fanout_slots: u64,
)
    requires
        state.recent.len() >= 1,
        sorted.to_multiset() == state.recent.to_multiset(),
        forall|i: int, j: int| 0 <= i <= j < sorted.len() ==> sorted[i] <= sorted[j],
    ensures
        state.estimate_in_range() <==> sorted[(state.recent.len() - 1) / 2] + state.recent.len() / 2
            + 48 <= u64::MAX,
        state.in_range() <==> state.estimate_in_range() && (state.schedule.leaders.len() == 0
            || state.schedule.first_slot + state.schedule.leaders.len() - 1 <= u64::MAX),
        state.fanout_in_range(fanout_slots) <==> state.estimate_in_range()
            && recent_leaders_slot::estimate(state.recent) + fanout_slots <= u64::MAX
            && state.schedule.first_slot + fanout_slots <= u64::MAX,
{
    recent_leaders_slot::law_every_reasonable_record_is_believed(state.recent, sorted);
}

} // verus!
