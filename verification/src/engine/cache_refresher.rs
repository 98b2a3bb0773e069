use crate::cluster::{ClientError, EpochInfo, Pubkey, RpcContactInfo};
use crate::engine::leader_tpu_cache;
use crate::engine::leader_tpu_cache::LeaderTpuCacheUpdateInfo;
use crate::engine::leader_tpu_service::{LeaderTpuService, LeadersRequest, ServiceState};
use crate::engine::recent_leaders_slot;
use crate::outside;
use vstd::prelude::*;

verus! {

/// How old the contacts may grow, in nanoseconds: five minutes. Validators restart
/// with new ports, and new validators come online.
pub const CLUSTER_REFRESH_NS: u128 = 300_000_000_000;

/// How long to sleep after an update that failed, in milliseconds.
pub const ERROR_SLEEP_MS: u64 = 100;

/// The loop that keeps the leader cache up to date. One cycle sleeps, fetches
/// what is due, and takes it over.
#[derive(Debug)]
pub enum CacheRefresher {
    /// The cycle has not begun to fetch.
    Asleep,
    /// The contacts were asked for.
    FetchingNodes,
    /// Epoch information was asked for; then the leaders, where they are due.
    FetchingEpochInfo {
        nodes: Option<Result<Vec<RpcContactInfo>, ClientError>>,
        slot_leaders: Option<LeadersRequest>,
    },
    /// The leaders were asked for.
    FetchingSlotLeaders {
        nodes: Option<Result<Vec<RpcContactInfo>, ClientError>>,
        epoch_info: Option<Result<EpochInfo, ClientError>>,
    },
}

/// What the outside world answers.
#[derive(Debug)]
pub enum RefreshEvent {
    /// The sleep is over; so much time has passed since the contacts were fresh.
    Woke { since_cluster_refresh_ns: u128 },
    ClusterNodes(Result<Vec<RpcContactInfo>, ClientError>),
    EpochInfo(Result<EpochInfo, ClientError>),
    SlotLeaders(Result<Vec<Pubkey>, ClientError>),
}

/// What the outside world is asked to do next.
#[derive(Clone, Copy, Debug, PartialEq, Eq, Structural)]
pub enum RefreshAction {
    FetchClusterNodes,
    FetchEpochInfo,
    FetchSlotLeaders(LeadersRequest),
    /// The cycle is over. Where the contacts are fresh, their age starts anew.
    Sleep { ms: u64, contacts_are_fresh: bool },
    Stop,
}

impl CacheRefresher {
    /// `event` answers what was asked for.
    pub open spec fn expects(self, event: RefreshEvent) -> bool {
        match self {
            CacheRefresher::Asleep => event is Woke,
            CacheRefresher::FetchingNodes => event is ClusterNodes,
            CacheRefresher::FetchingEpochInfo { .. } => event is EpochInfo,
            CacheRefresher::FetchingSlotLeaders { .. } => event is SlotLeaders,
        }
    }

    /// The slots that a step computes are slot numbers: none, where it only asks
    /// for what comes next; the current one, where it takes over what was
    /// fetched; and the last one too, where it decides what to fetch.
    pub open spec fn in_range(self, event: RefreshEvent, service: ServiceState) -> bool {
        match self {
            CacheRefresher::Asleep => (event matches RefreshEvent::Woke { since_cluster_refresh_ns }
                && since_cluster_refresh_ns > CLUSTER_REFRESH_NS) || service.in_range(),
            CacheRefresher::FetchingNodes => service.in_range(),
            CacheRefresher::FetchingEpochInfo { slot_leaders, .. } => slot_leaders is Some
                || service.estimate_in_range(),
            CacheRefresher::FetchingSlotLeaders { .. } => service.estimate_in_range(),
        }
    }

    /// Tells whether the slots that a step computes are slot numbers.
    pub fn can_step(&self, service: &LeaderTpuService, event: &RefreshEvent) -> (fits: bool)
        requires
            service.wf(),
        ensures
            fits == self.in_range(*event, service@),
    {
        match self {
            CacheRefresher::Asleep => match event {
                RefreshEvent::Woke { since_cluster_refresh_ns } => *since_cluster_refresh_ns
                    > CLUSTER_REFRESH_NS || service.slots_in_range(),
                _ => service.slots_in_range(),
            },
            CacheRefresher::FetchingNodes => service.slots_in_range(),
            CacheRefresher::FetchingEpochInfo { slot_leaders, .. } => slot_leaders.is_some()
                || service.can_estimate(),
            CacheRefresher::FetchingSlotLeaders { .. } => service.can_estimate(),
        }
    }

    /// How far the cycle has come.
    pub open spec fn progress(self) -> nat {
        match self {
            CacheRefresher::Asleep => 0,
            CacheRefresher::FetchingNodes => 1,
            CacheRefresher::FetchingEpochInfo { .. } => 2,
            CacheRefresher::FetchingSlotLeaders { .. } => 3,
        }
    }

    /// The start of the loop.
    pub fn start(exit: bool) -> (begun: (CacheRefresher, RefreshAction))
        ensures
            begun.0 is Asleep,
            begun.1 == (if exit {
                RefreshAction::Stop
            } else {
                RefreshAction::Sleep { ms: outside::ms_per_slot(), contacts_are_fresh: false }
            }),
            !exit ==> begun.1 == (RefreshAction::Sleep { ms: 400, contacts_are_fresh: false }),
    {
        let action = if exit {
            RefreshAction::Stop
        } else {
            RefreshAction::Sleep { ms: outside::default_ms_per_slot(), contacts_are_fresh: false }
        };
        (CacheRefresher::Asleep, action)
    }

    /// Takes in what was answered, and says what to do next.
    pub fn step(
        self,
        service: &mut LeaderTpuService,
        event: RefreshEvent,
        exit: bool,
    ) -> (moved: (CacheRefresher, RefreshAction))
        requires
            old(service).wf(),
            self.expects(event),
            self.in_range(event, old(service)@),
        ensures
            final(service).wf(),
            is_step(self, event, exit, old(service)@, final(service)@, moved),
    {
        match (self, event) {
            (CacheRefresher::Asleep, RefreshEvent::Woke { since_cluster_refresh_ns }) => {
                if since_cluster_refresh_ns > CLUSTER_REFRESH_NS {
                    (CacheRefresher::FetchingNodes, RefreshAction::FetchClusterNodes)
                } else {
                    plan(service, None, exit)
                }
            },
            (CacheRefresher::FetchingNodes, RefreshEvent::ClusterNodes(nodes)) => {
                plan(service, Some(nodes), exit)
            },
            (
                CacheRefresher::FetchingEpochInfo { nodes, slot_leaders },
                RefreshEvent::EpochInfo(epoch_info),
            ) => match slot_leaders {
                Some(request) => (
                    CacheRefresher::FetchingSlotLeaders { nodes, epoch_info: Some(epoch_info) },
                    RefreshAction::FetchSlotLeaders(request),
                ),
                None => finish(
                    service,
                    LeaderTpuCacheUpdateInfo {
                        maybe_cluster_nodes: nodes,
                        maybe_epoch_info: Some(epoch_info),
                        maybe_slot_leaders: None,
                    },
                    exit,
                ),
            },
            (
                CacheRefresher::FetchingSlotLeaders { nodes, epoch_info },
                RefreshEvent::SlotLeaders(slot_leaders),
            ) => finish(
                service,
                LeaderTpuCacheUpdateInfo {
                    maybe_cluster_nodes: nodes,
                    maybe_epoch_info: epoch_info,
                    maybe_slot_leaders: Some(slot_leaders),
                },
                exit,
            ),
            (state, _) => {
                assert(false);
                (state, RefreshAction::Stop)
            },
        }
    }
}

/// A step of the loop, from the state and the service before it to those after it.
pub open spec fn is_step(
    state: CacheRefresher,
    event: RefreshEvent,
    exit: bool,
    before: ServiceState,
    after: ServiceState,
    moved: (CacheRefresher, RefreshAction),
) -> bool {
    match (state, event) {
        (CacheRefresher::Asleep, RefreshEvent::Woke { since_cluster_refresh_ns }) => {
            if since_cluster_refresh_ns > CLUSTER_REFRESH_NS {
                &&& after == before
                &&& moved.0 is FetchingNodes
                &&& moved.1 == RefreshAction::FetchClusterNodes
            } else {
                is_plan(None, exit, before, after, moved)
            }
        },
        (CacheRefresher::FetchingNodes, RefreshEvent::ClusterNodes(nodes)) => {
            is_plan(Some(nodes), exit, before, after, moved)
        },
        (
            CacheRefresher::FetchingEpochInfo { nodes, slot_leaders: Some(request) },
            RefreshEvent::EpochInfo(epoch_info),
        ) => {
            &&& after == before
            &&& moved.0 == (CacheRefresher::FetchingSlotLeaders {
                nodes,
                epoch_info: Some(epoch_info),
            })
            &&& moved.1 == RefreshAction::FetchSlotLeaders(request)
        },
        (
            CacheRefresher::FetchingEpochInfo { nodes, slot_leaders: None },
            RefreshEvent::EpochInfo(epoch_info),
        ) => is_finish(
            LeaderTpuCacheUpdateInfo {
                maybe_cluster_nodes: nodes,
                maybe_epoch_info: Some(epoch_info),
                maybe_slot_leaders: None,
            },
            exit,
            before,
            after,
            moved,
        ),
        (
            CacheRefresher::FetchingSlotLeaders { nodes, epoch_info },
            RefreshEvent::SlotLeaders(slot_leaders),
        ) => is_finish(
            LeaderTpuCacheUpdateInfo {
                maybe_cluster_nodes: nodes,
                maybe_epoch_info: epoch_info,
                maybe_slot_leaders: Some(slot_leaders),
            },
            exit,
            before,
            after,
            moved,
        ),
        _ => false,
    }
}

/// With the contacts settled, the loop asks for epoch information where it is
/// due, else for the leaders where they are, and is done with the cycle where
/// neither is.
pub open spec fn is_plan(
    nodes: Option<Result<Vec<RpcContactInfo>, ClientError>>,
    exit: bool,
    before: ServiceState,
    after: ServiceState,
    moved: (CacheRefresher, RefreshAction),
) -> bool {
    if before.epoch_info_due() {
        &&& after == before
        &&& moved.0 == (CacheRefresher::FetchingEpochInfo {
            nodes,
            slot_leaders: if before.slot_leaders_due() {
                Some(before.leaders_request())
            } else {
                None
            },
        })
        &&& moved.1 == RefreshAction::FetchEpochInfo
    } else if before.slot_leaders_due() {
        &&& after == before
        &&& moved.0 == (CacheRefresher::FetchingSlotLeaders { nodes, epoch_info: None })
        &&& moved.1 == RefreshAction::FetchSlotLeaders(before.leaders_request())
    } else {
        is_finish(
            LeaderTpuCacheUpdateInfo {
                maybe_cluster_nodes: nodes,
                maybe_epoch_info: None,
                maybe_slot_leaders: None,
            },
            exit,
            before,
            after,
            moved,
        )
    }
}

/// At the end of a cycle the service takes over what was fetched, and the loop
/// sleeps a slot, or less where something failed, unless it is told to `exit`.
pub open spec fn is_finish(
    info: LeaderTpuCacheUpdateInfo,
    exit: bool,
    before: ServiceState,
    after: ServiceState,
    moved: (CacheRefresher, RefreshAction),
) -> bool {
    &&& after == before.updated(info)
    &&& moved.0 is Asleep
    &&& moved.1 == (if exit {
        RefreshAction::Stop
    } else {
        RefreshAction::Sleep {
            ms: if leader_tpu_cache::update_failed(info) {
                ERROR_SLEEP_MS
            } else {
                outside::ms_per_slot()
            },
            contacts_are_fresh: info.maybe_cluster_nodes matches Some(Ok(_)),
        }
    })
}

fn plan(
    service: &mut LeaderTpuService,
    nodes: Option<Result<Vec<RpcContactInfo>, ClientError>>,
    exit: bool,
) -> (moved: (CacheRefresher, RefreshAction))
    requires
        old(service).wf(),
        old(service)@.in_range(),
    ensures
        final(service).wf(),
        is_plan(nodes, exit, old(service)@, final(service)@, moved),
{
    let plan = service.fetch_plan();
    if plan.epoch_info {
        (
            CacheRefresher::FetchingEpochInfo { nodes, slot_leaders: plan.slot_leaders },
            RefreshAction::FetchEpochInfo,
        )
    } else {
        match plan.slot_leaders {
            Some(request) => (
                CacheRefresher::FetchingSlotLeaders { nodes, epoch_info: None },
                RefreshAction::FetchSlotLeaders(request),
            ),
            None => finish(
                service,
                LeaderTpuCacheUpdateInfo {
                    maybe_cluster_nodes: nodes,
                    maybe_epoch_info: None,
                    maybe_slot_leaders: None,
                },
                exit,
            ),
        }
    }
}

fn finish(service: &mut LeaderTpuService, info: LeaderTpuCacheUpdateInfo, exit: bool) -> (moved: (
    CacheRefresher,
    RefreshAction,
))
    requires
        old(service).wf(),
        info.spec_has_some() ==> old(service)@.estimate_in_range(),
    ensures
        final(service).wf(),
        is_finish(info, exit, old(service)@, final(service)@, moved),
{
    let mut ms: u64 = outside::default_ms_per_slot();
    let mut contacts_are_fresh: bool = false;
    if info.has_some() {
        let (has_error, cluster_refreshed) = service.apply_update(info);
        if has_error {
            ms = ERROR_SLEEP_MS;
        }
        contacts_are_fresh = cluster_refreshed;
    } else {
        assert(old(service)@.updated(info) == old(service)@);
    }
    let action = if exit {
        RefreshAction::Stop
    } else {
        RefreshAction::Sleep { ms, contacts_are_fresh }
    };
    (CacheRefresher::Asleep, action)
}

/// A step either brings the cycle forward and leaves the service alone, or ends
/// it; so a cycle fetches each thing once at most, and the service changes only
/// at its end. The recorded slots are never touched.
pub proof fn law_cycle_moves_forward(
    state: CacheRefresher,
    event: RefreshEvent,
    exit: bool,
    before: ServiceState,
    after: ServiceState,
    moved: (CacheRefresher, RefreshAction),
)
    requires
        is_step(state, event, exit, before, after, moved),
    ensures
        moved.0.progress() > state.progress() || moved.0 is Asleep,
        moved.0 is Asleep <==> moved.1 is Sleep || moved.1 is Stop,
        !(moved.0 is Asleep) ==> after == before,
        after.recent == before.recent,
        after.schedule.protocol == before.schedule.protocol,
{
}

/// What a step asks for is what the next step expects an answer to.
pub proof fn law_answers_match_requests(
    state: CacheRefresher,
    event: RefreshEvent,
    exit: bool,
    before: ServiceState,
    after: ServiceState,
    moved: (CacheRefresher, RefreshAction),
)
    requires
        is_step(state, event, exit, before, after, moved),
    ensures
        moved.1 is FetchClusterNodes <==> moved.0 is FetchingNodes,
        moved.1 is FetchEpochInfo <==> moved.0 is FetchingEpochInfo,
        moved.1 is FetchSlotLeaders <==> moved.0 is FetchingSlotLeaders,
{
}

/// One step of the loop, as it happened.
pub struct RefreshStep {
    pub state: CacheRefresher,
    pub event: RefreshEvent,
    pub exit: bool,
    pub before: ServiceState,
    pub after: ServiceState,
    pub moved: (CacheRefresher, RefreshAction),
}

/// Step `i` starts where the one before it ended. Slots may have been recorded
/// in between.
pub open spec fn follows(cycle: Seq<RefreshStep>, i: int) -> bool {
    &&& cycle[i].state == cycle[i - 1].moved.0
    &&& cycle[i].before.schedule == cycle[i - 1].after.schedule
    &&& !(cycle[i - 1].moved.0 is Asleep)
}

/// The steps from one sleep to the next.
pub open spec fn is_cycle(cycle: Seq<RefreshStep>) -> bool {
    &&& cycle.len() > 0
    &&& cycle[0].state is Asleep
    &&& forall|i: int|
        0 <= i < cycle.len() ==> is_step(
            (#[trigger] cycle[i]).state,
            cycle[i].event,
            cycle[i].exit,
            cycle[i].before,
            cycle[i].after,
            cycle[i].moved,
        )
    &&& forall|i: int| 0 < i < cycle.len() ==> #[trigger] follows(cycle, i)
    &&& cycle.last().moved.0 is Asleep
}

/// The contacts are old enough to be fetched at the start of the cycle.
pub open spec fn contacts_due(cycle: Seq<RefreshStep>) -> bool {
    cycle[0].event matches RefreshEvent::Woke { since_cluster_refresh_ns }
        && since_cluster_refresh_ns > CLUSTER_REFRESH_NS
}

/// The service as it was when the other fetches were decided on: after the
/// contacts arrived, where they were fetched.
pub open spec fn planned_at(cycle: Seq<RefreshStep>) -> ServiceState {
    if contacts_due(cycle) {
        cycle[1].before
    } else {
        cycle[0].before
    }
}

/// `answer` was given at some step.
pub open spec fn answered(cycle: Seq<RefreshStep>, answer: RefreshEvent) -> bool {
    exists|i: int| 0 <= i < cycle.len() && (#[trigger] cycle[i]).event == answer
}

/// Over a whole cycle the service takes over exactly what was answered, as of its
/// end, and what was asked for is exactly what was due: the contacts by their
/// age, the rest by the state of the service after them.
pub proof fn law_cycle_takes_over_what_was_due(
    cycle: Seq<RefreshStep>,
) -> (info: LeaderTpuCacheUpdateInfo)
    requires
        is_cycle(cycle),
    ensures
        cycle.len() <= 4,
        cycle.last().after.schedule == cycle[0].before.schedule.updated(
            cycle.last().before.current_slot(),
            info,
        ),
        cycle.last().after.recent == cycle.last().before.recent,
        info.maybe_cluster_nodes is Some <==> contacts_due(cycle),
        info.maybe_epoch_info is Some <==> planned_at(cycle).epoch_info_due(),
        info.maybe_slot_leaders is Some <==> planned_at(cycle).slot_leaders_due(),
        info.maybe_cluster_nodes matches Some(nodes) ==> answered(
            cycle,
            RefreshEvent::ClusterNodes(nodes),
        ),
        info.maybe_epoch_info matches Some(epoch_info) ==> answered(
            cycle,
            RefreshEvent::EpochInfo(epoch_info),
        ),
        info.maybe_slot_leaders matches Some(leaders) ==> answered(
            cycle,
            RefreshEvent::SlotLeaders(leaders),
        ),
{
    let end = cycle.len() - 1;
    assert(cycle[0].state is Asleep);
    if cycle.len() > 1 {
        assert(follows(cycle, 1));
        assert(cycle[1].state == cycle[0].moved.0);
    }
    if cycle.len() > 2 {
        assert(follows(cycle, 2));
        assert(cycle[2].state == cycle[1].moved.0);
    }
    if cycle.len() > 3 {
        assert(follows(cycle, 3));
        assert(cycle[3].state == cycle[2].moved.0);
    }
    if cycle.len() > 4 {
        assert(follows(cycle, 4));
    }
    match (cycle[end].state, cycle[end].event) {
        (CacheRefresher::FetchingNodes, RefreshEvent::ClusterNodes(nodes)) => {
            LeaderTpuCacheUpdateInfo {
                maybe_cluster_nodes: Some(nodes),
                maybe_epoch_info: None,
                maybe_slot_leaders: None,
            }
        },
        (
            CacheRefresher::FetchingEpochInfo { nodes, .. },
            RefreshEvent::EpochInfo(epoch_info),
        ) => LeaderTpuCacheUpdateInfo {
            maybe_cluster_nodes: nodes,
            maybe_epoch_info: Some(epoch_info),
            maybe_slot_leaders: None,
        },
        (
            CacheRefresher::FetchingSlotLeaders { nodes, epoch_info },
            RefreshEvent::SlotLeaders(leaders),
        ) => LeaderTpuCacheUpdateInfo {
            maybe_cluster_nodes: nodes,
            maybe_epoch_info: epoch_info,
            maybe_slot_leaders: Some(leaders),
        },
        _ => LeaderTpuCacheUpdateInfo {
            maybe_cluster_nodes: None,
            maybe_epoch_info: None,
            maybe_slot_leaders: None,
        },
    }
}

proof fn lemma_info_of_a_cycle(cycle: Seq<RefreshStep>) -> (info: LeaderTpuCacheUpdateInfo)
    requires
        is_cycle(cycle),
    ensures
        1 <= cycle.len() <= 4,
        cycle[0].event is Woke,
        forall|i: int| 0 < i < cycle.len() ==> !((#[trigger] cycle[i]).event is Woke),
        cycle[0].moved.1 is FetchClusterNodes <==> contacts_due(cycle),
        forall|i: int|
            0 < i < cycle.len() ==> !((#[trigger] cycle[i]).moved.1 is FetchClusterNodes),
        contacts_due(cycle) ==> cycle.len() > 1 && cycle[1].event is ClusterNodes,
        forall|i: int|
            0 <= i < cycle.len() && (#[trigger] cycle[i]).event is ClusterNodes ==> i == 1
                && contacts_due(cycle),
        forall|i: int|
            0 <= i < cycle.len() ==> {
                &&& ((#[trigger] cycle[i]).event matches RefreshEvent::ClusterNodes(nodes)
                    ==> info.maybe_cluster_nodes == Some(nodes))
                &&& (cycle[i].event matches RefreshEvent::EpochInfo(epoch_info)
                    ==> info.maybe_epoch_info == Some(epoch_info))
                &&& (cycle[i].event matches RefreshEvent::SlotLeaders(leaders)
                    ==> info.maybe_slot_leaders == Some(leaders))
            },
        info.maybe_cluster_nodes matches Some(nodes) ==> answered(
            cycle,
            RefreshEvent::ClusterNodes(nodes),
        ),
        info.maybe_epoch_info matches Some(epoch_info) ==> answered(
            cycle,
            RefreshEvent::EpochInfo(epoch_info),
        ),
        info.maybe_slot_leaders matches Some(leaders) ==> answered(
            cycle,
            RefreshEvent::SlotLeaders(leaders),
        ),
        cycle.last().before.schedule == cycle[0].before.schedule,
        is_finish(
            info,
            cycle.last().exit,
            cycle.last().before,
            cycle.last().after,
            cycle.last().moved,
        ),
        forall|i: int|
            0 <= i < cycle.len() - 1 ==> !((#[trigger] cycle[i]).moved.1 is Sleep) && !(
            cycle[i].moved.1 is Stop),
{
    let end = cycle.len() - 1;
    let none = LeaderTpuCacheUpdateInfo {
        maybe_cluster_nodes: None,
        maybe_epoch_info: None,
        maybe_slot_leaders: None,
    };
    assert(cycle[0].state is Asleep);
    if cycle.len() > 1 {
        assert(follows(cycle, 1));
        assert(cycle[1].state == cycle[0].moved.0);
    }
    if cycle.len() > 2 {
        assert(follows(cycle, 2));
        assert(cycle[2].state == cycle[1].moved.0);
    }
    if cycle.len() > 3 {
        assert(follows(cycle, 3));
        assert(cycle[3].state == cycle[2].moved.0);
    }
    if cycle.len() > 4 {
        assert(follows(cycle, 4));
    }
    let info = match (cycle[end].state, cycle[end].event) {
        (CacheRefresher::FetchingNodes, RefreshEvent::ClusterNodes(nodes)) => {
            LeaderTpuCacheUpdateInfo { maybe_cluster_nodes: Some(nodes), ..none }
        },
        (
            CacheRefresher::FetchingEpochInfo { nodes, .. },
            RefreshEvent::EpochInfo(epoch_info),
        ) => LeaderTpuCacheUpdateInfo {
            maybe_cluster_nodes: nodes,
            maybe_epoch_info: Some(epoch_info),
            maybe_slot_leaders: None,
        },
        (
            CacheRefresher::FetchingSlotLeaders { nodes, epoch_info },
            RefreshEvent::SlotLeaders(leaders),
        ) => LeaderTpuCacheUpdateInfo {
            maybe_cluster_nodes: nodes,
            maybe_epoch_info: epoch_info,
            maybe_slot_leaders: Some(leaders),
        },
        _ => none,
    };
    info
}

/// The contacts are fetched exactly in a cycle that begins more than five minutes
/// after they were fresh, and first of all. Their age starts anew exactly after a
/// cycle in which they arrived; so contacts that do not arrive stay old, and are
/// fetched again in the next cycle.
pub proof fn law_contacts_are_fetched_once_old(cycle: Seq<RefreshStep>, age_ns: u128)
    requires
        is_cycle(cycle),
        cycle[0].event == (RefreshEvent::Woke { since_cluster_refresh_ns: age_ns }),
    ensures
        cycle[0].moved.1 is FetchClusterNodes <==> age_ns > 300_000_000_000,
        forall|i: int|
            0 < i < cycle.len() ==> !((#[trigger] cycle[i]).moved.1 is FetchClusterNodes),
        forall|i: int|
            0 <= i < cycle.len() && (#[trigger] cycle[i]).event is ClusterNodes ==> i == 1 && age_ns
                > 300_000_000_000,
        age_ns > 300_000_000_000 ==> cycle.len() > 1 && cycle[1].event is ClusterNodes,
        cycle.last().moved.1 matches RefreshAction::Sleep { contacts_are_fresh, .. }
            ==> contacts_are_fresh == (age_ns > 300_000_000_000 && (
        cycle[1].event matches RefreshEvent::ClusterNodes(Ok(_)))),
{
    lemma_info_of_a_cycle(cycle);
}

/// A cycle ends with a sleep, unless the loop is told to exit by then, and an exit
/// before that does not cut it short. The sleep says that the contacts are fresh
/// exactly where a step of the cycle was answered with them. It lasts 100 ms where
/// contacts or leaders could not be fetched, and a slot of 400 ms otherwise.
pub proof fn law_cycle_ends_with_a_sleep(cycle: Seq<RefreshStep>)
    requires
        is_cycle(cycle),
    ensures
        cycle.last().exit ==> cycle.last().moved.1 is Stop,
        !cycle.last().exit ==> (cycle.last().moved.1 matches RefreshAction::Sleep {
            ms,
            contacts_are_fresh,
        } && {
            &&& contacts_are_fresh <==> exists|i: int|
                0 <= i < cycle.len() && ((
                #[trigger] cycle[i]).event matches RefreshEvent::ClusterNodes(Ok(_)))
            &&& ms == 100 || ms == 400
            &&& ms == 100 <==> exists|i: int|
                0 <= i < cycle.len() && (((
                #[trigger] cycle[i]).event matches RefreshEvent::ClusterNodes(Err(_))) || (
                cycle[i].event matches RefreshEvent::SlotLeaders(Err(_))))
        }),
        forall|i: int|
            0 <= i < cycle.len() - 1 ==> !((#[trigger] cycle[i]).moved.1 is Sleep) && !(
            cycle[i].moved.1 is Stop),
{
    lemma_info_of_a_cycle(cycle);
}

/// Over a whole cycle each part of the cache becomes what was answered for it, and
/// stays what it was where nothing was, whatever happened to the other parts. Leaders
/// and epoch information count from the slot that is current at the end of the cycle.
pub proof fn law_cycle_changes_only_what_arrived(cycle: Seq<RefreshStep>)
    requires
        is_cycle(cycle),
    ensures
        cycle.last().after.schedule.protocol == cycle[0].before.schedule.protocol,
        forall|i: int|
            0 <= i < cycle.len() ==> ((
            #[trigger] cycle[i]).event matches RefreshEvent::ClusterNodes(Ok(nodes))
                ==> cycle.last().after.schedule.sockets == leader_tpu_cache::cluster_tpu_sockets(
                cycle[0].before.schedule.protocol,
                nodes@,
            )),
        (forall|i: int|
            0 <= i < cycle.len() ==> !((
            #[trigger] cycle[i]).event matches RefreshEvent::ClusterNodes(Ok(_))))
            ==> cycle.last().after.schedule.sockets == cycle[0].before.schedule.sockets,
        forall|i: int|
            0 <= i < cycle.len() ==> ((
            #[trigger] cycle[i]).event matches RefreshEvent::EpochInfo(Ok(epoch_info))
                ==> cycle.last().after.schedule.slots_in_epoch == epoch_info.slots_in_epoch
                && cycle.last().after.schedule.last_epoch_info_slot
                == recent_leaders_slot::estimate(cycle.last().before.recent)),
        (forall|i: int|
            0 <= i < cycle.len() ==> !((
            #[trigger] cycle[i]).event matches RefreshEvent::EpochInfo(Ok(_))))
            ==> cycle.last().after.schedule.slots_in_epoch
            == cycle[0].before.schedule.slots_in_epoch
            && cycle.last().after.schedule.last_epoch_info_slot
            == cycle[0].before.schedule.last_epoch_info_slot,
        forall|i: int|
            0 <= i < cycle.len() ==> ((
            #[trigger] cycle[i]).event matches RefreshEvent::SlotLeaders(Ok(leaders))
                ==> cycle.last().after.schedule.leaders == leaders@
                && cycle.last().after.schedule.first_slot == recent_leaders_slot::estimate(
                cycle.last().before.recent,
            )),
        (forall|i: int|
            0 <= i < cycle.len() ==> !((
            #[trigger] cycle[i]).event matches RefreshEvent::SlotLeaders(Ok(_))))
            ==> cycle.last().after.schedule.leaders == cycle[0].before.schedule.leaders
            && cycle.last().after.schedule.first_slot == cycle[0].before.schedule.first_slot,
{
    lemma_info_of_a_cycle(cycle);
}

/// What a cycle asks for besides the contacts, it decides once, after the contacts:
/// epoch information where the current slot is no more than an epoch before the slot
/// at which it was last learnt, and then the leaders where the current slot is no
/// more than 100 slots before the last known one. The leaders are asked for from the
/// slot on that was current at the decision, 200 of them, or an epoch's where that
/// is shorter.
pub proof fn law_cycle_asks_for_what_is_due(
    cycle: Seq<RefreshStep>,
    age_ns: u128,
    decided: ServiceState,
    request: LeadersRequest,
)
    requires
        is_cycle(cycle),
        cycle[0].event == (RefreshEvent::Woke { since_cluster_refresh_ns: age_ns }),
        decided == if age_ns > 300_000_000_000 {
            cycle[1].before
        } else {
            cycle[0].before
        },
    ensures
        (exists|i: int| 0 <= i < cycle.len() && (#[trigger] cycle[i]).moved.1 is FetchEpochInfo)
            <==> recent_leaders_slot::estimate(decided.recent) + decided.schedule.slots_in_epoch
            >= decided.schedule.last_epoch_info_slot,
        (exists|i: int|
            0 <= i < cycle.len() && (#[trigger] cycle[i]).moved.1
                == RefreshAction::FetchSlotLeaders(request)) <==> {
            &&& recent_leaders_slot::estimate(decided.recent) + 100 >= decided.schedule.first_slot
                + if decided.schedule.leaders.len() == 0 {
                0
            } else {
                decided.schedule.leaders.len() - 1
            }
            &&& request.start == recent_leaders_slot::estimate(decided.recent)
            &&& request.limit == if decided.schedule.slots_in_epoch < 200 {
                decided.schedule.slots_in_epoch
            } else {
                200
            }
        },
{
    lemma_info_of_a_cycle(cycle);
    let first: int = if age_ns > 300_000_000_000 {
        1
    } else {
        0
    };
    if cycle.len() > 1 {
        assert(follows(cycle, 1));
        assert(cycle[1].state == cycle[0].moved.0);
    }
    if cycle.len() > 2 {
        assert(follows(cycle, 2));
        assert(cycle[2].state == cycle[1].moved.0);
    }
    if cycle.len() > 3 {
        assert(follows(cycle, 3));
        assert(cycle[3].state == cycle[2].moved.0);
    }
    assert(cycle[first].before == decided);
    if decided.epoch_info_due() {
        assert(cycle[first].moved.1 is FetchEpochInfo);
        if decided.slot_leaders_due() {
            assert(cycle[first + 1].moved.1 == RefreshAction::FetchSlotLeaders(
                decided.leaders_request(),
            ));
        }
    } else if decided.slot_leaders_due() {
        assert(cycle[first].moved.1 == RefreshAction::FetchSlotLeaders(decided.leaders_request()));
    }
    assert forall|i: int|
        0 <= i < cycle.len() && (
        #[trigger] cycle[i]).moved.1 is FetchSlotLeaders implies decided.slot_leaders_due()
        && cycle[i].moved.1 == RefreshAction::FetchSlotLeaders(decided.leaders_request()) by {
        assert(i == first || i == first + 1);
    }
}

/// A step needs slot numbers only for what it computes: none where it asks for the
/// contacts or passes on epoch information while the leaders are still to be asked
/// for; the current slot where it takes over what arrived; and the last known slot
/// too where it decides what to ask for.
pub proof fn law_steps_need_only_what_they_compute(
    age_ns: u128,
    event: RefreshEvent,
    service: ServiceState,
    nodes: Option<Result<Vec<RpcContactInfo>, ClientError>>,
    epoch_info: Option<Result<EpochInfo, ClientError>>,
    request: LeadersRequest,
)
    ensures
        CacheRefresher::Asleep.in_range(
            (RefreshEvent::Woke { since_cluster_refresh_ns: age_ns }),
            service,
        ) <==> age_ns > 300_000_000_000 || service.in_range(),
        CacheRefresher::FetchingNodes.in_range(event, service) <==> service.in_range(),
        (CacheRefresher::FetchingEpochInfo { nodes, slot_leaders: Some(request) }).in_range(
            event,
            service,
        ),
        (CacheRefresher::FetchingEpochInfo { nodes, slot_leaders: None }).in_range(event, service)
            <==> service.estimate_in_range(),
        (CacheRefresher::FetchingSlotLeaders { nodes, epoch_info }).in_range(event, service)
            <==> service.estimate_in_range(),
{
}

} // verus!
