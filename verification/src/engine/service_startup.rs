use crate::cluster::{ClientError, EpochInfo, Protocol, Pubkey, RpcContactInfo};
use crate::engine::backend_tpu_client::TpuSenderError;
use crate::engine::leader_tpu_cache;
use crate::engine::leader_tpu_cache::{LeaderSchedule, LeaderTpuCache};
use crate::engine::leader_tpu_service::{LeaderTpuService, LeadersRequest};
use crate::engine::recent_leaders_slot::Slot;
use crate::text;
use vstd::prelude::*;
use vstd::string::*;

verus! {

/// How long the leaders may take to arrive, retries included, in nanoseconds:
/// twenty seconds from when they are first asked for.
pub const LEADERS_TIMEOUT_NS: u64 = 20_000_000_000;

/// How long to wait before the leaders are asked for again, in nanoseconds: one
/// second.
pub const LEADERS_RETRY_NS: u64 = 1_000_000_000;

/// The code of an answer that rejects the parameters of a request.
pub const INVALID_PARAMS: i64 = -32602;

/// The node has no leader schedule yet for the slots that were asked for.
pub open spec fn invalid_slot_range(error: ClientError) -> bool {
    error matches ClientError::RpcResponse { code, message } && code == INVALID_PARAMS
        && text::occurs_in("Invalid slot range: leader schedule for epoch"@, message@)
}

/// Tells whether the node has no leader schedule yet for the slots that were
/// asked for. When a cluster starts, that goes away after a retry.
pub fn is_invalid_slot_range_error(client_error: &ClientError) -> (invalid: bool)
    ensures
        invalid == invalid_slot_range(*client_error),
        client_error matches ClientError::Other(_) ==> !invalid,
        client_error matches ClientError::RpcResponse { code, message } ==> invalid == (code
            == -32602 && text::occurs_in(
            "Invalid slot range: leader schedule for epoch"@,
            message@,
        )),
{
    match client_error {
        ClientError::RpcResponse { code, message } => {
            *code == INVALID_PARAMS && text::contains(
                message.as_str(),
                "Invalid slot range: leader schedule for epoch",
            )
        },
        ClientError::Other(_) => false,
    }
}

/// What is said where the leaders did not arrive in time.
pub open spec fn timeout_text(websocket_url: Seq<char>) -> Seq<char> {
    "Failed to get slot leaders connecting to: "@ + websocket_url
        + ", timeout: 20s. Invalid slot range"@
}

/// The start of the service: the requests that it makes, one after the other.
#[derive(Debug)]
pub enum ServiceStartup {
    FetchingSlot,
    FetchingEpochInfo { start_slot: Slot },
    FetchingSlotLeaders { start_slot: Slot, slots_in_epoch: Slot },
    WaitingToRetry { start_slot: Slot, slots_in_epoch: Slot },
    FetchingNodes { start_slot: Slot, slots_in_epoch: Slot, leaders: Vec<Pubkey> },
    Over,
}

/// What the outside world answers. `elapsed_ns` is the time since the leaders were
/// first asked for.
#[derive(Debug)]
pub enum StartupEvent {
    Slot(Result<Slot, ClientError>),
    EpochInfo(Result<EpochInfo, ClientError>),
    SlotLeaders { reply: Result<Vec<Pubkey>, ClientError>, elapsed_ns: u128 },
    /// The wait before a retry is over.
    Waited { elapsed_ns: u128 },
    /// The leaders did not arrive in time.
    TimedOut { elapsed_ns: u128 },
    ClusterNodes(Result<Vec<RpcContactInfo>, ClientError>),
}

/// What the outside world is asked to do next.
#[derive(Debug)]
pub enum StartupAction {
    FetchSlot,
    FetchEpochInfo,
    /// The request is dropped where no answer arrives within `within_ns`.
    FetchSlotLeaders { request: LeadersRequest, within_ns: u64 },
    Wait { ns: u64 },
    FetchClusterNodes,
    /// The service can run; slot notifications are subscribed to where there
    /// is a place to get them from.
    Run { service: LeaderTpuService, subscribe: bool },
    /// The service cannot be had.
    Fail(ClientError),
    /// The leaders cannot be had, which is fatal.
    Abort(LeadersFailure),
}

/// Why the leaders cannot be had.
#[derive(Debug)]
pub enum LeadersFailure {
    TimedOut(TpuSenderError),
    Rejected(ClientError),
}

impl ServiceStartup {
    /// `event` answers what was asked for.
    pub open spec fn expects(self, event: StartupEvent) -> bool {
        match self {
            ServiceStartup::FetchingSlot => event is Slot,
            ServiceStartup::FetchingEpochInfo { .. } => event is EpochInfo,
            ServiceStartup::FetchingSlotLeaders { .. } => match event {
                StartupEvent::SlotLeaders { .. } => true,
                StartupEvent::TimedOut { elapsed_ns } => elapsed_ns >= LEADERS_TIMEOUT_NS,
                _ => false,
            },
            ServiceStartup::WaitingToRetry { .. } => event is Waited,
            ServiceStartup::FetchingNodes { .. } => event is ClusterNodes,
            ServiceStartup::Over => false,
        }
    }

    pub fn start() -> (begun: (ServiceStartup, StartupAction))
        ensures
            begun.0 is FetchingSlot,
            begun.1 is FetchSlot,
    {
        (ServiceStartup::FetchingSlot, StartupAction::FetchSlot)
    }

    /// Takes in what was answered, and says what to do next.
    pub fn step(self, event: StartupEvent, protocol: Protocol, websocket_url: &str) -> (moved: (
        ServiceStartup,
        StartupAction,
    ))
        requires
            self.expects(event),
        ensures
            is_step(self, event, protocol, websocket_url@, moved),
    {
        match (self, event) {
            (ServiceStartup::FetchingSlot, StartupEvent::Slot(Ok(start_slot))) => {
                (ServiceStartup::FetchingEpochInfo { start_slot }, StartupAction::FetchEpochInfo)
            },
            (ServiceStartup::FetchingSlot, StartupEvent::Slot(Err(error))) => {
                (ServiceStartup::Over, StartupAction::Fail(error))
            },
            (
                ServiceStartup::FetchingEpochInfo { start_slot },
                StartupEvent::EpochInfo(Ok(epoch_info)),
            ) => ask_for_leaders(start_slot, epoch_info.slots_in_epoch, LEADERS_TIMEOUT_NS),
            (ServiceStartup::FetchingEpochInfo { .. }, StartupEvent::EpochInfo(Err(error))) => {
                (ServiceStartup::Over, StartupAction::Fail(error))
            },
            (
                ServiceStartup::FetchingSlotLeaders { start_slot, slots_in_epoch },
                StartupEvent::SlotLeaders { reply: Ok(leaders), .. },
            ) => (
                ServiceStartup::FetchingNodes { start_slot, slots_in_epoch, leaders },
                StartupAction::FetchClusterNodes,
            ),
            (
                ServiceStartup::FetchingSlotLeaders { start_slot, slots_in_epoch },
                StartupEvent::SlotLeaders { reply: Err(error), elapsed_ns },
            ) => {
                if is_invalid_slot_range_error(&error) {
                    let left: u64 = left_ns(elapsed_ns);
                    if left == 0 {
                        give_up(websocket_url)
                    } else {
                        (
                            ServiceStartup::WaitingToRetry { start_slot, slots_in_epoch },
                            StartupAction::Wait {
                                ns: if left < LEADERS_RETRY_NS {
                                    left
                                } else {
                                    LEADERS_RETRY_NS
                                },
                            },
                        )
                    }
                } else {
                    (ServiceStartup::Over, StartupAction::Abort(LeadersFailure::Rejected(error)))
                }
            },
            (
                ServiceStartup::WaitingToRetry { start_slot, slots_in_epoch },
                StartupEvent::Waited { elapsed_ns },
            ) => {
                let left: u64 = left_ns(elapsed_ns);
                if left == 0 {
                    give_up(websocket_url)
                } else {
                    ask_for_leaders(start_slot, slots_in_epoch, left)
                }
            },
            (ServiceStartup::FetchingSlotLeaders { .. }, StartupEvent::TimedOut { .. }) => {
                give_up(websocket_url)
            },
            (
                ServiceStartup::FetchingNodes { start_slot, slots_in_epoch, leaders },
                StartupEvent::ClusterNodes(Ok(nodes)),
            ) => {
                let service = LeaderTpuService::new(
                    start_slot,
                    slots_in_epoch,
                    leaders,
                    nodes,
                    protocol,
                );
                let subscribe: bool = !websocket_url.is_empty();
                (ServiceStartup::Over, StartupAction::Run { service, subscribe })
            },
            (ServiceStartup::FetchingNodes { .. }, StartupEvent::ClusterNodes(Err(error))) => {
                (ServiceStartup::Over, StartupAction::Fail(error))
            },
            (state, _) => {
                assert(false);
                (state, StartupAction::FetchSlot)
            },
        }
    }
}

/// The time that is left to get the leaders, in nanoseconds.
pub open spec fn time_left(elapsed_ns: u128) -> int {
    if elapsed_ns < LEADERS_TIMEOUT_NS {
        LEADERS_TIMEOUT_NS - elapsed_ns
    } else {
        0
    }
}

fn left_ns(elapsed_ns: u128) -> (left: u64)
    ensures
        left == time_left(elapsed_ns),
{
    if elapsed_ns < LEADERS_TIMEOUT_NS as u128 {
        LEADERS_TIMEOUT_NS - elapsed_ns as u64
    } else {
        0
    }
}

fn give_up(websocket_url: &str) -> (moved: (ServiceStartup, StartupAction))
    ensures
        gives_up(websocket_url@, moved),
{
    let mut message: String = String::new();
    message.append("Failed to get slot leaders connecting to: ");
    message.append(websocket_url);
    message.append(", timeout: 20s. Invalid slot range");
    assert(message@ =~= timeout_text(websocket_url@));
    let error = TpuSenderError::Custom(message);
    (ServiceStartup::Over, StartupAction::Abort(LeadersFailure::TimedOut(error)))
}

/// The start ends because the leaders did not arrive in time.
pub open spec fn gives_up(
    websocket_url: Seq<char>,
    moved: (ServiceStartup, StartupAction),
) -> bool {
    &&& moved.0 is Over
    &&& moved.1 matches StartupAction::Abort(
        LeadersFailure::TimedOut(TpuSenderError::Custom(text)),
    )
    &&& text@ == timeout_text(websocket_url)
}

fn ask_for_leaders(start_slot: Slot, slots_in_epoch: Slot, within_ns: u64) -> (moved: (
    ServiceStartup,
    StartupAction,
))
    ensures
        asks_for_leaders(start_slot, slots_in_epoch, within_ns as int, moved),
{
    let request = LeadersRequest {
        start: start_slot,
        limit: LeaderTpuCache::fanout(slots_in_epoch),
    };
    (
        ServiceStartup::FetchingSlotLeaders { start_slot, slots_in_epoch },
        StartupAction::FetchSlotLeaders { request, within_ns },
    )
}

/// The leaders from the start slot on are asked for.
pub open spec fn asks_for_leaders(
    start_slot: Slot,
    slots_in_epoch: Slot,
    within_ns: int,
    moved: (ServiceStartup, StartupAction),
) -> bool {
    &&& moved.0 == (ServiceStartup::FetchingSlotLeaders { start_slot, slots_in_epoch })
    &&& moved.1 == (StartupAction::FetchSlotLeaders {
        request: LeadersRequest {
            start: start_slot,
            limit: leader_tpu_cache::schedule_fanout(slots_in_epoch),
        },
        within_ns: within_ns as u64,
    })
}

/// A step of the start.
pub open spec fn is_step(
    state: ServiceStartup,
    event: StartupEvent,
    protocol: Protocol,
    websocket_url: Seq<char>,
    moved: (ServiceStartup, StartupAction),
) -> bool {
    match (state, event) {
        (ServiceStartup::FetchingSlot, StartupEvent::Slot(Ok(start_slot))) => {
            &&& moved.0 == (ServiceStartup::FetchingEpochInfo { start_slot })
            &&& moved.1 is FetchEpochInfo
        },
        (ServiceStartup::FetchingSlot, StartupEvent::Slot(Err(error))) => fails(error, moved),
        (
            ServiceStartup::FetchingEpochInfo { start_slot },
            StartupEvent::EpochInfo(Ok(epoch_info)),
        ) => asks_for_leaders(
            start_slot,
            epoch_info.slots_in_epoch,
            LEADERS_TIMEOUT_NS as int,
            moved,
        ),
        (ServiceStartup::FetchingEpochInfo { .. }, StartupEvent::EpochInfo(Err(error))) => fails(
            error,
            moved,
        ),
        (
            ServiceStartup::FetchingSlotLeaders { start_slot, slots_in_epoch },
            StartupEvent::SlotLeaders { reply: Ok(leaders), .. },
        ) => {
            &&& moved.0 == (ServiceStartup::FetchingNodes { start_slot, slots_in_epoch, leaders })
            &&& moved.1 is FetchClusterNodes
        },
        (
            ServiceStartup::FetchingSlotLeaders { start_slot, slots_in_epoch },
            StartupEvent::SlotLeaders { reply: Err(error), elapsed_ns },
        ) => {
            if !invalid_slot_range(error) {
                &&& moved.0 is Over
                &&& moved.1 == StartupAction::Abort(LeadersFailure::Rejected(error))
            } else if elapsed_ns < LEADERS_TIMEOUT_NS {
                &&& moved.0 == (ServiceStartup::WaitingToRetry { start_slot, slots_in_epoch })
                &&& moved.1 matches StartupAction::Wait { ns }
                &&& ns == vstd::math::min(LEADERS_RETRY_NS as int, time_left(elapsed_ns))
            } else {
                gives_up(websocket_url, moved)
            }
        },
        (
            ServiceStartup::WaitingToRetry { start_slot, slots_in_epoch },
            StartupEvent::Waited { elapsed_ns },
        ) => {
            if elapsed_ns < LEADERS_TIMEOUT_NS {
                asks_for_leaders(start_slot, slots_in_epoch, time_left(elapsed_ns), moved)
            } else {
                gives_up(websocket_url, moved)
            }
        },
        (ServiceStartup::FetchingSlotLeaders { .. }, StartupEvent::TimedOut { elapsed_ns }) => {
            elapsed_ns >= LEADERS_TIMEOUT_NS && gives_up(websocket_url, moved)
        },
        (
            ServiceStartup::FetchingNodes { start_slot, slots_in_epoch, leaders },
            StartupEvent::ClusterNodes(Ok(nodes)),
        ) => {
            &&& moved.0 is Over
            &&& moved.1 matches StartupAction::Run { service, subscribe }
            &&& service.wf()
            &&& service@.recent == seq![start_slot]
            &&& service@.schedule == (LeaderSchedule {
                protocol,
                first_slot: start_slot,
                leaders: leaders@,
                sockets: leader_tpu_cache::cluster_tpu_sockets(protocol, nodes@),
                slots_in_epoch,
                last_epoch_info_slot: start_slot,
            })
            &&& subscribe == (websocket_url.len() > 0)
        },
        (ServiceStartup::FetchingNodes { .. }, StartupEvent::ClusterNodes(Err(error))) => fails(
            error,
            moved,
        ),
        _ => false,
    }
}

/// The start ends with `error`.
pub open spec fn fails(error: ClientError, moved: (ServiceStartup, StartupAction)) -> bool {
    &&& moved.0 is Over
    &&& moved.1 == StartupAction::Fail(error)
}

/// Where the node has no schedule yet, the same leaders are asked for again
/// after the wait, however often that happens, while there is time.
pub proof fn law_retry_repeats_the_request(
    start_slot: Slot,
    slots_in_epoch: Slot,
    error: ClientError,
    rejected_ns: u128,
    waited_ns: u128,
    protocol: Protocol,
    websocket_url: Seq<char>,
    rejected: (ServiceStartup, StartupAction),
    retried: (ServiceStartup, StartupAction),
)
    requires
        invalid_slot_range(error),
        rejected_ns <= waited_ns < LEADERS_TIMEOUT_NS,
        is_step(
            ServiceStartup::FetchingSlotLeaders { start_slot, slots_in_epoch },
            StartupEvent::SlotLeaders { reply: Err(error), elapsed_ns: rejected_ns },
            protocol,
            websocket_url,
            rejected,
        ),
        is_step(
            rejected.0,
            StartupEvent::Waited { elapsed_ns: waited_ns },
            protocol,
            websocket_url,
            retried,
        ),
    ensures
        rejected.1 is Wait,
        asks_for_leaders(start_slot, slots_in_epoch, time_left(waited_ns), retried),
{
}

/// The time that an event reports.
pub open spec fn elapsed(event: StartupEvent) -> Option<u128> {
    match event {
        StartupEvent::SlotLeaders { elapsed_ns, .. } => Some(elapsed_ns),
        StartupEvent::Waited { elapsed_ns } => Some(elapsed_ns),
        StartupEvent::TimedOut { elapsed_ns } => Some(elapsed_ns),
        _ => None,
    }
}

/// Retries end twenty seconds after the leaders were first asked for, and not
/// before: every request and every wait fits into the time that is left; once
/// none is left there is neither; and only then are the leaders given up for
/// want of time.
pub proof fn law_retries_end_in_time(
    state: ServiceStartup,
    event: StartupEvent,
    elapsed_ns: u128,
    protocol: Protocol,
    websocket_url: Seq<char>,
    moved: (ServiceStartup, StartupAction),
)
    requires
        is_step(state, event, protocol, websocket_url, moved),
        elapsed(event) == Some(elapsed_ns),
    ensures
        moved.1 matches StartupAction::FetchSlotLeaders { within_ns, .. } ==> within_ns > 0
            && elapsed_ns + within_ns == LEADERS_TIMEOUT_NS,
        moved.1 matches StartupAction::Wait { ns } ==> 0 < ns <= LEADERS_RETRY_NS && elapsed_ns + ns
            <= LEADERS_TIMEOUT_NS,
        elapsed_ns >= LEADERS_TIMEOUT_NS ==> moved.0 is Over || moved.0 is FetchingNodes,
        moved.1 matches StartupAction::Abort(LeadersFailure::TimedOut(_)) ==> elapsed_ns
            >= LEADERS_TIMEOUT_NS,
{
}

/// Where every request is answered, the service is made of the answers: it starts
/// at the slot that was fetched first, asks for the leaders from there on, and
/// runs with those leaders and contacts.
pub proof fn law_service_is_made_of_the_answers(
    start_slot: Slot,
    epoch_info: EpochInfo,
    leaders: Vec<Pubkey>,
    elapsed_ns: u128,
    nodes: Vec<RpcContactInfo>,
    protocol: Protocol,
    websocket_url: Seq<char>,
    first: (ServiceStartup, StartupAction),
    second: (ServiceStartup, StartupAction),
    third: (ServiceStartup, StartupAction),
    last: (ServiceStartup, StartupAction),
)
    requires
        is_step(
            ServiceStartup::FetchingSlot,
            StartupEvent::Slot(Ok(start_slot)),
            protocol,
            websocket_url,
            first,
        ),
        is_step(
            first.0,
            StartupEvent::EpochInfo(Ok(epoch_info)),
            protocol,
            websocket_url,
            second,
        ),
        is_step(
            second.0,
            StartupEvent::SlotLeaders { reply: Ok(leaders), elapsed_ns },
            protocol,
            websocket_url,
            third,
        ),
        is_step(third.0, StartupEvent::ClusterNodes(Ok(nodes)), protocol, websocket_url, last),
    ensures
        first.1 is FetchEpochInfo,
        second.1 == (StartupAction::FetchSlotLeaders {
            request: LeadersRequest {
                start: start_slot,
                limit: leader_tpu_cache::schedule_fanout(epoch_info.slots_in_epoch),
            },
            within_ns: LEADERS_TIMEOUT_NS,
        }),
        third.1 is FetchClusterNodes,
        last.1 matches StartupAction::Run { service, subscribe } && service.wf()
            && service@.recent == seq![start_slot] && service@.schedule.first_slot == start_slot
            && service@.schedule.leaders == leaders@ && service@.schedule.sockets
            == leader_tpu_cache::cluster_tpu_sockets(protocol, nodes@)
            && service@.schedule.slots_in_epoch == epoch_info.slots_in_epoch && subscribe == (
        websocket_url.len() > 0),
{
}

/// The start asks for the slot, for epoch information, for the leaders and for the
/// contacts, each with the answers so far in hand. The leaders are asked for from
/// the start slot on, 200 of them, or an epoch's where that is shorter, and may take
/// twenty seconds. Whatever cannot be had besides the leaders ends the start with its
/// own error.
pub proof fn law_start_asks_for_one_thing_after_the_other(
    start_slot: Slot,
    slots_in_epoch: Slot,
    leaders: Vec<Pubkey>,
    elapsed_ns: u128,
    error: ClientError,
    protocol: Protocol,
    websocket_url: Seq<char>,
    moved: (ServiceStartup, StartupAction),
)
    ensures
        is_step(
            ServiceStartup::FetchingSlot,
            StartupEvent::Slot(Ok(start_slot)),
            protocol,
            websocket_url,
            moved,
        ) ==> moved.0 == (ServiceStartup::FetchingEpochInfo { start_slot })
            && moved.1 is FetchEpochInfo,
        is_step(
            (ServiceStartup::FetchingEpochInfo { start_slot }),
            StartupEvent::EpochInfo(Ok((EpochInfo { slots_in_epoch }))),
            protocol,
            websocket_url,
            moved,
        ) ==> moved.0 == (ServiceStartup::FetchingSlotLeaders { start_slot, slots_in_epoch }) && (
        moved.1 matches StartupAction::FetchSlotLeaders { request, within_ns } && request.start
            == start_slot && request.limit == (if slots_in_epoch < 200 {
            slots_in_epoch
        } else {
            200
        }) && within_ns == 20_000_000_000),
        is_step(
            (ServiceStartup::FetchingSlotLeaders { start_slot, slots_in_epoch }),
            (StartupEvent::SlotLeaders { reply: Ok(leaders), elapsed_ns }),
            protocol,
            websocket_url,
            moved,
        ) ==> moved.0 == (ServiceStartup::FetchingNodes { start_slot, slots_in_epoch, leaders })
            && moved.1 is FetchClusterNodes,
        is_step(
            ServiceStartup::FetchingSlot,
            StartupEvent::Slot(Err(error)),
            protocol,
            websocket_url,
            moved,
        ) || is_step(
            (ServiceStartup::FetchingEpochInfo { start_slot }),
            StartupEvent::EpochInfo(Err(error)),
            protocol,
            websocket_url,
            moved,
        ) || is_step(
            (ServiceStartup::FetchingNodes { start_slot, slots_in_epoch, leaders }),
            StartupEvent::ClusterNodes(Err(error)),
            protocol,
            websocket_url,
            moved,
        ) ==> moved.0 is Over && moved.1 == StartupAction::Fail(error),
{
}

/// The service runs with what was fetched: it starts at the start slot with the
/// leaders from there on and the sockets of the contacts. Notifications are
/// subscribed to exactly where there is an address to get them from.
pub proof fn law_service_runs_with_what_was_fetched(
    start_slot: Slot,
    slots_in_epoch: Slot,
    leaders: Vec<Pubkey>,
    nodes: Vec<RpcContactInfo>,
    protocol: Protocol,
    websocket_url: Seq<char>,
    moved: (ServiceStartup, StartupAction),
)
    requires
        is_step(
            (ServiceStartup::FetchingNodes { start_slot, slots_in_epoch, leaders }),
            StartupEvent::ClusterNodes(Ok(nodes)),
            protocol,
            websocket_url,
            moved,
        ),
    ensures
        moved.0 is Over,
        moved.1 matches StartupAction::Run { service, subscribe } && {
            &&& service.wf()
            &&& service@.recent == seq![start_slot]
            &&& service@.schedule.protocol == protocol
            &&& service@.schedule.first_slot == start_slot
            &&& service@.schedule.leaders == leaders@
            &&& service@.schedule.slots_in_epoch == slots_in_epoch
            &&& service@.schedule.last_epoch_info_slot == start_slot
            &&& service@.schedule.sockets == leader_tpu_cache::cluster_tpu_sockets(
                protocol,
                nodes@,
            )
            &&& subscribe <==> websocket_url.len() > 0
        },
{
}

/// A rejected request for leaders is fatal at once, with the node's error, unless
/// the node answers with code -32602 that it has no leader schedule yet for the slots
/// in question. Then the start waits a second, or what is left of the twenty seconds
/// where that is less.
pub proof fn law_only_a_missing_schedule_is_waited_for(
    start_slot: Slot,
    slots_in_epoch: Slot,
    error: ClientError,
    elapsed_ns: u128,
    protocol: Protocol,
    websocket_url: Seq<char>,
    moved: (ServiceStartup, StartupAction),
)
    requires
        is_step(
            (ServiceStartup::FetchingSlotLeaders { start_slot, slots_in_epoch }),
            (StartupEvent::SlotLeaders { reply: Err(error), elapsed_ns }),
            protocol,
            websocket_url,
            moved,
        ),
    ensures
        error is Other ==> moved.1 == StartupAction::Abort(LeadersFailure::Rejected(error)),
        error matches ClientError::RpcResponse { code, message } ==> {
            let missing = code == -32602 && text::occurs_in(
                "Invalid slot range: leader schedule for epoch"@,
                message@,
            );
            &&& !missing ==> moved.0 is Over && moved.1 == StartupAction::Abort(
                LeadersFailure::Rejected(error),
            )
            &&& missing && elapsed_ns >= 20_000_000_000 ==> moved.0 is Over && (
            moved.1 matches StartupAction::Abort(LeadersFailure::TimedOut(_)))
            &&& missing && elapsed_ns < 20_000_000_000 ==> moved.0 == (
            ServiceStartup::WaitingToRetry { start_slot, slots_in_epoch })
            &&& missing && elapsed_ns <= 19_000_000_000 ==> moved.1 == (StartupAction::Wait {
                ns: 1_000_000_000,
            })
            &&& missing && 19_000_000_000 < elapsed_ns < 20_000_000_000 ==> (
            moved.1 matches StartupAction::Wait { ns } && elapsed_ns + ns == 20_000_000_000)
        },
{
}

/// After a wait the leaders are asked for as they were before, with the rest of the
/// twenty seconds, unless none is left.
pub proof fn law_retry_has_the_rest_of_the_time(
    start_slot: Slot,
    slots_in_epoch: Slot,
    elapsed_ns: u128,
    protocol: Protocol,
    websocket_url: Seq<char>,
    moved: (ServiceStartup, StartupAction),
)
    requires
        is_step(
            (ServiceStartup::WaitingToRetry { start_slot, slots_in_epoch }),
            (StartupEvent::Waited { elapsed_ns }),
            protocol,
            websocket_url,
            moved,
        ),
    ensures
        elapsed_ns < 20_000_000_000 ==> moved.0 == (ServiceStartup::FetchingSlotLeaders {
            start_slot,
            slots_in_epoch,
        }) && (moved.1 matches StartupAction::FetchSlotLeaders { request, within_ns }
            && request.start == start_slot && request.limit == (if slots_in_epoch < 200 {
            slots_in_epoch
        } else {
            200
        }) && elapsed_ns + within_ns == 20_000_000_000),
        elapsed_ns >= 20_000_000_000 ==> moved.0 is Over && (
        moved.1 matches StartupAction::Abort(LeadersFailure::TimedOut(_))),
{
}

/// Where the leaders are given up for want of time, the error names the address and
/// the twenty seconds. A request that ran out of time is given up so.
pub proof fn law_timeout_names_the_address(
    state: ServiceStartup,
    event: StartupEvent,
    failure: TpuSenderError,
    protocol: Protocol,
    websocket_url: Seq<char>,
    moved: (ServiceStartup, StartupAction),
)
    requires
        is_step(state, event, protocol, websocket_url, moved),
    ensures
        event is TimedOut ==> moved.0 is Over && (moved.1 matches StartupAction::Abort(
            LeadersFailure::TimedOut(_),
        )),
        moved.1 == StartupAction::Abort(LeadersFailure::TimedOut(failure)) ==> (
        failure matches TpuSenderError::Custom(text) && text@
            == "Failed to get slot leaders connecting to: "@ + websocket_url
            + ", timeout: 20s. Invalid slot range"@),
{
}

} // verus!
