use crate::cluster::SocketAddr;
use crate::engine::leader_tpu_service::LeaderTpuService;
use crate::engine::recent_leaders_slot::{TpuClientConfig, MAX_FANOUT_SLOTS};
use vstd::prelude::*;
use vstd::string::*;

verus! {

/// What can go wrong in the client. The texts describe the underlying errors.
#[derive(Debug)]
pub enum TpuSenderError {
    PubsubError(String),
    RpcError(String),
    IoError(String),
    SignerError(String),
    Custom(String),
}

impl TpuSenderError {
    /// What is said in front of the text.
    pub open spec fn label(self) -> Seq<char> {
        match self {
            TpuSenderError::PubsubError(_) => "Pubsub error: "@,
            TpuSenderError::RpcError(_) => "RPC error: "@,
            TpuSenderError::IoError(_) => "IO error: "@,
            TpuSenderError::SignerError(_) => "Signer error: "@,
            TpuSenderError::Custom(_) => "Custom error: "@,
        }
    }

    pub open spec fn text(self) -> Seq<char> {
        match self {
            TpuSenderError::PubsubError(text) => text@,
            TpuSenderError::RpcError(text) => text@,
            TpuSenderError::IoError(text) => text@,
            TpuSenderError::SignerError(text) => text@,
            TpuSenderError::Custom(text) => text@,
        }
    }

    /// The error as it is shown.
    pub fn message(&self) -> (message: String)
        ensures
            message@ == self.label() + self.text(),
            message@ == match *self {
                TpuSenderError::PubsubError(text) => "Pubsub error: "@ + text@,
                TpuSenderError::RpcError(text) => "RPC error: "@ + text@,
                TpuSenderError::IoError(text) => "IO error: "@ + text@,
                TpuSenderError::SignerError(text) => "Signer error: "@ + text@,
                TpuSenderError::Custom(text) => "Custom error: "@ + text@,
            },
    {
        let (label, text) = match self {
            TpuSenderError::PubsubError(text) => ("Pubsub error: ", text),
            TpuSenderError::RpcError(text) => ("RPC error: ", text),
            TpuSenderError::IoError(text) => ("IO error: ", text),
            TpuSenderError::SignerError(text) => ("Signer error: ", text),
            TpuSenderError::Custom(text) => ("Custom error: ", text),
        };
        let mut message: String = String::new();
        message.append(label);
        message.append(text.as_str());
        assert(message@ =~= self.label() + self.text());
        message
    }
}

/// What is said where there was nobody to send to.
pub const NO_SENDS_ATTEMPTED: &'static str = "No sends attempted";

/// Why a transaction reached no leader.
#[derive(Debug)]
pub enum SendFailure<E> {
    /// Every send failed; this is the last error.
    Transport(E),
    /// There was nobody to send to.
    NoSendsAttempted,
}

/// At least one send succeeded.
pub open spec fn some_success<E>(results: Seq<Result<(), E>>) -> bool {
    exists|i: int| 0 <= i < results.len() && results[i] is Ok
}

/// The outcome of sending to several leaders at once, from the outcomes of the
/// single sends: one success is enough; where all sends fail, the last error
/// is returned.
fn settle_sends<E>(results: Vec<Result<(), E>>) -> (outcome: Result<(), SendFailure<E>>)
    ensures
        outcome is Ok <==> some_success(results@),
        outcome matches Err(SendFailure::NoSendsAttempted) <==> results@.len() == 0,
        outcome matches Err(SendFailure::Transport(error)) ==> results@.last() == Err::<(), E>(
            error,
        ),
{
    let mut next: usize = 0;
    while next < results.len()
        invariant
            next <= results@.len(),
            forall|i: int| 0 <= i < next ==> results@[i] is Err,
        decreases results@.len() - next,
    {
        if results[next].is_ok() {
            return Ok(());
        }
        next = next + 1;
    }
    let mut failed = results;
    match failed.pop() {
        Some(Err(error)) => Err(SendFailure::Transport(error)),
        Some(Ok(_)) => {
            assert(results@[results@.len() - 1] is Err);
            Ok(())
        },
        None => Err(SendFailure::NoSendsAttempted),
    }
}

/// Something to send to one leader.
#[derive(Debug)]
pub struct Delivery<'a, T> {
    pub addr: SocketAddr,
    pub payload: &'a T,
}

/// Each target gets `payload`, in the order of the targets, and nobody else does.
pub open spec fn delivers<T>(
    deliveries: Seq<Delivery<T>>,
    targets: Seq<SocketAddr>,
    payload: T,
) -> bool {
    &&& deliveries.len() == targets.len()
    &&& forall|i: int|
        0 <= i < deliveries.len() ==> (#[trigger] deliveries[i]).addr == targets[i]
            && *deliveries[i].payload == payload
}

fn deliver<'a, T>(targets: &Vec<SocketAddr>, payload: &'a T) -> (sends: Sends<'a, T>)
    ensures
        delivers(sends@, targets@, *payload),
{
    let mut deliveries: Vec<Delivery<'a, T>> = Vec::new();
    let mut next: usize = 0;
    while next < targets.len()
        invariant
            next <= targets@.len(),
            delivers(deliveries@, targets@.take(next as int), *payload),
        decreases targets@.len() - next,
    {
        deliveries.push(Delivery { addr: targets[next], payload });
        next = next + 1;
    }
    assert(targets@.take(next as int) =~= targets@);
    Sends { deliveries }
}

/// Sends that go out at once, one for each target. Each is answered by its own result.
#[derive(Debug)]
pub struct Sends<'a, T> {
    deliveries: Vec<Delivery<'a, T>>,
}

impl<'a, T> View for Sends<'a, T> {
    type V = Seq<Delivery<'a, T>>;

    closed spec fn view(&self) -> Seq<Delivery<'a, T>> {
        self.deliveries@
    }
}

impl<'a, T> Sends<'a, T> {
    /// What to send, and to whom.
    pub fn deliveries(&self) -> (deliveries: &Vec<Delivery<'a, T>>)
        ensures
            deliveries@ == self@,
    {
        &self.deliveries
    }

    /// The outcome of the sends, from the results of the single ones, in the same
    /// order: one success is enough; where all fail, the last error is returned;
    /// where there was no target, none was attempted.
    pub fn settle<E>(&self, results: Vec<Result<(), E>>) -> (outcome: Result<(), SendFailure<E>>)
        requires
            results@.len() == self@.len(),
        ensures
            outcome is Ok <==> some_success(results@),
            outcome is Ok <==> exists|i: int|
                0 <= i < self@.len() && (#[trigger] results@[i]) is Ok,
            outcome matches Err(SendFailure::NoSendsAttempted) <==> self@.len() == 0,
            outcome matches Err(SendFailure::Transport(error)) ==> results@[self@.len() - 1]
                == Err::<(), E>(error),
    {
        settle_sends(results)
    }
}

/// Sends a transaction to the leaders one after the other and gives up at the
/// first failure.
#[derive(Debug)]
pub struct UpcomingLeaders<'a> {
    leaders: Vec<SocketAddr>,
    wire_transaction: &'a Vec<u8>,
    sent: usize,
    over: bool,
}

/// What to do next when sending to one leader after the other.
#[derive(Debug)]
pub enum UpcomingAction<'a, E> {
    Send(Delivery<'a, Vec<u8>>),
    Done(Result<(), E>),
}

/// A line of leaders to send to, as values.
pub struct LineState {
    /// Whom to send to, in this order.
    pub leaders: Seq<SocketAddr>,
    /// What to send to them.
    pub wire_transaction: Seq<u8>,
    /// How many sends succeeded.
    pub sent: int,
    /// Nothing more is sent.
    pub over: bool,
}

impl LineState {
    /// A send is under way.
    pub open spec fn sending(self) -> bool {
        !self.over && 0 <= self.sent < self.leaders.len()
    }

    /// The line before its first send; without leaders it is over at once.
    pub open spec fn at_start(leaders: Seq<SocketAddr>, wire_transaction: Seq<u8>) -> LineState {
        LineState { leaders, wire_transaction, sent: 0, over: leaders.len() == 0 }
    }

    /// The line after the send that was under way.
    pub open spec fn after<E>(self, outcome: Result<(), E>) -> LineState {
        match outcome {
            Ok(_) => LineState {
                sent: self.sent + 1,
                over: self.sent + 1 == self.leaders.len(),
                ..self
            },
            Err(_) => LineState { over: true, ..self },
        }
    }

    /// `action` sends the transaction to the next leader in line.
    pub open spec fn sends_next<E>(self, action: UpcomingAction<E>) -> bool {
        action matches UpcomingAction::Send(delivery) && delivery.addr == self.leaders[self.sent]
            && delivery.payload@ == self.wire_transaction
    }
}

/// What is asked for after a send: the next one, success where there is none
/// left, and after a failure nothing but that failure.
pub open spec fn is_line_action<E>(
    outcome: Result<(), E>,
    after: LineState,
    action: UpcomingAction<E>,
) -> bool {
    match outcome {
        Ok(_) => if after.over {
            action == UpcomingAction::Done(outcome)
        } else {
            after.sends_next(action)
        },
        Err(_) => action == UpcomingAction::Done(outcome),
    }
}

impl<'a> View for UpcomingLeaders<'a> {
    type V = LineState;

    closed spec fn view(&self) -> LineState {
        LineState {
            leaders: self.leaders@,
            wire_transaction: self.wire_transaction@,
            sent: self.sent as int,
            over: self.over,
        }
    }
}

impl<'a> UpcomingLeaders<'a> {
    pub fn start<E>(leaders: Vec<SocketAddr>, wire_transaction: &'a Vec<u8>) -> (begun: (
        Self,
        UpcomingAction<'a, E>,
    ))
        ensures
            begun.0@ == LineState::at_start(leaders@, wire_transaction@),
            leaders@.len() > 0 ==> begun.0@.sends_next(begun.1),
            leaders@.len() > 0 ==> (begun.1 matches UpcomingAction::Send(delivery) && delivery.addr
                == leaders@[0] && delivery.payload@ == wire_transaction@),
            leaders@.len() == 0 ==> begun.1 == UpcomingAction::Done(Ok::<(), E>(())),
    {
        let over: bool = leaders.len() == 0;
        let line = UpcomingLeaders { leaders, wire_transaction, sent: 0, over };
        let action = if over {
            UpcomingAction::Done(Ok(()))
        } else {
            UpcomingAction::Send(line.next_delivery())
        };
        (line, action)
    }

    /// Takes in the outcome of the send that was under way.
    pub fn step<E>(&mut self, outcome: Result<(), E>) -> (action: UpcomingAction<'a, E>)
        requires
            old(self)@.sending(),
        ensures
            final(self)@ == old(self)@.after(outcome),
            is_line_action(outcome, final(self)@, action),
            outcome is Err ==> action == UpcomingAction::Done(outcome),
            outcome is Ok && old(self)@.sent + 1 < old(self)@.leaders.len() ==> (
            action matches UpcomingAction::Send(delivery) && delivery.addr == old(
                self,
            )@.leaders[old(self)@.sent + 1] && delivery.payload@ == old(self)@.wire_transaction),
            outcome is Ok && old(self)@.sent + 1 == old(self)@.leaders.len() ==> action
                == UpcomingAction::Done(outcome),
    {
        match outcome {
            Ok(done) => {
                let len: usize = self.leaders.len();
                assert(self.sent < len);
                self.sent = self.sent + 1;
                if self.sent == len {
                    self.over = true;
                    UpcomingAction::Done(Ok(done))
                } else {
                    UpcomingAction::Send(self.next_delivery())
                }
            },
            Err(error) => {
                self.over = true;
                UpcomingAction::Done(Err(error))
            },
        }
    }

    fn next_delivery(&self) -> (delivery: Delivery<'a, Vec<u8>>)
        requires
            self@.sending(),
        ensures
            delivery.addr == self@.leaders[self@.sent],
            delivery.payload@ == self@.wire_transaction,
    {
        Delivery { addr: self.leaders[self.sent], payload: self.wire_transaction }
    }
}

/// One step along a line, as it happened.
pub struct LineStep<'a, E> {
    pub before: LineState,
    pub outcome: Result<(), E>,
    pub after: LineState,
    pub action: UpcomingAction<'a, E>,
}

/// Step `i` starts where the one before it ended.
pub open spec fn line_follows<E>(run: Seq<LineStep<E>>, i: int) -> bool {
    run[i].before == run[i - 1].after
}

/// The steps along a line from its start on.
pub open spec fn is_line_run<E>(
    leaders: Seq<SocketAddr>,
    wire_transaction: Seq<u8>,
    run: Seq<LineStep<E>>,
) -> bool {
    &&& run.len() > 0
    &&& run[0].before == LineState::at_start(leaders, wire_transaction)
    &&& forall|i: int|
        0 <= i < run.len() ==> {
            &&& (#[trigger] run[i]).before.sending()
            &&& run[i].after == run[i].before.after(run[i].outcome)
            &&& is_line_action(run[i].outcome, run[i].after, run[i].action)
        }
    &&& forall|i: int| 0 < i < run.len() ==> #[trigger] line_follows(run, i)
}

proof fn lemma_line_at<E>(
    leaders: Seq<SocketAddr>,
    wire_transaction: Seq<u8>,
    run: Seq<LineStep<E>>,
    i: int,
)
    requires
        is_line_run(leaders, wire_transaction, run),
        0 <= i < run.len(),
    ensures
        run[i].before == (LineState { leaders, wire_transaction, sent: i, over: false }),
        i < run.len() - 1 ==> run[i].outcome is Ok,
        i < leaders.len(),
    decreases i,
{
    if i > 0 {
        lemma_line_at(leaders, wire_transaction, run, i - 1);
        assert(line_follows(run, i));
        assert(run[i - 1].after == run[i - 1].before.after(run[i - 1].outcome));
    }
    assert(run[i].before.sending());
    if i < run.len() - 1 {
        assert(line_follows(run, i + 1));
        assert(run[i + 1].before.sending());
        assert(run[i].after == run[i].before.after(run[i].outcome));
    }
}

/// The leaders are sent the transaction in order, each once: step `i` is the
/// outcome of the send to the `i`-th leader, and every send before the last step
/// succeeded.
pub proof fn law_leaders_are_sent_to_in_order<E>(
    leaders: Seq<SocketAddr>,
    wire_transaction: Seq<u8>,
    run: Seq<LineStep<E>>,
    i: int,
)
    requires
        is_line_run(leaders, wire_transaction, run),
        0 <= i < run.len(),
    ensures
        run.len() <= leaders.len(),
        run[i].before == (LineState { leaders, wire_transaction, sent: i, over: false }),
        i < run.len() - 1 ==> run[i].outcome is Ok && (
        run[i].action matches UpcomingAction::Send(delivery) && delivery.addr == leaders[i + 1]
            && delivery.payload@ == wire_transaction),
        run[i].outcome is Ok && i + 1 < leaders.len() ==> (
        run[i].action matches UpcomingAction::Send(delivery) && delivery.addr == leaders[i + 1]
            && delivery.payload@ == wire_transaction),
{
    lemma_line_at(leaders, wire_transaction, run, i);
    lemma_line_at(leaders, wire_transaction, run, run.len() - 1);
    assert(run[i].before.sending());
    if i < run.len() - 1 {
        lemma_line_at(leaders, wire_transaction, run, i + 1);
        assert(line_follows(run, i + 1));
    }
}

/// A line starts with the first leader. A send that succeeded brings it one leader
/// on, and past the last leader it is over; a send that failed ends it where it is.
/// Whom it sends to and what never change.
pub proof fn law_line_moves_one_leader_on<E>(
    leaders: Seq<SocketAddr>,
    wire_transaction: Seq<u8>,
    line: LineState,
    error: E,
)
    ensures
        LineState::at_start(leaders, wire_transaction).leaders == leaders,
        LineState::at_start(leaders, wire_transaction).wire_transaction == wire_transaction,
        LineState::at_start(leaders, wire_transaction).sent == 0,
        LineState::at_start(leaders, wire_transaction).sending() <==> leaders.len() > 0,
        line.after(Ok::<(), E>(())).leaders == line.leaders,
        line.after(Ok::<(), E>(())).wire_transaction == line.wire_transaction,
        line.after(Ok::<(), E>(())).sent == line.sent + 1,
        line.sending() ==> (line.after(Ok::<(), E>(())).sending() <==> line.sent + 1
            < line.leaders.len()),
        line.after(Err::<(), E>(error)).leaders == line.leaders,
        line.after(Err::<(), E>(error)).wire_transaction == line.wire_transaction,
        line.after(Err::<(), E>(error)).sent == line.sent,
        !line.after(Err::<(), E>(error)).sending(),
        line.sending() <==> !line.over && 0 <= line.sent < line.leaders.len(),
{
}

/// Each target gets its own send, with the whole of what is to be sent.
pub proof fn law_every_target_gets_the_payload<T>(
    deliveries: Seq<Delivery<T>>,
    targets: Seq<SocketAddr>,
    payload: T,
    target: SocketAddr,
)
    requires
        delivers(deliveries, targets, payload),
    ensures
        deliveries.len() == targets.len(),
        forall|i: int|
            0 <= i < targets.len() ==> (#[trigger] deliveries[i]).addr == targets[i]
                && *deliveries[i].payload == payload,
        targets.contains(target) <==> exists|i: int|
            0 <= i < deliveries.len() && (#[trigger] deliveries[i]).addr == target,
{
    if targets.contains(target) {
        let i = choose|i: int| 0 <= i < targets.len() && targets[i] == target;
        assert(deliveries[i].addr == target);
    }
}

/// The first failure ends the line and is returned; success is returned exactly
/// when every leader was sent to. Nothing is sent after either.
pub proof fn law_stops_at_first_failure<E>(
    leaders: Seq<SocketAddr>,
    wire_transaction: Seq<u8>,
    run: Seq<LineStep<E>>,
)
    requires
        is_line_run(leaders, wire_transaction, run),
    ensures
        run.last().outcome is Err ==> run.last().action == UpcomingAction::Done(
            run.last().outcome,
        ),
        run.last().outcome is Ok ==> (run.last().action is Done <==> run.len() == leaders.len()),
        run.last().action matches UpcomingAction::Done(outcome) ==> outcome == run.last().outcome
            && !run.last().after.sending(),
{
    lemma_line_at(leaders, wire_transaction, run, run.len() - 1);
    assert(run[run.len() - 1].before.sending());
}

/// The part of the client that decides whom to send to.
#[derive(Clone, Copy, Debug)]
pub struct BackendTpuClient {
    fanout_slots: u64,
}

impl BackendTpuClient {
    /// The range of upcoming slots in which leaders are looked up.
    pub closed spec fn fanout_slots(&self) -> u64 {
        self.fanout_slots
    }

    /// A client with the configured fanout, moved into its bounds where it lies
    /// outside of them.
    pub fn new_with_connection_cache(config: TpuClientConfig) -> (client: Self)
        ensures
            1 <= client.fanout_slots() <= MAX_FANOUT_SLOTS,
            1 <= config.fanout_slots <= MAX_FANOUT_SLOTS ==> client.fanout_slots()
                == config.fanout_slots,
            config.fanout_slots < 1 ==> client.fanout_slots() == 1,
            config.fanout_slots > MAX_FANOUT_SLOTS ==> client.fanout_slots() == MAX_FANOUT_SLOTS,
            config.fanout_slots > 100 ==> client.fanout_slots() == 100,
    {
        let fanout_slots: u64 = if config.fanout_slots < 1 {
            1
        } else if config.fanout_slots > MAX_FANOUT_SLOTS {
            MAX_FANOUT_SLOTS
        } else {
            config.fanout_slots
        };
        BackendTpuClient { fanout_slots }
    }

    /// Tells whether the sockets to send to can be looked up.
    pub fn can_send(&self, service: &LeaderTpuService) -> (can: bool)
        requires
            service.wf(),
        ensures
            can == service@.fanout_in_range(self.fanout_slots()),
    {
        service.can_fan_out(self.fanout_slots)
    }

    /// The sockets that every transaction is sent to.
    pub fn send_targets(&self, service: &LeaderTpuService) -> (targets: Vec<SocketAddr>)
        requires
            service.wf(),
            service@.fanout_in_range(self.fanout_slots()),
        ensures
            targets@ == service@.schedule.unique_leader_sockets(
                service@.current_slot(),
                self.fanout_slots(),
            ),
    {
        service.unique_leader_tpu_sockets(self.fanout_slots)
    }

    /// The sends of a transaction: to all targets at once. `Sends::settle` tells
    /// what their results mean.
    pub fn try_send_wire_transaction<'a>(
        &self,
        service: &LeaderTpuService,
        wire_transaction: &'a Vec<u8>,
    ) -> (sends: Sends<'a, Vec<u8>>)
        requires
            service.wf(),
            service@.fanout_in_range(self.fanout_slots()),
        ensures
            delivers(
                sends@,
                service@.schedule.unique_leader_sockets(
                    service@.current_slot(),
                    self.fanout_slots(),
                ),
                *wire_transaction,
            ),
            sends@.len() == service@.schedule.unique_leader_sockets(
                service@.current_slot(),
                self.fanout_slots(),
            ).len(),
            forall|i: int|
                0 <= i < sends@.len() ==> (#[trigger] sends@[i]).addr
                    == service@.schedule.unique_leader_sockets(
                    service@.current_slot(),
                    self.fanout_slots(),
                )[i] && sends@[i].payload@ == wire_transaction@,
    {
        deliver(&self.send_targets(service), wire_transaction)
    }

    /// The sends of a batch: all of it to all targets at once. `Sends::settle`
    /// tells what their results mean.
    pub fn try_send_wire_transaction_batch<'a>(
        &self,
        service: &LeaderTpuService,
        wire_transactions: &'a Vec<Vec<u8>>,
    ) -> (sends: Sends<'a, Vec<Vec<u8>>>)
        requires
            service.wf(),
            service@.fanout_in_range(self.fanout_slots()),
        ensures
            delivers(
                sends@,
                service@.schedule.unique_leader_sockets(
                    service@.current_slot(),
                    self.fanout_slots(),
                ),
                *wire_transactions,
            ),
            sends@.len() == service@.schedule.unique_leader_sockets(
                service@.current_slot(),
                self.fanout_slots(),
            ).len(),
            forall|i: int|
                0 <= i < sends@.len() ==> (#[trigger] sends@[i]).addr
                    == service@.schedule.unique_leader_sockets(
                    service@.current_slot(),
                    self.fanout_slots(),
                )[i] && sends@[i].payload@ == wire_transactions@,
    {
        deliver(&self.send_targets(service), wire_transactions)
    }

    /// The sends of a transaction to one target after the other.
    pub fn send_transaction_to_upcoming_leaders<'a, E>(
        &self,
        service: &LeaderTpuService,
        wire_transaction: &'a Vec<u8>,
    ) -> (begun: (UpcomingLeaders<'a>, UpcomingAction<'a, E>))
        requires
            service.wf(),
            service@.fanout_in_range(self.fanout_slots()),
        ensures
            begun.0@ == LineState::at_start(
                service@.schedule.unique_leader_sockets(
                    service@.current_slot(),
                    self.fanout_slots(),
                ),
                wire_transaction@,
            ),
            begun.0@.leaders.len() > 0 ==> begun.0@.sends_next(begun.1),
            begun.0@.leaders.len() > 0 ==> (begun.1 matches UpcomingAction::Send(delivery)
                && delivery.addr == service@.schedule.unique_leader_sockets(
                service@.current_slot(),
                self.fanout_slots(),
            )[0] && delivery.payload@ == wire_transaction@),
            begun.0@.leaders.len() == 0 ==> begun.1 == UpcomingAction::Done(Ok::<(), E>(())),
    {
        UpcomingLeaders::start(self.send_targets(service), wire_transaction)
    }
}

} // verus!
