//! How a submitted transaction is decoded, sent until it arrives, and answered.

use crate::ordering;
use crate::outside;
use vstd::prelude::*;
use vstd::string::*;

verus! {

/// How often a transaction is sent before it is given up.
pub const MAX_RETRIES: u32 = 10;

/// How long to wait before the next attempt, in milliseconds.
pub const INITIAL_RETRY_DELAY_MS: u64 = 100;

/// How stubbornly a transaction is sent.
#[derive(Clone, Copy, Debug, PartialEq, Eq, Structural)]
pub struct RetryPolicy {
    pub max_retries: u32,
    pub retry_delay_ms: u64,
}

impl Default for RetryPolicy {
    fn default() -> (policy: Self)
        ensures
            policy == (RetryPolicy {
                max_retries: MAX_RETRIES,
                retry_delay_ms: INITIAL_RETRY_DELAY_MS,
            }),
            policy.max_retries == 10,
            policy.retry_delay_ms == 100,
    {
        RetryPolicy { max_retries: MAX_RETRIES, retry_delay_ms: INITIAL_RETRY_DELAY_MS }
    }
}

/// What the client is told.
#[derive(Debug)]
pub struct TransactionResponse {
    pub status: String,
    pub error: Option<String>,
    pub processing_time_ms: u64,
    pub attempts: u32,
}

/// The answer to a request.
#[derive(Debug)]
pub struct Reply {
    /// The HTTP status: 200 or 500.
    pub status_code: u16,
    pub body: TransactionResponse,
}

/// What a client submits, in base64.
#[derive(Debug)]
pub enum Request {
    Transaction(Vec<u8>),
    Batch(Vec<Vec<u8>>),
}

/// What is sent to the leaders for a request.
#[derive(Debug)]
pub enum Payload {
    Transaction(Vec<u8>),
    Batch(Vec<Vec<u8>>),
}

/// `payload` is the decoded request: an empty transaction for one that is no
/// base64, and a batch without what is no base64.
pub open spec fn is_payload(request: Request, payload: Payload) -> bool {
    match (request, payload) {
        (Request::Transaction(txn), Payload::Transaction(wire_transaction)) => {
            wire_transaction@ == match outside::base64_decoded(txn@) {
                Some(bytes) => bytes,
                None => Seq::empty(),
            }
        },
        (Request::Batch(txns), Payload::Batch(wire_transactions)) => {
            contents(wire_transactions@) == contents(txns@).filter_map(
                |txn: Seq<u8>| outside::base64_decoded(txn),
            )
        },
        _ => false,
    }
}

/// What to send for `request`.
pub fn payload_of(request: &Request) -> (payload: Payload)
    ensures
        is_payload(*request, payload),
        request is Transaction <==> payload is Transaction,
        *request matches Request::Transaction(txn) ==> (payload matches Payload::Transaction(wire)
            && (outside::base64_decoded(txn@) matches Some(bytes) ==> wire@ == bytes) && (
        outside::base64_decoded(txn@) is None ==> wire@.len() == 0)),
{
    match request {
        Request::Transaction(txn) => Payload::Transaction(wire_transaction(txn)),
        Request::Batch(txns) => Payload::Batch(wire_transactions(txns)),
    }
}

/// A submission in progress. Attempts are counted from one.
#[derive(Clone, Copy, Debug, PartialEq, Eq, Structural)]
pub enum Submission {
    Sending { attempt: u32 },
    Waiting { attempt: u32 },
    Answered,
}

/// What the outside world reports: how an attempt went, an error by its text,
/// with the time since the request arrived; or that the wait is over.
#[derive(Debug)]
pub enum SubmitEvent {
    Sent { outcome: Result<(), String>, elapsed_ms: u128 },
    Waited,
}

/// What to do next.
#[derive(Debug)]
pub enum SubmitAction {
    Send(Payload),
    Wait { ms: u64 },
    Answer(Reply),
}

/// The milliseconds that an answer shows: the lowest 64 bits.
pub open spec fn shown_ms(elapsed_ms: u128) -> int {
    elapsed_ms as int % 0x1_0000_0000_0000_0000
}

/// The transaction reached a leader.
pub open spec fn is_success(reply: Reply, attempts: u32, elapsed_ms: u128) -> bool {
    &&& reply.status_code == 200
    &&& reply.body.status@ == "success"@
    &&& reply.body.error is None
    &&& reply.body.processing_time_ms == shown_ms(elapsed_ms)
    &&& reply.body.attempts == attempts
}

/// The transaction reached no leader; `error` is that of the last attempt, where
/// there was one.
pub open spec fn is_failure(
    reply: Reply,
    error: Option<String>,
    attempts: u32,
    elapsed_ms: u128,
) -> bool {
    &&& reply.status_code == 500
    &&& reply.body.status@ == "error"@
    &&& reply.body.error == error
    &&& reply.body.processing_time_ms == shown_ms(elapsed_ms)
    &&& reply.body.attempts == attempts
}

/// A step of a submission.
pub open spec fn is_step(
    policy: RetryPolicy,
    request: Request,
    state: Submission,
    event: SubmitEvent,
    moved: (Submission, SubmitAction),
) -> bool {
    match (state, event) {
        (Submission::Sending { attempt }, SubmitEvent::Sent { outcome: Ok(_), elapsed_ms }) => {
            &&& moved.0 is Answered
            &&& moved.1 matches SubmitAction::Answer(reply)
            &&& is_success(reply, attempt, elapsed_ms)
        },
        (Submission::Sending { attempt }, SubmitEvent::Sent { outcome: Err(error), elapsed_ms }) => {
            if attempt < policy.max_retries {
                &&& moved.0 == (Submission::Waiting { attempt })
                &&& moved.1 == (SubmitAction::Wait { ms: policy.retry_delay_ms })
            } else {
                &&& moved.0 is Answered
                &&& moved.1 matches SubmitAction::Answer(reply)
                &&& is_failure(reply, Some(error), attempt, elapsed_ms)
            }
        },
        (Submission::Waiting { attempt }, SubmitEvent::Waited) => {
            &&& moved.0 == (Submission::Sending { attempt: (attempt + 1) as u32 })
            &&& moved.1 matches SubmitAction::Send(payload)
            &&& is_payload(request, payload)
        },
        _ => false,
    }
}

impl Submission {
    /// `event` reports what was asked for.
    pub open spec fn expects(self, event: SubmitEvent) -> bool {
        match self {
            Submission::Sending { .. } => event is Sent,
            Submission::Waiting { .. } => event is Waited,
            Submission::Answered => false,
        }
    }

    /// Another attempt is left where the submission waits for one.
    pub open spec fn within(self, policy: RetryPolicy) -> bool {
        match self {
            Submission::Sending { attempt } => 1 <= attempt <= policy.max_retries,
            Submission::Waiting { attempt } => 1 <= attempt < policy.max_retries,
            Submission::Answered => true,
        }
    }

    /// The first attempt; where the policy allows none, the failure at once.
    pub fn start(policy: RetryPolicy, request: &Request, elapsed_ms: u128) -> (begun: (
        Submission,
        SubmitAction,
    ))
        ensures
            begun.0.within(policy),
            policy.max_retries > 0 ==> begun.0 == (Submission::Sending { attempt: 1 })
                && (begun.1 matches SubmitAction::Send(payload) && is_payload(*request, payload)),
            policy.max_retries == 0 ==> begun.0 is Answered && (begun.1 matches SubmitAction::Answer(
                reply,
            ) && is_failure(reply, None, 0, elapsed_ms)),
    {
        if policy.max_retries > 0 {
            (Submission::Sending { attempt: 1 }, SubmitAction::Send(payload_of(request)))
        } else {
            (Submission::Answered, SubmitAction::Answer(failure(None, 0, elapsed_ms)))
        }
    }

    /// Takes in what was reported, and says what to do next.
    pub fn step(self, policy: RetryPolicy, request: &Request, event: SubmitEvent) -> (moved: (
        Submission,
        SubmitAction,
    ))
        requires
            self.within(policy),
            self.expects(event),
        ensures
            moved.0.within(policy),
            is_step(policy, *request, self, event, moved),
    {
        match (self, event) {
            (Submission::Sending { attempt }, SubmitEvent::Sent { outcome, elapsed_ms }) => {
                match outcome {
                    Ok(()) => (
                        Submission::Answered,
                        SubmitAction::Answer(success(attempt, elapsed_ms)),
                    ),
                    Err(error) => {
                        if attempt < policy.max_retries {
                            (
                                Submission::Waiting { attempt },
                                SubmitAction::Wait { ms: policy.retry_delay_ms },
                            )
                        } else {
                            (
                                Submission::Answered,
                                SubmitAction::Answer(failure(Some(error), attempt, elapsed_ms)),
                            )
                        }
                    },
                }
            },
            (Submission::Waiting { attempt }, SubmitEvent::Waited) => {
                (
                    Submission::Sending { attempt: attempt + 1 },
                    SubmitAction::Send(payload_of(request)),
                )
            },
            (state, _) => {
                assert(false);
                (state, SubmitAction::Send(payload_of(request)))
            },
        }
    }
}

fn success(attempts: u32, elapsed_ms: u128) -> (reply: Reply)
    ensures
        is_success(reply, attempts, elapsed_ms),
{
    Reply {
        status_code: 200,
        body: TransactionResponse {
            status: "success".to_string(),
            error: None,
            processing_time_ms: low_bits(elapsed_ms),
            attempts,
        },
    }
}

fn failure(error: Option<String>, attempts: u32, elapsed_ms: u128) -> (reply: Reply)
    ensures
        is_failure(reply, error, attempts, elapsed_ms),
{
    Reply {
        status_code: 500,
        body: TransactionResponse {
            status: "error".to_string(),
            error,
            processing_time_ms: low_bits(elapsed_ms),
            attempts,
        },
    }
}

fn low_bits(elapsed_ms: u128) -> (ms: u64)
    ensures
        ms == shown_ms(elapsed_ms),
{
    let ms: u64 = #[verifier::truncate]
    (elapsed_ms as u64);
    assert(elapsed_ms as u64 == elapsed_ms % 0x1_0000_0000_0000_0000) by (bit_vector);
    ms
}

/// The decoded transaction, or nothing at all where it could not be decoded.
pub fn decoded_or_empty(decoded: Option<Vec<u8>>) -> (wire_transaction: Vec<u8>)
    ensures
        decoded matches Some(bytes) ==> wire_transaction == bytes,
        decoded is None ==> wire_transaction@.len() == 0,
{
    match decoded {
        Some(bytes) => bytes,
        None => Vec::new(),
    }
}

/// The bytes to send for a transaction that was submitted in base64. What is no
/// base64 is sent as an empty transaction.
pub fn wire_transaction(txn: &Vec<u8>) -> (wire_transaction: Vec<u8>)
    ensures
        wire_transaction@ == match outside::base64_decoded(txn@) {
            Some(bytes) => bytes,
            None => Seq::empty(),
        },
{
    let wire_transaction = decoded_or_empty(outside::decode_base64(txn));
    assert(outside::base64_decoded(txn@) is None ==> wire_transaction@ =~= Seq::empty());
    wire_transaction
}

/// Byte strings, as sequences.
pub open spec fn contents(strings: Seq<Vec<u8>>) -> Seq<Seq<u8>> {
    strings.map_values(|bytes: Vec<u8>| bytes@)
}

/// Adds a decoded transaction to a batch; one that could not be decoded is left out.
pub fn keep_decoded(batch: &mut Vec<Vec<u8>>, decoded: Option<Vec<u8>>)
    ensures
        final(batch)@ == match decoded {
            Some(bytes) => old(batch)@.push(bytes),
            None => old(batch)@,
        },
{
    if let Some(bytes) = decoded {
        batch.push(bytes);
    }
}

/// The byte strings to send for a batch that was submitted in base64, in the
/// same order. What is no base64 is left out.
pub fn wire_transactions(txns: &Vec<Vec<u8>>) -> (wire_transactions: Vec<Vec<u8>>)
    ensures
        contents(wire_transactions@) == contents(txns@).filter_map(
            |txn: Seq<u8>| outside::base64_decoded(txn),
        ),
{
    let ghost decode = |txn: Seq<u8>| outside::base64_decoded(txn);
    let mut batch: Vec<Vec<u8>> = Vec::new();
    let mut next: usize = 0;
    proof {
        assert(contents(batch@) =~= contents(txns@).take(0).filter_map(decode));
    }
    while next < txns.len()
        invariant
            next <= txns@.len(),
            decode == (|txn: Seq<u8>| outside::base64_decoded(txn)),
            contents(batch@) == contents(txns@).take(next as int).filter_map(decode),
        decreases txns@.len() - next,
    {
        let ghost before = batch@;
        let decoded = outside::decode_base64(&txns[next]);
        let ghost found = decoded;
        keep_decoded(&mut batch, decoded);
        proof {
            contents(txns@).lemma_filter_map_take_succ(decode, next as int);
            assert(contents(txns@)[next as int] == txns@[next as int]@);
            match found {
                Some(bytes) => {
                    assert(contents(batch@) =~= contents(before) + seq![bytes@]);
                },
                None => {
                    assert(contents(batch@) =~= contents(before) + Seq::<Seq<u8>>::empty());
                },
            }
        }
        next = next + 1;
    }
    assert(contents(txns@).take(next as int) =~= contents(txns@));
    batch
}

/// One step of a submission, as it happened.
pub struct SubmitStep {
    pub state: Submission,
    pub event: SubmitEvent,
    pub moved: (Submission, SubmitAction),
}

/// Step `i` starts where the one before it ended.
pub open spec fn follows(run: Seq<SubmitStep>, i: int) -> bool {
    run[i].state == run[i - 1].moved.0
}

/// The steps of a submission from its first attempt on.
pub open spec fn is_run(policy: RetryPolicy, request: Request, run: Seq<SubmitStep>) -> bool {
    &&& run.len() > 0
    &&& policy.max_retries > 0
    &&& run[0].state == (Submission::Sending { attempt: 1 })
    &&& forall|i: int|
        0 <= i < run.len() ==> is_step(
            policy,
            request,
            (#[trigger] run[i]).state,
            run[i].event,
            run[i].moved,
        )
    &&& forall|i: int| 0 < i < run.len() ==> #[trigger] follows(run, i)
}

/// The outcome of a step that sent.
pub open spec fn sent_outcome(step: SubmitStep) -> Option<Result<(), String>> {
    match step.event {
        SubmitEvent::Sent { outcome, .. } => Some(outcome),
        SubmitEvent::Waited => None,
    }
}

/// Sends and waits alternate, every send before the last step failed, and there
/// are no more sends than the policy allows.
pub proof fn law_attempts_are_bounded(
    policy: RetryPolicy,
    request: Request,
    run: Seq<SubmitStep>,
    i: int,
)
    requires
        is_run(policy, request, run),
        0 <= i < run.len(),
    ensures
        run.len() < 2 * policy.max_retries,
        i % 2 == 0 ==> run[i].state == (Submission::Sending { attempt: (i / 2 + 1) as u32 }) && (
        sent_outcome(run[i]) matches Some(outcome) && (i < run.len() - 1 ==> outcome is Err)),
        i % 2 == 1 ==> run[i].state == (Submission::Waiting { attempt: (i / 2 + 1) as u32 })
            && sent_outcome(run[i]) is None,
{
    lemma_step_at(policy, request, run, i);
    lemma_step_at(policy, request, run, run.len() - 1);
}

proof fn lemma_step_at(
    policy: RetryPolicy,
    request: Request,
    run: Seq<SubmitStep>,
    i: int,
)
    requires
        is_run(policy, request, run),
        0 <= i < run.len(),
    ensures
        i % 2 == 0 ==> run[i].state == (Submission::Sending { attempt: (i / 2 + 1) as u32 }) && i
            / 2 + 1 <= policy.max_retries && (sent_outcome(run[i]) matches Some(outcome) && (i
            < run.len() - 1 ==> outcome is Err)),
        i % 2 == 1 ==> run[i].state == (Submission::Waiting { attempt: (i / 2 + 1) as u32 }) && i
            / 2 + 1 < policy.max_retries && sent_outcome(run[i]) is None,
    decreases i,
{
    if i > 0 {
        lemma_step_at(policy, request, run, i - 1);
        assert(follows(run, i));
        assert(is_step(policy, request, run[i - 1].state, run[i - 1].event, run[i - 1].moved));
    }
    assert(is_step(policy, request, run[i].state, run[i].event, run[i].moved));
    if i < run.len() - 1 {
        assert(follows(run, i + 1));
        assert(is_step(policy, request, run[i + 1].state, run[i + 1].event, run[i + 1].moved));
    }
}

/// Every attempt sends the whole decoded request, and nothing else is ever sent.
pub proof fn law_every_attempt_sends_the_request(
    policy: RetryPolicy,
    request: Request,
    run: Seq<SubmitStep>,
    i: int,
)
    requires
        is_run(policy, request, run),
        0 <= i < run.len(),
    ensures
        run[i].moved.1 matches SubmitAction::Send(payload) ==> is_payload(request, payload),
        run[i].moved.0 is Sending <==> run[i].moved.1 is Send,
{
    assert(is_step(policy, request, run[i].state, run[i].event, run[i].moved));
}

/// A submission is answered with success as soon as an attempt succeeds, and with
/// the error of the last attempt once every allowed attempt failed. The answer
/// counts the attempts.
pub proof fn law_answer_tells_the_outcome(
    policy: RetryPolicy,
    request: Request,
    run: Seq<SubmitStep>,
    reply: Reply,
)
    requires
        is_run(policy, request, run),
        run.last().moved.1 == SubmitAction::Answer(reply),
    ensures
        reply.body.attempts == (run.len() + 1) / 2,
        1 <= reply.body.attempts <= policy.max_retries,
        sent_outcome(run.last()) matches Some(outcome) && match outcome {
            Ok(_) => reply.status_code == 200 && reply.body.error is None,
            Err(error) => reply.status_code == 500 && reply.body.error == Some(error)
                && reply.body.attempts == policy.max_retries,
        },
{
    let end = run.len() - 1;
    lemma_step_at(policy, request, run, end);
    assert(is_step(policy, request, run[end].state, run[end].event, run[end].moved));
}

/// What is sent for a transaction is the transaction itself, decoded whole; an empty
/// one where it is no base64.
pub proof fn law_transaction_is_sent_decoded(txn: Vec<u8>, payload: Payload)
    requires
        is_payload(Request::Transaction(txn), payload),
    ensures
        payload matches Payload::Transaction(wire) && (outside::base64_decoded(
            txn@,
        ) matches Some(bytes) ==> wire@ == bytes) && (outside::base64_decoded(txn@) is None
            ==> wire@.len() == 0),
{
}

/// No submitted transaction of a batch that decodes is lost, and nothing else is
/// sent: there is one payload for each of them, in the order in which they were
/// submitted. `kept` are their places in the batch.
pub proof fn law_batch_is_sent_decoded(txns: Vec<Vec<u8>>, payload: Payload) -> (kept: Seq<int>)
    requires
        is_payload(Request::Batch(txns), payload),
    ensures
        payload matches Payload::Batch(wires) && wires@.len() == kept.len() && (forall|k: int|
            0 <= k < kept.len() ==> outside::base64_decoded(txns@[#[trigger] kept[k]]@) == Some(
                wires@[k]@,
            )),
        forall|k: int| 0 <= k < kept.len() ==> 0 <= #[trigger] kept[k] < txns@.len(),
        forall|k: int, l: int| 0 <= k < l < kept.len() ==> #[trigger] kept[k] < #[trigger] kept[l],
        forall|i: int|
            0 <= i < txns@.len() && outside::base64_decoded((#[trigger] txns@[i])@) is Some
                ==> kept.contains(i),
{
    let decode = |txn: Seq<u8>| outside::base64_decoded(txn);
    let submitted = contents(txns@);
    lemma_contents(txns@);
    let kept = ordering::lemma_kept_positions(submitted, decode);
    if let Payload::Batch(wires) = payload {
        lemma_contents(wires@);
        assert forall|k: int| 0 <= k < kept.len() implies outside::base64_decoded(
            txns@[#[trigger] kept[k]]@,
        ) == Some(wires@[k]@) by {
            assert(decode(submitted[kept[k]]) == Some(submitted.filter_map(decode)[k]));
            assert(contents(wires@)[k] == wires@[k]@);
        }
    }
    assert forall|i: int|
        0 <= i < txns@.len() && outside::base64_decoded(
            (#[trigger] txns@[i])@,
        ) is Some implies kept.contains(i) by {
        assert(decode(submitted[i]) is Some);
    }
    kept
}

/// A batch in which every transaction decodes is sent whole: as many as were
/// submitted, each decoded at its own place.
pub proof fn law_whole_batch_is_sent(txns: Vec<Vec<u8>>, payload: Payload)
    requires
        is_payload(Request::Batch(txns), payload),
        forall|i: int|
            0 <= i < txns@.len() ==> outside::base64_decoded((#[trigger] txns@[i])@) is Some,
    ensures
        payload matches Payload::Batch(wires) && wires@.len() == txns@.len() && (forall|i: int|
            0 <= i < txns@.len() ==> outside::base64_decoded((#[trigger] txns@[i])@) == Some(
                wires@[i]@,
            )),
{
    let decode = |txn: Seq<u8>| outside::base64_decoded(txn);
    let submitted = contents(txns@);
    lemma_contents(txns@);
    assert forall|i: int| 0 <= i < submitted.len() implies decode(
        #[trigger] submitted[i],
    ) is Some by {
        assert(submitted[i] == txns@[i]@);
    }
    ordering::lemma_all_kept(submitted, decode);
    if let Payload::Batch(wires) = payload {
        lemma_contents(wires@);
        assert forall|i: int| 0 <= i < txns@.len() implies outside::base64_decoded(
            (#[trigger] txns@[i])@,
        ) == Some(wires@[i]@) by {
            assert(decode(submitted[i]) == Some(submitted.filter_map(decode)[i]));
            assert(contents(wires@)[i] == wires@[i]@);
        }
    }
}

proof fn lemma_contents(strings: Seq<Vec<u8>>)
    ensures
        contents(strings).len() == strings.len(),
        forall|i: int| 0 <= i < strings.len() ==> #[trigger] contents(strings)[i] == strings[i]@,
{
}

/// Two payloads of one request hold the same bytes, so every attempt sends what the
/// first one sent.
pub proof fn law_payload_goes_by_the_request(request: Request, one: Payload, other: Payload)
    requires
        is_payload(request, one),
        is_payload(request, other),
    ensures
        match (one, other) {
            (Payload::Transaction(a), Payload::Transaction(b)) => a@ == b@,
            (Payload::Batch(a), Payload::Batch(b)) => a@.len() == b@.len() && forall|i: int|
                0 <= i < a@.len() ==> (#[trigger] a@[i])@ == b@[i]@,
            _ => false,
        },
{
    if let (Payload::Batch(a), Payload::Batch(b)) = (one, other) {
        lemma_contents(a@);
        lemma_contents(b@);
        assert forall|i: int| 0 <= i < a@.len() implies (#[trigger] a@[i])@ == b@[i]@ by {
            assert(contents(a@)[i] == contents(b@)[i]);
        }
    }
}

/// An attempt that succeeds is answered at once with status 200: success, no error,
/// the number of the attempt, and the milliseconds since the request arrived, to 64
/// bits.
pub proof fn law_success_is_answered_at_once(
    policy: RetryPolicy,
    request: Request,
    attempt: u32,
    elapsed_ms: u128,
    moved: (Submission, SubmitAction),
)
    requires
        is_step(
            policy,
            request,
            (Submission::Sending { attempt }),
            (SubmitEvent::Sent { outcome: Ok(()), elapsed_ms }),
            moved,
        ),
    ensures
        moved.0 is Answered,
        moved.1 matches SubmitAction::Answer(reply) && {
            &&& reply.status_code == 200
            &&& reply.body.status@ == "success"@
            &&& reply.body.error is None
            &&& reply.body.attempts == attempt
            &&& elapsed_ms <= u64::MAX ==> reply.body.processing_time_ms == elapsed_ms
            &&& reply.body.processing_time_ms == elapsed_ms as int % 0x1_0000_0000_0000_0000
        },
{
}

/// An attempt that fails is waited after and repeated while the policy allows it. The
/// last one is answered with status 500: its own error, the number of attempts, and
/// the milliseconds since the request arrived, to 64 bits.
pub proof fn law_failure_is_repeated_or_answered(
    policy: RetryPolicy,
    request: Request,
    attempt: u32,
    error: String,
    elapsed_ms: u128,
    moved: (Submission, SubmitAction),
)
    requires
        is_step(
            policy,
            request,
            (Submission::Sending { attempt }),
            (SubmitEvent::Sent { outcome: Err(error), elapsed_ms }),
            moved,
        ),
    ensures
        attempt < policy.max_retries ==> moved.0 == (Submission::Waiting { attempt }) && moved.1
            == (SubmitAction::Wait { ms: policy.retry_delay_ms }),
        attempt >= policy.max_retries ==> moved.0 is Answered && (
        moved.1 matches SubmitAction::Answer(reply) && {
            &&& reply.status_code == 500
            &&& reply.body.status@ == "error"@
            &&& reply.body.error == Some(error)
            &&& reply.body.attempts == attempt
            &&& elapsed_ms <= u64::MAX ==> reply.body.processing_time_ms == elapsed_ms
            &&& reply.body.processing_time_ms == elapsed_ms as int % 0x1_0000_0000_0000_0000
        }),
{
}

/// After a wait the next attempt sends what was submitted.
pub proof fn law_wait_is_followed_by_the_next_attempt(
    policy: RetryPolicy,
    request: Request,
    attempt: u32,
    moved: (Submission, SubmitAction),
)
    requires
        attempt < policy.max_retries,
        is_step(
            policy,
            request,
            (Submission::Waiting { attempt }),
            SubmitEvent::Waited,
            moved,
        ),
    ensures
        moved.0 matches Submission::Sending { attempt: next } && next == attempt + 1,
        moved.1 matches SubmitAction::Send(payload) && is_payload(request, payload),
{
}

/// A failure is answered with status 500, the error of the last attempt where there
/// was one, the number of attempts, and the milliseconds since the request arrived.
pub proof fn law_failure_tells_what_it_is(
    reply: Reply,
    error: Option<String>,
    attempts: u32,
    elapsed_ms: u128,
)
    requires
        is_failure(reply, error, attempts, elapsed_ms),
    ensures
        reply.status_code == 500,
        reply.body.status@ == "error"@,
        reply.body.error == error,
        reply.body.attempts == attempts,
        reply.body.processing_time_ms == elapsed_ms as int % 0x1_0000_0000_0000_0000,
{
}

/// A submission can be in progress only at an attempt that its policy allows, and
/// waits only where another one is left.
pub proof fn law_attempts_stay_within_the_policy(policy: RetryPolicy, attempt: u32)
    ensures
        Submission::Answered.within(policy),
        (Submission::Sending { attempt }).within(policy) <==> 1 <= attempt <= policy.max_retries,
        (Submission::Waiting { attempt }).within(policy) <==> 1 <= attempt < policy.max_retries,
{
}

} // verus!
