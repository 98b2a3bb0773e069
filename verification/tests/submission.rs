use tpu_sender::server::{
    decoded_or_empty, keep_decoded, payload_of, wire_transaction, wire_transactions, Payload, Reply,
    Request, RetryPolicy, Submission, SubmitAction, SubmitEvent,
};

fn request() -> Request {
    Request::Transaction(b"aGVsbG8=".to_vec())
}

fn sends_hello(action: &SubmitAction) -> bool {
    matches!(action, SubmitAction::Send(Payload::Transaction(wire)) if wire == b"hello")
}

fn failed(elapsed_ms: u128, text: &str) -> SubmitEvent {
    SubmitEvent::Sent { outcome: Err(text.to_string()), elapsed_ms }
}

fn sent(elapsed_ms: u128) -> SubmitEvent {
    SubmitEvent::Sent { outcome: Ok(()), elapsed_ms }
}

fn answer(action: SubmitAction) -> Reply {
    match action {
        SubmitAction::Answer(reply) => reply,
        other => panic!("{:?}", other),
    }
}

#[test]
fn the_default_policy_is_documented() {
    let policy = RetryPolicy::default();
    assert_eq!(policy.max_retries, 10);
    assert_eq!(policy.retry_delay_ms, 100);
}

#[test]
fn a_first_success_is_answered_at_once() {
    let policy = RetryPolicy::default();
    let (submission, action) = Submission::start(policy, &request(), 0);
    assert!(sends_hello(&action));
    let (submission, action) = submission.step(policy, &request(), sent(12));
    assert_eq!(submission, Submission::Answered);
    let reply = answer(action);
    assert_eq!(reply.status_code, 200);
    assert_eq!(reply.body.status, "success");
    assert_eq!(reply.body.error, None);
    assert_eq!(reply.body.processing_time_ms, 12);
    assert_eq!(reply.body.attempts, 1);
}

#[test]
fn a_failed_attempt_is_repeated_after_a_wait() {
    let policy = RetryPolicy::default();
    let (submission, _) = Submission::start(policy, &request(), 0);
    let (submission, action) = submission.step(policy, &request(), failed(3, "down"));
    assert!(matches!(action, SubmitAction::Wait { ms: 100 }));
    let (submission, action) = submission.step(policy, &request(), SubmitEvent::Waited);
    assert!(sends_hello(&action));
    assert_eq!(submission, Submission::Sending { attempt: 2 });
    let (_, action) = submission.step(policy, &request(), sent(110));
    let reply = answer(action);
    assert_eq!(reply.status_code, 200);
    assert_eq!(reply.body.attempts, 2);
}

#[test]
fn ten_failures_are_answered_with_the_last_error() {
    let policy = RetryPolicy::default();
    let (mut submission, _) = Submission::start(policy, &request(), 0);
    for attempt in 1..10 {
        let (waiting, action) = submission.step(policy, &request(), failed(attempt, "early"));
        assert!(matches!(action, SubmitAction::Wait { ms: 100 }));
        let (next, action) = waiting.step(policy, &request(), SubmitEvent::Waited);
        assert!(sends_hello(&action));
        submission = next;
    }
    assert_eq!(submission, Submission::Sending { attempt: 10 });
    let (submission, action) = submission.step(policy, &request(), failed(999, "late"));
    assert_eq!(submission, Submission::Answered);
    let reply = answer(action);
    assert_eq!(reply.status_code, 500);
    assert_eq!(reply.body.status, "error");
    assert_eq!(reply.body.error, Some("late".to_string()));
    assert_eq!(reply.body.processing_time_ms, 999);
    assert_eq!(reply.body.attempts, 10);
}

#[test]
fn a_batch_is_sent_whole_at_every_attempt() {
    let policy = RetryPolicy { max_retries: 2, retry_delay_ms: 1 };
    let request = Request::Batch(vec![b"YQ==".to_vec(), b"?".to_vec(), b"Yg==".to_vec()]);
    let expected = vec![b"a".to_vec(), b"b".to_vec()];
    let (submission, action) = Submission::start(policy, &request, 0);
    assert!(matches!(action, SubmitAction::Send(Payload::Batch(wires)) if wires == expected));
    let (submission, action) = submission.step(policy, &request, failed(3, "down"));
    assert!(matches!(action, SubmitAction::Wait { ms: 1 }));
    let (_, action) = submission.step(policy, &request, SubmitEvent::Waited);
    assert!(matches!(action, SubmitAction::Send(Payload::Batch(wires)) if wires == expected));
}

#[test]
fn a_request_that_is_no_base64_has_an_empty_payload() {
    let payload = payload_of(&Request::Transaction(b"!!!!".to_vec()));
    assert!(matches!(payload, Payload::Transaction(wire) if wire.is_empty()));
    let payload = payload_of(&Request::Batch(vec![b"!!!!".to_vec()]));
    assert!(matches!(payload, Payload::Batch(wires) if wires.is_empty()));
}

#[test]
fn a_policy_without_attempts_fails_at_once() {
    let policy = RetryPolicy { max_retries: 0, retry_delay_ms: 1 };
    let (submission, action) = Submission::start(policy, &request(), 5);
    assert_eq!(submission, Submission::Answered);
    let reply = answer(action);
    assert_eq!(reply.status_code, 500);
    assert_eq!(reply.body.error, None);
    assert_eq!(reply.body.attempts, 0);
    assert_eq!(reply.body.processing_time_ms, 5);
}

#[test]
fn the_time_shown_is_cut_to_its_field() {
    let policy = RetryPolicy::default();
    let (submission, _) = Submission::start(policy, &request(), 0);
    let (_, action) = submission.step(policy, &request(), sent(u64::MAX as u128 + 8));
    assert_eq!(answer(action).body.processing_time_ms, 7);
}

#[test]
fn a_submitted_transaction_is_decoded() {
    assert_eq!(wire_transaction(&b"aGVsbG8=".to_vec()), b"hello".to_vec());
    assert_eq!(wire_transaction(&b"AAEC/w==".to_vec()), vec![0, 1, 2, 255]);
    assert_eq!(wire_transaction(&vec![]), Vec::<u8>::new());
}

#[test]
fn what_is_no_base64_is_sent_empty() {
    assert_eq!(wire_transaction(&b"aGVsbG8".to_vec()), Vec::<u8>::new());
    assert_eq!(wire_transaction(&b"!!!!".to_vec()), Vec::<u8>::new());
    assert_eq!(wire_transaction(&b"-_-_".to_vec()), Vec::<u8>::new());
    assert_eq!(wire_transaction(&vec![0, 159]), Vec::<u8>::new());
}

#[test]
fn a_batch_leaves_out_what_is_no_base64() {
    let txns = vec![b"YQ==".to_vec(), b"?".to_vec(), vec![], b"Yg==".to_vec()];
    assert_eq!(wire_transactions(&txns), vec![b"a".to_vec(), vec![], b"b".to_vec()]);
    assert_eq!(wire_transactions(&vec![b"?".to_vec()]), Vec::<Vec<u8>>::new());
    assert_eq!(wire_transactions(&vec![]), Vec::<Vec<u8>>::new());
}

#[test]
fn decoded_transactions_are_kept() {
    assert_eq!(decoded_or_empty(Some(vec![1, 2])), vec![1, 2]);
    assert_eq!(decoded_or_empty(None), Vec::<u8>::new());
    let mut batch = vec![vec![1]];
    keep_decoded(&mut batch, None);
    keep_decoded(&mut batch, Some(vec![2]));
    assert_eq!(batch, vec![vec![1], vec![2]]);
}
