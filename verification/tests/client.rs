use tpu_sender::cluster::{Protocol, Pubkey, RpcContactInfo, SocketAddr};
use tpu_sender::engine::backend_tpu_client::{
    BackendTpuClient, SendFailure, TpuSenderError, UpcomingAction, UpcomingLeaders,
    NO_SENDS_ATTEMPTED,
};
use tpu_sender::engine::leader_tpu_service::LeaderTpuService;
use tpu_sender::engine::recent_leaders_slot::TpuClientConfig;
use tpu_sender::transaction::{CompiledInstruction, Message, MessageHeader, Transaction};

fn v4(port: u16) -> SocketAddr {
    SocketAddr::V4 { ip: 0x0a00_0001, port }
}

/// A service whose leader changes every four slots, with one socket each.
fn service() -> LeaderTpuService {
    let mut leaders = vec![];
    let mut nodes = vec![];
    for tag in 0..50u8 {
        leaders.extend([Pubkey { bytes: [tag; 32] }; 4]);
        let pubkey = solana_sdk::pubkey::Pubkey::new_from_array([tag; 32]).to_string();
        nodes.push(RpcContactInfo { pubkey, tpu: Some(v4(tag as u16)), tpu_quic: None });
    }
    LeaderTpuService::new(400, 432_000, leaders, nodes, Protocol::UDP)
}

fn targets(fanout_slots: u64) -> Vec<SocketAddr> {
    let client = BackendTpuClient::new_with_connection_cache(TpuClientConfig { fanout_slots });
    assert!(client.can_send(&service()));
    client.send_targets(&service())
}

#[test]
fn the_fanout_is_moved_into_its_bounds() {
    assert_eq!(targets(0), vec![v4(0)]);
    assert_eq!(targets(1), vec![v4(0)]);
    assert_eq!(targets(8), vec![v4(0), v4(1)]);
    assert_eq!(targets(100).len(), 25);
    assert_eq!(targets(101).len(), 25);
    assert_eq!(targets(u64::MAX).len(), 25);
}

#[test]
fn sends_past_the_last_slot_number_are_told_apart() {
    let client = BackendTpuClient::new_with_connection_cache(TpuClientConfig::default());
    let service = LeaderTpuService::new(u64::MAX - 63, 1, vec![], vec![], Protocol::UDP);
    assert!(!client.can_send(&service));
    let service = LeaderTpuService::new(u64::MAX - 64, 1, vec![], vec![], Protocol::UDP);
    assert!(client.can_send(&service));
}

#[test]
fn every_target_gets_the_transaction() {
    let client = BackendTpuClient::new_with_connection_cache(TpuClientConfig { fanout_slots: 8 });
    let wire = vec![1, 2, 3];
    let service = service();
    let sends = client.try_send_wire_transaction(&service, &wire);
    let sends = sends.deliveries();
    assert_eq!(sends.len(), 2);
    assert_eq!((sends[0].addr, sends[0].payload), (v4(0), &wire));
    assert_eq!((sends[1].addr, sends[1].payload), (v4(1), &wire));
}

#[test]
fn every_target_gets_the_whole_batch() {
    let client = BackendTpuClient::new_with_connection_cache(TpuClientConfig { fanout_slots: 8 });
    let batch = vec![vec![1], vec![2, 3]];
    let service = service();
    let sends = client.try_send_wire_transaction_batch(&service, &batch);
    let sends = sends.deliveries();
    assert_eq!(sends.len(), 2);
    assert_eq!((sends[0].addr, sends[0].payload), (v4(0), &batch));
    assert_eq!((sends[1].addr, sends[1].payload), (v4(1), &batch));
}

/// The address and the payload that a line asks to send to.
fn asked(action: UpcomingAction<u8>) -> (SocketAddr, Vec<u8>) {
    match action {
        UpcomingAction::Send(send) => (send.addr, send.payload.clone()),
        other => panic!("{:?}", other),
    }
}

#[test]
fn the_line_holds_the_targets_and_the_transaction() {
    let client = BackendTpuClient::new_with_connection_cache(TpuClientConfig { fanout_slots: 8 });
    let wire = vec![4, 5];
    let (mut line, action) =
        client.send_transaction_to_upcoming_leaders::<u8>(&service(), &wire);
    assert_eq!(asked(action), (v4(0), vec![4, 5]));
    assert_eq!(asked(line.step::<u8>(Ok(()))), (v4(1), vec![4, 5]));
    assert!(matches!(line.step::<u8>(Ok(())), UpcomingAction::Done(Ok(()))));
}

/// Settles the sends of a transaction by the results of the single ones.
fn settled(service: &LeaderTpuService, results: Vec<Result<(), u8>>) -> Result<(), SendFailure<u8>> {
    let client = BackendTpuClient::new_with_connection_cache(TpuClientConfig { fanout_slots: 12 });
    let wire = vec![1];
    let sends = client.try_send_wire_transaction(service, &wire);
    assert_eq!(sends.deliveries().len(), results.len());
    sends.settle(results)
}

#[test]
fn one_successful_send_is_enough() {
    let service = service();
    assert!(settled(&service, vec![Err(1), Ok(()), Err(2)]).is_ok());
    assert!(settled(&service, vec![Ok(()), Err(1), Err(2)]).is_ok());
    assert!(settled(&service, vec![Ok(()), Ok(()), Ok(())]).is_ok());
}

#[test]
fn the_last_error_is_returned_if_all_sends_fail() {
    assert!(matches!(
        settled(&service(), vec![Err(1), Err(2), Err(3)]),
        Err(SendFailure::Transport(3))
    ));
}

#[test]
fn nobody_to_send_to_is_a_failure() {
    let service = LeaderTpuService::new(400, 432_000, vec![], vec![], Protocol::UDP);
    assert!(matches!(settled(&service, vec![]), Err(SendFailure::NoSendsAttempted)));
    assert_eq!(NO_SENDS_ATTEMPTED, "No sends attempted");
}

#[test]
fn a_batch_is_settled_like_a_transaction() {
    let client = BackendTpuClient::new_with_connection_cache(TpuClientConfig { fanout_slots: 8 });
    let batch = vec![vec![1], vec![2, 3]];
    let service = service();
    let sends = client.try_send_wire_transaction_batch(&service, &batch);
    assert!(sends.settle::<u8>(vec![Err(1), Ok(())]).is_ok());
    assert!(matches!(sends.settle::<u8>(vec![Err(1), Err(2)]), Err(SendFailure::Transport(2))));
}

#[test]
fn upcoming_leaders_are_sent_to_in_order() {
    let wire = vec![9];
    let (mut line, action) = UpcomingLeaders::start::<u8>(vec![v4(1), v4(2)], &wire);
    assert_eq!(asked(action), (v4(1), vec![9]));
    assert_eq!(asked(line.step::<u8>(Ok(()))), (v4(2), vec![9]));
    let action = line.step::<u8>(Ok(()));
    assert!(matches!(action, UpcomingAction::Done(Ok(()))));
}

#[test]
fn the_first_failure_ends_the_line() {
    let wire = vec![9];
    let (mut line, _) = UpcomingLeaders::start::<u8>(vec![v4(1), v4(2), v4(3)], &wire);
    line.step::<u8>(Ok(()));
    assert!(matches!(line.step::<u8>(Err(7)), UpcomingAction::Done(Err(7))));
}

#[test]
fn an_empty_line_succeeds() {
    let wire = vec![9];
    let (_, action) = UpcomingLeaders::start::<u8>(vec![], &wire);
    assert!(matches!(action, UpcomingAction::Done(Ok(()))));
}

#[test]
fn errors_are_shown_with_their_kind() {
    let text = || "down".to_string();
    assert_eq!(TpuSenderError::PubsubError(text()).message(), "Pubsub error: down");
    assert_eq!(TpuSenderError::RpcError(text()).message(), "RPC error: down");
    assert_eq!(TpuSenderError::IoError(text()).message(), "IO error: down");
    assert_eq!(TpuSenderError::SignerError(text()).message(), "Signer error: down");
    assert_eq!(TpuSenderError::Custom(text()).message(), "Custom error: down");
}

fn transaction() -> Transaction {
    Transaction {
        signatures: vec![[9; 64]],
        message: Message {
            header: MessageHeader {
                num_required_signatures: 1,
                num_readonly_signed_accounts: 2,
                num_readonly_unsigned_accounts: 3,
            },
            account_keys: vec![Pubkey { bytes: [4; 32] }, Pubkey { bytes: [5; 32] }],
            recent_blockhash: [6; 32],
            instructions: vec![CompiledInstruction {
                program_id_index: 7,
                accounts: vec![0, 1],
                data: vec![8; 130],
            }],
        },
    }
}

#[test]
fn a_transaction_is_written_as_it_travels() {
    assert!(transaction().can_serialize());
    let mut expected = vec![1];
    expected.extend([9; 64]);
    expected.extend([1, 2, 3, 2]);
    expected.extend([4; 32]);
    expected.extend([5; 32]);
    expected.extend([6; 32]);
    expected.extend([1, 7, 2, 0, 1, 0x82, 0x01]);
    expected.extend([8; 130]);
    assert_eq!(transaction().serialize(), expected);
}

#[test]
fn a_written_transaction_can_be_read_back() {
    let sdk: solana_sdk::transaction::Transaction =
        bincode::deserialize(&transaction().serialize()).unwrap();
    assert_eq!(sdk.signatures.len(), 1);
    assert_eq!(sdk.signatures[0].as_ref(), &[9; 64]);
    assert_eq!(sdk.message.header.num_readonly_unsigned_accounts, 3);
    assert_eq!(sdk.message.account_keys[1].to_bytes(), [5; 32]);
    assert_eq!(sdk.message.recent_blockhash.to_bytes(), [6; 32]);
    assert_eq!(sdk.message.instructions[0].data, vec![8; 130]);
}

#[test]
fn lists_longer_than_the_format_allows_are_told() {
    let mut long = transaction();
    long.message.instructions[0].data = vec![0; 65_535];
    assert!(long.can_serialize());
    assert_eq!(long.serialize().len(), 64 + 1 + 3 + 1 + 64 + 32 + 1 + 1 + 3 + 3 + 65_535);
    long.message.instructions[0].data = vec![0; 65_536];
    assert!(!long.can_serialize());
    let mut long = transaction();
    long.message.instructions[0].accounts = vec![0; 65_536];
    assert!(!long.can_serialize());
    let mut long = transaction();
    long.signatures = vec![[0; 64]; 65_536];
    assert!(!long.can_serialize());
    let mut long = transaction();
    long.message.account_keys = vec![Pubkey { bytes: [0; 32] }; 65_536];
    assert!(!long.can_serialize());
}
