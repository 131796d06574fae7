use light_relay::canonical::{ClientState, ConsensusState, Duration, Fraction, MerkleRoot, Timestamp};
use light_relay::decode::{decode_any, decode_client_state, decode_consensus_state, decode_tm_header};
use light_relay::relay::{
    Action, Event, HaltReason, ReceiptStatus, Relay, RelayConfig, Stage,
};
use light_relay::source::{
    SourceBlockId, SourceCommit, SourceCommitSig, SourceHeader, SourcePartSetHeader,
    SourceSignedHeader, SourceTime, SourceValidator, SourceVersion,
};
use light_relay::trust::Phase;
use light_relay::types::{to_validator_set, ConversionError};

fn chain_block_id(seed: u8) -> SourceBlockId {
    SourceBlockId {
        hash: vec![seed; 32],
        part_set_header: SourcePartSetHeader { total: 1, hash: vec![seed; 32] },
    }
}

fn chain_header(height: u64) -> SourceSignedHeader {
    SourceSignedHeader {
        header: SourceHeader {
            version: SourceVersion { block: 11, app: 0 },
            chain_id: "relay-test".to_string(),
            height,
            time: SourceTime { seconds: 1_600_000_000 + height as i64, subsec_nanos: 7 },
            last_block_id: Some(chain_block_id(1)),
            last_commit_hash: Some(vec![2; 32]),
            data_hash: Some(vec![3; 32]),
            validators_hash: vec![4; 32],
            next_validators_hash: vec![height as u8; 32],
            consensus_hash: vec![6; 32],
            app_hash: vec![height as u8; 8],
            last_results_hash: Some(vec![8; 32]),
            evidence_hash: Some(vec![9; 32]),
            proposer_address: vec![10; 20],
        },
        commit: SourceCommit {
            height,
            round: 0,
            block_id: chain_block_id(20),
            signatures: vec![SourceCommitSig::Commit {
                validator_address: vec![1; 20],
                timestamp: SourceTime { seconds: 1_600_000_001 + height as i64, subsec_nanos: 0 },
                signature: Some(vec![height as u8; 64]),
            }],
        },
    }
}

fn chain_validators(height: u64) -> Vec<SourceValidator> {
    vec![SourceValidator {
        address: vec![1; 20],
        pub_key: vec![height as u8; 32],
        power: height,
        proposer_priority: Some(0),
    }]
}

fn header_event(height: u64) -> Event {
    Event::Header { signed_header: chain_header(height), validators: chain_validators(height) }
}

fn accepted() -> Event {
    Event::Receipt { status: ReceiptStatus::Success }
}

fn config(max_headers: u64, non_adjacent_test: bool) -> RelayConfig {
    RelayConfig {
        max_headers,
        non_adjacent_test,
        client_id: Some("07-tendermint-0".to_string()),
        start_height: Some(100),
    }
}

/// Runs the first cycle of a run that starts at height 100, with every
/// submission accepted, and returns the driver as the second cycle polls.
fn after_first_cycle(max_headers: u64, non_adjacent_test: bool) -> Relay {
    let relay = Relay::new(config(max_headers, non_adjacent_test));
    let (relay, action) = relay.step(Event::Start);
    assert_eq!(action, Action::FetchBlock { height: 100 });
    let (relay, action) = relay.step(Event::Block);
    assert_eq!(action, Action::FetchHeader { height: 100 });
    let (relay, action) = relay.step(header_event(100));
    assert_eq!(action, Action::RegisterClient { client_type: "07-tendermint".to_string() });
    let (relay, action) = relay.step(accepted());
    assert!(matches!(action, Action::CreateClient { height: 100, .. }));
    let (relay, action) = relay.step(accepted());
    assert_eq!(action, Action::FetchBlock { height: 101 });
    relay
}

fn update_of(action: Action) -> (String, light_relay::canonical::TmHeader, Vec<u8>) {
    match action {
        Action::UpdateClient { client_id, message, payload } => (client_id, message, payload),
        other => panic!("not an update: {:?}", other),
    }
}

#[test]
fn first_cycle_creates_the_client_once() {
    let relay = Relay::new(config(3, false));
    assert_eq!(relay.stage, Stage::Idle);
    assert_eq!(relay.phase, Phase::CreatePending);
    assert_eq!(relay.trust.trusted_height, 0);
    let mut creates = 0;
    let mut updates = 0;
    let mut relay = relay;
    for event in [Event::Start, Event::Block, header_event(100), accepted(), accepted()] {
        let (next, action) = relay.step(event);
        match action {
            Action::CreateClient { .. } => creates += 1,
            Action::UpdateClient { .. } => updates += 1,
            _ => {}
        }
        relay = next;
    }
    assert_eq!(creates, 1);
    assert_eq!(updates, 0);
    assert_eq!(relay.done, 1);
    assert_eq!(relay.trust.trusted_height, 100);
    assert_eq!(relay.trust.trusted_validator_set, None);
    assert_eq!(relay.phase, Phase::Updating);
}

#[test]
fn create_carries_both_states_in_envelopes() {
    let relay = Relay::new(config(3, false));
    let (relay, _) = relay.step(Event::Start);
    let (relay, _) = relay.step(Event::Block);
    let (relay, _) = relay.step(header_event(100));
    let (_, action) = relay.step(accepted());
    let period = Duration { seconds: 100_000_000_000, nanos: 0 };
    let expected_client = ClientState {
        chain_id: "relay-test".to_string(),
        trust_level: Fraction { numerator: 1, denominator: 3 },
        trusting_period: period,
        unbonding_period: period,
        max_clock_drift: period,
        frozen_height: 0,
        latest_height: 100,
        allow_update_after_expiry: true,
        allow_update_after_misbehaviour: true,
    };
    let expected_consensus = ConsensusState {
        root: MerkleRoot { hash: vec![100; 8] },
        timestamp: Timestamp { seconds: 1_600_000_100, nanos: 7 },
        next_validators_hash: vec![100; 32],
    };
    match action {
        Action::CreateClient {
            client_type,
            height,
            client_state,
            consensus_state,
            client_state_bytes,
            consensus_state_bytes,
        } => {
            assert_eq!(client_type, "07-tendermint");
            assert_eq!(height, 100);
            assert_eq!(client_state, expected_client);
            assert_eq!(consensus_state, expected_consensus);
            let (url, value) = decode_any(&client_state_bytes).unwrap();
            assert_eq!(url, "/tendermint.types.ClientState");
            assert_eq!(decode_client_state(&value), Some(expected_client));
            let (url, value) = decode_any(&consensus_state_bytes).unwrap();
            assert_eq!(url, "/tendermint.types.ConsensusState");
            assert_eq!(decode_consensus_state(&value), Some(expected_consensus));
        }
        other => panic!("not a creation: {:?}", other),
    }
}

#[test]
fn heights_in_order_update_adjacently() {
    let relay = after_first_cycle(3, false);
    assert_eq!(relay.trust.trusted_height, 100);

    let (relay, action) = relay.step(Event::Block);
    assert_eq!(action, Action::FetchHeader { height: 101 });
    let (relay, action) = relay.step(header_event(101));
    let (client_id, message, payload) = update_of(action);
    assert_eq!(client_id, "07-tendermint-0");
    assert_eq!(message.trusted_height, 100);
    assert_eq!(message.trusted_validators, None);
    assert_eq!(message.signed_header.header.height, 101);
    assert_eq!(message.validator_set, to_validator_set(&chain_validators(101)).unwrap());
    let (url, value) = decode_any(&payload).unwrap();
    assert_eq!(url, "/tendermint.types.TmHeader");
    assert_eq!(decode_tm_header(&value), Some(message));
    let (relay, action) = relay.step(accepted());
    assert_eq!(action, Action::FetchBlock { height: 102 });
    assert_eq!(relay.trust.trusted_height, 101);
    assert_eq!(
        relay.trust.trusted_validator_set,
        Some(to_validator_set(&chain_validators(101)).unwrap())
    );

    let (relay, _) = relay.step(Event::Block);
    let (relay, action) = relay.step(header_event(102));
    let (_, message, _) = update_of(action);
    assert_eq!(message.trusted_height, 101);
    assert_eq!(message.trusted_validators, None);
    assert_eq!(message.signed_header.header.height, 102);
    let (relay, action) = relay.step(accepted());
    assert_eq!(action, Action::Finish);
    assert_eq!(relay.stage, Stage::Finished);
    assert_eq!(relay.trust.trusted_height, 102);
    assert_eq!(relay.done, 3);
    assert!(relay.is_over());
}

#[test]
fn skipped_height_leads_to_a_non_adjacent_update() {
    let relay = after_first_cycle(4, true);
    assert_eq!(relay.phase, Phase::SkipOnce);

    // second cycle: nothing is handed in
    let (relay, action) = relay.step(Event::Block);
    assert_eq!(action, Action::FetchHeader { height: 101 });
    let (relay, action) = relay.step(header_event(101));
    assert_eq!(action, Action::FetchBlock { height: 102 });
    assert_eq!(relay.trust.trusted_height, 100);
    assert_eq!(relay.done, 2);
    assert_eq!(relay.phase, Phase::Updating);

    // third cycle: from 100 straight to 102, with the validators of 101
    let (relay, action) = relay.step(Event::Block);
    assert_eq!(action, Action::FetchHeader { height: 102 });
    let (relay, action) = relay.step(header_event(102));
    assert_eq!(action, Action::FetchValidators { height: 101 });
    let (relay, action) = relay.step(Event::Validators { validators: chain_validators(101) });
    let (client_id, message, payload) = update_of(action);
    assert_eq!(client_id, "07-tendermint-0");
    assert_eq!(message.trusted_height, 100);
    assert_eq!(message.signed_header.header.height, 102);
    assert!(message.signed_header.header.height - message.trusted_height > 1);
    assert_eq!(
        message.trusted_validators,
        Some(to_validator_set(&chain_validators(101)).unwrap())
    );
    assert_eq!(message.validator_set, to_validator_set(&chain_validators(102)).unwrap());
    let (_, value) = decode_any(&payload).unwrap();
    assert_eq!(decode_tm_header(&value), Some(message));
    let (relay, action) = relay.step(accepted());
    assert_eq!(action, Action::FetchBlock { height: 103 });
    assert_eq!(relay.trust.trusted_height, 102);

    // fourth cycle: adjacent again
    let (relay, _) = relay.step(Event::Block);
    let (relay, action) = relay.step(header_event(103));
    let (_, message, _) = update_of(action);
    assert_eq!(message.trusted_height, 102);
    assert_eq!(message.trusted_validators, None);
    let (_, action) = relay.step(accepted());
    assert_eq!(action, Action::Finish);
}

#[test]
fn exhausted_retries_halt_the_run() {
    let mut relay = after_first_cycle(3, false);
    let mut sleeps = 0;
    let mut fetches = 1;
    loop {
        let (next, action) = relay.step(Event::Failed);
        relay = next;
        match action {
            Action::Sleep { seconds } => {
                assert_eq!(seconds, 2);
                sleeps += 1;
                let (next, action) = relay.step(Event::Elapsed);
                assert_eq!(action, Action::FetchBlock { height: 101 });
                fetches += 1;
                relay = next;
            }
            Action::Halt { reason } => {
                assert_eq!(reason, HaltReason::RetriesExhausted);
                break;
            }
            other => panic!("unexpected action: {:?}", other),
        }
    }
    assert_eq!(fetches, 10);
    assert_eq!(sleeps, 9);
    assert_eq!(relay.stage, Stage::Halted { reason: HaltReason::RetriesExhausted });
    assert_eq!(relay.trust.trusted_height, 100);
    assert_eq!(relay.done, 1);
    assert!(relay.is_over());
    // nothing moves a halted run
    for event in [Event::Block, header_event(101), accepted(), Event::Start, Event::Elapsed] {
        let (next, action) = relay.step(event);
        assert_eq!(action, Action::Halt { reason: HaltReason::RetriesExhausted });
        relay = next;
    }
    assert_eq!(relay.trust.trusted_height, 100);
    assert_eq!(relay.source.target, 101);
}

#[test]
fn a_block_found_after_failures_is_relayed() {
    let relay = after_first_cycle(3, false);
    let (relay, action) = relay.step(Event::Failed);
    assert_eq!(action, Action::Sleep { seconds: 2 });
    let (relay, action) = relay.step(Event::Elapsed);
    assert_eq!(action, Action::FetchBlock { height: 101 });
    assert_eq!(relay.source.attempts, 2);
    let (relay, action) = relay.step(Event::Block);
    assert_eq!(action, Action::FetchHeader { height: 101 });
    let (_, action) = relay.step(header_event(101));
    assert!(matches!(action, Action::UpdateClient { .. }));
}

#[test]
fn start_height_defaults_to_the_head() {
    let relay = Relay::new(RelayConfig {
        max_headers: 1,
        non_adjacent_test: false,
        client_id: None,
        start_height: None,
    });
    let (relay, action) = relay.step(Event::Start);
    assert_eq!(action, Action::QueryHead);
    let (relay, action) = relay.step(Event::Head { height: 555 });
    assert_eq!(action, Action::FetchBlock { height: 555 });
    assert_eq!(relay.source.target, 555);
    assert_eq!(relay.source.attempts, 1);
}

#[test]
fn unknown_head_halts_the_run() {
    let relay = Relay::new(RelayConfig {
        max_headers: 1,
        non_adjacent_test: false,
        client_id: None,
        start_height: None,
    });
    let (relay, _) = relay.step(Event::Start);
    let (_, action) = relay.step(Event::Failed);
    assert_eq!(action, Action::Halt { reason: HaltReason::HeadUnavailable });
}

#[test]
fn no_headers_means_no_work() {
    let relay = Relay::new(config(0, false));
    let (relay, action) = relay.step(Event::Start);
    assert_eq!(action, Action::Finish);
    assert_eq!(relay.stage, Stage::Finished);
    let (_, action) = relay.step(Event::Block);
    assert_eq!(action, Action::Finish);
}

#[test]
fn one_header_ends_after_the_creation() {
    let relay = Relay::new(config(1, true));
    let (relay, _) = relay.step(Event::Start);
    let (relay, _) = relay.step(Event::Block);
    let (relay, _) = relay.step(header_event(100));
    let (relay, _) = relay.step(accepted());
    let (relay, action) = relay.step(accepted());
    assert_eq!(action, Action::Finish);
    assert_eq!(relay.trust.trusted_height, 100);
}

#[test]
fn client_id_is_resolved_once_from_the_youngest_client() {
    let relay = Relay::new(RelayConfig {
        max_headers: 3,
        non_adjacent_test: false,
        client_id: None,
        start_height: Some(100),
    });
    let (relay, _) = relay.step(Event::Start);
    let (relay, _) = relay.step(Event::Block);
    let (relay, _) = relay.step(header_event(100));
    let (relay, _) = relay.step(accepted());
    let (relay, _) = relay.step(accepted());
    let (relay, _) = relay.step(Event::Block);
    let (relay, action) = relay.step(header_event(101));
    assert_eq!(action, Action::FetchClientIds);
    let ids = vec!["07-tendermint-0".to_string(), "07-tendermint-1".to_string()];
    let (relay, action) = relay.step(Event::ClientIds { ids });
    let (client_id, message, _) = update_of(action);
    assert_eq!(client_id, "07-tendermint-1");
    assert_eq!(message.trusted_height, 100);
    assert_eq!(relay.trust.client_id, Some("07-tendermint-1".to_string()));
    let (relay, _) = relay.step(accepted());
    let (relay, _) = relay.step(Event::Block);
    let (_, action) = relay.step(header_event(102));
    let (client_id, _, _) = update_of(action);
    assert_eq!(client_id, "07-tendermint-1");
}

#[test]
fn no_registered_client_halts_the_run() {
    let relay = Relay::new(RelayConfig {
        max_headers: 3,
        non_adjacent_test: false,
        client_id: None,
        start_height: Some(100),
    });
    let (relay, _) = relay.step(Event::Start);
    let (relay, _) = relay.step(Event::Block);
    let (relay, _) = relay.step(header_event(100));
    let (relay, _) = relay.step(accepted());
    let (relay, _) = relay.step(accepted());
    let (relay, _) = relay.step(Event::Block);
    let (relay, _) = relay.step(header_event(101));
    let (relay, action) = relay.step(Event::ClientIds { ids: vec![] });
    assert_eq!(action, Action::Halt { reason: HaltReason::NoClient });
    assert_eq!(relay.trust.trusted_height, 100);
}

#[test]
fn unreadable_client_ids_halt_the_run() {
    let relay = Relay::new(RelayConfig {
        max_headers: 3,
        non_adjacent_test: false,
        client_id: None,
        start_height: Some(100),
    });
    let (relay, _) = relay.step(Event::Start);
    let (relay, _) = relay.step(Event::Block);
    let (relay, _) = relay.step(header_event(100));
    let (relay, _) = relay.step(accepted());
    let (relay, _) = relay.step(accepted());
    let (relay, _) = relay.step(Event::Block);
    let (relay, _) = relay.step(header_event(101));
    let (_, action) = relay.step(Event::Failed);
    assert_eq!(action, Action::Halt { reason: HaltReason::ClientIdsUnavailable });
}

#[test]
fn already_registered_client_type_is_no_obstacle() {
    let relay = Relay::new(config(3, false));
    let (relay, _) = relay.step(Event::Start);
    let (relay, _) = relay.step(Event::Block);
    let (relay, _) = relay.step(header_event(100));
    let (_, action) = relay.step(Event::Receipt { status: ReceiptStatus::Reverted });
    assert!(matches!(action, Action::CreateClient { height: 100, .. }));
}

#[test]
fn rejected_creation_does_not_advance_trust() {
    let relay = Relay::new(config(3, false));
    let (relay, _) = relay.step(Event::Start);
    let (relay, _) = relay.step(Event::Block);
    let (relay, _) = relay.step(header_event(100));
    let (relay, _) = relay.step(accepted());
    let (relay, action) = relay.step(Event::Receipt { status: ReceiptStatus::Reverted });
    assert_eq!(action, Action::FetchBlock { height: 101 });
    assert_eq!(relay.trust.trusted_height, 0);
    assert_eq!(relay.done, 1);
}

#[test]
fn rejected_update_does_not_advance_trust() {
    let relay = after_first_cycle(3, false);
    let (relay, _) = relay.step(Event::Block);
    let (relay, _) = relay.step(header_event(101));
    let (relay, action) = relay.step(Event::Receipt { status: ReceiptStatus::Reverted });
    assert_eq!(action, Action::FetchBlock { height: 102 });
    assert_eq!(relay.trust.trusted_height, 100);
    assert_eq!(relay.trust.trusted_validator_set, None);
    // the next update spans the gap and names the validators after the trusted height
    let (relay, _) = relay.step(Event::Block);
    let (relay, action) = relay.step(header_event(102));
    assert_eq!(action, Action::FetchValidators { height: 101 });
    let (_, action) = relay.step(Event::Validators { validators: chain_validators(101) });
    let (_, message, _) = update_of(action);
    assert_eq!(message.trusted_height, 100);
    assert!(message.trusted_validators.is_some());
}

#[test]
fn receipt_without_status_halts_the_run() {
    let relay = Relay::new(config(3, false));
    let (relay, _) = relay.step(Event::Start);
    let (relay, _) = relay.step(Event::Block);
    let (relay, _) = relay.step(header_event(100));
    let (halted, action) = relay.step(Event::Receipt { status: ReceiptStatus::Unknown });
    assert_eq!(action, Action::Halt { reason: HaltReason::UnknownOutcome });
    assert_eq!(halted.trust.trusted_height, 0);

    let relay = after_first_cycle(3, false);
    let (relay, _) = relay.step(Event::Block);
    let (relay, _) = relay.step(header_event(101));
    let (halted, action) = relay.step(Event::Receipt { status: ReceiptStatus::Unknown });
    assert_eq!(action, Action::Halt { reason: HaltReason::UnknownOutcome });
    assert_eq!(halted.trust.trusted_height, 100);
}

#[test]
fn failed_submission_halts_the_run() {
    let relay = after_first_cycle(3, false);
    let (relay, _) = relay.step(Event::Block);
    let (relay, _) = relay.step(header_event(101));
    let (halted, action) = relay.step(Event::Failed);
    assert_eq!(action, Action::Halt { reason: HaltReason::SubmissionFailed });
    assert_eq!(halted.trust.trusted_height, 100);
}

#[test]
fn header_without_mandatory_field_halts_the_run() {
    let relay = Relay::new(config(3, false));
    let (relay, _) = relay.step(Event::Start);
    let (relay, _) = relay.step(Event::Block);
    let mut signed_header = chain_header(100);
    signed_header.header.data_hash = None;
    let (halted, action) =
        relay.step(Event::Header { signed_header, validators: chain_validators(100) });
    assert_eq!(
        action,
        Action::Halt { reason: HaltReason::Conversion(ConversionError::MissingDataHash) }
    );
    assert_eq!(halted.trust.trusted_height, 0);
}

#[test]
fn validators_beyond_the_limit_halt_the_run() {
    let relay = Relay::new(config(3, false));
    let (relay, _) = relay.step(Event::Start);
    let (relay, _) = relay.step(Event::Block);
    let mut validators = chain_validators(100);
    validators.push(SourceValidator {
        address: vec![2; 20],
        pub_key: vec![2; 32],
        power: u64::MAX,
        proposer_priority: None,
    });
    let (_, action) = relay.step(Event::Header { signed_header: chain_header(100), validators });
    assert_eq!(
        action,
        Action::Halt { reason: HaltReason::Conversion(ConversionError::VotingPowerOverflow) }
    );
}

#[test]
fn header_of_another_height_halts_the_run() {
    let relay = Relay::new(config(3, false));
    let (relay, _) = relay.step(Event::Start);
    let (relay, _) = relay.step(Event::Block);
    let (_, action) = relay.step(header_event(105));
    assert_eq!(action, Action::Halt { reason: HaltReason::HeightMismatch });

    let relay = Relay::new(config(3, false));
    let (relay, _) = relay.step(Event::Start);
    let (relay, _) = relay.step(Event::Block);
    let mut signed_header = chain_header(100);
    signed_header.commit.height = 99;
    let (_, action) =
        relay.step(Event::Header { signed_header, validators: chain_validators(100) });
    assert_eq!(action, Action::Halt { reason: HaltReason::HeightMismatch });
}

#[test]
fn unavailable_header_halts_the_run() {
    let relay = Relay::new(config(3, false));
    let (relay, _) = relay.step(Event::Start);
    let (relay, _) = relay.step(Event::Block);
    let (_, action) = relay.step(Event::Failed);
    assert_eq!(action, Action::Halt { reason: HaltReason::HeaderUnavailable });
}

#[test]
fn unavailable_trusted_validators_halt_the_run() {
    let relay = after_first_cycle(4, true);
    let (relay, _) = relay.step(Event::Block);
    let (relay, _) = relay.step(header_event(101));
    let (relay, _) = relay.step(Event::Block);
    let (relay, _) = relay.step(header_event(102));
    let (halted, action) = relay.step(Event::Failed);
    assert_eq!(action, Action::Halt { reason: HaltReason::ValidatorsUnavailable });
    assert_eq!(halted.trust.trusted_height, 100);
}

#[test]
fn event_out_of_turn_halts_the_run() {
    let relay = Relay::new(config(3, false));
    let (_, action) = relay.step(Event::Block);
    assert_eq!(action, Action::Halt { reason: HaltReason::UnexpectedEvent });

    let relay = Relay::new(config(3, false));
    let (relay, _) = relay.step(Event::Start);
    let (_, action) = relay.step(accepted());
    assert_eq!(action, Action::Halt { reason: HaltReason::UnexpectedEvent });
}

#[test]
fn last_height_cannot_be_passed() {
    let relay = Relay::new(RelayConfig {
        max_headers: 2,
        non_adjacent_test: false,
        client_id: None,
        start_height: Some(u64::MAX),
    });
    let (relay, _) = relay.step(Event::Start);
    let (relay, _) = relay.step(Event::Block);
    let (relay, _) = relay.step(header_event(u64::MAX));
    let (relay, _) = relay.step(accepted());
    let (relay, action) = relay.step(accepted());
    assert_eq!(action, Action::Halt { reason: HaltReason::HeightOverflow });
    assert_eq!(relay.trust.trusted_height, u64::MAX);
}

#[test]
fn phases_follow_the_cycles() {
    assert_eq!(Phase::CreatePending.next(false), Phase::Updating);
    assert_eq!(Phase::CreatePending.next(true), Phase::SkipOnce);
    assert_eq!(Phase::SkipOnce.next(true), Phase::Updating);
    assert_eq!(Phase::SkipOnce.next(false), Phase::Updating);
    assert_eq!(Phase::Updating.next(true), Phase::Updating);
    assert_eq!(Phase::Updating.next(false), Phase::Updating);
}
