use proof_relay::{polymer_prover_id, request_validation, validate_proof, validate_returned};
use proof_relay::{Address, CallOutcome};
use proof_relay::{ErrorCode, EthAddress, EthEvent, ValidateEventCall, ValidateEventResult};
use proof_relay::{ValidateProof, ValidationLog};
use proof_relay::validator::dispatch;

fn accounts(verifier: Address) -> ValidateProof {
    ValidateProof {
        polymer_prover: verifier,
        cache_account: Address::new([1u8; 32]),
        authority: Address::new([2u8; 32]),
        internal: Address::new([3u8; 32]),
        instructions: Address::new([4u8; 32]),
    }
}

fn contract() -> [u8; 20] {
    [0xde, 0xad, 0xbe, 0xef, 0, 1, 2, 3, 4, 5, 6, 7, 8, 9, 0x0a, 0x0b, 0x0c, 0x0d, 0x0e, 0xff]
}

fn valid_payload() -> Vec<u8> {
    let mut bytes = vec![0u8];
    bytes.extend_from_slice(&[0x39, 0x30, 0, 0]);
    bytes.extend_from_slice(&contract());
    bytes.extend_from_slice(&[2, 0, 0, 0]);
    bytes.extend_from_slice(&[3, 0, 0, 0, 0xaa, 0xbb, 0xcc]);
    bytes.extend_from_slice(&[0, 0, 0, 0]);
    bytes.extend_from_slice(&[4, 0, 0, 0, 9, 8, 7, 6]);
    bytes
}

fn from_verifier(data: Vec<u8>) -> CallOutcome {
    CallOutcome::Payload { origin: polymer_prover_id(), data }
}

#[test]
fn request_targets_the_pinned_verifier() {
    let call = request_validation(&accounts(polymer_prover_id())).unwrap();
    assert_eq!(
        call,
        ValidateEventCall {
            program: polymer_prover_id(),
            cache_account: Address::new([1u8; 32]),
            authority: Address::new([2u8; 32]),
            internal: Address::new([3u8; 32]),
            instructions: Address::new([4u8; 32]),
        }
    );
    assert_eq!(
        request_validation(&accounts(Address::new([7u8; 32]))),
        Err(ErrorCode::ProgramIdMismatch)
    );
}

#[test]
fn valid_answer_is_logged_field_by_field() {
    let log = validate_proof(&accounts(polymer_prover_id()), from_verifier(valid_payload()));
    assert_eq!(
        log,
        Ok(ValidationLog::ProofValidated {
            chain_id: 12345,
            emitting_contract: "deadbeef000102030405060708090a0b0c0d0eff".to_string(),
            topics: vec![vec![0xaa, 0xbb, 0xcc], vec![]],
            unindexed_data: vec![9, 8, 7, 6],
        })
    );
}

#[test]
fn valid_answer_without_topics_or_data() {
    let mut bytes = vec![0u8, 0xff, 0xff, 0xff, 0xff];
    bytes.extend_from_slice(&[0u8; 20]);
    bytes.extend_from_slice(&[0, 0, 0, 0]);
    bytes.extend_from_slice(&[0, 0, 0, 0]);
    assert_eq!(
        ValidateEventResult::try_from_slice(&bytes),
        Ok(ValidateEventResult::Valid(
            u32::MAX,
            EthEvent {
                emitting_contract: EthAddress { bytes: [0u8; 20] },
                topics: vec![],
                unindexed_data: vec![],
            }
        ))
    );
}

#[test]
fn decoding_keeps_every_field() {
    assert_eq!(
        ValidateEventResult::try_from_slice(&valid_payload()),
        Ok(ValidateEventResult::Valid(
            12345,
            EthEvent {
                emitting_contract: EthAddress { bytes: contract() },
                topics: vec![vec![0xaa, 0xbb, 0xcc], vec![]],
                unindexed_data: vec![9, 8, 7, 6],
            }
        ))
    );
}

#[test]
fn long_fields_are_counted_in_little_endian() {
    let topic: Vec<u8> = (0..300u32).map(|i| (i % 251) as u8).collect();
    let data: Vec<u8> = (0..70000u32).map(|i| (i % 7) as u8).collect();
    let mut bytes = vec![0u8, 1, 2, 3, 4];
    bytes.extend_from_slice(&contract());
    bytes.extend_from_slice(&[1, 0, 0, 0]);
    bytes.extend_from_slice(&[0x2c, 0x01, 0, 0]);
    bytes.extend_from_slice(&topic);
    bytes.extend_from_slice(&[0x70, 0x11, 0x01, 0]);
    bytes.extend_from_slice(&data);
    assert_eq!(
        ValidateEventResult::try_from_slice(&bytes),
        Ok(ValidateEventResult::Valid(
            0x04030201,
            EthEvent {
                emitting_contract: EthAddress { bytes: contract() },
                topics: vec![topic],
                unindexed_data: data,
            }
        ))
    );
}

#[test]
fn rejections_are_logged_in_words() {
    let ctx = accounts(polymer_prover_id());
    assert_eq!(
        validate_proof(&ctx, from_verifier(vec![1])),
        Ok(ValidationLog::ProverError { description: "no proof is loaded".to_string() })
    );
    assert_eq!(
        validate_proof(&ctx, from_verifier(vec![2])),
        Ok(ValidationLog::ProverError { description: "proof is invalid".to_string() })
    );
    assert_eq!(
        validate_proof(&ctx, from_verifier(vec![3])),
        Ok(ValidationLog::ProverError { description: "proven event is malformed".to_string() })
    );
    assert_eq!(ValidateEventResult::try_from_slice(&[1]), Ok(ValidateEventResult::ProofNotLoaded));
    assert_eq!(ValidateEventResult::try_from_slice(&[2]), Ok(ValidateEventResult::InvalidProof));
    assert_eq!(ValidateEventResult::try_from_slice(&[3]), Ok(ValidateEventResult::InvalidEvent));
}

#[test]
fn missing_payload_is_missing_return() {
    let outcome = validate_proof(&accounts(polymer_prover_id()), CallOutcome::NoPayload);
    assert_eq!(outcome, Err(ErrorCode::MissingReturn));
}

#[test]
fn payload_of_another_program_is_never_decoded() {
    let ctx = accounts(polymer_prover_id());
    let stranger = Address::new([5u8; 32]);
    let well_formed = CallOutcome::Payload { origin: stranger, data: valid_payload() };
    assert_eq!(validate_proof(&ctx, well_formed), Err(ErrorCode::WrongProgram));
    let garbage = CallOutcome::Payload { origin: stranger, data: vec![77, 1] };
    assert_eq!(validate_proof(&ctx, garbage), Err(ErrorCode::WrongProgram));
    let rejection = CallOutcome::Payload { origin: stranger, data: vec![2] };
    assert_eq!(validate_proof(&ctx, rejection), Err(ErrorCode::WrongProgram));
}

#[test]
fn aborted_call_fails_the_validation() {
    let outcome = validate_proof(&accounts(polymer_prover_id()), CallOutcome::Aborted);
    assert_eq!(outcome, Err(ErrorCode::NestedCallFailed));
}

#[test]
fn unpinned_verifier_is_refused_whatever_came_back() {
    let ctx = accounts(Address::new([8u8; 32]));
    assert_eq!(validate_proof(&ctx, CallOutcome::NoPayload), Err(ErrorCode::ProgramIdMismatch));
    assert_eq!(validate_proof(&ctx, CallOutcome::Aborted), Err(ErrorCode::ProgramIdMismatch));
    assert_eq!(
        validate_proof(&ctx, from_verifier(valid_payload())),
        Err(ErrorCode::ProgramIdMismatch)
    );
}

#[test]
fn malformed_payloads_are_decode_errors() {
    let ctx = accounts(polymer_prover_id());
    let malformed = Err(ErrorCode::MalformedPayload);
    assert_eq!(validate_proof(&ctx, from_verifier(vec![])), malformed);
    assert_eq!(validate_proof(&ctx, from_verifier(vec![4])), malformed);
    assert_eq!(validate_proof(&ctx, from_verifier(vec![255])), malformed);
    assert_eq!(validate_proof(&ctx, from_verifier(vec![1, 0])), malformed);
    assert_eq!(validate_proof(&ctx, from_verifier(vec![0])), malformed);
    let whole = valid_payload();
    for cut in 0..whole.len() {
        assert_eq!(
            ValidateEventResult::try_from_slice(&whole[..cut]),
            Err(ErrorCode::MalformedPayload),
            "cut at {}",
            cut
        );
    }
    let mut longer = whole.clone();
    longer.push(0);
    assert_eq!(validate_proof(&ctx, from_verifier(longer)), malformed);
}

#[test]
fn counts_beyond_the_payload_are_decode_errors() {
    let mut bytes = vec![0u8, 1, 0, 0, 0];
    bytes.extend_from_slice(&contract());
    bytes.extend_from_slice(&[0xff, 0xff, 0xff, 0xff]);
    bytes.extend_from_slice(&[0, 0, 0, 0]);
    assert_eq!(ValidateEventResult::try_from_slice(&bytes), Err(ErrorCode::MalformedPayload));

    let mut bytes = vec![0u8, 1, 0, 0, 0];
    bytes.extend_from_slice(&contract());
    bytes.extend_from_slice(&[0, 0, 0, 0]);
    bytes.extend_from_slice(&[5, 0, 0, 0, 1, 2, 3, 4]);
    assert_eq!(ValidateEventResult::try_from_slice(&bytes), Err(ErrorCode::MalformedPayload));
}

#[test]
fn dispatch_renders_only_the_address() {
    let event = EthEvent {
        emitting_contract: EthAddress { bytes: [0x0f; 20] },
        topics: vec![vec![1], vec![2, 3]],
        unindexed_data: vec![0, 0],
    };
    assert_eq!(event.emitting_contract.to_hex(), "0f".repeat(20));
    assert_eq!(
        dispatch(ValidateEventResult::Valid(1, event)),
        ValidationLog::ProofValidated {
            chain_id: 1,
            emitting_contract: "0f".repeat(20),
            topics: vec![vec![1], vec![2, 3]],
            unindexed_data: vec![0, 0],
        }
    );
    assert_eq!(
        dispatch(ValidateEventResult::InvalidProof),
        ValidationLog::ProverError { description: "proof is invalid".to_string() }
    );
    assert_eq!(ValidateEventResult::InvalidEvent.describe(), "proven event is malformed");
}

#[test]
fn success_log_line_shows_every_field() {
    let log = validate_proof(&accounts(polymer_prover_id()), from_verifier(valid_payload()))
        .unwrap();
    assert_eq!(
        log.line(),
        "Proof validated: chain_id: 12345, \
         emitting_contract: deadbeef000102030405060708090a0b0c0d0eff, \
         topics: [[170, 187, 204], []], unindexed_data: [9, 8, 7, 6]"
    );
    let bare = ValidationLog::ProofValidated {
        chain_id: 0,
        emitting_contract: String::new(),
        topics: vec![],
        unindexed_data: vec![],
    };
    assert_eq!(
        bare.line(),
        "Proof validated: chain_id: 0, emitting_contract: , topics: [], unindexed_data: []"
    );
}

#[test]
fn rejection_log_line_shows_the_description() {
    let log = validate_proof(&accounts(polymer_prover_id()), from_verifier(vec![1])).unwrap();
    assert_eq!(log.line(), "Prover returned error: no proof is loaded");
}

#[test]
fn outside_a_runtime_no_payload_is_held() {
    assert_eq!(
        validate_returned(&accounts(polymer_prover_id())),
        Err(ErrorCode::MissingReturn)
    );
    assert_eq!(
        validate_returned(&accounts(Address::new([8u8; 32]))),
        Err(ErrorCode::ProgramIdMismatch)
    );
}
