use orchestrator::payload::round_payload;
use orchestrator::validator::{Validator, ValidatorError};
use orchestrator::wire::{read_round, Aggregation, Payload, WireError};

fn hex(bytes: &[u8]) -> String {
    bytes.iter().map(|b| format!("{:02x}", b)).collect()
}

/// The wire bytes of an aggregation of `round` without payload.
fn message(round: u64) -> Vec<u8> {
    let mut msg = round.to_be_bytes().to_vec();
    msg.push(0);
    msg
}

/// The wire bytes of an aggregation of `round` carrying `sig`.
fn signed_message(round: u64, sig: [u8; 32]) -> Vec<u8> {
    let mut msg = round.to_be_bytes().to_vec();
    msg.extend_from_slice(&[1, 1]);
    msg.extend_from_slice(&sig);
    msg
}

#[test]
fn new_validator_expects_round_zero() {
    let v = Validator::new().unwrap();
    let hash = v.validate_and_return_expected_hash(&message(0)).unwrap();
    assert_eq!(
        hex(&hash),
        "66687aadf862bd776c8fc18b8e9f8e20089714856ee233b3902a591d0d5f2925"
    );
    // nine zero bytes are round 0 without payload
    assert_eq!(v.validate_and_return_expected_hash(&[0u8; 9]), Ok(hash));
}

#[test]
fn other_round_is_refused_with_both_rounds() {
    let v = Validator::new().unwrap();
    let err = v.validate_and_return_expected_hash(&message(5)).unwrap_err();
    assert_eq!(err, ValidatorError::InvalidRound { expected: 0, got: 5 });
    assert_eq!(err.message(), "Invalid round number in message. Expected 0, got 5");
    let err = v.validate_and_return_expected_hash(&signed_message(1, [3; 32])).unwrap_err();
    assert_eq!(err.message(), "Invalid round number in message. Expected 0, got 1");
}

#[test]
fn trailing_bytes_are_refused() {
    let v = Validator::new().unwrap();
    let mut msg = message(0);
    msg.push(0);
    assert_eq!(
        v.validate_and_return_expected_hash(&msg),
        Err(ValidatorError::Wire(WireError::ExtraData(1)))
    );
    assert_eq!(
        v.get_payload_from_message(&msg),
        Err(ValidatorError::Wire(WireError::ExtraData(1)))
    );
    // the round check reads past them: a wrong round is refused as such
    let mut msg = message(4);
    msg.extend_from_slice(&[9, 9]);
    assert_eq!(
        v.validate_and_return_expected_hash(&msg),
        Err(ValidatorError::InvalidRound { expected: 0, got: 4 })
    );
    assert_eq!(
        ValidatorError::Wire(WireError::ExtraData(2)).message(),
        "Extra Data: 2 bytes remained in buffer after decoding"
    );
}

#[test]
fn malformed_messages_are_refused() {
    let v = Validator::new().unwrap();
    assert_eq!(
        v.validate_and_return_expected_hash(&[0, 0, 0]),
        Err(ValidatorError::Wire(WireError::EndOfBuffer))
    );
    assert_eq!(
        v.get_payload_from_message(&[]),
        Err(ValidatorError::Wire(WireError::EndOfBuffer))
    );
    assert_eq!(
        v.validate_and_return_expected_hash(&[0u8; 8]),
        Err(ValidatorError::Wire(WireError::EndOfBuffer))
    );
    let mut msg = 0u64.to_be_bytes().to_vec();
    msg.push(2);
    assert_eq!(
        v.validate_and_return_expected_hash(&msg),
        Err(ValidatorError::Wire(WireError::InvalidBool))
    );
    let mut msg = 0u64.to_be_bytes().to_vec();
    msg.extend_from_slice(&[1, 7]);
    let err = v.validate_and_return_expected_hash(&msg).unwrap_err();
    assert_eq!(err, ValidatorError::Wire(WireError::InvalidEnum(7)));
    assert_eq!(err.message(), "Invalid Enum: Expected a valid enum variant, found 7");
    let mut msg = 0u64.to_be_bytes().to_vec();
    msg.extend_from_slice(&[1, 1, 5, 5]);
    let err = v.validate_and_return_expected_hash(&msg).unwrap_err();
    assert_eq!(err, ValidatorError::Wire(WireError::EndOfBuffer));
    assert_eq!(
        err.message(),
        "Unexpected End-of-Buffer: Not enough bytes remaining to read data"
    );
    assert_eq!(
        WireError::InvalidBool.message(),
        "Invalid Bool: Expected 0 or 1, found different value"
    );
}

#[test]
fn payload_hash_of_any_round() {
    let v = Validator::new().unwrap();
    assert_eq!(
        hex(&v.get_payload_from_message(&message(1)).unwrap()),
        "ec4916dd28fc4c10d78e287ca5d9cc51ee1ae73cbfde08c6b37324cbfaac8bc5"
    );
    assert_eq!(
        hex(&v.get_payload_from_message(&signed_message(258, [9; 32])).unwrap()),
        "625253f2b422d07fea800b29b0c3c40f002647512fe6b49728259e7115cdfd12"
    );
}

#[test]
fn hash_depends_only_on_round() {
    let v = Validator::new().unwrap();
    let a = v.validate_and_return_expected_hash(&message(0)).unwrap();
    let b = v.validate_and_return_expected_hash(&signed_message(0, [7; 32])).unwrap();
    let mut start = 0u64.to_be_bytes().to_vec();
    start.extend_from_slice(&[1, 0]);
    let c = v.validate_and_return_expected_hash(&start).unwrap();
    assert_eq!(a, b);
    assert_eq!(a, c);
    let d = v.get_payload_from_message(&message(7)).unwrap();
    assert_eq!(
        hex(&d),
        "48428bdb7ddd829410d6bbb924fdeb3a3d7e88c2577bffae073b990c6f061d08"
    );
    assert_ne!(a, d);
}

#[test]
fn payload_is_abi_uint256_word() {
    let word = round_payload(0x0102);
    let mut expected = vec![0u8; 30];
    expected.extend_from_slice(&[1, 2]);
    assert_eq!(word, expected);
    let word = round_payload(u64::MAX);
    let mut expected = vec![0u8; 24];
    expected.extend_from_slice(&[0xff; 8]);
    assert_eq!(word, expected);
}

#[test]
fn aggregations_are_read_and_decoded() {
    assert_eq!(read_round(&[0, 0, 0, 0, 0, 0, 1, 2, 9]), Ok(258));
    assert_eq!(read_round(&[0xff; 8]), Ok(u64::MAX));
    assert_eq!(read_round(&[1, 2, 3, 4, 5, 6, 7]), Err(WireError::EndOfBuffer));

    let a = Aggregation::decode(&message(42)).unwrap();
    assert_eq!(a, Aggregation { round: 42, payload: None });
    let a = Aggregation::decode(&signed_message(3, [4; 32])).unwrap();
    assert_eq!(a, Aggregation { round: 3, payload: Some(Payload::Signature(vec![4; 32])) });
    let mut start = 9u64.to_be_bytes().to_vec();
    start.extend_from_slice(&[1, 0]);
    assert_eq!(
        Aggregation::decode(&start).unwrap(),
        Aggregation { round: 9, payload: Some(Payload::Start) }
    );

    let mut longer = signed_message(3, [4; 32]);
    longer.extend_from_slice(&[1, 2, 3]);
    assert_eq!(Aggregation::decode(&longer), Err(WireError::ExtraData(3)));
    assert_eq!(
        Aggregation::read(&longer).unwrap(),
        Aggregation { round: 3, payload: Some(Payload::Signature(vec![4; 32])) }
    );
}
