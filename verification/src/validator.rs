//! Checks an aggregation message against the round the validator expects and
//! derives the hash that its signers sign.
use vstd::prelude::*;

use crate::payload::{abi_uint256_word, round_payload, round_payload_hash, sha256, sha256_digest};
use crate::decimal::{decimal, push_decimal};
use crate::wire::{decode_aggregation, read_aggregation, Aggregation, WireError};

verus! {

/// Why a message was refused.
#[derive(Debug, Clone, Copy, PartialEq, Eq, Structural)]
pub enum ValidatorError {
    /// The message could not be read.
    Wire(WireError),
    /// The message belongs to another round than the one expected.
    InvalidRound { expected: u64, got: u64 },
}

/// Validates aggregation messages for the round it keeps.
pub struct Validator {
    counter: u64,
}

impl View for Validator {
    type V = u64;

    /// The round that the validator expects messages to carry.
    closed spec fn view(&self) -> u64 {
        self.counter
    }
}

/// What `get_payload_from_message` answers for `msg`: the payload hash of the
/// round of the aggregation that the whole message decodes to.
pub open spec fn payload_outcome(msg: Seq<u8>) -> Result<Seq<u8>, ValidatorError> {
    match decode_aggregation(msg) {
        Err(e) => Err(ValidatorError::Wire(e)),
        Ok(a) => Ok(round_payload_hash(a.round)),
    }
}

/// What `verify_message_round` answers for `msg` when the validator expects
/// round `expected`: the aggregation at the front of `msg` must be readable
/// and of that round.
pub open spec fn round_check(expected: u64, msg: Seq<u8>) -> Result<(), ValidatorError> {
    match read_aggregation(msg) {
        Err(e) => Err(ValidatorError::Wire(e)),
        Ok((a, _)) => if a.round == expected {
            Ok(())
        } else {
            Err(ValidatorError::InvalidRound { expected, got: a.round })
        },
    }
}

/// What `validate_and_return_expected_hash` answers for `msg` when the
/// validator expects round `expected`: the round check, then the payload hash.
pub open spec fn validation_outcome(expected: u64, msg: Seq<u8>) -> Result<Seq<u8>, ValidatorError> {
    match round_check(expected, msg) {
        Err(e) => Err(e),
        Ok(_) => payload_outcome(msg),
    }
}

/// The text of a codec error, as commonware-codec words it.
pub open spec fn wire_error_text(e: WireError) -> Seq<char> {
    match e {
        WireError::EndOfBuffer => "Unexpected End-of-Buffer: Not enough bytes remaining to read data"@,
        WireError::InvalidBool => "Invalid Bool: Expected 0 or 1, found different value"@,
        WireError::InvalidEnum(tag) => "Invalid Enum: Expected a valid enum variant, found "@ + decimal(
            tag as nat,
        ),
        WireError::ExtraData(n) => "Extra Data: "@ + decimal(n as nat)
            + " bytes remained in buffer after decoding"@,
    }
}

/// The text of a refusal.
pub open spec fn error_text(e: ValidatorError) -> Seq<char> {
    match e {
        ValidatorError::Wire(w) => wire_error_text(w),
        ValidatorError::InvalidRound { expected, got } => "Invalid round number in message. Expected "@
            + decimal(expected as nat) + ", got "@ + decimal(got as nat),
    }
}

impl WireError {
    /// The text of the error, as commonware-codec words it.
    pub fn message(&self) -> (s: String)
        ensures
            s@ == wire_error_text(*self),
    {
        match self {
            WireError::EndOfBuffer => String::from_str(
                "Unexpected End-of-Buffer: Not enough bytes remaining to read data",
            ),
            WireError::InvalidBool => String::from_str(
                "Invalid Bool: Expected 0 or 1, found different value",
            ),
            WireError::InvalidEnum(tag) => {
                let mut s = String::from_str("Invalid Enum: Expected a valid enum variant, found ");
                push_decimal(&mut s, *tag as u64);
                s
            },
            WireError::ExtraData(n) => {
                let mut s = String::from_str("Extra Data: ");
                push_decimal(&mut s, *n as u64);
                s.append(" bytes remained in buffer after decoding");
                s
            },
        }
    }
}

impl ValidatorError {
    /// The text of the refusal.
    pub fn message(&self) -> (s: String)
        ensures
            s@ == error_text(*self),
    {
        match self {
            ValidatorError::Wire(w) => w.message(),
            ValidatorError::InvalidRound { expected, got } => {
                let mut s = String::from_str("Invalid round number in message. Expected ");
                push_decimal(&mut s, *expected);
                s.append(", got ");
                push_decimal(&mut s, *got);
                s
            },
        }
    }
}

impl Validator {
    /// A validator that starts at round zero.
    pub fn new() -> (r: Result<Validator, ValidatorError>)
        ensures
            r matches Ok(v) && v@ == 0,
    {
        let counter: u64 = 0;
        Ok(Validator { counter })
    }

    /// Checks that `msg` carries the expected round and returns the hash of
    /// the payload that its signers sign.
    pub fn validate_and_return_expected_hash(&self, msg: &[u8]) -> (r: Result<[u8; 32], ValidatorError>)
        ensures
            match validation_outcome(self@, msg@) {
                Ok(h) => r matches Ok(d) && d@ == h,
                Err(e) => r == Err::<[u8; 32], ValidatorError>(e),
            },
    {
        self.verify_message_round(msg)?;
        self.get_payload_from_message(msg)
    }

    /// Decodes the whole of `msg` and returns the SHA-256 hash of the ABI word of
    /// its round.
    pub fn get_payload_from_message(&self, msg: &[u8]) -> (r: Result<[u8; 32], ValidatorError>)
        ensures
            match payload_outcome(msg@) {
                Ok(h) => r matches Ok(d) && d@ == h,
                Err(e) => r == Err::<[u8; 32], ValidatorError>(e),
            },
    {
        let aggregation = match Aggregation::decode(msg) {
            Ok(a) => a,
            Err(e) => {
                return Err(ValidatorError::Wire(e));
            },
        };
        let payload = round_payload(aggregation.round);
        let payload_hash = sha256(payload.as_slice());
        Ok(payload_hash)
    }

    /// Checks that the aggregation at the front of `msg` is of the round expected.
    fn verify_message_round(&self, msg: &[u8]) -> (r: Result<(), ValidatorError>)
        ensures
            r == round_check(self@, msg@),
    {
        let aggregation = match Aggregation::read(msg) {
            Ok(a) => a,
            Err(e) => {
                return Err(ValidatorError::Wire(e));
            },
        };
        let round: u64 = aggregation.round;
        let current_number: u64 = self.counter;
        if round != current_number {
            return Err(ValidatorError::InvalidRound { expected: current_number, got: round });
        }
        Ok(())
    }
}

/// A message is accepted exactly when the whole of it decodes to an
/// aggregation of the expected round, and then the answer is the payload hash
/// of that round.
pub proof fn lemma_accepted_iff_expected_round(expected: u64, msg: Seq<u8>)
    ensures
        validation_outcome(expected, msg) is Ok <==> (decode_aggregation(msg) matches Ok(a) && a.round
            == expected),
        (decode_aggregation(msg) matches Ok(a) && a.round == expected) ==> validation_outcome(
            expected,
            msg,
        ) == Ok::<Seq<u8>, ValidatorError>(round_payload_hash(expected)),
{
    crate::wire::lemma_decoded_is_read(msg);
}

/// Messages that decode to aggregations of the same round get the same
/// answer, whatever their payloads.
pub proof fn lemma_outcome_depends_only_on_round(expected: u64, m1: Seq<u8>, m2: Seq<u8>)
    requires
        decode_aggregation(m1) matches Ok(a1) && decode_aggregation(m2) matches Ok(a2) && a1.round
            == a2.round,
    ensures
        validation_outcome(expected, m1) == validation_outcome(expected, m2),
{
    crate::wire::lemma_decoded_is_read(m1);
    crate::wire::lemma_decoded_is_read(m2);
}

/// A refused round is answered with both rounds: a message whose aggregation
/// is read as another round than the expected one gets `InvalidRound`.
pub proof fn lemma_other_round_refused(expected: u64, msg: Seq<u8>)
    requires
        read_aggregation(msg) matches Ok((a, _)) && a.round != expected,
    ensures
        validation_outcome(expected, msg) == Err::<Seq<u8>, ValidatorError>(
            ValidatorError::InvalidRound { expected, got: read_aggregation(msg)->Ok_0.0.round },
        ),
{
}

/// The payload hash of a message is SHA-256 of the ABI word of the round it
/// decodes to, whatever its payload; a message that does not decode gets the
/// decoding error.
pub proof fn lemma_payload_hash_of_decoded_round(msg: Seq<u8>)
    ensures
        decode_aggregation(msg) matches Ok(a) ==> payload_outcome(msg) == Ok::<Seq<u8>, ValidatorError>(
            sha256_digest(abi_uint256_word(a.round)),
        ),
        decode_aggregation(msg) matches Err(e) ==> payload_outcome(msg) == Err::<Seq<u8>, ValidatorError>(
            ValidatorError::Wire(e),
        ),
{
}

/// A validator that expects round `expected` answers a message that decodes to
/// an aggregation of that round, whatever its payload, with SHA-256 of the ABI
/// word of `expected`, and answers a message of another round with that round.
pub proof fn lemma_validation_answer(expected: u64, msg: Seq<u8>)
    ensures
        (decode_aggregation(msg) matches Ok(a) && a.round == expected) ==> validation_outcome(
            expected,
            msg,
        ) == Ok::<Seq<u8>, ValidatorError>(sha256_digest(abi_uint256_word(expected))),
        (decode_aggregation(msg) matches Ok(a) && a.round != expected) ==> validation_outcome(
            expected,
            msg,
        ) == Err::<Seq<u8>, ValidatorError>(
            ValidatorError::InvalidRound { expected, got: decode_aggregation(msg)->Ok_0.round },
        ),
{
    crate::wire::lemma_decoded_is_read(msg);
}

} // verus!
