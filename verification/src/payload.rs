//! The payload that signers agree on for a round, and its SHA-256 hash.
use alloy::sol_types::SolValue;
use alloy_primitives::U256;
use commonware_cryptography::{Hasher, Sha256};
use vstd::prelude::*;

use crate::encoding::{
    be_bytes, be_value, lemma_be_value_of_bytes, lemma_pow256_monotone, lemma_pow256_values,
};

verus! {

/// Length in bytes of one ABI word and of a SHA-256 digest.
pub const WORD_LEN: usize = 32;

/// The Solidity ABI encoding of `value` as a `uint256`: a single 32-byte word
/// holding the value, most significant byte first.
pub open spec fn abi_uint256_word(value: u64) -> Seq<u8> {
    be_bytes(value as nat, WORD_LEN as nat)
}

/// The SHA-256 digest of `data`.
pub uninterp spec fn sha256_digest(data: Seq<u8>) -> Seq<u8>;

/// The hash that signers of `round` sign: SHA-256 of the round's ABI word.
pub open spec fn round_payload_hash(round: u64) -> Seq<u8> {
    sha256_digest(abi_uint256_word(round))
}

/// ABI-encodes `value` as a `uint256` through alloy: `U256::from` and then
/// `SolValue::abi_encode`, which writes the value as one 32-byte big-endian
/// word (alloy-sol-types `tokenize_uint` into a zeroed word, then `abi::encode`
/// of that single static token).
#[verifier::external_body]
fn abi_encode_uint256(value: u64) -> (word: Vec<u8>)
    ensures
        word@ == abi_uint256_word(value),
{
    U256::from(value).abi_encode()
}

/// Hashes `data` with commonware-cryptography's `Sha256` (`Hasher::hash` over
/// the single part `data`). The contract only names the result: it is the
/// SHA-256 digest of the bytes, a function of them alone.
#[verifier::external_body]
pub(crate) fn sha256(data: &[u8]) -> (digest: [u8; 32])
    ensures
        digest@ == sha256_digest(data@),
{
    <Sha256 as Hasher>::hash(&[data]).0
}

/// The payload that is signed for `round`: its ABI `uint256` word.
pub fn round_payload(round: u64) -> (payload: Vec<u8>)
    ensures
        payload@ == abi_uint256_word(round),
{
    abi_encode_uint256(round)
}

/// The ABI word of a round denotes that round: reading the 32 bytes back as a
/// big-endian number gives the round.
pub proof fn lemma_abi_word_value(value: u64)
    ensures
        abi_uint256_word(value).len() == WORD_LEN,
        be_value(abi_uint256_word(value)) == value,
{
    crate::encoding::lemma_be_bytes_len(value as nat, WORD_LEN as nat);
    lemma_pow256_values();
    lemma_pow256_monotone(8, WORD_LEN as nat);
    lemma_be_value_of_bytes(value as nat, WORD_LEN as nat);
}

/// Different rounds have different payloads.
pub proof fn lemma_abi_word_injective(a: u64, b: u64)
    ensures
        abi_uint256_word(a) == abi_uint256_word(b) ==> a == b,
{
    lemma_abi_word_value(a);
    lemma_abi_word_value(b);
}

} // verus!
