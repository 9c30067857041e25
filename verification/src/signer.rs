//! The orchestrator's private key: reading its decimal text into the BN254
//! scalar that the signer is built from.
use ark_bn254::Fr;
use ark_serialize::CanonicalSerialize;
use std::str::FromStr;
use vstd::prelude::*;

verus! {

/// Why a private key text was refused.
#[derive(Debug, Clone, Copy, PartialEq, Eq, Structural)]
pub enum PrivateKeyError {
    /// The text is not a decimal number.
    InvalidDecimal,
}

/// The BN254 scalar that the decimal text `key` denotes, reduced modulo the
/// group order, as its 32 little-endian bytes; `None` where the text is not a
/// decimal number.
pub uninterp spec fn private_key_scalar(key: Seq<char>) -> Option<Seq<u8>>;

/// Reads `key` with arkworks' `Fr::from_str` (a decimal integer, reduced
/// modulo the scalar field's order) and writes the scalar with
/// `serialize_compressed`, 32 little-endian bytes (a write into exactly the 32
/// bytes a scalar takes, which does not fail). The contract only names the
/// result: it depends on the text alone.
#[verifier::external_body]
fn fr_from_decimal(key: &str) -> (r: Option<[u8; 32]>)
    ensures
        match private_key_scalar(key@) {
            None => r is None,
            Some(s) => r matches Some(b) && b@ == s,
        },
{
    let fr = Fr::from_str(key).ok()?;
    let mut bytes = [0u8; 32];
    fr.serialize_compressed(&mut bytes[..]).ok()?;
    Some(bytes)
}

/// The scalar of the private key written in decimal as `key`, as 32
/// little-endian bytes.
pub fn private_key_from_text(key: &str) -> (r: Result<[u8; 32], PrivateKeyError>)
    ensures
        match private_key_scalar(key@) {
            None => r == Err::<[u8; 32], PrivateKeyError>(PrivateKeyError::InvalidDecimal),
            Some(s) => r matches Ok(b) && b@ == s,
        },
{
    match fr_from_decimal(key) {
        Some(bytes) => Ok(bytes),
        None => Err(PrivateKeyError::InvalidDecimal),
    }
}

} // verus!
