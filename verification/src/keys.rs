//! Operator public keys: the compressed BN254 points that operators register,
//! and their check and conversion into the byte order that arkworks reads.
use ark_bn254::{G1Affine, G2Affine};
use ark_serialize::CanonicalDeserialize;
use vstd::prelude::*;

verus! {

/// A compressed G1 point as registered on chain (big-endian byte order).
#[derive(Debug, Clone, Copy)]
pub struct G1CompressedPoint(pub [u8; 32]);

/// A compressed G2 point as registered on chain (big-endian byte order).
#[derive(Debug, Clone, Copy)]
pub struct G2CompressedPoint(pub [u8; 64]);

/// The two compressed public keys of an operator.
#[derive(Debug, Clone, Copy)]
pub struct OperatorPubKeys {
    pub g1_pub_key: G1CompressedPoint,
    pub g2_pub_key: G2CompressedPoint,
}

/// Why an operator's keys were refused.
#[derive(Debug, Clone, Copy, PartialEq, Eq, Structural)]
pub enum KeyError {
    /// The G1 key is not the compressed encoding of a valid point.
    InvalidG1,
    /// The G2 key is not the compressed encoding of a valid point.
    InvalidG2,
}

/// Whether `bytes` is arkworks' compressed encoding of a valid BN254 G1 point.
pub uninterp spec fn g1_compressed_is_valid(bytes: Seq<u8>) -> bool;

/// Whether `bytes` is arkworks' compressed encoding of a valid BN254 G2 point.
pub uninterp spec fn g2_compressed_is_valid(bytes: Seq<u8>) -> bool;

/// Whether arkworks accepts `bytes` as a compressed G1 point:
/// `G1Affine::deserialize_compressed` (with validation) returns `Ok`.
#[verifier::external_body]
fn ark_g1_accepts(bytes: &[u8; 32]) -> (ok: bool)
    ensures
        ok == g1_compressed_is_valid(bytes@),
{
    G1Affine::deserialize_compressed(&bytes[..]).is_ok()
}

/// Whether arkworks accepts `bytes` as a compressed G2 point:
/// `G2Affine::deserialize_compressed` (with validation) returns `Ok`.
#[verifier::external_body]
fn ark_g2_accepts(bytes: &[u8; 64]) -> (ok: bool)
    ensures
        ok == g2_compressed_is_valid(bytes@),
{
    G2Affine::deserialize_compressed(&bytes[..]).is_ok()
}

/// The public keys of an operator in the byte order that arkworks reads,
/// both checked to encode valid points.
#[derive(Debug, Clone, Copy)]
pub struct CommonwarePublicKeys {
    g1_pub_key: [u8; 32],
    g2_pub_key: [u8; 64],
}

impl CommonwarePublicKeys {
    #[verifier::type_invariant]
    spec fn keys_are_valid(self) -> bool {
        &&& g1_compressed_is_valid(self.g1_pub_key@)
        &&& g2_compressed_is_valid(self.g2_pub_key@)
    }

    /// The G1 key, compressed, in arkworks byte order.
    pub closed spec fn g1(self) -> Seq<u8> {
        self.g1_pub_key@
    }

    /// The G2 key, compressed, in arkworks byte order.
    pub closed spec fn g2(self) -> Seq<u8> {
        self.g2_pub_key@
    }

    /// The G1 key, compressed, in arkworks byte order.
    pub fn g1_pub_key(&self) -> (k: [u8; 32])
        ensures
            k@ == self.g1(),
            g1_compressed_is_valid(k@),
    {
        proof {
            use_type_invariant(self);
        }
        self.g1_pub_key
    }

    /// The G2 key, compressed, in arkworks byte order.
    pub fn g2_pub_key(&self) -> (k: [u8; 64])
        ensures
            k@ == self.g2(),
            g2_compressed_is_valid(k@),
    {
        proof {
            use_type_invariant(self);
        }
        self.g2_pub_key
    }
}

/// `a` with its bytes in the opposite order.
fn reversed<const N: usize>(a: &[u8; N]) -> (r: [u8; N])
    ensures
        r@ == a@.reverse(),
{
    let mut r = *a;
    let mut i: usize = 0;
    while i < N
        invariant
            N == a@.len(),
            r@.len() == N,
            i <= N,
            forall|j: int| 0 <= j < i ==> r@[j] == a@[N - 1 - j],
        decreases N - i,
    {
        r[i] = a[N - 1 - i];
        i = i + 1;
    }
    assert(r@ =~= a@.reverse());
    r
}

/// The error that checking an operator's registered keys ends in, if any:
/// the G2 key is checked before the G1 key.
pub open spec fn key_error(g1_compressed: G1CompressedPoint, g2_compressed: G2CompressedPoint) -> Option<
    KeyError,
> {
    if !g2_compressed_is_valid(g2_compressed.0@.reverse()) {
        Some(KeyError::InvalidG2)
    } else if !g1_compressed_is_valid(g1_compressed.0@.reverse()) {
        Some(KeyError::InvalidG1)
    } else {
        None
    }
}

/// Checks with arkworks that both registered keys, turned into arkworks byte
/// order, are valid points; the G2 key is checked first.
pub fn check_keys(g1_compressed: &G1CompressedPoint, g2_compressed: &G2CompressedPoint) -> (r: Option<
    KeyError,
>)
    ensures
        r == key_error(*g1_compressed, *g2_compressed),
{
    let g1_bytes = reversed(&g1_compressed.0);
    let g2_bytes = reversed(&g2_compressed.0);
    if !ark_g2_accepts(&g2_bytes) {
        return Some(KeyError::InvalidG2);
    }
    if !ark_g1_accepts(&g1_bytes) {
        return Some(KeyError::InvalidG1);
    }
    None
}

/// Converts an operator's registered keys, both valid points, into arkworks
/// byte order.
pub fn get_commonware_keys_from_g1_g2(
    g1_compressed: &G1CompressedPoint,
    g2_compressed: &G2CompressedPoint,
) -> (keys: CommonwarePublicKeys)
    requires
        key_error(*g1_compressed, *g2_compressed) is None,
    ensures
        keys.g1() == g1_compressed.0@.reverse(),
        keys.g2() == g2_compressed.0@.reverse(),
{
    let g1_bytes = reversed(&g1_compressed.0);
    let g2_bytes = reversed(&g2_compressed.0);
    CommonwarePublicKeys { g1_pub_key: g1_bytes, g2_pub_key: g2_bytes }
}

/// Converts an operator's registered keys into arkworks byte order after
/// checking that both are valid points, or says which check failed first.
pub fn check_commonware_keys(
    g1_compressed: &G1CompressedPoint,
    g2_compressed: &G2CompressedPoint,
) -> (r: Result<CommonwarePublicKeys, KeyError>)
    ensures
        match key_error(*g1_compressed, *g2_compressed) {
            Some(e) => r == Err::<CommonwarePublicKeys, KeyError>(e),
            None => r matches Ok(keys) && keys.g1() == g1_compressed.0@.reverse() && keys.g2()
                == g2_compressed.0@.reverse(),
        },
{
    match check_keys(g1_compressed, g2_compressed) {
        Some(e) => Err(e),
        None => Ok(get_commonware_keys_from_g1_g2(g1_compressed, g2_compressed)),
    }
}

/// No part of a registered key is lost in the conversion: turning the
/// converted bytes around gives back the key as registered.
pub proof fn lemma_registered_keys_recovered(
    keys: CommonwarePublicKeys,
    g1_compressed: G1CompressedPoint,
    g2_compressed: G2CompressedPoint,
)
    requires
        keys.g1() == g1_compressed.0@.reverse(),
        keys.g2() == g2_compressed.0@.reverse(),
    ensures
        keys.g1().reverse() == g1_compressed.0@,
        keys.g2().reverse() == g2_compressed.0@,
{
    assert(g1_compressed.0@.reverse().reverse() =~= g1_compressed.0@);
    assert(g2_compressed.0@.reverse().reverse() =~= g2_compressed.0@);
}

/// The key check refuses only keys that are not valid points: it passes
/// exactly when both registered keys, turned into arkworks byte order, are
/// valid, blames the G2 key exactly when it is invalid, and blames the G1 key
/// exactly when the G2 key is valid and the G1 key is not.
pub proof fn lemma_key_check_refuses_only_invalid(
    g1_compressed: G1CompressedPoint,
    g2_compressed: G2CompressedPoint,
)
    ensures
        key_error(g1_compressed, g2_compressed) is None <==> g2_compressed_is_valid(
            g2_compressed.0@.reverse(),
        ) && g1_compressed_is_valid(g1_compressed.0@.reverse()),
        key_error(g1_compressed, g2_compressed) == Some(KeyError::InvalidG2) <==> !g2_compressed_is_valid(
            g2_compressed.0@.reverse(),
        ),
        key_error(g1_compressed, g2_compressed) == Some(KeyError::InvalidG1) <==> g2_compressed_is_valid(
            g2_compressed.0@.reverse(),
        ) && !g1_compressed_is_valid(g1_compressed.0@.reverse()),
{
}

} // verus!
