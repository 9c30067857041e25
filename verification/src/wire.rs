//! The aggregation message on the wire.
//!
//! An aggregation is written with the codec's conventions, field by field:
//! its round as a fixed-width `u64` (eight bytes, most significant first);
//! then its optional payload, as a boolean byte (`0` none, `1` some) followed,
//! when present, by the payload's tag byte (`0` start, `1` signature) and, for
//! a signature, the 32 bytes of the compressed signature point. Reading takes
//! an aggregation from the front of a buffer and leaves what follows;
//! decoding also refuses any bytes left over.
use vstd::prelude::*;

use crate::encoding::{
    be_bytes, be_value, lemma_be_bytes_len, lemma_be_bytes_of_value, lemma_be_value_bound,
    lemma_be_value_of_bytes, lemma_pow256_monotone, lemma_pow256_values, pow256,
};

verus! {

/// Number of bytes that the round occupies at the start of a message.
pub const ROUND_LEN: usize = 8;

/// Number of bytes of a signature payload.
pub const SIGNATURE_LEN: usize = 32;

/// Why a message could not be read, as the codec reports it.
#[derive(Debug, Clone, Copy, PartialEq, Eq, Structural)]
pub enum WireError {
    /// The message ended before the aggregation was complete.
    EndOfBuffer,
    /// The byte that says whether a payload follows is neither `0` nor `1`.
    InvalidBool,
    /// The payload's tag byte names no payload kind.
    InvalidEnum(u8),
    /// Bytes were left over after the whole aggregation was read.
    ExtraData(usize),
}

/// What an aggregation carries besides its round.
#[derive(Debug, Clone, PartialEq, Eq)]
pub enum Payload {
    /// The round starts.
    Start,
    /// A contributor's signature for the round.
    Signature(Vec<u8>),
}

/// A decoded aggregation message.
#[derive(Debug, Clone, PartialEq, Eq)]
pub struct Aggregation {
    /// The round that the message belongs to.
    pub round: u64,
    /// The payload, if any.
    pub payload: Option<Payload>,
}

/// A payload as a mathematical value.
pub enum PayloadView {
    Start,
    Signature(Seq<u8>),
}

/// An aggregation as a mathematical value.
pub struct AggregationView {
    pub round: u64,
    pub payload: Option<PayloadView>,
}

impl View for Payload {
    type V = PayloadView;

    open spec fn view(&self) -> PayloadView {
        match self {
            Payload::Start => PayloadView::Start,
            Payload::Signature(sig) => PayloadView::Signature(sig@),
        }
    }
}

impl View for Aggregation {
    type V = AggregationView;

    open spec fn view(&self) -> AggregationView {
        AggregationView {
            round: self.round,
            payload: match self.payload {
                None => None,
                Some(p) => Some(p@),
            },
        }
    }
}

/// The round that a message starting with `msg` carries, if it is long enough
/// to hold one.
pub open spec fn round_of(msg: Seq<u8>) -> Option<u64> {
    if msg.len() < ROUND_LEN {
        None
    } else {
        Some(be_value(msg.take(ROUND_LEN as int)) as u64)
    }
}

/// Reading an aggregation from the front of `msg`: the aggregation and the
/// number of bytes it takes, or why none can be read.
pub open spec fn read_aggregation(msg: Seq<u8>) -> Result<(AggregationView, nat), WireError> {
    match round_of(msg) {
        None => Err(WireError::EndOfBuffer),
        Some(round) => if msg.len() < 9 {
            Err(WireError::EndOfBuffer)
        } else if msg[8] == 0 {
            Ok((AggregationView { round, payload: None }, 9))
        } else if msg[8] != 1 {
            Err(WireError::InvalidBool)
        } else if msg.len() < 10 {
            Err(WireError::EndOfBuffer)
        } else if msg[9] == 0 {
            Ok((AggregationView { round, payload: Some(PayloadView::Start) }, 10))
        } else if msg[9] != 1 {
            Err(WireError::InvalidEnum(msg[9]))
        } else if msg.len() < 10 + SIGNATURE_LEN {
            Err(WireError::EndOfBuffer)
        } else {
            Ok(
                (
                    AggregationView {
                        round,
                        payload: Some(PayloadView::Signature(msg.subrange(10, 10 + SIGNATURE_LEN))),
                    },
                    (10 + SIGNATURE_LEN) as nat,
                ),
            )
        },
    }
}

/// Decoding a whole message: the aggregation read from it, provided that no
/// byte is left over.
pub open spec fn decode_aggregation(msg: Seq<u8>) -> Result<AggregationView, WireError> {
    match read_aggregation(msg) {
        Err(e) => Err(e),
        Ok((a, n)) => if n < msg.len() {
            Err(WireError::ExtraData((msg.len() - n) as usize))
        } else {
            Ok(a)
        },
    }
}

/// The eight bytes that carry `round` at the start of a message.
pub open spec fn round_bytes(round: u64) -> Seq<u8> {
    be_bytes(round as nat, ROUND_LEN as nat)
}

/// The bytes of an aggregation on the wire.
pub open spec fn encode_aggregation(a: AggregationView) -> Seq<u8> {
    round_bytes(a.round) + match a.payload {
        None => seq![0u8],
        Some(PayloadView::Start) => seq![1u8, 0u8],
        Some(PayloadView::Signature(sig)) => seq![1u8, 1u8] + sig,
    }
}

/// Whether `a` can be written: a signature has exactly its 32 bytes.
pub open spec fn well_formed(a: AggregationView) -> bool {
    a.payload matches Some(PayloadView::Signature(sig)) ==> sig.len() == SIGNATURE_LEN
}

/// Reads the round at the start of `msg`; bytes after it are not looked at.
pub fn read_round(msg: &[u8]) -> (r: Result<u64, WireError>)
    ensures
        r is Ok <==> round_of(msg@) is Some,
        r matches Ok(v) ==> round_of(msg@) == Some(v),
        r matches Err(e) ==> e == WireError::EndOfBuffer,
{
    if msg.len() < ROUND_LEN {
        return Err(WireError::EndOfBuffer);
    }
    let mut acc: u64 = 0;
    let mut i: usize = 0;
    proof {
        lemma_pow256_values();
    }
    while i < ROUND_LEN
        invariant
            i <= ROUND_LEN <= msg@.len(),
            acc as nat == be_value(msg@.take(i as int)),
            acc < pow256(i as nat),
            pow256(7) == 0x100_0000_0000_0000,
        decreases ROUND_LEN - i,
    {
        proof {
            lemma_pow256_monotone(i as nat, 7);
            assert(msg@.take(i + 1).drop_last() =~= msg@.take(i as int));
        }
        let b: u8 = msg[i];
        assert(acc * 256 + b < pow256((i + 1) as nat)) by (nonlinear_arith)
            requires
                acc < pow256(i as nat),
                pow256((i + 1) as nat) == 256 * pow256(i as nat),
                b < 256,
        ;
        acc = acc * 256 + b as u64;
        i = i + 1;
    }
    Ok(acc)
}

impl Aggregation {
    /// Reads an aggregation from the front of `msg` and the number of bytes
    /// it takes.
    fn read_with_len(msg: &[u8]) -> (r: Result<(Aggregation, usize), WireError>)
        ensures
            match read_aggregation(msg@) {
                Err(e) => r == Err::<(Aggregation, usize), WireError>(e),
                Ok((a, n)) => r matches Ok((b, m)) && b@ == a && m == n,
            },
    {
        let round: u64 = read_round(msg)?;
        if msg.len() < 9 {
            return Err(WireError::EndOfBuffer);
        }
        let flag: u8 = msg[8];
        if flag == 0 {
            return Ok((Aggregation { round, payload: None }, 9));
        }
        if flag != 1 {
            return Err(WireError::InvalidBool);
        }
        if msg.len() < 10 {
            return Err(WireError::EndOfBuffer);
        }
        let tag: u8 = msg[9];
        if tag == 0 {
            return Ok((Aggregation { round, payload: Some(Payload::Start) }, 10));
        }
        if tag != 1 {
            return Err(WireError::InvalidEnum(tag));
        }
        if msg.len() < 10 + SIGNATURE_LEN {
            return Err(WireError::EndOfBuffer);
        }
        let mut sig: Vec<u8> = Vec::new();
        let mut i: usize = 10;
        while i < 10 + SIGNATURE_LEN
            invariant
                10 <= i <= 10 + SIGNATURE_LEN <= msg@.len(),
                sig@ =~= msg@.subrange(10, i as int),
            decreases 10 + SIGNATURE_LEN - i,
        {
            sig.push(msg[i]);
            i = i + 1;
        }
        let a = Aggregation { round, payload: Some(Payload::Signature(sig)) };
        assert(a@.payload == Some(PayloadView::Signature(msg@.subrange(10, 10 + SIGNATURE_LEN))));
        Ok((a, 10 + SIGNATURE_LEN))
    }

    /// Reads an aggregation from the front of `msg`; bytes after it are left.
    pub fn read(msg: &[u8]) -> (r: Result<Aggregation, WireError>)
        ensures
            match read_aggregation(msg@) {
                Err(e) => r == Err::<Aggregation, WireError>(e),
                Ok((a, _)) => r matches Ok(b) && b@ == a,
            },
    {
        match Aggregation::read_with_len(msg) {
            Ok((a, _)) => Ok(a),
            Err(e) => Err(e),
        }
    }

    /// Decodes a whole message into an aggregation, refusing bytes left over.
    pub fn decode(msg: &[u8]) -> (r: Result<Aggregation, WireError>)
        ensures
            match decode_aggregation(msg@) {
                Err(e) => r == Err::<Aggregation, WireError>(e),
                Ok(a) => r matches Ok(b) && b@ == a,
            },
    {
        let (a, n) = Aggregation::read_with_len(msg)?;
        if n < msg.len() {
            return Err(WireError::ExtraData(msg.len() - n));
        }
        Ok(a)
    }
}

/// The round of a message is read back from the eight bytes that carry it,
/// whatever follows them.
pub proof fn lemma_round_of_round_bytes(round: u64, rest: Seq<u8>)
    ensures
        round_of(round_bytes(round) + rest) == Some(round),
{
    lemma_be_bytes_len(round as nat, ROUND_LEN as nat);
    lemma_pow256_values();
    lemma_be_value_of_bytes(round as nat, ROUND_LEN as nat);
    assert((round_bytes(round) + rest).take(ROUND_LEN as int) =~= round_bytes(round));
}

/// A message that holds a round starts with that round's eight bytes.
pub proof fn lemma_round_bytes_of_round(msg: Seq<u8>)
    requires
        round_of(msg) is Some,
    ensures
        msg =~= round_bytes(round_of(msg)->0) + msg.skip(ROUND_LEN as int),
{
    let head = msg.take(ROUND_LEN as int);
    lemma_be_value_bound(head);
    lemma_pow256_values();
    lemma_be_bytes_of_value(head);
    assert(msg =~= head + msg.skip(ROUND_LEN as int));
}

/// Reading the bytes of a well-formed aggregation, whatever follows them,
/// gives back that aggregation and the number of its bytes.
pub proof fn lemma_read_encoded(a: AggregationView, rest: Seq<u8>)
    requires
        well_formed(a),
    ensures
        read_aggregation(encode_aggregation(a) + rest) == Ok::<(AggregationView, nat), WireError>(
            (a, encode_aggregation(a).len()),
        ),
{
    let tail = match a.payload {
        None => seq![0u8],
        Some(PayloadView::Start) => seq![1u8, 0u8],
        Some(PayloadView::Signature(sig)) => seq![1u8, 1u8] + sig,
    };
    let msg = encode_aggregation(a) + rest;
    assert(msg =~= round_bytes(a.round) + (tail + rest));
    lemma_round_of_round_bytes(a.round, tail + rest);
    lemma_be_bytes_len(a.round as nat, ROUND_LEN as nat);
    assert(msg[8] == tail[0]);
    match a.payload {
        None => {},
        Some(PayloadView::Start) => {
            assert(msg[9] == tail[1]);
        },
        Some(PayloadView::Signature(sig)) => {
            assert(msg[9] == tail[1]);
            assert(msg.subrange(10, 10 + SIGNATURE_LEN) =~= sig);
        },
    }
}

/// A well-formed aggregation decodes from exactly its bytes.
pub proof fn lemma_decode_encoded(a: AggregationView)
    requires
        well_formed(a),
    ensures
        decode_aggregation(encode_aggregation(a)) == Ok::<AggregationView, WireError>(a),
{
    lemma_read_encoded(a, Seq::empty());
    assert(encode_aggregation(a) + Seq::<u8>::empty() =~= encode_aggregation(a));
}

/// Bytes after a whole aggregation do not stop it from being read, but a
/// message that holds them does not decode: the codec reports them as extra.
pub proof fn lemma_extra_data_refused(a: AggregationView, extra: Seq<u8>)
    requires
        well_formed(a),
        extra.len() > 0,
    ensures
        read_aggregation(encode_aggregation(a) + extra) is Ok,
        decode_aggregation(encode_aggregation(a) + extra) == Err::<AggregationView, WireError>(
            WireError::ExtraData(extra.len() as usize),
        ),
{
    lemma_read_encoded(a, extra);
}

/// Whatever decodes can also be read, as the same aggregation.
pub proof fn lemma_decoded_is_read(msg: Seq<u8>)
    ensures
        decode_aggregation(msg) matches Ok(a) ==> read_aggregation(msg) matches Ok((b, _)) && b == a,
{
}

} // verus!
