//! The orchestrator's identity text `key@port`: splitting it into the private
//! key and the port it listens on.
use vstd::prelude::*;

use crate::decimal::port_from_text;

verus! {

/// Why an identity text was refused.
#[derive(Debug, Clone, Copy, PartialEq, Eq, Structural)]
pub enum IdentityError {
    /// The text does not split at `@` into exactly two parts.
    NotWellFormed,
    /// The part after `@` is not a port number.
    PortNotWellFormed,
}

/// Whether `k` is the position of the only `@` in `s`.
pub open spec fn only_at_sign(s: Seq<char>, k: int) -> bool {
    &&& 0 <= k < s.len()
    &&& s[k] == '@'
    &&& forall|j: int| 0 <= j < s.len() && j != k ==> s[j] != '@'
}

/// The two parts of `s` around its only `@`, if it has exactly one.
pub open spec fn identity_parts(s: Seq<char>) -> Option<(Seq<char>, Seq<char>)> {
    if exists|k: int| only_at_sign(s, k) {
        let k: int = choose|k: int| only_at_sign(s, k);
        Some((s.take(k), s.skip(k + 1)))
    } else {
        None
    }
}

/// The position of the first `c` in `s` at or after `from`, if any.
fn find_char(s: &str, c: char, from: usize) -> (r: Option<usize>)
    requires
        from <= s@.len(),
    ensures
        r matches Some(k) ==> from <= k < s@.len() && s@[k as int] == c && forall|j: int|
            from <= j < k ==> s@[j] != c,
        r is None ==> forall|j: int| from <= j < s@.len() ==> s@[j] != c,
{
    let len: usize = s.unicode_len();
    let mut i: usize = from;
    while i < len
        invariant
            len == s@.len(),
            from <= i <= len,
            forall|j: int| from <= j < i ==> s@[j] != c,
        decreases len - i,
    {
        if s.get_char(i) == c {
            return Some(i);
        }
        i = i + 1;
    }
    None
}

/// Splits `identity` at its only `@` into the key before it and the port
/// number after it.
pub fn parse_identity(identity: &str) -> (r: Result<(&str, u16), IdentityError>)
    ensures
        match identity_parts(identity@) {
            None => r == Err::<(&str, u16), IdentityError>(IdentityError::NotWellFormed),
            Some((key, port)) => match port_from_text(port) {
                None => r == Err::<(&str, u16), IdentityError>(IdentityError::PortNotWellFormed),
                Some(p) => r matches Ok((k, q)) && k@ == key && q == p,
            },
        },
{
    let len: usize = identity.unicode_len();
    let at: usize = match find_char(identity, '@', 0) {
        None => {
            return Err(IdentityError::NotWellFormed);
        },
        Some(k) => k,
    };
    if find_char(identity, '@', at + 1).is_some() {
        proof {
            assert forall|k: int| !only_at_sign(identity@, k) by {
                if only_at_sign(identity@, k) {
                    assert(identity@[at as int] == '@');
                }
            }
        }
        return Err(IdentityError::NotWellFormed);
    }
    proof {
        assert(only_at_sign(identity@, at as int));
        assert forall|k: int| only_at_sign(identity@, k) implies k == at by {
            if k != at {
                assert(identity@[at as int] == '@');
            }
        }
    }
    let key = identity.substring_char(0, at);
    let port_text = identity.substring_char(at + 1, len);
    assert(identity@.take(at as int) =~= identity@.subrange(0, at as int));
    assert(identity@.skip(at + 1) =~= identity@.subrange(at + 1, len as int));
    match crate::decimal::parse_port(port_text) {
        None => Err(IdentityError::PortNotWellFormed),
        Some(port) => Ok((key, port)),
    }
}

/// An identity built as `key@port` from a key without `@` and a port reads
/// back as that key and that port.
pub proof fn lemma_identity_roundtrip(key: Seq<char>, port: u16)
    requires
        !key.contains('@'),
    ensures
        identity_parts(key + seq!['@'] + crate::decimal::decimal(port as nat)) == Some(
            (key, crate::decimal::decimal(port as nat)),
        ),
        port_from_text(crate::decimal::decimal(port as nat)) == Some(port),
{
    let d = crate::decimal::decimal(port as nat);
    let s = key + seq!['@'] + d;
    crate::decimal::lemma_decimal_value(port as nat);
    let k: int = key.len() as int;
    assert forall|j: int| 0 <= j < s.len() && j != k implies s[j] != '@' by {
        if j < k {
            assert(s[j] == key[j]);
        } else {
            assert(s[j] == d[j - k - 1]);
            assert(crate::decimal::is_digit(d[j - k - 1]));
        }
    }
    assert(only_at_sign(s, k));
    assert forall|m: int| only_at_sign(s, m) implies m == k by {}
    assert(s.take(k) =~= key);
    assert(s.skip(k + 1) =~= d);
    crate::decimal::lemma_port_text_roundtrip(port);
}

} // verus!
