//! Operators of the network: how their on-chain records become the operator
//! and quorum information that the orchestrator works with, and which peers
//! and contributors it registers from them.
use vstd::prelude::*;

use crate::decimal::{
    all_digits, decimal, digits_value, lemma_decimal_value, lemma_port_text_roundtrip,
    port_from_text, push_decimal,
};
use crate::keys::{
    check_keys, get_commonware_keys_from_g1_g2, key_error, CommonwarePublicKeys,
    G1CompressedPoint, G2CompressedPoint, KeyError,
};

verus! {

/// Number of contributors whose signatures make an aggregate.
pub const CONTRIBUTOR_THRESHOLD: usize = 3;

/// The on-chain record of an operator of the network, as far as the
/// orchestrator reads it.
#[derive(Debug, Clone, Copy)]
pub struct NcnOperatorAccount {
    pub g1_pubkey: G1CompressedPoint,
    pub g2_pubkey: G2CompressedPoint,
    pub ip_address: [u8; 4],
    pub port: u16,
    pub ncn_operator_index: u64,
}

/// What the orchestrator knows of one operator.
#[derive(Debug, Clone)]
pub struct OperatorInfo {
    pub address: [u8; 32],
    pub stake: u128,
    pub pub_keys: Option<CommonwarePublicKeys>,
    pub socket: Option<String>,
    pub quorum_number: u8,
}

/// The operators of one quorum.
#[derive(Debug)]
pub struct QuorumInfo {
    pub operator_count: usize,
    pub operators: Vec<OperatorInfo>,
}

/// Why the operators of a quorum cannot be registered.
#[derive(Debug, Clone, Copy, PartialEq, Eq, Structural)]
pub enum OperatorError {
    /// There is no operator to connect to.
    NoParticipants,
    /// There is no operator to collect signatures from.
    NoContributors,
    /// The operator at this position has no public keys.
    MissingKeys(usize),
}

/// The text `a.b.c.d:port` of an IPv4 address and a port.
pub open spec fn socket_text(ip: Seq<u8>, port: u16) -> Seq<char> {
    decimal(ip[0] as nat) + seq!['.'] + decimal(ip[1] as nat) + seq!['.'] + decimal(ip[2] as nat)
        + seq!['.'] + decimal(ip[3] as nat) + seq![':'] + decimal(port as nat)
}

/// The error that checking the keys of `account` ends in, if any: the G2 key
/// is checked before the G1 key.
pub open spec fn account_key_error(account: NcnOperatorAccount) -> Option<KeyError> {
    key_error(account.g1_pubkey, account.g2_pubkey)
}

/// Whether `info` is what the orchestrator knows of the operator at
/// `address` with the record `account`.
pub open spec fn describes(info: OperatorInfo, address: [u8; 32], account: NcnOperatorAccount) -> bool {
    &&& info.address == address
    &&& info.stake == 0
    &&& info.pub_keys matches Some(keys) && keys.g1() == account.g1_pubkey.0@.reverse()
        && keys.g2() == account.g2_pubkey.0@.reverse()
    &&& info.socket matches Some(s) && s@ == socket_text(account.ip_address@, account.port)
    &&& info.quorum_number == account.ncn_operator_index as u8
}

/// The first position in `accounts` whose keys do not check, if any.
pub open spec fn first_bad_account(accounts: Seq<([u8; 32], NcnOperatorAccount)>, k: int) -> bool {
    &&& 0 <= k < accounts.len()
    &&& account_key_error(accounts[k].1) is Some
    &&& forall|j: int| 0 <= j < k ==> account_key_error(#[trigger] accounts[j].1) is None
}

/// The text `a.b.c.d:port` under which an operator is reached.
pub fn format_socket(ip: &[u8; 4], port: u16) -> (s: String)
    ensures
        s@ == socket_text(ip@, port),
{
    let mut s = String::new();
    proof {
        reveal_strlit(".");
        reveal_strlit(":");
    }
    push_decimal(&mut s, ip[0] as u64);
    s.append(".");
    push_decimal(&mut s, ip[1] as u64);
    s.append(".");
    push_decimal(&mut s, ip[2] as u64);
    s.append(".");
    push_decimal(&mut s, ip[3] as u64);
    s.append(":");
    push_decimal(&mut s, port as u64);
    s
}

/// What the orchestrator knows of the operator at `address` with the record
/// `account`, whose keys are valid points: its keys, its socket, its quorum
/// (the low byte of its operator index) and, as yet, no stake.
pub fn operator_info_from_account(address: [u8; 32], account: &NcnOperatorAccount) -> (info:
    OperatorInfo)
    requires
        account_key_error(*account) is None,
    ensures
        describes(info, address, *account),
{
    let keys = get_commonware_keys_from_g1_g2(&account.g1_pubkey, &account.g2_pubkey);
    let socket = format_socket(&account.ip_address, account.port);
    OperatorInfo {
        address,
        stake: 0,
        pub_keys: Some(keys),
        socket: Some(socket),
        quorum_number: account.ncn_operator_index as u8,
    }
}

/// The quorum made of the operators with the given addresses and records, in
/// that order; every record's keys are valid points.
pub fn quorum_info_from_accounts(accounts: &Vec<([u8; 32], NcnOperatorAccount)>) -> (q: QuorumInfo)
    requires
        forall|k: int| 0 <= k < accounts@.len() ==> account_key_error(#[trigger] accounts@[k].1) is None,
    ensures
        q.operator_count == accounts@.len(),
        q.operators@.len() == accounts@.len(),
        forall|i: int|
            0 <= i < accounts@.len() ==> describes(
                #[trigger] q.operators@[i],
                accounts@[i].0,
                accounts@[i].1,
            ),
{
    let mut operators: Vec<OperatorInfo> = Vec::new();
    let mut i: usize = 0;
    while i < accounts.len()
        invariant
            i <= accounts@.len(),
            operators@.len() == i,
            forall|k: int| 0 <= k < accounts@.len() ==> account_key_error(#[trigger] accounts@[k].1) is None,
            forall|j: int|
                0 <= j < i ==> describes(#[trigger] operators@[j], accounts@[j].0, accounts@[j].1),
        decreases accounts@.len() - i,
    {
        let (address, account) = &accounts[i];
        let info = operator_info_from_account(*address, account);
        operators.push(info);
        i = i + 1;
    }
    let operator_count: usize = accounts.len();
    QuorumInfo { operator_count, operators }
}

/// The quorum made of the operators with the given addresses and records, in
/// that order, after checking every record's keys; it fails on the first
/// record whose keys do not check.
pub fn check_quorum_info_from_accounts(accounts: &Vec<([u8; 32], NcnOperatorAccount)>) -> (r: Result<
    QuorumInfo,
    KeyError,
>)
    ensures
        r is Err <==> exists|k: int| first_bad_account(accounts@, k),
        forall|k: int|
            first_bad_account(accounts@, k) ==> r == Err::<QuorumInfo, KeyError>(
                account_key_error(accounts@[k].1)->0,
            ),
        r matches Ok(q) ==> {
            &&& q.operator_count == accounts@.len()
            &&& q.operators@.len() == accounts@.len()
            &&& forall|i: int|
                0 <= i < accounts@.len() ==> describes(
                    #[trigger] q.operators@[i],
                    accounts@[i].0,
                    accounts@[i].1,
                )
        },
{
    let mut i: usize = 0;
    while i < accounts.len()
        invariant
            i <= accounts@.len(),
            forall|j: int| 0 <= j < i ==> account_key_error(#[trigger] accounts@[j].1) is None,
        decreases accounts@.len() - i,
    {
        let (_, account) = &accounts[i];
        match check_keys(&account.g1_pubkey, &account.g2_pubkey) {
            None => {},
            Some(e) => {
                assert(first_bad_account(accounts@, i as int));
                proof {
                    assert forall|k: int| first_bad_account(accounts@, k) implies k == i by {
                        if k < i {
                            assert(account_key_error(accounts@[k].1) is None);
                        } else if k > i {
                            assert(account_key_error(accounts@[i as int].1) is None);
                        }
                    }
                }
                return Err(e);
            },
        }
        i = i + 1;
    }
    proof {
        assert forall|k: int| !first_bad_account(accounts@, k) by {
            if 0 <= k < accounts@.len() {
                assert(account_key_error(accounts@[k].1) is None);
            }
        }
    }
    Ok(quorum_info_from_accounts(accounts))
}

/// The first position of an operator without public keys, if any.
pub open spec fn first_without_keys(operators: Seq<OperatorInfo>, k: int) -> bool {
    &&& 0 <= k < operators.len()
    &&& operators[k].pub_keys is None
    &&& forall|j: int| 0 <= j < k ==> (#[trigger] operators[j]).pub_keys is Some
}

/// The peers to connect to: the G2 key and socket of each operator that has
/// a socket, in order. Every operator must have keys.
pub fn registered_peers(operators: &Vec<OperatorInfo>) -> (r: Result<
    Vec<([u8; 64], String)>,
    OperatorError,
>)
    ensures
        operators@.len() == 0 ==> r == Err::<Vec<([u8; 64], String)>, OperatorError>(
            OperatorError::NoParticipants,
        ),
        forall|k: int|
            first_without_keys(operators@, k) ==> r == Err::<Vec<([u8; 64], String)>, OperatorError>(
                OperatorError::MissingKeys(k as usize),
            ),
        r is Ok <==> operators@.len() > 0 && forall|i: int|
            0 <= i < operators@.len() ==> (#[trigger] operators@[i]).pub_keys is Some,
        r matches Ok(peers) ==> peer_texts(peers@) == peers_of(operators@),
{
    if operators.len() == 0 {
        return Err(OperatorError::NoParticipants);
    }
    let mut peers: Vec<([u8; 64], String)> = Vec::new();
    let mut i: usize = 0;
    while i < operators.len()
        invariant
            0 < operators@.len(),
            i <= operators@.len(),
            forall|j: int| 0 <= j < i ==> (#[trigger] operators@[j]).pub_keys is Some,
            peer_texts(peers@) == peers_of(operators@.take(i as int)),
        decreases operators@.len() - i,
    {
        let op = &operators[i];
        proof {
            assert(operators@.take(i + 1).drop_last() =~= operators@.take(i as int));
        }
        match &op.pub_keys {
            None => {
                proof {
                    assert forall|k: int| first_without_keys(operators@, k) implies k == i by {
                        if k < i {
                            assert(operators@[k].pub_keys is Some);
                        } else if k > i {
                            assert(operators@[i as int].pub_keys is Some);
                        }
                    }
                }
                return Err(OperatorError::MissingKeys(i));
            },
            Some(keys) => {
                let g2 = keys.g2_pub_key();
                match &op.socket {
                    Some(socket) => {
                        let s = socket.clone();
                        let ghost before = peers@;
                        peers.push((g2, s));
                        assert(peer_texts(peers@) =~= peer_texts(before).push((g2@, s@)));
                    },
                    None => {},
                }
            },
        }
        i = i + 1;
    }
    assert(operators@.take(operators@.len() as int) =~= operators@);
    proof {
        assert forall|k: int| !first_without_keys(operators@, k) by {
            if 0 <= k < operators@.len() {
                assert(operators@[k].pub_keys is Some);
            }
        }
    }
    Ok(peers)
}

/// The peers of `operators` that have a socket: each one's G2 key and socket
/// text, in order.
pub open spec fn peers_of(operators: Seq<OperatorInfo>) -> Seq<(Seq<u8>, Seq<char>)>
    decreases operators.len(),
{
    if operators.len() == 0 {
        Seq::empty()
    } else {
        let last = operators.last();
        let rest = peers_of(operators.drop_last());
        match (last.pub_keys, last.socket) {
            (Some(keys), Some(socket)) => rest.push((keys.g2(), socket@)),
            _ => rest,
        }
    }
}

/// The key bytes and socket texts of a list of peers.
pub open spec fn peer_texts(peers: Seq<([u8; 64], String)>) -> Seq<(Seq<u8>, Seq<char>)> {
    peers.map_values(|p: ([u8; 64], String)| (p.0@, p.1@))
}

/// The contributors whose signatures are collected: the keys of every
/// operator, in order. There must be at least one, and every operator must
/// have keys.
pub fn contributors(operators: &Vec<OperatorInfo>) -> (r: Result<
    Vec<CommonwarePublicKeys>,
    OperatorError,
>)
    ensures
        operators@.len() == 0 ==> r == Err::<Vec<CommonwarePublicKeys>, OperatorError>(
            OperatorError::NoContributors,
        ),
        forall|k: int|
            first_without_keys(operators@, k) ==> r == Err::<Vec<CommonwarePublicKeys>, OperatorError>(
                OperatorError::MissingKeys(k as usize),
            ),
        r is Ok <==> operators@.len() > 0 && forall|i: int|
            0 <= i < operators@.len() ==> (#[trigger] operators@[i]).pub_keys is Some,
        r matches Ok(keys) ==> {
            &&& keys@.len() == operators@.len()
            &&& forall|i: int|
                0 <= i < operators@.len() ==> operators@[i].pub_keys == Some(#[trigger] keys@[i])
        },
{
    if operators.len() == 0 {
        return Err(OperatorError::NoContributors);
    }
    let mut keys: Vec<CommonwarePublicKeys> = Vec::new();
    let mut i: usize = 0;
    while i < operators.len()
        invariant
            0 < operators@.len(),
            i <= operators@.len(),
            keys@.len() == i,
            forall|j: int| 0 <= j < i ==> operators@[j].pub_keys == Some(#[trigger] keys@[j]),
        decreases operators@.len() - i,
    {
        match operators[i].pub_keys {
            None => {
                proof {
                    assert forall|k: int| first_without_keys(operators@, k) implies k == i by {
                        if k < i {
                            assert(operators@[k].pub_keys == Some(keys@[k]));
                        } else if k > i {
                            assert(operators@[i as int].pub_keys is Some);
                        }
                    }
                }
                return Err(OperatorError::MissingKeys(i));
            },
            Some(k) => {
                keys.push(k);
            },
        }
        i = i + 1;
    }
    proof {
        assert forall|k: int| !first_without_keys(operators@, k) by {
            if 0 <= k < operators@.len() {
                assert(operators@[k].pub_keys == Some(keys@[k]));
            }
        }
        assert forall|j: int| 0 <= j < operators@.len() implies (#[trigger] operators@[j]).pub_keys is Some by {
            assert(operators@[j].pub_keys == Some(keys@[j]));
        }
    }
    Ok(keys)
}

/// The map from G2 key to G1 key that registering the contributors `keys` in
/// order builds, a later contributor replacing an earlier one with the same
/// G2 key.
pub open spec fn contributor_map(keys: Seq<CommonwarePublicKeys>) -> Map<Seq<u8>, Seq<u8>>
    decreases keys.len(),
{
    if keys.len() == 0 {
        Map::empty()
    } else {
        contributor_map(keys.drop_last()).insert(keys.last().g2(), keys.last().g1())
    }
}

/// Whether the entries hold each G2 key once and make up exactly the map `m`.
pub open spec fn entries_form(entries: Seq<([u8; 64], [u8; 32])>, m: Map<Seq<u8>, Seq<u8>>) -> bool {
    &&& forall|i: int, j: int|
        0 <= i < j < entries.len() ==> (#[trigger] entries[i]).0@ != (#[trigger] entries[j]).0@
    &&& forall|i: int|
        0 <= i < entries.len() ==> m.contains_key((#[trigger] entries[i]).0@) && m[entries[i].0@]
            == entries[i].1@
    &&& forall|k: Seq<u8>|
        #[trigger] m.contains_key(k) ==> exists|i: int| 0 <= i < entries.len() && (#[trigger] entries[i]).0@ == k
}

/// Whether two G2 keys are the same bytes.
fn same_key(a: &[u8; 64], b: &[u8; 64]) -> (r: bool)
    ensures
        r == (a@ == b@),
{
    let mut i: usize = 0;
    while i < 64
        invariant
            i <= 64,
            a@.len() == 64,
            b@.len() == 64,
            forall|j: int| 0 <= j < i ==> a@[j] == b@[j],
        decreases 64 - i,
    {
        if a[i] != b[i] {
            return false;
        }
        i = i + 1;
    }
    assert(a@ =~= b@);
    true
}

/// The map from each contributor's G2 key to its G1 key, as entries that
/// hold each G2 key once: a later contributor replaces an earlier one with the
/// same G2 key.
pub fn contributor_key_map(keys: &Vec<CommonwarePublicKeys>) -> (entries: Vec<([u8; 64], [u8; 32])>)
    ensures
        entries_form(entries@, contributor_map(keys@)),
{
    let mut entries: Vec<([u8; 64], [u8; 32])> = Vec::new();
    let mut i: usize = 0;
    while i < keys.len()
        invariant
            i <= keys@.len(),
            entries_form(entries@, contributor_map(keys@.take(i as int))),
        decreases keys@.len() - i,
    {
        let g2 = keys[i].g2_pub_key();
        let g1 = keys[i].g1_pub_key();
        let ghost old_map = contributor_map(keys@.take(i as int));
        let ghost new_map = old_map.insert(g2@, g1@);
        proof {
            assert(keys@.take(i + 1).drop_last() =~= keys@.take(i as int));
            assert(contributor_map(keys@.take(i + 1)) == new_map);
        }
        let mut j: usize = 0;
        let mut found: bool = false;
        while j < entries.len()
            invariant_except_break
                !found,
            invariant
                j <= entries@.len(),
                forall|k: int| 0 <= k < j ==> (#[trigger] entries@[k]).0@ != g2@,
            ensures
                found ==> j < entries@.len() && entries@[j as int].0@ == g2@,
                !found ==> j == entries@.len(),
            decreases entries@.len() - j,
        {
            if same_key(&entries[j].0, &g2) {
                found = true;
                break;
            }
            j = j + 1;
        }
        let ghost before = entries@;
        if found {
            entries.set(j, (g2, g1));
            proof {
                assert forall|a: int, b: int|
                    0 <= a < b < entries@.len() implies (#[trigger] entries@[a]).0@ != (
                    #[trigger] entries@[b]).0@ by {
                    if a != j && b != j {
                        assert(before[a].0@ != before[b].0@);
                    } else if a == j {
                        assert(before[j as int].0@ != before[b].0@);
                    } else {
                        assert(before[a].0@ != before[j as int].0@);
                    }
                }
                assert forall|m: int| 0 <= m < entries@.len() implies new_map.contains_key(
                    (#[trigger] entries@[m]).0@,
                ) && new_map[entries@[m].0@] == entries@[m].1@ by {
                    if m != j {
                        if m < j {
                            assert(before[m].0@ != before[j as int].0@);
                        } else {
                            assert(before[j as int].0@ != before[m].0@);
                        }
                        assert(old_map.contains_key(before[m].0@));
                    }
                }
                assert forall|k: Seq<u8>| #[trigger] new_map.contains_key(k) implies exists|m: int|
                    0 <= m < entries@.len() && (#[trigger] entries@[m]).0@ == k by {
                    if k == g2@ {
                        assert(entries@[j as int].0@ == k);
                    } else {
                        let m = choose|m: int| 0 <= m < before.len() && (#[trigger] before[m]).0@ == k;
                        assert(entries@[m].0@ == k);
                    }
                }
            }
        } else {
            entries.push((g2, g1));
            proof {
                assert forall|a: int, b: int|
                    0 <= a < b < entries@.len() implies (#[trigger] entries@[a]).0@ != (
                    #[trigger] entries@[b]).0@ by {
                    if b < before.len() {
                        assert(before[a].0@ != before[b].0@);
                    } else {
                        assert(before[a].0@ != g2@);
                    }
                }
                assert forall|m: int| 0 <= m < entries@.len() implies new_map.contains_key(
                    (#[trigger] entries@[m]).0@,
                ) && new_map[entries@[m].0@] == entries@[m].1@ by {
                    if m < before.len() {
                        assert(before[m].0@ != g2@);
                        assert(old_map.contains_key(before[m].0@));
                    }
                }
                assert forall|k: Seq<u8>| #[trigger] new_map.contains_key(k) implies exists|m: int|
                    0 <= m < entries@.len() && (#[trigger] entries@[m]).0@ == k by {
                    if k == g2@ {
                        assert(entries@[before.len() as int].0@ == k);
                    } else {
                        let m = choose|m: int| 0 <= m < before.len() && (#[trigger] before[m]).0@ == k;
                        assert(entries@[m].0@ == k);
                    }
                }
            }
        }
        i = i + 1;
    }
    assert(keys@.take(keys@.len() as int) =~= keys@);
    entries
}

/// The socket text of an address and a port reads back as them: it is the
/// four octets' digits separated by `.`, then `:` and the port's digits; every
/// field is digits only (so the separators split the text unambiguously), each
/// octet field denotes its octet and the port field reads as the port.
pub proof fn lemma_socket_text_fields(ip: Seq<u8>, port: u16)
    requires
        ip.len() == 4,
    ensures
        forall|i: int|
            0 <= i < 4 ==> all_digits(#[trigger] decimal(ip[i] as nat)) && digits_value(
                decimal(ip[i] as nat),
            ) == ip[i],
        all_digits(decimal(port as nat)),
        port_from_text(decimal(port as nat)) == Some(port),
        socket_text(ip, port) == decimal(ip[0] as nat) + seq!['.'] + decimal(ip[1] as nat) + seq!['.']
            + decimal(ip[2] as nat) + seq!['.'] + decimal(ip[3] as nat) + seq![':'] + decimal(
            port as nat,
        ),
{
    lemma_decimal_value(ip[0] as nat);
    lemma_decimal_value(ip[1] as nat);
    lemma_decimal_value(ip[2] as nat);
    lemma_decimal_value(ip[3] as nat);
    lemma_decimal_value(port as nat);
    lemma_port_text_roundtrip(port);
    assert forall|i: int|
        0 <= i < 4 implies all_digits(#[trigger] decimal(ip[i] as nat)) && digits_value(
        decimal(ip[i] as nat),
    ) == ip[i] by {
        lemma_decimal_value(ip[i] as nat);
    }
}

/// What is known of an operator comes from its record and nothing else: its
/// address as given, no stake, its quorum as the low byte of its operator
/// index, keys that turn back into the registered ones, and the socket text
/// made of the decimal octets of its address, separated by dots, then a colon
/// and its decimal port.
pub proof fn lemma_operator_info_fields(info: OperatorInfo, address: [u8; 32], account: NcnOperatorAccount)
    requires
        describes(info, address, account),
    ensures
        info.address == address,
        info.stake == 0,
        info.quorum_number as int == account.ncn_operator_index as int % 256,
        info.pub_keys matches Some(k) && k.g1().reverse() == account.g1_pubkey.0@ && k.g2().reverse()
            == account.g2_pubkey.0@,
        info.socket matches Some(s) && s@ == decimal(account.ip_address@[0] as nat) + seq!['.']
            + decimal(account.ip_address@[1] as nat) + seq!['.'] + decimal(
            account.ip_address@[2] as nat,
        ) + seq!['.'] + decimal(account.ip_address@[3] as nat) + seq![':'] + decimal(
            account.port as nat,
        ),
{
    let x = account.ncn_operator_index;
    assert((x as u8) as u64 == x % 256) by (bit_vector);
    assert(account.g1_pubkey.0@.reverse().reverse() =~= account.g1_pubkey.0@);
    assert(account.g2_pubkey.0@.reverse().reverse() =~= account.g2_pubkey.0@);
}

/// Whether an operator is registered as a peer: it has keys and a socket.
pub open spec fn is_peer(op: OperatorInfo) -> bool {
    op.pub_keys is Some && op.socket is Some
}

/// One operator more adds exactly its own peer, at the end, when it has keys
/// and a socket, and nothing otherwise.
pub proof fn lemma_peers_push(ops: Seq<OperatorInfo>, op: OperatorInfo)
    ensures
        op.pub_keys is Some && op.socket is Some ==> peers_of(ops.push(op)) == peers_of(ops).push(
            (op.pub_keys->0.g2(), op.socket->0@),
        ),
        !(op.pub_keys is Some && op.socket is Some) ==> peers_of(ops.push(op)) == peers_of(ops),
{
    assert(ops.push(op).drop_last() =~= ops);
}

/// The peers are the operators with keys and a socket, every one of them, in
/// order, each as its G2 key and socket text.
pub proof fn lemma_peers_are_operators_with_sockets(ops: Seq<OperatorInfo>)
    ensures
        peers_of(ops) == ops.filter(|op: OperatorInfo| is_peer(op)).map_values(
            |op: OperatorInfo| (op.pub_keys->0.g2(), op.socket->0@),
        ),
        peers_of(ops).len() == ops.filter(|op: OperatorInfo| is_peer(op)).len(),
    decreases ops.len(),
{
    let pred = |op: OperatorInfo| is_peer(op);
    let f = |op: OperatorInfo| (op.pub_keys->0.g2(), op.socket->0@);
    if ops.len() == 0 {
        reveal(Seq::filter);
        assert(ops.filter(pred) =~= Seq::<OperatorInfo>::empty());
        assert(ops.filter(pred).map_values(f) =~= Seq::empty());
    } else {
        let rest = ops.drop_last();
        let op = ops.last();
        lemma_peers_are_operators_with_sockets(rest);
        assert(rest.push(op) =~= ops);
        rest.lemma_filter_push(op, pred);
        lemma_peers_push(rest, op);
        if pred(op) {
            assert(ops.filter(pred).map_values(f) =~= rest.filter(pred).map_values(f).push(f(op)));
        }
    }
}

} // verus!
