use ark_bn254::{Fr, G1Affine, G2Affine};
use ark_ec::{AffineRepr, CurveGroup};
use ark_serialize::CanonicalSerialize;
use orchestrator::keys::{
    check_commonware_keys, check_keys, get_commonware_keys_from_g1_g2, G1CompressedPoint,
    G2CompressedPoint, KeyError,
};
use orchestrator::operators::{
    check_quorum_info_from_accounts, contributor_key_map, contributors, quorum_info_from_accounts, registered_peers,
    NcnOperatorAccount, OperatorError, OperatorInfo,
};

fn g1_generator_on_chain() -> G1CompressedPoint {
    let mut bytes = Vec::new();
    G1Affine::generator().serialize_compressed(&mut bytes).unwrap();
    bytes.reverse();
    G1CompressedPoint(bytes.try_into().unwrap())
}

fn g2_generator_on_chain() -> G2CompressedPoint {
    let mut bytes = Vec::new();
    G2Affine::generator().serialize_compressed(&mut bytes).unwrap();
    bytes.reverse();
    G2CompressedPoint(bytes.try_into().unwrap())
}

fn account(ip: [u8; 4], port: u16, index: u64) -> NcnOperatorAccount {
    NcnOperatorAccount {
        g1_pubkey: g1_generator_on_chain(),
        g2_pubkey: g2_generator_on_chain(),
        ip_address: ip,
        port,
        ncn_operator_index: index,
    }
}

#[test]
fn keys_are_turned_into_arkworks_order() {
    let g1 = g1_generator_on_chain();
    let g2 = g2_generator_on_chain();
    assert_eq!(check_keys(&g1, &g2), None);
    let keys = get_commonware_keys_from_g1_g2(&g1, &g2);
    let checked = check_commonware_keys(&g1, &g2).unwrap();
    assert_eq!(checked.g1_pub_key(), keys.g1_pub_key());
    assert_eq!(checked.g2_pub_key(), keys.g2_pub_key());
    let mut g1_rev = g1.0;
    g1_rev.reverse();
    let mut g2_rev = g2.0.to_vec();
    g2_rev.reverse();
    assert_eq!(keys.g1_pub_key(), g1_rev);
    assert_eq!(keys.g2_pub_key().to_vec(), g2_rev);
    // the G1 generator (1, 2) compresses to x = 1, little-endian, no flags
    let mut expected = [0u8; 32];
    expected[0] = 1;
    assert_eq!(keys.g1_pub_key(), expected);
}

#[test]
fn invalid_keys_are_refused_g2_first() {
    let g1 = g1_generator_on_chain();
    let g2 = g2_generator_on_chain();
    let bad_g1 = G1CompressedPoint([0xff; 32]);
    let bad_g2 = G2CompressedPoint([0xff; 64]);
    assert_eq!(check_commonware_keys(&bad_g1, &g2).unwrap_err(), KeyError::InvalidG1);
    assert_eq!(check_commonware_keys(&g1, &bad_g2).unwrap_err(), KeyError::InvalidG2);
    assert_eq!(check_commonware_keys(&bad_g1, &bad_g2).unwrap_err(), KeyError::InvalidG2);
    assert_eq!(check_keys(&bad_g1, &g2), Some(KeyError::InvalidG1));
    assert_eq!(check_keys(&bad_g1, &bad_g2), Some(KeyError::InvalidG2));
}

#[test]
fn quorum_from_accounts() {
    let accounts = vec![
        ([1u8; 32], account([10, 0, 0, 1], 9000, 258)),
        ([2u8; 32], account([192, 168, 1, 20], 80, 3)),
    ];
    let quorum = quorum_info_from_accounts(&accounts);
    let checked = check_quorum_info_from_accounts(&accounts).unwrap();
    assert_eq!(checked.operator_count, 2);
    assert_eq!(checked.operators[1].socket, quorum.operators[1].socket);
    assert_eq!(quorum.operator_count, 2);
    assert_eq!(quorum.operators.len(), 2);
    let first = &quorum.operators[0];
    assert_eq!(first.address, [1u8; 32]);
    assert_eq!(first.stake, 0);
    assert_eq!(first.socket.as_deref(), Some("10.0.0.1:9000"));
    assert_eq!(first.quorum_number, 2);
    assert!(first.pub_keys.is_some());
    let second = &quorum.operators[1];
    assert_eq!(second.address, [2u8; 32]);
    assert_eq!(second.socket.as_deref(), Some("192.168.1.20:80"));
    assert_eq!(second.quorum_number, 3);
}

#[test]
fn quorum_fails_on_first_bad_account() {
    let mut bad = account([1, 1, 1, 1], 1, 0);
    bad.g1_pubkey = G1CompressedPoint([0xff; 32]);
    let mut worse = account([1, 1, 1, 1], 1, 0);
    worse.g2_pubkey = G2CompressedPoint([0xff; 64]);
    let accounts = vec![([0u8; 32], account([1, 2, 3, 4], 5, 6)), ([1u8; 32], bad), ([2u8; 32], worse)];
    assert_eq!(check_quorum_info_from_accounts(&accounts).unwrap_err(), KeyError::InvalidG1);
    let empty = check_quorum_info_from_accounts(&vec![]).unwrap();
    assert_eq!(empty.operator_count, 0);
}

#[test]
fn peers_and_contributors() {
    let accounts = vec![
        ([1u8; 32], account([10, 0, 0, 1], 9000, 0)),
        ([2u8; 32], account([10, 0, 0, 2], 9001, 0)),
    ];
    let mut operators = quorum_info_from_accounts(&accounts).operators;
    operators[1].socket = None;
    let peers = registered_peers(&operators).unwrap();
    assert_eq!(peers.len(), 1);
    assert_eq!(peers[0].1, "10.0.0.1:9000");
    assert_eq!(peers[0].0, operators[0].pub_keys.unwrap().g2_pub_key());
    let keys = contributors(&operators).unwrap();
    assert_eq!(keys.len(), 2);
    assert_eq!(keys[1].g1_pub_key(), operators[1].pub_keys.unwrap().g1_pub_key());
}

#[test]
fn peers_need_operators_with_keys() {
    let empty: Vec<OperatorInfo> = vec![];
    assert_eq!(registered_peers(&empty).unwrap_err(), OperatorError::NoParticipants);
    assert_eq!(contributors(&empty).unwrap_err(), OperatorError::NoContributors);
    let accounts = vec![
        ([1u8; 32], account([10, 0, 0, 1], 9000, 0)),
        ([2u8; 32], account([10, 0, 0, 2], 9001, 0)),
        ([3u8; 32], account([10, 0, 0, 3], 9002, 0)),
    ];
    let mut operators = quorum_info_from_accounts(&accounts).operators;
    operators[1].pub_keys = None;
    operators[2].pub_keys = None;
    assert_eq!(registered_peers(&operators).unwrap_err(), OperatorError::MissingKeys(1));
    assert_eq!(contributors(&operators).unwrap_err(), OperatorError::MissingKeys(1));
}

#[test]
fn contributor_map_keeps_the_last_key_per_g2() {
    let mut other_g1 = Vec::new();
    (G1Affine::generator() * Fr::from(2u64))
        .into_affine()
        .serialize_compressed(&mut other_g1)
        .unwrap();
    other_g1.reverse();
    let mut second = account([10, 0, 0, 2], 9001, 0);
    second.g1_pubkey = G1CompressedPoint(other_g1.try_into().unwrap());
    let accounts = vec![([1u8; 32], account([10, 0, 0, 1], 9000, 0)), ([2u8; 32], second)];
    let operators = quorum_info_from_accounts(&accounts).operators;
    let keys = contributors(&operators).unwrap();
    let entries = contributor_key_map(&keys);
    assert_eq!(entries.len(), 1);
    assert_eq!(entries[0].0, keys[0].g2_pub_key());
    assert_eq!(entries[0].1, keys[1].g1_pub_key());
    assert_ne!(keys[0].g1_pub_key(), keys[1].g1_pub_key());
    let single = contributor_key_map(&keys[..1].to_vec());
    assert_eq!(single, vec![(keys[0].g2_pub_key(), keys[0].g1_pub_key())]);
}
