//! Challenge recomputation, hex keys and consensus-error reporting on
//! concrete values.

use ddc_settlement::challenge::{
    evaluate_merkle_challenge, find_random_merkle_node_ids, get_hash_from_merkle_path, leaf_hash,
    ChallengeAggregateResponse, ChallengeLeaf, ChallengeProof,
};
use ddc_settlement::eras::ValidatorRegistry;
use ddc_settlement::merkle::create_merkle_root;
use ddc_settlement::ocw::{emit_consensus_errors, OCWError, VerificationEvent};
use ddc_settlement::payable::{decode_hex, hex_of_bytes, node_key_from_hex};
use ddc_settlement::primitives::{NodePubKey, StorageNodePubKey};

fn leaf(record: u8) -> ChallengeLeaf {
    ChallengeLeaf {
        record_id: vec![record],
        request_type: vec![1],
        bucket_id: 4,
        stored_bytes: 100,
        transferred_bytes: 50,
    }
}

/// The root recomputed from a partial proof equals the aggregator's
/// traversed root exactly when they were built from the same data.
#[test]
fn merkle_path_challenge_decides() {
    let leaves = vec![leaf(1), leaf(2)];
    let leaf_hashes: Vec<Vec<u8>> = leaves.iter().map(|l| leaf_hash(l, false)).collect();
    let leaf_root = create_merkle_root(&leaf_hashes);
    let sibling = vec![7u8; 32];
    // the tree root merges the leaf root with the fetched sibling
    let expected_root = create_merkle_root(&vec![leaf_root, sibling.clone()]);

    let response = ChallengeAggregateResponse {
        proofs: vec![ChallengeProof { leafs: leaves, path: vec![sibling] }],
    };
    let recomputed = get_hash_from_merkle_path(&response, false);
    assert_eq!(recomputed, expected_root);
    assert!(evaluate_merkle_challenge(&response, &expected_root, false));
    assert!(!evaluate_merkle_challenge(&response, &vec![0u8; 32], false));
}

/// The sampled Merkle node identifiers are distinct and within the
/// tree's levels, and no more than requested.
#[test]
fn random_node_ids_are_bounded_and_distinct() {
    let ids = find_random_merkle_node_ids(3, 30, 42);
    assert!(ids.len() <= 3);
    for (i, a) in ids.iter().enumerate() {
        assert!(*a <= 64);
        for b in ids.iter().skip(i + 1) {
            assert_ne!(a, b);
        }
    }
}

/// Hex encoding and decoding of a node key round-trip.
#[test]
fn node_key_hex_round_trip() {
    let key = NodePubKey::StoragePubKey(StorageNodePubKey {
        w0: 0x0102030405060708,
        w1: 0,
        w2: 0xffff,
        w3: 9,
    });
    let hex = key.get_hex();
    assert_eq!(hex.len(), 64);
    let parsed = node_key_from_hex(&hex.as_bytes().to_vec()).unwrap();
    assert_eq!(parsed, key);

    // the usual prefixed form parses too
    let prefixed = format!("0x{}", hex);
    let parsed = node_key_from_hex(&prefixed.as_bytes().to_vec()).unwrap();
    assert_eq!(parsed, key);

    // a stray character is rejected
    let mut broken = hex.into_bytes();
    broken[10] = b'x';
    assert!(node_key_from_hex(&broken).is_err());
}

/// The hex primitives agree with known renderings.
#[test]
fn hex_primitives_exact() {
    assert_eq!(hex_of_bytes(&vec![0x00, 0xab, 0x1f]), "00ab1f");
    assert_eq!(decode_hex(&b"00ab1f".to_vec()), Ok(vec![0x00, 0xab, 0x1f]));
    assert_eq!(decode_hex(&b"AB".to_vec()), Ok(vec![0xab]));
    assert!(decode_hex(&b"abc".to_vec()).is_err());
    assert!(decode_hex(&b"zz".to_vec()).is_err());
}

/// Each reported consensus error becomes one event attributed to the
/// reporting validator; an unrecognized reporter is rejected.
#[test]
fn consensus_errors_become_events() {
    let registry = ValidatorRegistry { validator_set: vec![5], stash_keys: vec![(5, 6)] };
    let errors = vec![
        OCWError::FailedToFetchDacNodes,
        OCWError::BillingReportDoesNotExist { cluster_id: 9, era_id: 5 },
    ];
    let mut events: Vec<VerificationEvent> = Vec::new();
    emit_consensus_errors(&registry, 5, errors, &mut events).unwrap();
    assert_eq!(
        events,
        vec![
            VerificationEvent::FailedToFetchDacNodes { validator: 5 },
            VerificationEvent::BillingReportDoesNotExist { cluster_id: 9, era_id: 5, validator: 5 },
        ]
    );

    let rejected = emit_consensus_errors(&registry, 7, Vec::new(), &mut events);
    assert!(rejected.is_err());
    assert_eq!(events.len(), 2);
}
