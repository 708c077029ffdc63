//! Deterministic batching and Merkle round trips on concrete values.

use ddc_settlement::merkle::{
    blake2s, create_merkle_root, leaf_index_to_mmr_size, leaf_index_to_pos, mmr_gen_proof,
    mmr_root, mmr_verify, split_to_batches, Hashable,
};
use ddc_settlement::payable::BucketPayableUsage;
use ddc_settlement::primitives::BucketUsage;

fn payable(bucket_id: u64, stored: i64) -> BucketPayableUsage {
    BucketPayableUsage {
        bucket_id,
        usage: BucketUsage {
            transferred_bytes: 1,
            stored_bytes: stored,
            number_of_puts: 2,
            number_of_gets: 3,
        },
    }
}

/// Batch splitting sorts first, so input order does not matter.
#[test]
fn split_to_batches_is_deterministic() {
    let one = vec![payable(3, 30), payable(1, 10), payable(2, 20), payable(5, 50), payable(4, 40)];
    let two = vec![payable(5, 50), payable(4, 40), payable(3, 30), payable(2, 20), payable(1, 10)];
    let batches_one = split_to_batches(&one, 2);
    let batches_two = split_to_batches(&two, 2);
    assert_eq!(batches_one, batches_two);
    assert_eq!(batches_one.len(), 3);
    assert_eq!(batches_one[0][0].bucket_id, 1);
    assert_eq!(batches_one[0][1].bucket_id, 2);
    assert_eq!(batches_one[1][0].bucket_id, 3);
    assert_eq!(batches_one[2].len(), 1);
    assert_eq!(batches_one[2][0].bucket_id, 5);
}

/// An empty input splits into no batches.
#[test]
fn split_to_batches_empty() {
    let none: Vec<BucketPayableUsage> = Vec::new();
    let batches = split_to_batches(&none, 10);
    assert_eq!(batches.len(), 0);
}

/// The root over an empty hash list is the defined zero hash.
#[test]
fn empty_merkle_root_is_zero() {
    let leaves: Vec<Vec<u8>> = Vec::new();
    let root = create_merkle_root(&leaves);
    assert_eq!(root, vec![0u8; 32]);
}

/// For a non-empty list of leaves, a generated inclusion proof verifies,
/// and flipping a single bit of the proven leaf makes verification fail.
#[test]
fn merkle_proof_round_trip() {
    let mut leaves: Vec<Vec<u8>> = Vec::new();
    for i in 0u8..5 {
        leaves.push(blake2s(&vec![i]));
    }
    let root = mmr_root(&leaves);
    for index in 0u64..5 {
        let proof = mmr_gen_proof(&leaves, index);
        let pos = leaf_index_to_pos(index);
        let size = leaf_index_to_mmr_size(4);
        let verdict = mmr_verify(&root, size, pos, &leaves[index as usize], &proof);
        assert_eq!(verdict, Some(true));

        let mut corrupted = leaves[index as usize].clone();
        corrupted[0] ^= 1;
        let verdict = mmr_verify(&root, size, pos, &corrupted, &proof);
        assert_ne!(verdict, Some(true));
    }
}

/// The digest wrapper really hashes: different inputs give different
/// 32-byte outputs, and equal inputs give equal outputs.
#[test]
fn digest_depends_on_input()  {
    let a = blake2s(&vec![1, 2, 3]);
    let b = blake2s(&vec![1, 2, 3]);
    let c = blake2s(&vec![3, 2, 1]);
    assert_eq!(a.len(), 32);
    assert_eq!(a, b);
    assert_ne!(a, c);
}

/// Payable usage hashing covers the usage fields: a changed count changes
/// the leaf digest.
#[test]
fn payable_hash_covers_usage() {
    let a = payable(1, 10);
    let mut b = a;
    b.usage.stored_bytes = 11;
    assert_ne!(a.hash(), b.hash());
    assert_eq!(a.hash(), payable(1, 10).hash());
}
