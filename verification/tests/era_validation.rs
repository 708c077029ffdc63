//! Validator quorum coordination and the payable-usage merge on concrete
//! values.

use ddc_settlement::aggregates::{BucketSubAggregate, NodeAggregate};
use ddc_settlement::payout::{skip_dac_validation_to_era, PayoutLedger};
use ddc_settlement::primitives::PayoutState;
use ddc_settlement::eras::{EraValidationStore, ValidatorRegistry, VerificationCallError};
use ddc_settlement::payable::{
    calculate_buckets_payable_usage, calculate_nodes_payable_usage, BucketPayableUsage,
};
use ddc_settlement::primitives::BucketUsage;
use ddc_settlement::pipeline::{build_payable_era_usage, PayableEraUsage};
use ddc_settlement::primitives::{
    BucketStorageUsage, EraActivity, EraValidationStatus, NodePubKey, NodeStorageUsage,
    StorageNodePubKey,
};

fn key(tag: u64) -> NodePubKey {
    NodePubKey::StoragePubKey(StorageNodePubKey { w0: tag, w1: 0, w2: 0, w3: 0 })
}

fn registry(validators: Vec<u64>) -> ValidatorRegistry {
    let stash_keys = validators.iter().map(|v| (*v, v + 1000)).collect();
    ValidatorRegistry { validator_set: validators, stash_keys }
}

const ERA: EraActivity = EraActivity { id: 5, start: 100, end: 200 };

/// Votes for one exact root pair accumulate until the quorum share of the
/// validator set is reached; then the era flips to ready for payout and
/// further votes are rejected.
#[test]
fn quorum_promotes_era_to_ready() {
    let registry = registry(vec![1, 2, 3]);
    let mut store = EraValidationStore::new();
    let payers_root = vec![7u8; 32];
    let payees_root = vec![8u8; 32];

    // threshold is 67% of 3 validators, rounded to nearest: 2 signatures
    let first = store
        .set_prepare_era_for_payout(
            &registry, 1, 9, ERA, payers_root.clone(), payees_root.clone(), 67,
        )
        .unwrap();
    assert!(!first);

    // the same validator cannot sign the same pair twice
    let replay = store.set_prepare_era_for_payout(
        &registry, 1, 9, ERA, payers_root.clone(), payees_root.clone(), 67,
    );
    assert_eq!(replay, Err(VerificationCallError::AlreadySignedEra));

    // a vote for a different pair does not count towards the first pair
    let divergent = store
        .set_prepare_era_for_payout(&registry, 2, 9, ERA, vec![1u8; 32], vec![2u8; 32], 67)
        .unwrap();
    assert!(!divergent);

    let second = store
        .set_prepare_era_for_payout(
            &registry, 3, 9, ERA, payers_root.clone(), payees_root.clone(), 67,
        )
        .unwrap();
    assert!(second);
    assert_eq!(store.entries[0].2.status, EraValidationStatus::ReadyForPayout);
    assert_eq!(store.entries[0].2.payers_merkle_root_hash, payers_root);
    assert_eq!(store.entries[0].2.start_era, 100);

    // once promoted, no further signature collection is accepted
    let late = store.set_prepare_era_for_payout(
        &registry, 2, 9, ERA, payers_root.clone(), payees_root.clone(), 67,
    );
    assert_eq!(late, Err(VerificationCallError::NotExpectedState));
}

/// A quorum on the zero-roots pair marks the era as skipped: an era
/// without activity has no payout.
#[test]
fn zero_roots_skip_payout() {
    let registry = registry(vec![1]);
    let mut store = EraValidationStore::new();
    let ready = store
        .set_prepare_era_for_payout(&registry, 1, 9, ERA, vec![0u8; 32], vec![0u8; 32], 100)
        .unwrap();
    assert!(ready);
    assert_eq!(store.entries[0].2.status, EraValidationStatus::PayoutSkipped);
}

/// An unrecognized caller cannot vote.
#[test]
fn unknown_validator_cannot_vote() {
    let registry = registry(vec![1]);
    let mut store = EraValidationStore::new();
    let vote = store.set_prepare_era_for_payout(
        &registry, 42, 9, ERA, vec![0u8; 32], vec![0u8; 32], 100,
    );
    assert_eq!(vote, Err(VerificationCallError::Unauthorized));
}

/// Skipping validation writes a skipped record carrying the whole
/// validator set, and leaves an existing record alone.
#[test]
fn skip_era_validation_writes_skipped_record() {
    let registry = registry(vec![1, 2]);
    let mut store = EraValidationStore::new();
    store.do_skip_era_validation(&registry.validator_set, 9, 5);
    assert_eq!(store.entries.len(), 1);
    assert_eq!(store.entries[0].2.status, EraValidationStatus::PayoutSkipped);
    assert_eq!(store.entries[0].2.validators[0].signers, vec![1, 2]);
    // a second skip changes nothing
    store.do_skip_era_validation(&registry.validator_set, 9, 5);
    assert_eq!(store.entries.len(), 1);
}

/// The era selected for payout is the smallest one in the wanted status.
#[test]
fn era_for_payout_is_smallest() {
    let mut store = EraValidationStore::new();
    store.do_skip_era_validation(&vec![1], 9, 30);
    store.do_skip_era_validation(&vec![1], 9, 10);
    store.do_skip_era_validation(&vec![1], 9, 20);
    store.do_skip_era_validation(&vec![1], 8, 5);
    let era = store.get_era_for_payout(9, EraValidationStatus::PayoutSkipped).unwrap();
    assert_eq!(era.id, 10);
    assert!(store.get_era_for_payout(9, EraValidationStatus::ReadyForPayout).is_none());
}

/// The three-way merge: both sides, ledger-only, and delta-only buckets.
#[test]
fn bucket_merge_three_cases() {
    let current = vec![
        BucketStorageUsage { bucket_id: 1, owner_id: 11, stored_bytes: 100 },
        BucketStorageUsage { bucket_id: 2, owner_id: 12, stored_bytes: 200 },
    ];
    let deltas = vec![
        BucketSubAggregate {
            bucket_id: 1,
            node_id: key(1),
            stored_bytes: 50,
            transferred_bytes: 500,
            number_of_puts: 5,
            number_of_gets: 6,
            aggregator: key(9),
        },
        BucketSubAggregate {
            bucket_id: 3,
            node_id: key(1),
            stored_bytes: 70,
            transferred_bytes: 700,
            number_of_puts: 7,
            number_of_gets: 8,
            aggregator: key(9),
        },
    ];
    let payable = calculate_buckets_payable_usage(&current, &deltas);
    assert_eq!(payable.len(), 3);
    // both: storage accumulates, flow quantities are per-era
    assert_eq!(payable[0].bucket_id, 1);
    assert_eq!(payable[0].usage.stored_bytes, 150);
    assert_eq!(payable[0].usage.transferred_bytes, 500);
    // ledger-only: the running balance with zero flow
    assert_eq!(payable[1].bucket_id, 2);
    assert_eq!(payable[1].usage.stored_bytes, 200);
    assert_eq!(payable[1].usage.transferred_bytes, 0);
    // delta-only: the delta as-is
    assert_eq!(payable[2].bucket_id, 3);
    assert_eq!(payable[2].usage.stored_bytes, 70);
    assert_eq!(payable[2].usage.number_of_gets, 8);
}

/// The node-side merge follows the same three-way rule.
#[test]
fn node_merge_three_cases() {
    let current = vec![NodeStorageUsage { node_key: key(1), provider_id: 21, stored_bytes: 10 }];
    let deltas = vec![
        NodeAggregate {
            node_id: key(1),
            stored_bytes: 5,
            transferred_bytes: 55,
            number_of_puts: 1,
            number_of_gets: 2,
            aggregator: key(9),
        },
        NodeAggregate {
            node_id: key(2),
            stored_bytes: 9,
            transferred_bytes: 99,
            number_of_puts: 3,
            number_of_gets: 4,
            aggregator: key(9),
        },
    ];
    let payable = calculate_nodes_payable_usage(&current, &deltas);
    assert_eq!(payable.len(), 2);
    assert_eq!(payable[0].node_key, key(1));
    assert_eq!(payable[0].usage.stored_bytes, 15);
    assert_eq!(payable[0].usage.transferred_bytes, 55);
    assert_eq!(payable[1].node_key, key(2));
    assert_eq!(payable[1].usage.stored_bytes, 9);
}

/// The billing fingerprint binds the roots and the usage total: any
/// changed input changes the digest.
#[test]
fn fingerprint_binds_inputs() {
    let payable: PayableEraUsage =
        build_payable_era_usage(9, ERA, Vec::new(), Vec::new(), 500).unwrap();
    let fp1 = payable.fingerprint();
    assert_eq!(fp1.len(), 32);
    let other_era = EraActivity { id: 6, start: 100, end: 200 };
    let payable2 = build_payable_era_usage(9, other_era, Vec::new(), Vec::new(), 500).unwrap();
    assert_ne!(fp1, payable2.fingerprint());
    // the same inputs reproduce the same fingerprint bit for bit
    let payable3 = build_payable_era_usage(9, ERA, Vec::new(), Vec::new(), 500).unwrap();
    assert_eq!(fp1, payable3.fingerprint());
}

/// The admin skip path advances the last-paid marker, synthesizes a
/// finalized report and refuses to go backwards.
#[test]
fn skip_dac_validation_advances_marker() {
    let mut eras = EraValidationStore::new();
    let mut payouts = PayoutLedger::new(1);
    let mut last_paid = std::collections::BTreeMap::new();
    let validators = vec![1, 2];

    skip_dac_validation_to_era(&mut eras, &mut payouts, &mut last_paid, &validators, 9, 5)
        .unwrap();
    assert_eq!(last_paid.get(&9), Some(&5));
    assert_eq!(payouts.get_billing_report_status(9, 5), PayoutState::Finalized);
    assert_eq!(eras.entries[0].2.status, EraValidationStatus::PayoutSkipped);

    // skipping to an era at or before the marker is refused
    let back = skip_dac_validation_to_era(&mut eras, &mut payouts, &mut last_paid, &validators, 9, 5);
    assert_eq!(back, Err(VerificationCallError::EraAlreadyPaid));
}

/// The next era to validate is the oldest one that enough aggregators
/// report as processed and that lies beyond both progress markers.
#[test]
fn era_for_validation_picks_oldest_quorum_era() {
    let store = EraValidationStore::new();
    let e = |id: u32| EraActivity { id, start: id as i64, end: id as i64 + 10 };
    // three aggregators; eras 3 and 4 reported by all, era 6 by one only
    let reported = vec![
        vec![e(3), e(4), e(6)],
        vec![e(3), e(4)],
        vec![e(3), e(4)],
    ];
    // last validated era 3, nothing paid yet: era 4 is next
    let next = store.get_era_for_validation(9, 1, 3, 0, &reported, 67, 3).unwrap();
    assert_eq!(next.id, 4);
    // era 6 lacks quorum, so beyond era 4 there is nothing to validate
    assert!(store.get_era_for_validation(9, 1, 4, 0, &reported, 67, 3).is_none());
}

/// Two validators building the payable commitment from the same records
/// in different orders commit identical roots.
#[test]
fn payable_commitment_is_deterministic() {
    let item = |id: u64| BucketPayableUsage {
        bucket_id: id,
        usage: BucketUsage {
            transferred_bytes: id,
            stored_bytes: id as i64,
            number_of_puts: 0,
            number_of_gets: 0,
        },
    };
    let one = vec![item(1), item(2), item(3)];
    let two = vec![item(3), item(1), item(2)];
    let first = build_payable_era_usage(9, ERA, one, Vec::new(), 2).unwrap();
    let second = build_payable_era_usage(9, ERA, two, Vec::new(), 2).unwrap();
    assert_eq!(first.payers_batch_roots, second.payers_batch_roots);
    assert_eq!(first.payers_root, second.payers_root);
    assert_eq!(first.fingerprint(), second.fingerprint());
}
