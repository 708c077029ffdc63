//! The billing report lifecycle end to end: strict phase order, batch
//! idempotency, fee deduction and reward distribution.

use std::collections::BTreeMap;

use ddc_settlement::eras::{EraValidation, EraValidationStore, ValidatorRegistry};
use ddc_settlement::merkle::{create_merkle_root, mmr_gen_proof, mmr_root, Hashable};
use ddc_settlement::payable::{BucketPayableUsage, NodePayableUsage};
use ddc_settlement::payout::{
    CustomerCharger, Currency, PayoutCallError, PayoutEvent, PayoutLedger,
};
use ddc_settlement::primitives::{
    AccountId, BucketUsage, ClusterFeesParams, ClusterPricingParams, EraValidationStatus, MMRProof,
    NodePubKey, NodeUsage, PayoutState, StorageNodePubKey, AVG_SECONDS_MONTH,
};

const CLUSTER: u64 = 7;
const ERA: u32 = 5;
const VALIDATOR: AccountId = 100;

struct FullCharger;

impl CustomerCharger for FullCharger {
    fn charge_content_owner(
        &mut self,
        _cluster_id: u64,
        _bucket_id: u64,
        _customer_id: AccountId,
        _vault: AccountId,
        _usage: &BucketUsage,
        amount: u128,
    ) -> Result<u128, ()> {
        Ok(amount)
    }

    fn inc_total_node_usage(
        &mut self,
        _cluster_id: u64,
        _node_key: NodePubKey,
        _usage: &NodeUsage,
    ) -> Result<(), ()> {
        Ok(())
    }
}

struct Bank {
    balances: BTreeMap<AccountId, u128>,
}

impl Bank {
    fn with(vault: AccountId, amount: u128) -> Bank {
        let mut balances = BTreeMap::new();
        balances.insert(vault, amount);
        Bank { balances }
    }
}

impl Currency for Bank {
    fn free_balance(&self, who: AccountId) -> u128 {
        *self.balances.get(&who).unwrap_or(&0)
    }

    fn minimum_balance(&self) -> u128 {
        1
    }

    fn transfer(&mut self, from: AccountId, to: AccountId, amount: u128) -> Result<(), ()> {
        let have = *self.balances.get(&from).unwrap_or(&0);
        if have < amount {
            return Err(());
        }
        self.balances.insert(from, have - amount);
        *self.balances.entry(to).or_insert(0) += amount;
        Ok(())
    }
}

fn registry() -> ValidatorRegistry {
    ValidatorRegistry { validator_set: vec![VALIDATOR], stash_keys: vec![(VALIDATOR, 200)] }
}

fn node_key(tag: u64) -> NodePubKey {
    NodePubKey::StoragePubKey(StorageNodePubKey { w0: tag, w1: 0, w2: 0, w3: 0 })
}

fn pricing() -> ClusterPricingParams {
    ClusterPricingParams {
        unit_per_mb_stored: 1_000_000,
        unit_per_mb_streamed: 1_000_000,
        unit_per_put_request: 100,
        unit_per_get_request: 10,
    }
}

/// Payers of the single real batch and the committed roots over three
/// declared batches, with the inclusion proof for batch zero.
struct ChargingSetup {
    payers: Vec<(AccountId, u64, BucketUsage)>,
    payers_root: Vec<u8>,
    proof0: MMRProof,
}

fn charging_setup() -> ChargingSetup {
    let usage = BucketUsage {
        transferred_bytes: 2 * 1_048_576,
        stored_bytes: 1_048_576,
        number_of_puts: 3,
        number_of_gets: 5,
    };
    let payers = vec![(501u64, 9u64, usage)];
    let leaf_hashes: Vec<Vec<u8>> = payers
        .iter()
        .map(|p| BucketPayableUsage { bucket_id: p.1, usage: p.2 }.hash())
        .collect();
    let batch0_root = create_merkle_root(&leaf_hashes);
    // two more declared batches with arbitrary contents
    let filler1 = create_merkle_root(&vec![vec![1u8; 32]]);
    let filler2 = create_merkle_root(&vec![vec![2u8; 32]]);
    let batch_roots = vec![batch0_root, filler1, filler2];
    let payers_root = mmr_root(&batch_roots);
    let proof0 = MMRProof { proof: mmr_gen_proof(&batch_roots, 0) };
    ChargingSetup { payers, payers_root, proof0 }
}

fn era_store(payers_root: Vec<u8>, payees_root: Vec<u8>) -> EraValidationStore {
    EraValidationStore {
        entries: vec![(
            CLUSTER,
            ERA,
            EraValidation {
                validators: Vec::new(),
                start_era: 0,
                end_era: AVG_SECONDS_MONTH,
                payers_merkle_root_hash: payers_root,
                payees_merkle_root_hash: payees_root,
                status: EraValidationStatus::PayoutInProgress,
            },
        )],
    }
}

/// Starting the charging phase before the billing report exists fails
/// with the missing-report error; submitting the same batch twice fails
/// the second time.
#[test]
fn charging_before_report_and_duplicate_batch() {
    let registry = registry();
    let mut ledger = PayoutLedger::new(1);
    let mut events: Vec<PayoutEvent> = Vec::new();

    let early = ledger.begin_charging_customers(&registry, VALIDATOR, CLUSTER, ERA, 2, &mut events);
    assert_eq!(early, Err(PayoutCallError::BillingReportDoesNotExist));

    ledger
        .begin_billing_report(&registry, VALIDATOR, CLUSTER, ERA, 0, AVG_SECONDS_MONTH, &mut events)
        .unwrap();
    ledger
        .begin_charging_customers(&registry, VALIDATOR, CLUSTER, ERA, 2, &mut events)
        .unwrap();
    assert_eq!(ledger.get_billing_report_status(CLUSTER, ERA), PayoutState::ChargingCustomers);

    let setup = charging_setup();
    let eras = era_store(setup.payers_root.clone(), vec![0u8; 32]);
    let mut charger = FullCharger;

    let first = ledger.send_charging_customers_batch(
        &registry,
        &eras,
        VALIDATOR,
        CLUSTER,
        ERA,
        0,
        &setup.payers,
        &setup.proof0,
        &pricing(),
        &mut charger,
        &mut events,
    );
    assert_eq!(first, Ok(()));

    let second = ledger.send_charging_customers_batch(
        &registry,
        &eras,
        VALIDATOR,
        CLUSTER,
        ERA,
        0,
        &setup.payers,
        &setup.proof0,
        &pricing(),
        &mut charger,
        &mut events,
    );
    assert_eq!(second, Err(PayoutCallError::BatchIndexAlreadyProcessed));
}

/// A batch whose proof does not match the committed root is rejected.
#[test]
fn invalid_batch_proof_rejected() {
    let registry = registry();
    let mut ledger = PayoutLedger::new(1);
    let mut events: Vec<PayoutEvent> = Vec::new();
    ledger
        .begin_billing_report(&registry, VALIDATOR, CLUSTER, ERA, 0, AVG_SECONDS_MONTH, &mut events)
        .unwrap();
    ledger
        .begin_charging_customers(&registry, VALIDATOR, CLUSTER, ERA, 2, &mut events)
        .unwrap();
    let setup = charging_setup();
    // commit a different root than the batch was built for
    let eras = era_store(vec![9u8; 32], vec![0u8; 32]);
    let mut charger = FullCharger;
    let sent = ledger.send_charging_customers_batch(
        &registry,
        &eras,
        VALIDATOR,
        CLUSTER,
        ERA,
        0,
        &setup.payers,
        &setup.proof0,
        &pricing(),
        &mut charger,
        &mut events,
    );
    assert_eq!(sent, Err(PayoutCallError::BatchValidationFailed));
}

/// Calls out of the expected predecessor state fail with the state error
/// and leave the report untouched.
#[test]
fn out_of_order_calls_rejected() {
    let registry = registry();
    let mut ledger = PayoutLedger::new(1);
    let mut events: Vec<PayoutEvent> = Vec::new();
    let mut bank = Bank::with(1, 0);
    let fees = ClusterFeesParams {
        treasury_share: 0,
        validators_share: 0,
        cluster_reserve_share: 0,
    };
    ledger
        .begin_billing_report(&registry, VALIDATOR, CLUSTER, ERA, 0, AVG_SECONDS_MONTH, &mut events)
        .unwrap();

    // charging has not started: closing it is out of order
    let end = ledger.end_charging_customers(
        &registry, VALIDATOR, CLUSTER, ERA, &fees, 2, 3, &vec![], &mut bank, &mut events,
    );
    assert_eq!(end, Err(PayoutCallError::NotExpectedState));

    // rewarding cannot start before customers were charged with fees
    let rew = ledger.begin_rewarding_providers(
        &registry, VALIDATOR, CLUSTER, ERA, 0, NodeUsage {
            transferred_bytes: 0,
            stored_bytes: 0,
            number_of_puts: 0,
            number_of_gets: 0,
        }, &mut events,
    );
    assert_eq!(rew, Err(PayoutCallError::NotExpectedState));

    // a repeated report for the same era is out of order too
    let again = ledger.begin_billing_report(
        &registry, VALIDATOR, CLUSTER, ERA, 0, AVG_SECONDS_MONTH, &mut events,
    );
    assert_eq!(again, Err(PayoutCallError::NotExpectedState));

    // an unrecognized caller is rejected before anything else
    let outsider = ledger.begin_charging_customers(&registry, 999, CLUSTER, ERA, 0, &mut events);
    assert_eq!(outsider, Err(PayoutCallError::Unauthorised));

    assert_eq!(ledger.get_billing_report_status(CLUSTER, ERA), PayoutState::Initialized);
}

/// Closing a phase fails while any declared batch is missing, and
/// succeeds once the processed set is exactly the declared range.
#[test]
fn batches_missed_until_contiguous() {
    let registry = registry();
    let mut ledger = PayoutLedger::new(1);
    let mut events: Vec<PayoutEvent> = Vec::new();
    let mut bank = Bank::with(1, 10_000_000);
    let fees = ClusterFeesParams {
        treasury_share: 100_000_000_000_000_000,
        validators_share: 0,
        cluster_reserve_share: 0,
    };
    ledger
        .begin_billing_report(&registry, VALIDATOR, CLUSTER, ERA, 0, AVG_SECONDS_MONTH, &mut events)
        .unwrap();
    // a single declared batch, index zero
    ledger
        .begin_charging_customers(&registry, VALIDATOR, CLUSTER, ERA, 0, &mut events)
        .unwrap();

    // nothing processed yet: closing must fail
    let end = ledger.end_charging_customers(
        &registry, VALIDATOR, CLUSTER, ERA, &fees, 2, 3, &vec![], &mut bank, &mut events,
    );
    assert_eq!(end, Err(PayoutCallError::BatchesMissed));

    // build a batch committed as the only batch of the era
    let usage = BucketUsage {
        transferred_bytes: 2 * 1_048_576,
        stored_bytes: 0,
        number_of_puts: 0,
        number_of_gets: 0,
    };
    let payers = vec![(501u64, 9u64, usage)];
    let leaf_hashes: Vec<Vec<u8>> = payers
        .iter()
        .map(|p| BucketPayableUsage { bucket_id: p.1, usage: p.2 }.hash())
        .collect();
    let batch_roots = vec![create_merkle_root(&leaf_hashes)];
    let payers_root = mmr_root(&batch_roots);
    let proof0 = MMRProof { proof: mmr_gen_proof(&batch_roots, 0) };
    let eras = era_store(payers_root, vec![0u8; 32]);
    let mut charger = FullCharger;
    ledger
        .send_charging_customers_batch(
            &registry,
            &eras,
            VALIDATOR,
            CLUSTER,
            ERA,
            0,
            &payers,
            &proof0,
            &pricing(),
            &mut charger,
            &mut events,
        )
        .unwrap();

    // the charge of 2 MiB streamed at 1_000_000 per MiB
    let report = ledger.active_billing_reports.get(&(CLUSTER, ERA)).unwrap();
    assert_eq!(report.total_customer_charge.transfer, 2_000_000);

    // now the range [0, 0] is complete and the phase closes; the 10%
    // treasury share is deducted and the remainder scaled down
    let end = ledger.end_charging_customers(
        &registry, VALIDATOR, CLUSTER, ERA, &fees, 2, 3, &vec![], &mut bank, &mut events,
    );
    assert_eq!(end, Ok(()));
    let report = ledger.active_billing_reports.get(&(CLUSTER, ERA)).unwrap();
    assert_eq!(report.state, PayoutState::CustomersChargedWithFees);
    assert_eq!(report.total_customer_charge.transfer, 1_800_000);
    assert_eq!(bank.free_balance(2), 200_000);
}

/// A full era lifecycle reaches the finalized terminal state.
#[test]
fn full_lifecycle_to_finalized() {
    let registry = registry();
    let mut ledger = PayoutLedger::new(1);
    let mut events: Vec<PayoutEvent> = Vec::new();
    let mut charger = FullCharger;
    let mut bank = Bank::with(1, 10_000_000);
    let no_fees = ClusterFeesParams {
        treasury_share: 0,
        validators_share: 0,
        cluster_reserve_share: 0,
    };

    // payers side: one batch
    let usage = BucketUsage {
        transferred_bytes: 1_048_576,
        stored_bytes: 0,
        number_of_puts: 0,
        number_of_gets: 0,
    };
    let payers = vec![(501u64, 9u64, usage)];
    let payer_hashes: Vec<Vec<u8>> = payers
        .iter()
        .map(|p| BucketPayableUsage { bucket_id: p.1, usage: p.2 }.hash())
        .collect();
    let payer_batch_roots = vec![create_merkle_root(&payer_hashes)];
    let payers_root = mmr_root(&payer_batch_roots);
    let payers_proof = MMRProof { proof: mmr_gen_proof(&payer_batch_roots, 0) };

    // payees side: one batch with one provider taking the whole share
    let node_usage = NodeUsage {
        transferred_bytes: 1_048_576,
        stored_bytes: 0,
        number_of_puts: 0,
        number_of_gets: 0,
    };
    let payees = vec![(601u64, node_key(1), node_usage)];
    let payee_hashes: Vec<Vec<u8>> = payees
        .iter()
        .map(|p| NodePayableUsage { node_key: p.1, usage: p.2 }.hash())
        .collect();
    let payee_batch_roots = vec![create_merkle_root(&payee_hashes)];
    let payees_root = mmr_root(&payee_batch_roots);
    let payees_proof = MMRProof { proof: mmr_gen_proof(&payee_batch_roots, 0) };

    let eras = era_store(payers_root, payees_root);

    ledger
        .begin_billing_report(&registry, VALIDATOR, CLUSTER, ERA, 0, AVG_SECONDS_MONTH, &mut events)
        .unwrap();
    ledger
        .begin_charging_customers(&registry, VALIDATOR, CLUSTER, ERA, 0, &mut events)
        .unwrap();
    ledger
        .send_charging_customers_batch(
            &registry, &eras, VALIDATOR, CLUSTER, ERA, 0, &payers, &payers_proof, &pricing(),
            &mut charger, &mut events,
        )
        .unwrap();
    ledger
        .end_charging_customers(
            &registry, VALIDATOR, CLUSTER, ERA, &no_fees, 2, 3, &vec![], &mut bank, &mut events,
        )
        .unwrap();
    ledger
        .begin_rewarding_providers(&registry, VALIDATOR, CLUSTER, ERA, 0, node_usage, &mut events)
        .unwrap();
    ledger
        .send_rewarding_providers_batch(
            &registry, &eras, VALIDATOR, CLUSTER, ERA, 0, &payees, &payees_proof, &mut charger,
            &mut bank, &mut events,
        )
        .unwrap();

    let report = ledger.active_billing_reports.get(&(CLUSTER, ERA)).unwrap();
    // the provider holds the whole transferred share: it earns the full
    // 1 MiB streaming charge
    assert_eq!(report.total_distributed_reward, 1_000_000);
    assert_eq!(bank.free_balance(601), 1_000_000);

    ledger
        .end_rewarding_providers(&registry, VALIDATOR, CLUSTER, ERA, &mut events)
        .unwrap();
    ledger.end_billing_report(&registry, VALIDATOR, CLUSTER, ERA, &mut events).unwrap();
    let report = ledger.active_billing_reports.get(&(CLUSTER, ERA)).unwrap();
    assert_eq!(report.state, PayoutState::Finalized);
    assert!(report.charging_processed_batches.is_empty());
    assert!(events.contains(&PayoutEvent::BillingReportFinalized { cluster_id: CLUSTER, era: ERA }));
}

/// Closing the rewarding phase with a declared batch missing fails, and a
/// distribution shortfall beyond the dust tolerance is reported as an
/// explicit event rather than an error.
#[test]
fn rewarding_gap_and_underdistribution() {
    let registry = registry();
    let mut ledger = PayoutLedger::new(1);
    let mut events: Vec<PayoutEvent> = Vec::new();
    let mut charger = FullCharger;
    // an underfunded vault: far less than the expected reward
    let mut bank = Bank::with(1, 500_000);
    let no_fees = ClusterFeesParams {
        treasury_share: 0,
        validators_share: 0,
        cluster_reserve_share: 0,
    };

    let usage = BucketUsage {
        transferred_bytes: 1_048_576,
        stored_bytes: 0,
        number_of_puts: 0,
        number_of_gets: 0,
    };
    let payers = vec![(501u64, 9u64, usage)];
    let payer_hashes: Vec<Vec<u8>> = payers
        .iter()
        .map(|p| BucketPayableUsage { bucket_id: p.1, usage: p.2 }.hash())
        .collect();
    let payer_batch_roots = vec![create_merkle_root(&payer_hashes)];
    let payers_root = mmr_root(&payer_batch_roots);
    let payers_proof = MMRProof { proof: mmr_gen_proof(&payer_batch_roots, 0) };

    let node_usage = NodeUsage {
        transferred_bytes: 1_048_576,
        stored_bytes: 0,
        number_of_puts: 0,
        number_of_gets: 0,
    };
    let payees = vec![(601u64, node_key(1), node_usage)];
    let payee_hashes: Vec<Vec<u8>> = payees
        .iter()
        .map(|p| NodePayableUsage { node_key: p.1, usage: p.2 }.hash())
        .collect();
    let payee_batch_roots = vec![create_merkle_root(&payee_hashes)];
    let payees_root = mmr_root(&payee_batch_roots);
    let payees_proof = MMRProof { proof: mmr_gen_proof(&payee_batch_roots, 0) };
    let eras = era_store(payers_root, payees_root);

    ledger
        .begin_billing_report(&registry, VALIDATOR, CLUSTER, ERA, 0, AVG_SECONDS_MONTH, &mut events)
        .unwrap();
    ledger
        .begin_charging_customers(&registry, VALIDATOR, CLUSTER, ERA, 0, &mut events)
        .unwrap();
    ledger
        .send_charging_customers_batch(
            &registry, &eras, VALIDATOR, CLUSTER, ERA, 0, &payers, &payers_proof, &pricing(),
            &mut charger, &mut events,
        )
        .unwrap();
    ledger
        .end_charging_customers(
            &registry, VALIDATOR, CLUSTER, ERA, &no_fees, 2, 3, &vec![], &mut bank, &mut events,
        )
        .unwrap();
    ledger
        .begin_rewarding_providers(&registry, VALIDATOR, CLUSTER, ERA, 0, node_usage, &mut events)
        .unwrap();

    // no batch processed yet: the phase cannot close
    let end = ledger.end_rewarding_providers(&registry, VALIDATOR, CLUSTER, ERA, &mut events);
    assert_eq!(end, Err(PayoutCallError::BatchesMissed));

    ledger
        .send_rewarding_providers_batch(
            &registry, &eras, VALIDATOR, CLUSTER, ERA, 0, &payees, &payees_proof, &mut charger,
            &mut bank, &mut events,
        )
        .unwrap();

    // the vault could only cover part of the expected 1_000_000 reward
    let report = ledger.active_billing_reports.get(&(CLUSTER, ERA)).unwrap();
    assert_eq!(report.total_distributed_reward, 499_999);
    assert!(events.iter().any(|e| matches!(
        e,
        PayoutEvent::NotDistributedReward { expected_reward: 1_000_000, .. }
    )));

    // closing the phase reports the overall shortfall and still moves on
    ledger
        .end_rewarding_providers(&registry, VALIDATOR, CLUSTER, ERA, &mut events)
        .unwrap();
    assert!(events.iter().any(|e| matches!(
        e,
        PayoutEvent::NotDistributedOverallReward { expected_reward: 1_000_000, .. }
    )));
    assert_eq!(ledger.get_billing_report_status(CLUSTER, ERA), PayoutState::ProvidersRewarded);
}

/// A charger that can only cover part of each requested charge.
struct HalfCharger;

impl CustomerCharger for HalfCharger {
    fn charge_content_owner(
        &mut self,
        _cluster_id: u64,
        _bucket_id: u64,
        _customer_id: AccountId,
        _vault: AccountId,
        _usage: &BucketUsage,
        amount: u128,
    ) -> Result<u128, ()> {
        Ok(amount / 2)
    }

    fn inc_total_node_usage(
        &mut self,
        _cluster_id: u64,
        _node_key: NodePubKey,
        _usage: &NodeUsage,
    ) -> Result<(), ()> {
        Ok(())
    }
}

/// A customer whose balance falls short is charged what it has: the
/// shortfall becomes recorded debt to the exact token, the booked totals
/// scale to what was collected, and the batch still succeeds.
#[test]
fn shortfall_becomes_exact_debt() {
    let registry = registry();
    let mut ledger = PayoutLedger::new(1);
    let mut events: Vec<PayoutEvent> = Vec::new();
    let mut charger = HalfCharger;

    let usage = BucketUsage {
        transferred_bytes: 2 * 1_048_576,
        stored_bytes: 0,
        number_of_puts: 0,
        number_of_gets: 0,
    };
    let payers = vec![(501u64, 9u64, usage)];
    let leaf_hashes: Vec<Vec<u8>> = payers
        .iter()
        .map(|p| BucketPayableUsage { bucket_id: p.1, usage: p.2 }.hash())
        .collect();
    let batch_roots = vec![create_merkle_root(&leaf_hashes)];
    let payers_root = mmr_root(&batch_roots);
    let proof0 = MMRProof { proof: mmr_gen_proof(&batch_roots, 0) };
    let eras = era_store(payers_root, vec![0u8; 32]);

    ledger
        .begin_billing_report(&registry, VALIDATOR, CLUSTER, ERA, 0, AVG_SECONDS_MONTH, &mut events)
        .unwrap();
    ledger
        .begin_charging_customers(&registry, VALIDATOR, CLUSTER, ERA, 0, &mut events)
        .unwrap();
    ledger
        .send_charging_customers_batch(
            &registry, &eras, VALIDATOR, CLUSTER, ERA, 0, &payers, &proof0, &pricing(),
            &mut charger, &mut events,
        )
        .unwrap();

    // requested 2_000_000, collected half: the missing million is debt
    assert_eq!(ledger.debtor_customers.get(&(CLUSTER, 501)), Some(&1_000_000));
    // the booked charge is scaled by the collected-to-requested ratio
    let report = ledger.active_billing_reports.get(&(CLUSTER, ERA)).unwrap();
    assert_eq!(report.total_customer_charge.transfer, 1_000_000);
    assert!(events.iter().any(|e| matches!(
        e,
        PayoutEvent::Indebted { customer_id: 501, amount: 1_000_000, .. }
    )));
    assert!(events.iter().any(|e| matches!(
        e,
        PayoutEvent::ChargeFailed { charged: 1_000_000, expected_to_charge: 2_000_000, .. }
    )));

    // a second shortfall of the same customer accumulates its debt
    ledger
        .begin_billing_report(&registry, VALIDATOR, CLUSTER, ERA + 1, 0, AVG_SECONDS_MONTH, &mut events)
        .unwrap();
    ledger
        .begin_charging_customers(&registry, VALIDATOR, CLUSTER, ERA + 1, 0, &mut events)
        .unwrap();
    let eras2 = {
        let mut store = era_store(mmr_root(&batch_roots), vec![0u8; 32]);
        store.entries[0].1 = ERA + 1;
        store
    };
    ledger
        .send_charging_customers_batch(
            &registry, &eras2, VALIDATOR, CLUSTER, ERA + 1, 0, &payers, &proof0, &pricing(),
            &mut charger, &mut events,
        )
        .unwrap();
    assert_eq!(ledger.debtor_customers.get(&(CLUSTER, 501)), Some(&2_000_000));
}
