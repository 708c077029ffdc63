//! The billing report state machine: a per-cluster-era record that moves
//! through strictly ordered payout phases, tracks batch completion
//! idempotently, accumulates customer charges, deducts protocol fees and
//! distributes provider rewards — every transition gated on the exact
//! predecessor state and a recognized validator caller.

use std::collections::BTreeMap;

use vstd::prelude::*;

use crate::arith::PERQUINTILL_ACCURACY;
use crate::charge::{
    apply_fees_to_charge, charge_after_fees_spec, charge_total, charge_total_spec,
};
use crate::eras::ValidatorRegistry;
use crate::primitives::{
    AccountId, BatchIndex, BucketId, BucketUsage, ClusterFeesParams, ClusterId, CustomerCharge,
    DdcEra, EraValidationStatus, NodeUsage, PayoutError, PayoutState, MAX_PAYOUT_BATCH_COUNT,
    MAX_PAYOUT_BATCH_SIZE, MILLICENTS,
};

verus! {

broadcast use vstd::laws_cmp::group_laws_cmp;

/// Errors of the payout calls.
#[derive(PartialEq, Eq, Structural, Clone, Copy, Debug)]
pub enum PayoutCallError {
    BillingReportDoesNotExist,
    NotExpectedState,
    Unauthorised,
    BatchIndexAlreadyProcessed,
    BatchIndexIsOutOfRange,
    BatchesMissed,
    BatchIndexOverflow,
    BoundedVecOverflow,
    ArithmeticOverflow,
    NotExpectedClusterState,
    BatchSizeIsOutOfBounds,
    ScoreRetrievalError,
    BadRequest,
    BatchValidationFailed,
    /// A transfer was refused by the currency collaborator.
    TransferFailed,
}

/// Events the payout calls emit for operator visibility.
#[derive(PartialEq, Eq, Structural, Clone, Copy, Debug)]
pub enum PayoutEvent {
    BillingReportInitialized { cluster_id: ClusterId, era: DdcEra },
    ChargingStarted { cluster_id: ClusterId, era: DdcEra },
    Charged {
        cluster_id: ClusterId,
        era: DdcEra,
        batch_index: BatchIndex,
        customer_id: AccountId,
        bucket_id: BucketId,
        amount: u128,
    },
    ChargeFailed {
        cluster_id: ClusterId,
        era: DdcEra,
        batch_index: BatchIndex,
        customer_id: AccountId,
        bucket_id: BucketId,
        charged: u128,
        expected_to_charge: u128,
    },
    Indebted {
        cluster_id: ClusterId,
        era: DdcEra,
        batch_index: BatchIndex,
        customer_id: AccountId,
        bucket_id: BucketId,
        amount: u128,
    },
    ChargeError {
        cluster_id: ClusterId,
        era: DdcEra,
        batch_index: BatchIndex,
        customer_id: AccountId,
        amount: u128,
    },
    ChargingFinished { cluster_id: ClusterId, era: DdcEra },
    TreasuryFeesCollected { cluster_id: ClusterId, era: DdcEra, amount: u128 },
    ClusterReserveFeesCollected { cluster_id: ClusterId, era: DdcEra, amount: u128 },
    ValidatorFeesCollected { cluster_id: ClusterId, era: DdcEra, amount: u128 },
    RewardingStarted { cluster_id: ClusterId, era: DdcEra },
    Rewarded {
        cluster_id: ClusterId,
        era: DdcEra,
        batch_index: BatchIndex,
        node_provider_id: AccountId,
        rewarded: u128,
        expected_to_reward: u128,
    },
    NotDistributedReward {
        cluster_id: ClusterId,
        era: DdcEra,
        batch_index: BatchIndex,
        node_provider_id: AccountId,
        expected_reward: u128,
        distributed_reward: u128,
    },
    NotDistributedOverallReward {
        cluster_id: ClusterId,
        era: DdcEra,
        expected_reward: u128,
        total_distributed_reward: u128,
    },
    RewardingFinished { cluster_id: ClusterId, era: DdcEra },
    BillingReportFinalized { cluster_id: ClusterId, era: DdcEra },
}

/// The ledger of customer balances that charging draws on. The settlement
/// treats it as an external collaborator: nothing is assumed of a charge's
/// outcome beyond what the returned value says.
pub trait CustomerCharger {
    /// Charges the owner of a bucket up to `amount` and returns what was
    /// actually withdrawn into the vault.
    fn charge_content_owner(
        &mut self,
        cluster_id: ClusterId,
        bucket_id: BucketId,
        customer_id: AccountId,
        vault: AccountId,
        usage: &BucketUsage,
        amount: u128,
    ) -> Result<u128, ()>;

    /// Records verified node usage against a node's running totals.
    fn inc_total_node_usage(
        &mut self,
        cluster_id: ClusterId,
        node_key: crate::primitives::NodePubKey,
        usage: &NodeUsage,
    ) -> Result<(), ()>;
}

/// The token ledger that fee deduction and reward distribution move
/// balances through. An external collaborator; nothing is assumed of its
/// balances beyond what each call returns.
pub trait Currency {
    /// The spendable balance of an account.
    fn free_balance(&self, who: AccountId) -> u128;

    /// The existential minimum an account must retain.
    fn minimum_balance(&self) -> u128;

    /// Transfers tokens between accounts, allowing the source to be
    /// emptied.
    fn transfer(&mut self, from: AccountId, to: AccountId, amount: u128) -> Result<(), ()>;
}

/// On-ledger record of one cluster-era's payout progress.
#[verifier::ext_equal]
pub struct BillingReport {
    pub state: PayoutState,
    pub vault: AccountId,
    pub start_era: i64,
    pub end_era: i64,
    pub total_customer_charge: CustomerCharge,
    pub total_distributed_reward: u128,
    pub total_node_usage: NodeUsage,
    pub charging_max_batch_index: BatchIndex,
    pub charging_processed_batches: std::collections::BTreeSet<BatchIndex>,
    pub rewarding_max_batch_index: BatchIndex,
    pub rewarding_processed_batches: std::collections::BTreeSet<BatchIndex>,
}

/// The payout pallet's on-ledger state: active billing reports and the
/// accumulated debts of customers whose balance fell short.
pub struct PayoutLedger {
    /// The account that holds charged funds until they are distributed.
    pub pallet_account: AccountId,
    pub active_billing_reports: BTreeMap<(ClusterId, DdcEra), BillingReport>,
    pub debtor_customers: BTreeMap<(ClusterId, AccountId), u128>,
}

impl PayoutLedger {
    /// A fresh payout ledger whose vault is the given account.
    pub fn new(pallet_account: AccountId) -> (r: PayoutLedger)
        ensures
            r.pallet_account == pallet_account,
            r.active_billing_reports@ == Map::<(ClusterId, DdcEra), BillingReport>::empty(),
            r.debtor_customers@ == Map::<(ClusterId, AccountId), u128>::empty(),
    {
        PayoutLedger {
            pallet_account,
            active_billing_reports: BTreeMap::new(),
            debtor_customers: BTreeMap::new(),
        }
    }

    /// The phase of a report, `NotInitialized` when no report exists.
    pub fn get_billing_report_status(&self, cluster_id: ClusterId, era: DdcEra) -> (r: PayoutState)
        ensures
            r == if self.active_billing_reports@.contains_key((cluster_id, era)) {
                self.active_billing_reports@[(cluster_id, era)].state
            } else {
                PayoutState::NotInitialized
            },
    {
        match self.active_billing_reports.get(&(cluster_id, era)) {
            Some(report) => report.state,
            None => PayoutState::NotInitialized,
        }
    }

    /// Opens a billing report for an era: only a recognized validator may
    /// do so, the report must not exist yet, and the era bounds must be a
    /// well-formed interval.
    pub fn begin_billing_report(
        &mut self,
        registry: &ValidatorRegistry,
        caller: AccountId,
        cluster_id: ClusterId,
        era: DdcEra,
        start_era: i64,
        end_era: i64,
        events: &mut Vec<PayoutEvent>,
    ) -> (r: Result<(), PayoutCallError>)
        requires
            reports_wf(old(self).active_billing_reports@),
        ensures
            reports_wf(final(self).active_billing_reports@),
            r == Result::<(), PayoutCallError>::Err(PayoutCallError::Unauthorised) <==> !registry.is_ocw_validator_spec(caller),
            registry.is_ocw_validator_spec(caller) ==> (r == Result::<(), PayoutCallError>::Err(
                PayoutCallError::NotExpectedState,
            ) <==> old(self).active_billing_reports@.contains_key((cluster_id, era))),
            registry.is_ocw_validator_spec(caller) && !old(
                self,
            ).active_billing_reports@.contains_key((cluster_id, era)) ==> (r
                == Result::<(), PayoutCallError>::Err(PayoutCallError::BadRequest) <==> !(start_era
                < end_era && end_era - start_era <= i64::MAX)),
            registry.is_ocw_validator_spec(caller) && !old(
                self,
            ).active_billing_reports@.contains_key((cluster_id, era)) && start_era < end_era
                && end_era - start_era <= i64::MAX ==> r is Ok,
            r is Err ==> final(self).active_billing_reports@ == old(
                self,
            ).active_billing_reports@ && final(self).debtor_customers@ == old(
                self,
            ).debtor_customers@ && final(events)@ == old(events)@,
            r is Ok ==> ({
                let rep = final(self).active_billing_reports@[(cluster_id, era)];
                &&& final(self).active_billing_reports@ == old(
                    self,
                ).active_billing_reports@.insert((cluster_id, era), rep)
                &&& rep.state == PayoutState::Initialized
                &&& rep.vault == old(self).pallet_account
                &&& rep.start_era == start_era && rep.end_era == end_era
                &&& rep.total_customer_charge == CustomerCharge::spec_zero()
                &&& rep.total_distributed_reward == 0
                &&& rep.total_node_usage == NodeUsage::spec_zero()
                &&& rep.charging_max_batch_index == 0 && rep.rewarding_max_batch_index == 0
                &&& rep.charging_processed_batches@ == Set::<BatchIndex>::empty()
                &&& rep.rewarding_processed_batches@ == Set::<BatchIndex>::empty()
                &&& final(self).debtor_customers@ == old(self).debtor_customers@
                &&& final(events)@ == old(events)@.push(
                    PayoutEvent::BillingReportInitialized { cluster_id, era },
                )
            }),
    {
        if !registry.is_ocw_validator(caller) {
            return Err(PayoutCallError::Unauthorised);
        }
        if self.active_billing_reports.contains_key(&(cluster_id, era)) {
            return Err(PayoutCallError::NotExpectedState);
        }
        let interval_ok: bool = start_era < end_era && (end_era as i128 - start_era as i128)
            <= i64::MAX as i128;
        if !interval_ok {
            return Err(PayoutCallError::BadRequest);
        }
        let report = BillingReport {
            state: PayoutState::Initialized,
            vault: self.pallet_account,
            start_era,
            end_era,
            total_customer_charge: CustomerCharge::zero(),
            total_distributed_reward: 0,
            total_node_usage: NodeUsage::zero(),
            charging_max_batch_index: 0,
            charging_processed_batches: std::collections::BTreeSet::new(),
            rewarding_max_batch_index: 0,
            rewarding_processed_batches: std::collections::BTreeSet::new(),
        };
        self.active_billing_reports.insert((cluster_id, era), report);
        events.push(PayoutEvent::BillingReportInitialized { cluster_id, era });
        Ok(())
    }

    /// Starts the charging phase: the report must be freshly initialized,
    /// and the declared number of batches must fit the batch counter.
    pub fn begin_charging_customers(
        &mut self,
        registry: &ValidatorRegistry,
        caller: AccountId,
        cluster_id: ClusterId,
        era: DdcEra,
        max_batch_index: BatchIndex,
        events: &mut Vec<PayoutEvent>,
    ) -> (r: Result<(), PayoutCallError>)
        requires
            reports_wf(old(self).active_billing_reports@),
        ensures
            reports_wf(final(self).active_billing_reports@),
            r == Result::<(), PayoutCallError>::Err(PayoutCallError::Unauthorised) <==> !registry.is_ocw_validator_spec(caller),
            registry.is_ocw_validator_spec(caller) ==> (r == Result::<(), PayoutCallError>::Err(
                PayoutCallError::BatchIndexOverflow,
            ) <==> max_batch_index >= MAX_PAYOUT_BATCH_COUNT),
            registry.is_ocw_validator_spec(caller) && max_batch_index < MAX_PAYOUT_BATCH_COUNT
                ==> (r == Result::<(), PayoutCallError>::Err(
                PayoutCallError::BillingReportDoesNotExist,
            ) <==> !old(self).active_billing_reports@.contains_key((cluster_id, era))),
            registry.is_ocw_validator_spec(caller) && max_batch_index < MAX_PAYOUT_BATCH_COUNT
                && old(self).active_billing_reports@.contains_key((cluster_id, era)) ==> (r
                == Result::<(), PayoutCallError>::Err(PayoutCallError::NotExpectedState) <==> old(
                self,
            ).active_billing_reports@[(cluster_id, era)].state != PayoutState::Initialized),
            registry.is_ocw_validator_spec(caller) && max_batch_index < MAX_PAYOUT_BATCH_COUNT
                && old(self).active_billing_reports@.contains_key((cluster_id, era)) && old(
                self,
            ).active_billing_reports@[(cluster_id, era)].state == PayoutState::Initialized ==> r
                is Ok,
            r is Err ==> final(self).active_billing_reports@ == old(
                self,
            ).active_billing_reports@ && final(self).debtor_customers@ == old(
                self,
            ).debtor_customers@ && final(events)@ == old(events)@,
            r is Ok ==> ({
                let old_rep = old(self).active_billing_reports@[(cluster_id, era)];
                let rep = final(self).active_billing_reports@[(cluster_id, era)];
                &&& final(self).active_billing_reports@ == old(
                    self,
                ).active_billing_reports@.insert((cluster_id, era), rep)
                &&& rep == BillingReport {
                    state: PayoutState::ChargingCustomers,
                    charging_max_batch_index: max_batch_index,
                    ..old_rep
                }
                &&& old_rep.state.rank() <= rep.state.rank()
                &&& final(self).debtor_customers@ == old(self).debtor_customers@
                &&& final(events)@ == old(events)@.push(
                    PayoutEvent::ChargingStarted { cluster_id, era },
                )
            }),
    {
        if !registry.is_ocw_validator(caller) {
            return Err(PayoutCallError::Unauthorised);
        }
        if max_batch_index >= MAX_PAYOUT_BATCH_COUNT {
            return Err(PayoutCallError::BatchIndexOverflow);
        }
        let report = match self.active_billing_reports.remove(&(cluster_id, era)) {
            Some(report) => report,
            None => {
                return Err(PayoutCallError::BillingReportDoesNotExist);
            },
        };
        if !state_eq(report.state, PayoutState::Initialized) {
            let state = report.state;
            self.active_billing_reports.insert((cluster_id, era), report);
            proof {
                lemma_reinsert_same(
                    old(self).active_billing_reports@,
                    self.active_billing_reports@,
                    (cluster_id, era),
                );
            }
            return Err(PayoutCallError::NotExpectedState);
        }
        let updated = BillingReport {
            state: PayoutState::ChargingCustomers,
            charging_max_batch_index: max_batch_index,
            ..report
        };
        self.active_billing_reports.insert((cluster_id, era), updated);
        events.push(PayoutEvent::ChargingStarted { cluster_id, era });
        proof {
            lemma_reinsert_same(
                old(self).active_billing_reports@,
                self.active_billing_reports@,
                (cluster_id, era),
            );
        }
        Ok(())
    }
}

/// Whether a processed-batch set covers exactly the declared contiguous
/// range of batch indices.
pub open spec fn batches_complete(s: Set<BatchIndex>, max_batch_index: BatchIndex) -> bool {
    &&& s.len() == max_batch_index + 1
    &&& forall|i: BatchIndex| i <= max_batch_index ==> s.contains(i)
}

/// Checks that the processed-batch set is exactly the contiguous range up
/// to the declared maximum index; any gap is a hard failure.
pub fn validate_batches(
    batches: &std::collections::BTreeSet<BatchIndex>,
    max_batch_index: BatchIndex,
) -> (r: Result<(), PayoutCallError>)
    ensures
        r is Ok <==> batches_complete(batches@, max_batch_index),
        r is Err ==> r->Err_0 == PayoutCallError::BatchesMissed,
{
    if batches.is_empty() {
        proof {
            assert(batches@.len() == 0);
        }
        return Err(PayoutCallError::BatchesMissed);
    }
    if batches.len() != (max_batch_index as usize) + 1 {
        return Err(PayoutCallError::BatchesMissed);
    }
    let mut i: u16 = 0;
    while i <= max_batch_index
        invariant
            i <= max_batch_index,
            batches@.len() == max_batch_index + 1,
            forall|k: BatchIndex| k < i ==> batches@.contains(k),
        decreases max_batch_index as int + 1 - i,
    {
        if !batches.contains(&i) {
            return Err(PayoutCallError::BatchesMissed);
        }
        if i == max_batch_index {
            proof {
                assert(forall|k: BatchIndex|
                    k <= max_batch_index ==> k < i || k == i ==> batches@.contains(k));
            }
            return Ok(());
        }
        i = i + 1;
    }
    proof {
        assert(false);
    }
    Err(PayoutCallError::BatchesMissed)
}

/// Law: a complete processed set is exactly the contiguous range of
/// declared batch indices, given that only declared indices ever enter
/// it — which every batch submission enforces before inserting.
pub proof fn lemma_batches_complete_exact(s: Set<BatchIndex>, max_batch_index: BatchIndex)
    requires
        batches_complete(s, max_batch_index),
        forall|i: BatchIndex| s.contains(i) ==> i <= max_batch_index,
    ensures
        s =~= Set::new(|i: BatchIndex| i <= max_batch_index),
{
}

/// The fee each share takes of the collected total: the exact fraction
/// applied to the sum of the four charge components.
pub open spec fn fee_amount_spec(share: int, total_charge: CustomerCharge) -> int {
    crate::arith::perquintill_mul_spec(share, charge_total_spec(total_charge))
}

/// The events closing the charging phase emits: the phase end, then one
/// collection event per fee share that took a positive amount.
pub open spec fn fee_events_spec(
    cluster_id: ClusterId,
    era: DdcEra,
    total_charge: CustomerCharge,
    fees: ClusterFeesParams,
) -> Seq<PayoutEvent> {
    let treasury = fee_amount_spec(fees.treasury_share as int, total_charge);
    let reserve = fee_amount_spec(fees.cluster_reserve_share as int, total_charge);
    let validators = fee_amount_spec(fees.validators_share as int, total_charge);
    seq![PayoutEvent::ChargingFinished { cluster_id, era }] + (if treasury > 0 {
        seq![
            PayoutEvent::TreasuryFeesCollected { cluster_id, era, amount: treasury as u128 },
        ]
    } else {
        Seq::empty()
    }) + (if reserve > 0 {
        seq![
            PayoutEvent::ClusterReserveFeesCollected {
                cluster_id,
                era,
                amount: reserve as u128,
            },
        ]
    } else {
        Seq::empty()
    }) + (if validators > 0 {
        seq![
            PayoutEvent::ValidatorFeesCollected { cluster_id, era, amount: validators as u128 },
        ]
    } else {
        Seq::empty()
    })
}

impl PayoutLedger {
    /// Whether the charging phase has processed its whole declared range.
    pub fn all_customer_batches_processed(&self, cluster_id: ClusterId, era: DdcEra) -> (r: bool)
        ensures
            r == (self.active_billing_reports@.contains_key((cluster_id, era))
                && batches_complete(
                self.active_billing_reports@[(cluster_id, era)].charging_processed_batches@,
                self.active_billing_reports@[(cluster_id, era)].charging_max_batch_index,
            )),
    {
        let report = match self.active_billing_reports.get(&(cluster_id, era)) {
            Some(report) => report,
            None => {
                return false;
            },
        };
        match validate_batches(&report.charging_processed_batches, report.charging_max_batch_index) {
            Ok(_) => true,
            Err(_) => false,
        }
    }

    /// Whether the rewarding phase has processed its whole declared range.
    pub fn all_provider_batches_processed(&self, cluster_id: ClusterId, era: DdcEra) -> (r: bool)
        ensures
            r == (self.active_billing_reports@.contains_key((cluster_id, era))
                && batches_complete(
                self.active_billing_reports@[(cluster_id, era)].rewarding_processed_batches@,
                self.active_billing_reports@[(cluster_id, era)].rewarding_max_batch_index,
            )),
    {
        let report = match self.active_billing_reports.get(&(cluster_id, era)) {
            Some(report) => report,
            None => {
                return false;
            },
        };
        match validate_batches(
            &report.rewarding_processed_batches,
            report.rewarding_max_batch_index,
        ) {
            Ok(_) => true,
            Err(_) => false,
        }
    }

    /// The lowest charging batch index not yet processed, if any.
    pub fn get_next_customer_batch_for_payment(&self, cluster_id: ClusterId, era: DdcEra) -> (r:
        Result<Option<BatchIndex>, PayoutError>)
        ensures
            r is Err <==> !self.active_billing_reports@.contains_key((cluster_id, era)),
            r is Err ==> r->Err_0 == PayoutError::BillingReportDoesNotExist,
            r is Ok ==> ({
                let rep = self.active_billing_reports@[(cluster_id, era)];
                match r->Ok_0 {
                    Some(i) => i <= rep.charging_max_batch_index
                        && !rep.charging_processed_batches@.contains(i) && forall|k: BatchIndex|
                        k < i ==> rep.charging_processed_batches@.contains(k),
                    None => forall|k: BatchIndex|
                        k <= rep.charging_max_batch_index
                            ==> rep.charging_processed_batches@.contains(k),
                }
            }),
    {
        let report = match self.active_billing_reports.get(&(cluster_id, era)) {
            Some(report) => report,
            None => {
                return Err(PayoutError::BillingReportDoesNotExist);
            },
        };
        let max = report.charging_max_batch_index;
        let mut i: u16 = 0;
        while i <= max
            invariant
                i <= max,
                max == report.charging_max_batch_index,
                self.active_billing_reports@.contains_key((cluster_id, era)),
                report == self.active_billing_reports@[(cluster_id, era)],
                forall|k: BatchIndex| k < i ==> report.charging_processed_batches@.contains(k),
            decreases max as int + 1 - i,
        {
            if !report.charging_processed_batches.contains(&i) {
                return Ok(Some(i));
            }
            if i == max {
                return Ok(None);
            }
            i = i + 1;
        }
        proof {
            assert(false);
        }
        Ok(None)
    }

    /// The lowest rewarding batch index not yet processed, if any.
    pub fn get_next_provider_batch_for_payment(&self, cluster_id: ClusterId, era: DdcEra) -> (r:
        Result<Option<BatchIndex>, PayoutError>)
        ensures
            r is Err <==> !self.active_billing_reports@.contains_key((cluster_id, era)),
            r is Err ==> r->Err_0 == PayoutError::BillingReportDoesNotExist,
            r is Ok ==> ({
                let rep = self.active_billing_reports@[(cluster_id, era)];
                match r->Ok_0 {
                    Some(i) => i <= rep.rewarding_max_batch_index
                        && !rep.rewarding_processed_batches@.contains(i) && forall|k: BatchIndex|
                        k < i ==> rep.rewarding_processed_batches@.contains(k),
                    None => forall|k: BatchIndex|
                        k <= rep.rewarding_max_batch_index
                            ==> rep.rewarding_processed_batches@.contains(k),
                }
            }),
    {
        let report = match self.active_billing_reports.get(&(cluster_id, era)) {
            Some(report) => report,
            None => {
                return Err(PayoutError::BillingReportDoesNotExist);
            },
        };
        let max = report.rewarding_max_batch_index;
        let mut i: u16 = 0;
        while i <= max
            invariant
                i <= max,
                max == report.rewarding_max_batch_index,
                self.active_billing_reports@.contains_key((cluster_id, era)),
                report == self.active_billing_reports@[(cluster_id, era)],
                forall|k: BatchIndex| k < i ==> report.rewarding_processed_batches@.contains(k),
            decreases max as int + 1 - i,
        {
            if !report.rewarding_processed_batches.contains(&i) {
                return Ok(Some(i));
            }
            if i == max {
                return Ok(None);
            }
            i = i + 1;
        }
        proof {
            assert(false);
        }
        Ok(None)
    }

    /// Closes the charging phase: every declared batch must have been
    /// processed; the protocol fee shares are deducted from the collected
    /// total and transferred out of the vault, and what remains of the
    /// charge components is scaled down to the distributable remainder.
    /// A transfer failure leaves earlier transfers with the currency
    /// collaborator but the on-ledger report unchanged.
    #[verifier::rlimit(30)]
    pub fn end_charging_customers<C: Currency>(
        &mut self,
        registry: &ValidatorRegistry,
        caller: AccountId,
        cluster_id: ClusterId,
        era: DdcEra,
        fees: &ClusterFeesParams,
        treasury_account: AccountId,
        reserve_account: AccountId,
        stakers: &Vec<(AccountId, u64)>,
        currency: &mut C,
        events: &mut Vec<PayoutEvent>,
    ) -> (r: Result<(), PayoutCallError>)
        requires
            reports_wf(old(self).active_billing_reports@),
            fees.treasury_share <= PERQUINTILL_ACCURACY,
            fees.validators_share <= PERQUINTILL_ACCURACY,
            fees.cluster_reserve_share <= PERQUINTILL_ACCURACY,
        ensures
            reports_wf(final(self).active_billing_reports@),
            r == Result::<(), PayoutCallError>::Err(PayoutCallError::Unauthorised) <==> !registry.is_ocw_validator_spec(caller),
            registry.is_ocw_validator_spec(caller) ==> (r == Result::<(), PayoutCallError>::Err(
                PayoutCallError::BillingReportDoesNotExist,
            ) <==> !old(self).active_billing_reports@.contains_key((cluster_id, era))),
            registry.is_ocw_validator_spec(caller) && old(
                self,
            ).active_billing_reports@.contains_key((cluster_id, era)) ==> (r
                == Result::<(), PayoutCallError>::Err(PayoutCallError::NotExpectedState) <==> old(
                self,
            ).active_billing_reports@[(cluster_id, era)].state != PayoutState::ChargingCustomers),
            registry.is_ocw_validator_spec(caller) && old(
                self,
            ).active_billing_reports@.contains_key((cluster_id, era)) && old(
                self,
            ).active_billing_reports@[(cluster_id, era)].state == PayoutState::ChargingCustomers
                ==> (r == Result::<(), PayoutCallError>::Err(PayoutCallError::BatchesMissed)
                <==> !batches_complete(
                old(self).active_billing_reports@[(cluster_id, era)].charging_processed_batches@,
                old(self).active_billing_reports@[(cluster_id, era)].charging_max_batch_index,
            )),
            registry.is_ocw_validator_spec(caller) && old(
                self,
            ).active_billing_reports@.contains_key((cluster_id, era)) && old(
                self,
            ).active_billing_reports@[(cluster_id, era)].state == PayoutState::ChargingCustomers
                && batches_complete(
                old(self).active_billing_reports@[(cluster_id, era)].charging_processed_batches@,
                old(self).active_billing_reports@[(cluster_id, era)].charging_max_batch_index,
            ) ==> ({
                let total = old(self).active_billing_reports@[(cluster_id, era)].total_customer_charge;
                // past the gates, only an overflowing total or a refused
                // transfer can stop the call; with nothing to transfer,
                // success is owed
                &&& (r == Result::<(), PayoutCallError>::Err(PayoutCallError::ArithmeticOverflow)
                    <==> charge_total_spec(total) > u128::MAX)
                &&& (charge_total_spec(total) <= u128::MAX ==> r is Ok || r
                    == Result::<(), PayoutCallError>::Err(PayoutCallError::TransferFailed))
                &&& (charge_total_spec(total) <= u128::MAX && fee_amount_spec(
                    fees.treasury_share as int,
                    total,
                ) == 0 && fee_amount_spec(fees.cluster_reserve_share as int, total) == 0
                    && fee_amount_spec(fees.validators_share as int, total) == 0 ==> r is Ok)
            }),
            r is Err ==> final(self).active_billing_reports@ == old(
                self,
            ).active_billing_reports@ && final(self).debtor_customers@ == old(
                self,
            ).debtor_customers@,
            r is Ok ==> ({
                let old_rep = old(self).active_billing_reports@[(cluster_id, era)];
                let rep = final(self).active_billing_reports@[(cluster_id, era)];
                &&& charge_total_spec(old_rep.total_customer_charge) <= u128::MAX
                &&& final(self).active_billing_reports@ == old(
                    self,
                ).active_billing_reports@.insert((cluster_id, era), rep)
                &&& rep == BillingReport {
                    state: PayoutState::CustomersChargedWithFees,
                    total_customer_charge: charge_after_fees_spec(
                        old_rep.total_customer_charge,
                        *fees,
                    ),
                    ..old_rep
                }
                &&& old_rep.state.rank() <= rep.state.rank()
                &&& final(self).debtor_customers@ == old(self).debtor_customers@
                &&& final(events)@ == old(events)@ + fee_events_spec(
                    cluster_id,
                    era,
                    old_rep.total_customer_charge,
                    *fees,
                )
            }),
    {
        if !registry.is_ocw_validator(caller) {
            return Err(PayoutCallError::Unauthorised);
        }
        let report = match self.active_billing_reports.get(&(cluster_id, era)) {
            Some(report) => report,
            None => {
                return Err(PayoutCallError::BillingReportDoesNotExist);
            },
        };
        if !state_eq(report.state, PayoutState::ChargingCustomers) {
            return Err(PayoutCallError::NotExpectedState);
        }
        if let Err(e) = validate_batches(
            &report.charging_processed_batches,
            report.charging_max_batch_index,
        ) {
            return Err(e);
        }
        let total_customer_charge = match charge_total(&report.total_customer_charge) {
            Some(total) => total,
            None => {
                return Err(PayoutCallError::ArithmeticOverflow);
            },
        };
        let vault = report.vault;

        let treasury_fee = crate::arith::perquintill_mul(fees.treasury_share, total_customer_charge);
        let validators_fee = crate::arith::perquintill_mul(
            fees.validators_share,
            total_customer_charge,
        );
        let cluster_reserve_fee = crate::arith::perquintill_mul(
            fees.cluster_reserve_share,
            total_customer_charge,
        );

        let ghost total_charge_before = report.total_customer_charge;
        let mut pending_events: Vec<PayoutEvent> = Vec::new();
        pending_events.push(PayoutEvent::ChargingFinished { cluster_id, era });

        if treasury_fee > 0 {
            if currency.transfer(vault, treasury_account, treasury_fee).is_err() {
                return Err(PayoutCallError::TransferFailed);
            }
            pending_events.push(
                PayoutEvent::TreasuryFeesCollected { cluster_id, era, amount: treasury_fee },
            );
        }
        if cluster_reserve_fee > 0 {
            if currency.transfer(vault, reserve_account, cluster_reserve_fee).is_err() {
                return Err(PayoutCallError::TransferFailed);
            }
            pending_events.push(
                PayoutEvent::ClusterReserveFeesCollected {
                    cluster_id,
                    era,
                    amount: cluster_reserve_fee,
                },
            );
        }
        if validators_fee > 0 {
            if charge_validator_fees(currency, validators_fee, vault, stakers).is_err() {
                return Err(PayoutCallError::TransferFailed);
            }
            pending_events.push(
                PayoutEvent::ValidatorFeesCollected { cluster_id, era, amount: validators_fee },
            );
        }

        proof {
            assert(pending_events@ =~= fee_events_spec(
                cluster_id,
                era,
                total_charge_before,
                *fees,
            ));
        }
        let report = match self.active_billing_reports.remove(&(cluster_id, era)) {
            Some(report) => report,
            None => {
                proof {
                    assert(false);
                }
                return Err(PayoutCallError::BillingReportDoesNotExist);
            },
        };
        let scaled = apply_fees_to_charge(&report.total_customer_charge, fees);
        let updated = BillingReport {
            state: PayoutState::CustomersChargedWithFees,
            total_customer_charge: scaled,
            ..report
        };
        self.active_billing_reports.insert((cluster_id, era), updated);
        let ghost flushed = pending_events@;
        let mut k: usize = 0;
        while k < pending_events.len()
            invariant
                k <= pending_events@.len(),
                pending_events@ == flushed,
                events@ == old(events)@ + flushed.take(k as int),
            decreases pending_events@.len() - k,
        {
            events.push(pending_events[k]);
            proof {
                assert(events@ =~= old(events)@ + flushed.take(k + 1));
            }
            k = k + 1;
        }
        proof {
            assert(flushed.take(flushed.len() as int) =~= flushed);
            lemma_reinsert_same(
                old(self).active_billing_reports@,
                self.active_billing_reports@,
                (cluster_id, era),
            );
        }
        Ok(())
    }

    /// Starts the rewarding phase: the customers must have been charged
    /// with fees deducted, and the agreed cluster-wide usage total becomes
    /// the denominator of every provider's proportional share.
    pub fn begin_rewarding_providers(
        &mut self,
        registry: &ValidatorRegistry,
        caller: AccountId,
        cluster_id: ClusterId,
        era: DdcEra,
        max_batch_index: BatchIndex,
        total_node_usage: NodeUsage,
        events: &mut Vec<PayoutEvent>,
    ) -> (r: Result<(), PayoutCallError>)
        requires
            reports_wf(old(self).active_billing_reports@),
        ensures
            reports_wf(final(self).active_billing_reports@),
            r == Result::<(), PayoutCallError>::Err(PayoutCallError::Unauthorised) <==> !registry.is_ocw_validator_spec(caller),
            registry.is_ocw_validator_spec(caller) ==> (r == Result::<(), PayoutCallError>::Err(
                PayoutCallError::BatchIndexOverflow,
            ) <==> max_batch_index >= MAX_PAYOUT_BATCH_COUNT),
            registry.is_ocw_validator_spec(caller) && max_batch_index < MAX_PAYOUT_BATCH_COUNT
                ==> (r == Result::<(), PayoutCallError>::Err(
                PayoutCallError::BillingReportDoesNotExist,
            ) <==> !old(self).active_billing_reports@.contains_key((cluster_id, era))),
            registry.is_ocw_validator_spec(caller) && max_batch_index < MAX_PAYOUT_BATCH_COUNT
                && old(self).active_billing_reports@.contains_key((cluster_id, era)) ==> (r
                == Result::<(), PayoutCallError>::Err(PayoutCallError::NotExpectedState) <==> old(
                self,
            ).active_billing_reports@[(cluster_id, era)].state
                != PayoutState::CustomersChargedWithFees),
            registry.is_ocw_validator_spec(caller) && max_batch_index < MAX_PAYOUT_BATCH_COUNT
                && old(self).active_billing_reports@.contains_key((cluster_id, era)) && old(
                self,
            ).active_billing_reports@[(cluster_id, era)].state
                == PayoutState::CustomersChargedWithFees ==> r is Ok,
            r is Err ==> final(self).active_billing_reports@ == old(
                self,
            ).active_billing_reports@ && final(self).debtor_customers@ == old(
                self,
            ).debtor_customers@ && final(events)@ == old(events)@,
            r is Ok ==> ({
                let old_rep = old(self).active_billing_reports@[(cluster_id, era)];
                let rep = final(self).active_billing_reports@[(cluster_id, era)];
                &&& final(self).active_billing_reports@ == old(
                    self,
                ).active_billing_reports@.insert((cluster_id, era), rep)
                &&& rep == BillingReport {
                    state: PayoutState::RewardingProviders,
                    rewarding_max_batch_index: max_batch_index,
                    total_node_usage: total_node_usage,
                    ..old_rep
                }
                &&& old_rep.state.rank() <= rep.state.rank()
                &&& final(self).debtor_customers@ == old(self).debtor_customers@
                &&& final(events)@ == old(events)@.push(
                    PayoutEvent::RewardingStarted { cluster_id, era },
                )
            }),
    {
        if !registry.is_ocw_validator(caller) {
            return Err(PayoutCallError::Unauthorised);
        }
        if max_batch_index >= MAX_PAYOUT_BATCH_COUNT {
            return Err(PayoutCallError::BatchIndexOverflow);
        }
        let report = match self.active_billing_reports.remove(&(cluster_id, era)) {
            Some(report) => report,
            None => {
                return Err(PayoutCallError::BillingReportDoesNotExist);
            },
        };
        if !state_eq(report.state, PayoutState::CustomersChargedWithFees) {
            self.active_billing_reports.insert((cluster_id, era), report);
            proof {
                lemma_reinsert_same(
                    old(self).active_billing_reports@,
                    self.active_billing_reports@,
                    (cluster_id, era),
                );
            }
            return Err(PayoutCallError::NotExpectedState);
        }
        let updated = BillingReport {
            state: PayoutState::RewardingProviders,
            rewarding_max_batch_index: max_batch_index,
            total_node_usage,
            ..report
        };
        self.active_billing_reports.insert((cluster_id, era), updated);
        events.push(PayoutEvent::RewardingStarted { cluster_id, era });
        proof {
            lemma_reinsert_same(
                old(self).active_billing_reports@,
                self.active_billing_reports@,
                (cluster_id, era),
            );
        }
        Ok(())
    }

    /// Closes the rewarding phase: every declared batch must have been
    /// processed; a shortfall of distributed rewards beyond the dust
    /// tolerance is reported as an explicit under-distribution event.
    pub fn end_rewarding_providers(
        &mut self,
        registry: &ValidatorRegistry,
        caller: AccountId,
        cluster_id: ClusterId,
        era: DdcEra,
        events: &mut Vec<PayoutEvent>,
    ) -> (r: Result<(), PayoutCallError>)
        requires
            reports_wf(old(self).active_billing_reports@),
        ensures
            reports_wf(final(self).active_billing_reports@),
            r == Result::<(), PayoutCallError>::Err(PayoutCallError::Unauthorised) <==> !registry.is_ocw_validator_spec(caller),
            registry.is_ocw_validator_spec(caller) ==> (r == Result::<(), PayoutCallError>::Err(
                PayoutCallError::BillingReportDoesNotExist,
            ) <==> !old(self).active_billing_reports@.contains_key((cluster_id, era))),
            registry.is_ocw_validator_spec(caller) && old(
                self,
            ).active_billing_reports@.contains_key((cluster_id, era)) ==> (r
                == Result::<(), PayoutCallError>::Err(PayoutCallError::NotExpectedState) <==> old(
                self,
            ).active_billing_reports@[(cluster_id, era)].state != PayoutState::RewardingProviders),
            registry.is_ocw_validator_spec(caller) && old(
                self,
            ).active_billing_reports@.contains_key((cluster_id, era)) && old(
                self,
            ).active_billing_reports@[(cluster_id, era)].state == PayoutState::RewardingProviders
                ==> (r == Result::<(), PayoutCallError>::Err(PayoutCallError::BatchesMissed)
                <==> !batches_complete(
                old(self).active_billing_reports@[(cluster_id, era)].rewarding_processed_batches@,
                old(self).active_billing_reports@[(cluster_id, era)].rewarding_max_batch_index,
            )),
            registry.is_ocw_validator_spec(caller) && old(
                self,
            ).active_billing_reports@.contains_key((cluster_id, era)) && old(
                self,
            ).active_billing_reports@[(cluster_id, era)].state == PayoutState::RewardingProviders
                && batches_complete(
                old(self).active_billing_reports@[(cluster_id, era)].rewarding_processed_batches@,
                old(self).active_billing_reports@[(cluster_id, era)].rewarding_max_batch_index,
            ) ==> (r == Result::<(), PayoutCallError>::Err(PayoutCallError::ArithmeticOverflow)
                <==> charge_total_spec(
                old(self).active_billing_reports@[(cluster_id, era)].total_customer_charge,
            ) > u128::MAX) && (charge_total_spec(
                old(self).active_billing_reports@[(cluster_id, era)].total_customer_charge,
            ) <= u128::MAX ==> r is Ok),
            r is Err ==> final(self).active_billing_reports@ == old(
                self,
            ).active_billing_reports@ && final(self).debtor_customers@ == old(
                self,
            ).debtor_customers@ && final(events)@ == old(events)@,
            r is Ok ==> ({
                let old_rep = old(self).active_billing_reports@[(cluster_id, era)];
                let rep = final(self).active_billing_reports@[(cluster_id, era)];
                let expected = charge_total_spec(old_rep.total_customer_charge);
                let distributed = old_rep.total_distributed_reward as int;
                let shortfall_event = distributed > expected || expected - distributed > MILLICENTS;
                &&& expected <= u128::MAX
                &&& final(self).active_billing_reports@ == old(
                    self,
                ).active_billing_reports@.insert((cluster_id, era), rep)
                &&& rep == BillingReport { state: PayoutState::ProvidersRewarded, ..old_rep }
                &&& old_rep.state.rank() <= rep.state.rank()
                &&& final(self).debtor_customers@ == old(self).debtor_customers@
                &&& final(events)@ == if shortfall_event {
                    old(events)@.push(
                        PayoutEvent::NotDistributedOverallReward {
                            cluster_id,
                            era,
                            expected_reward: expected as u128,
                            total_distributed_reward: old_rep.total_distributed_reward,
                        },
                    ).push(PayoutEvent::RewardingFinished { cluster_id, era })
                } else {
                    old(events)@.push(PayoutEvent::RewardingFinished { cluster_id, era })
                }
            }),
    {
        if !registry.is_ocw_validator(caller) {
            return Err(PayoutCallError::Unauthorised);
        }
        let report = match self.active_billing_reports.remove(&(cluster_id, era)) {
            Some(report) => report,
            None => {
                return Err(PayoutCallError::BillingReportDoesNotExist);
            },
        };
        if !state_eq(report.state, PayoutState::RewardingProviders) {
            self.active_billing_reports.insert((cluster_id, era), report);
            proof {
                lemma_reinsert_same(
                    old(self).active_billing_reports@,
                    self.active_billing_reports@,
                    (cluster_id, era),
                );
            }
            return Err(PayoutCallError::NotExpectedState);
        }
        if let Err(e) = validate_batches(
            &report.rewarding_processed_batches,
            report.rewarding_max_batch_index,
        ) {
            self.active_billing_reports.insert((cluster_id, era), report);
            proof {
                lemma_reinsert_same(
                    old(self).active_billing_reports@,
                    self.active_billing_reports@,
                    (cluster_id, era),
                );
            }
            return Err(e);
        }
        let expected_amount_to_reward = match charge_total(&report.total_customer_charge) {
            Some(total) => total,
            None => {
                self.active_billing_reports.insert((cluster_id, era), report);
                proof {
                    lemma_reinsert_same(
                        old(self).active_billing_reports@,
                        self.active_billing_reports@,
                        (cluster_id, era),
                    );
                }
                return Err(PayoutCallError::ArithmeticOverflow);
            },
        };
        let distributed = report.total_distributed_reward;
        if distributed > expected_amount_to_reward || expected_amount_to_reward - distributed
            > MILLICENTS {
            events.push(
                PayoutEvent::NotDistributedOverallReward {
                    cluster_id,
                    era,
                    expected_reward: expected_amount_to_reward,
                    total_distributed_reward: distributed,
                },
            );
        }
        let updated = BillingReport { state: PayoutState::ProvidersRewarded, ..report };
        self.active_billing_reports.insert((cluster_id, era), updated);
        events.push(PayoutEvent::RewardingFinished { cluster_id, era });
        proof {
            lemma_reinsert_same(
                old(self).active_billing_reports@,
                self.active_billing_reports@,
                (cluster_id, era),
            );
        }
        Ok(())
    }

    /// Finalizes the report for audit: the providers must have been
    /// rewarded; the batch trackers are cleared and the terminal state is
    /// recorded. A finalized report is never deleted.
    pub fn end_billing_report(
        &mut self,
        registry: &ValidatorRegistry,
        caller: AccountId,
        cluster_id: ClusterId,
        era: DdcEra,
        events: &mut Vec<PayoutEvent>,
    ) -> (r: Result<(), PayoutCallError>)
        requires
            reports_wf(old(self).active_billing_reports@),
        ensures
            reports_wf(final(self).active_billing_reports@),
            r == Result::<(), PayoutCallError>::Err(PayoutCallError::Unauthorised) <==> !registry.is_ocw_validator_spec(caller),
            registry.is_ocw_validator_spec(caller) ==> (r == Result::<(), PayoutCallError>::Err(
                PayoutCallError::BillingReportDoesNotExist,
            ) <==> !old(self).active_billing_reports@.contains_key((cluster_id, era))),
            registry.is_ocw_validator_spec(caller) && old(
                self,
            ).active_billing_reports@.contains_key((cluster_id, era)) ==> (r
                == Result::<(), PayoutCallError>::Err(PayoutCallError::NotExpectedState) <==> old(
                self,
            ).active_billing_reports@[(cluster_id, era)].state != PayoutState::ProvidersRewarded),
            registry.is_ocw_validator_spec(caller) && old(
                self,
            ).active_billing_reports@.contains_key((cluster_id, era)) && old(
                self,
            ).active_billing_reports@[(cluster_id, era)].state == PayoutState::ProvidersRewarded
                ==> r is Ok,
            r is Err ==> final(self).active_billing_reports@ == old(
                self,
            ).active_billing_reports@ && final(self).debtor_customers@ == old(
                self,
            ).debtor_customers@ && final(events)@ == old(events)@,
            r is Ok ==> ({
                let old_rep = old(self).active_billing_reports@[(cluster_id, era)];
                let rep = final(self).active_billing_reports@[(cluster_id, era)];
                &&& final(self).active_billing_reports@ == old(
                    self,
                ).active_billing_reports@.insert((cluster_id, era), rep)
                &&& rep.state == PayoutState::Finalized
                &&& rep.charging_processed_batches@ == Set::<BatchIndex>::empty()
                &&& rep.rewarding_processed_batches@ == Set::<BatchIndex>::empty()
                &&& rep == BillingReport {
                    state: PayoutState::Finalized,
                    charging_processed_batches: rep.charging_processed_batches,
                    rewarding_processed_batches: rep.rewarding_processed_batches,
                    ..old_rep
                }
                &&& old_rep.state.rank() <= rep.state.rank()
                &&& final(self).debtor_customers@ == old(self).debtor_customers@
                &&& final(events)@ == old(events)@.push(
                    PayoutEvent::BillingReportFinalized { cluster_id, era },
                )
            }),
    {
        if !registry.is_ocw_validator(caller) {
            return Err(PayoutCallError::Unauthorised);
        }
        let report = match self.active_billing_reports.remove(&(cluster_id, era)) {
            Some(report) => report,
            None => {
                return Err(PayoutCallError::BillingReportDoesNotExist);
            },
        };
        if !state_eq(report.state, PayoutState::ProvidersRewarded) {
            self.active_billing_reports.insert((cluster_id, era), report);
            proof {
                lemma_reinsert_same(
                    old(self).active_billing_reports@,
                    self.active_billing_reports@,
                    (cluster_id, era),
                );
            }
            return Err(PayoutCallError::NotExpectedState);
        }
        let mut updated = BillingReport { state: PayoutState::Finalized, ..report };
        updated.charging_processed_batches.clear();
        updated.rewarding_processed_batches.clear();
        self.active_billing_reports.insert((cluster_id, era), updated);
        events.push(PayoutEvent::BillingReportFinalized { cluster_id, era });
        proof {
            lemma_reinsert_same(
                old(self).active_billing_reports@,
                self.active_billing_reports@,
                (cluster_id, era),
            );
        }
        Ok(())
    }
}

/// Distributes the validators' fee share among stakers, each receiving the
/// share of its score in the total score; a zero total score sends every
/// staker nothing.
fn charge_validator_fees<C: Currency>(
    currency: &mut C,
    validators_fee: u128,
    vault: AccountId,
    stakers: &Vec<(AccountId, u64)>,
) -> (r: Result<(), ()>)
{
    let mut total_score: u128 = 0;
    let mut i: usize = 0;
    while i < stakers.len()
        invariant
            i <= stakers@.len(),
            total_score <= i * 0xffff_ffff_ffff_ffff,
        decreases stakers@.len() - i,
    {
        proof {
            assert(total_score + stakers@[i as int].1 <= (i + 1) * 0xffff_ffff_ffff_ffff)
                by (nonlinear_arith)
                requires
                    total_score <= i * 0xffff_ffff_ffff_ffff,
                    stakers@[i as int].1 <= 0xffff_ffff_ffff_ffff,
            ;
            assert((i + 1) * 0xffff_ffff_ffff_ffff <= u128::MAX) by (nonlinear_arith)
                requires
                    0 <= i + 1 <= usize::MAX,
            ;
        }
        total_score = total_score + (stakers[i].1 as u128);
        i = i + 1;
    }
    let mut k: usize = 0;
    while k < stakers.len()
        decreases stakers@.len() - k,
    {
        let ratio = if total_score == 0 {
            0
        } else {
            crate::arith::perquintill_from_rational(stakers[k].1 as u128, total_score)
        };
        let amount_to_deduct = crate::arith::perquintill_mul(ratio, validators_fee);
        if currency.transfer(vault, stakers[k].0, amount_to_deduct).is_err() {
            return Err(());
        }
        k = k + 1;
    }
    Ok(())
}

/// The vault account derived for one cluster-era pair: a digest of the
/// pair's canonical bytes, reduced to the account type. Distinct from the
/// shared pallet account, it lets a caller keep each era's funds in a pot
/// of its own.
pub open spec fn sub_account_id_spec(cluster_id: ClusterId, era: DdcEra) -> AccountId {
    vstd::bytes::spec_u64_from_le_bytes(
        crate::merkle::blake2s_of(
            vstd::bytes::spec_u64_to_le_bytes(cluster_id) + vstd::bytes::spec_u64_to_le_bytes(
                era as u64,
            ),
        ).take(8),
    )
}

/// Derives the vault account of one cluster-era pair.
pub fn sub_account_id(cluster_id: ClusterId, era: DdcEra) -> (r: AccountId)
    ensures
        r == sub_account_id_spec(cluster_id, era),
{
    let mut bytes: Vec<u8> = Vec::new();
    crate::payable::push_u64_le(&mut bytes, cluster_id);
    crate::payable::push_u64_le(&mut bytes, era as u64);
    let digest = crate::merkle::blake2s(&bytes);
    let head = vstd::slice::slice_subrange(digest.as_slice(), 0, 8);
    proof {
        assert(digest@.take(8) =~= digest@.subrange(0, 8));
    }
    vstd::bytes::u64_from_le_bytes(head)
}

/// Decides equality of two payout phases.
pub fn state_eq(a: PayoutState, b: PayoutState) -> (r: bool)
    ensures
        r == (a == b),
{
    a == b
}

/// Componentwise sum of a sequence of charges, as unbounded integers.
pub open spec fn charges_sum(s: Seq<CustomerCharge>) -> (int, int, int, int)
    decreases s.len(),
{
    if s.len() == 0 {
        (0int, 0int, 0int, 0int)
    } else {
        let front = charges_sum(s.drop_last());
        let c = s.last();
        (front.0 + c.transfer, front.1 + c.storage, front.2 + c.puts, front.3 + c.gets)
    }
}

/// The charge booked for one payer given what the collaborator collected:
/// the full charge when the collected amount covers the requested total,
/// otherwise the charge scaled down to the collected amount.
pub open spec fn booked_charge_of(
    pricing: crate::primitives::ClusterPricingParams,
    start_era: int,
    end_era: int,
    payer: (AccountId, BucketId, BucketUsage),
    collected: u128,
) -> CustomerCharge {
    let full = crate::charge::customer_charge_spec(pricing, payer.2, start_era, end_era);
    let total = charge_total_spec(full);
    if collected >= total {
        full
    } else {
        crate::charge::scaled_charge_spec(full, collected as int, total)
    }
}

/// The charges booked for a batch of payers, one per payer in order,
/// given the amount collected from each.
pub open spec fn booked_charges_spec(
    pricing: crate::primitives::ClusterPricingParams,
    start_era: int,
    end_era: int,
    payers: Seq<(AccountId, BucketId, BucketUsage)>,
    collected: Seq<u128>,
) -> Seq<CustomerCharge> {
    Seq::new(
        payers.len(),
        |k: int| booked_charge_of(pricing, start_era, end_era, payers[k], collected[k]),
    )
}

/// Whether some staged debt belongs to the customer.
pub open spec fn staged_has(staged: Seq<(AccountId, u128)>, customer: AccountId) -> bool {
    exists|j: int| 0 <= j < staged.len() && (#[trigger] staged[j]).0 == customer
}

/// The debt ledger after booking a batch of payers: each payer whose
/// collected amount fell short of its requested total adds exactly the
/// shortfall to its customer's debt, in payer order. A debt that would
/// overflow its counter has no result — the call fails instead.
pub open spec fn charging_debts_spec(
    debts: Map<(ClusterId, AccountId), u128>,
    cluster_id: ClusterId,
    pricing: crate::primitives::ClusterPricingParams,
    start_era: int,
    end_era: int,
    payers: Seq<(AccountId, BucketId, BucketUsage)>,
    collected: Seq<u128>,
) -> Option<Map<(ClusterId, AccountId), u128>>
    decreases payers.len(),
{
    if payers.len() == 0 {
        Some(debts)
    } else {
        match charging_debts_spec(
            debts,
            cluster_id,
            pricing,
            start_era,
            end_era,
            payers.drop_last(),
            collected.drop_last(),
        ) {
            None => None,
            Some(front) => {
                let full = crate::charge::customer_charge_spec(
                    pricing,
                    payers.last().2,
                    start_era,
                    end_era,
                );
                let total = charge_total_spec(full);
                let taken = collected[payers.len() - 1];
                if taken < total {
                    let key = (cluster_id, payers.last().0);
                    let prev = if front.contains_key(key) {
                        front[key]
                    } else {
                        0
                    };
                    if prev + (total - taken) > u128::MAX {
                        None
                    } else {
                        Some(front.insert(key, (prev + (total - taken)) as u128))
                    }
                } else {
                    Some(front)
                }
            },
        }
    }
}

/// The fold reads only the collected amounts of its payers: extending the
/// collected list does not change it.
proof fn lemma_charging_debts_collected_prefix(
    debts: Map<(ClusterId, AccountId), u128>,
    cluster_id: ClusterId,
    pricing: crate::primitives::ClusterPricingParams,
    start_era: int,
    end_era: int,
    payers: Seq<(AccountId, BucketId, BucketUsage)>,
    c1: Seq<u128>,
    c2: Seq<u128>,
)
    requires
        payers.len() <= c1.len(),
        payers.len() <= c2.len(),
        forall|k: int| 0 <= k < payers.len() ==> c1[k] == c2[k],
    ensures
        charging_debts_spec(debts, cluster_id, pricing, start_era, end_era, payers, c1)
            == charging_debts_spec(debts, cluster_id, pricing, start_era, end_era, payers, c2),
    decreases payers.len(),
{
    if payers.len() > 0 {
        lemma_charging_debts_collected_prefix(
            debts,
            cluster_id,
            pricing,
            start_era,
            end_era,
            payers.drop_last(),
            c1.drop_last(),
            c2.drop_last(),
        );
    }
}

/// Booking debts never lowers a customer's recorded debt, and only this
/// cluster's customers gain entries.
proof fn lemma_charging_debts_monotonic(
    debts: Map<(ClusterId, AccountId), u128>,
    cluster_id: ClusterId,
    pricing: crate::primitives::ClusterPricingParams,
    start_era: int,
    end_era: int,
    payers: Seq<(AccountId, BucketId, BucketUsage)>,
    collected: Seq<u128>,
)
    requires
        charging_debts_spec(debts, cluster_id, pricing, start_era, end_era, payers, collected)
            is Some,
    ensures
        ({
            let folded = charging_debts_spec(
                debts,
                cluster_id,
                pricing,
                start_era,
                end_era,
                payers,
                collected,
            )->Some_0;
            &&& forall|key: (ClusterId, AccountId)|
                #[trigger] debts.contains_key(key) ==> folded.contains_key(key) && folded[key]
                    >= debts[key]
            &&& forall|key: (ClusterId, AccountId)|
                #[trigger] folded.contains_key(key) && !debts.contains_key(key) ==> key.0
                    == cluster_id
        }),
    decreases payers.len(),
{
    if payers.len() > 0 {
        lemma_charging_debts_monotonic(
            debts,
            cluster_id,
            pricing,
            start_era,
            end_era,
            payers.drop_last(),
            collected.drop_last(),
        );
    }
}

impl PayoutLedger {
    /// Processes one batch of payers: each customer is charged for its
    /// usage, shortfalls become recorded debts and scale the booked charge
    /// down to what was collected, and the batch index joins the processed
    /// set — a second submission of the same index is rejected. Every
    /// input-determined charge is computed before the first collaborator
    /// call; an error discovered later leaves earlier collections with
    /// the collaborator but the on-ledger report and debts unchanged.
    #[verifier::rlimit(60)]
    #[verifier::loop_isolation(false)]
    pub fn send_charging_customers_batch<C: CustomerCharger>(
        &mut self,
        registry: &ValidatorRegistry,
        eras: &crate::eras::EraValidationStore,
        caller: AccountId,
        cluster_id: ClusterId,
        era: DdcEra,
        batch_index: BatchIndex,
        payers: &Vec<(AccountId, BucketId, BucketUsage)>,
        batch_proof: &crate::primitives::MMRProof,
        pricing: &crate::primitives::ClusterPricingParams,
        charger: &mut C,
        events: &mut Vec<PayoutEvent>,
    ) -> (r: Result<(), PayoutCallError>)
        requires
            eras.wf(),
            reports_wf(old(self).active_billing_reports@),
        ensures
            reports_wf(final(self).active_billing_reports@),
            r == Result::<(), PayoutCallError>::Err(PayoutCallError::Unauthorised) <==> !registry.is_ocw_validator_spec(caller),
            registry.is_ocw_validator_spec(caller) ==> (r == Result::<(), PayoutCallError>::Err(
                PayoutCallError::BatchSizeIsOutOfBounds,
            ) <==> !(0 < payers@.len() <= MAX_PAYOUT_BATCH_SIZE)),
            registry.is_ocw_validator_spec(caller) && 0 < payers@.len() <= MAX_PAYOUT_BATCH_SIZE
                ==> (r == Result::<(), PayoutCallError>::Err(
                PayoutCallError::BillingReportDoesNotExist,
            ) <==> !old(self).active_billing_reports@.contains_key((cluster_id, era))),
            registry.is_ocw_validator_spec(caller) && 0 < payers@.len() <= MAX_PAYOUT_BATCH_SIZE
                && old(self).active_billing_reports@.contains_key((cluster_id, era)) ==> ({
                let old_rep = old(self).active_billing_reports@[(cluster_id, era)];
                &&& (r == Result::<(), PayoutCallError>::Err(PayoutCallError::NotExpectedState)
                    <==> old_rep.state != PayoutState::ChargingCustomers)
                &&& (old_rep.state == PayoutState::ChargingCustomers ==> (r
                    == Result::<(), PayoutCallError>::Err(PayoutCallError::BatchIndexIsOutOfRange)
                    <==> batch_index > old_rep.charging_max_batch_index))
                &&& (old_rep.state == PayoutState::ChargingCustomers && batch_index
                    <= old_rep.charging_max_batch_index ==> (r
                    == Result::<(), PayoutCallError>::Err(
                    PayoutCallError::BatchIndexAlreadyProcessed,
                ) <==> old_rep.charging_processed_batches@.contains(batch_index)))
                &&& (old_rep.state == PayoutState::ChargingCustomers && batch_index
                    <= old_rep.charging_max_batch_index
                    && !old_rep.charging_processed_batches@.contains(batch_index) ==> (r
                    == Result::<(), PayoutCallError>::Err(PayoutCallError::BatchValidationFailed)
                    <==> !crate::eras::customers_batch_valid_spec(
                    *eras,
                    cluster_id,
                    era,
                    batch_index as int,
                    old_rep.charging_max_batch_index as int,
                    payers@,
                    batch_proof.proof.deep_view(),
                )))
                // past the gates, the only failure left is an arithmetic
                // overflow; a payer whose charge cannot fit forces it
                &&& (old_rep.state == PayoutState::ChargingCustomers && batch_index
                    <= old_rep.charging_max_batch_index
                    && !old_rep.charging_processed_batches@.contains(batch_index)
                    && crate::eras::customers_batch_valid_spec(
                    *eras,
                    cluster_id,
                    era,
                    batch_index as int,
                    old_rep.charging_max_batch_index as int,
                    payers@,
                    batch_proof.proof.deep_view(),
                ) ==> r is Ok || r == Result::<(), PayoutCallError>::Err(
                    PayoutCallError::ArithmeticOverflow,
                ))
                &&& (r is Ok ==> forall|k: int|
                    0 <= k < payers@.len() ==> crate::charge::charge_fits(
                        *pricing,
                        (#[trigger] payers@[k]).2,
                    ) && charge_total_spec(
                        crate::charge::customer_charge_spec(
                            *pricing,
                            (payers@[k]).2,
                            old_rep.start_era as int,
                            old_rep.end_era as int,
                        ),
                    ) <= u128::MAX)
            }),
            r is Err ==> final(self).active_billing_reports@ == old(
                self,
            ).active_billing_reports@ && final(self).debtor_customers@ == old(
                self,
            ).debtor_customers@ && final(events)@ == old(events)@,
            r is Ok ==> ({
                let old_rep = old(self).active_billing_reports@[(cluster_id, era)];
                let rep = final(self).active_billing_reports@[(cluster_id, era)];
                &&& final(self).active_billing_reports@ == old(
                    self,
                ).active_billing_reports@.insert((cluster_id, era), rep)
                &&& rep == BillingReport {
                    total_customer_charge: rep.total_customer_charge,
                    charging_processed_batches: rep.charging_processed_batches,
                    ..old_rep
                }
                &&& rep.charging_processed_batches@ == old_rep.charging_processed_batches@.insert(
                    batch_index,
                )
                &&& exists|collected: Seq<u128>|
                    #![trigger charges_sum(
                        booked_charges_spec(
                            *pricing,
                            old_rep.start_era as int,
                            old_rep.end_era as int,
                            payers@,
                            collected,
                        ),
                    )]
                    {
                        let booked = booked_charges_spec(
                            *pricing,
                            old_rep.start_era as int,
                            old_rep.end_era as int,
                            payers@,
                            collected,
                        );
                        let sums = charges_sum(booked);
                        &&& collected.len() == payers@.len()
                        &&& rep.total_customer_charge.transfer
                            == old_rep.total_customer_charge.transfer + sums.0
                        &&& rep.total_customer_charge.storage
                            == old_rep.total_customer_charge.storage + sums.1
                        &&& rep.total_customer_charge.puts == old_rep.total_customer_charge.puts
                            + sums.2
                        &&& rep.total_customer_charge.gets == old_rep.total_customer_charge.gets
                            + sums.3
                        // each shortfall becomes exactly that much debt of
                        // the same customer, from the same collected amount
                        &&& Some(final(self).debtor_customers@) == charging_debts_spec(
                            old(self).debtor_customers@,
                            cluster_id,
                            *pricing,
                            old_rep.start_era as int,
                            old_rep.end_era as int,
                            payers@,
                            collected,
                        )
                    }
                &&& forall|k: (ClusterId, AccountId)|
                    #[trigger] old(self).debtor_customers@.contains_key(k)
                        ==> final(self).debtor_customers@.contains_key(k)
                        && final(self).debtor_customers@[k] >= old(self).debtor_customers@[k]
                &&& forall|k: (ClusterId, AccountId)|
                    #[trigger] final(self).debtor_customers@.contains_key(k) && !old(
                        self,
                    ).debtor_customers@.contains_key(k) ==> k.0 == cluster_id
            }),
    {
        if !registry.is_ocw_validator(caller) {
            return Err(PayoutCallError::Unauthorised);
        }
        if payers.len() == 0 || payers.len() > MAX_PAYOUT_BATCH_SIZE as usize {
            return Err(PayoutCallError::BatchSizeIsOutOfBounds);
        }
        let report = match self.active_billing_reports.get(&(cluster_id, era)) {
            Some(report) => report,
            None => {
                return Err(PayoutCallError::BillingReportDoesNotExist);
            },
        };
        if !state_eq(report.state, PayoutState::ChargingCustomers) {
            return Err(PayoutCallError::NotExpectedState);
        }
        if batch_index > report.charging_max_batch_index {
            return Err(PayoutCallError::BatchIndexIsOutOfRange);
        }
        if report.charging_processed_batches.contains(&batch_index) {
            return Err(PayoutCallError::BatchIndexAlreadyProcessed);
        }
        if !eras.is_customers_batch_valid(
            cluster_id,
            era,
            batch_index,
            report.charging_max_batch_index,
            payers,
            batch_proof,
        ) {
            return Err(PayoutCallError::BatchValidationFailed);
        }
        let start_era = report.start_era;
        let end_era = report.end_era;
        let vault = report.vault;
        let mut new_totals: CustomerCharge = report.total_customer_charge;
        let ghost old_totals = report.total_customer_charge;

        // first every input-determined charge, so an arithmetic error can
        // never strand a partial collaborator exchange
        let mut requested: Vec<(CustomerCharge, u128)> = Vec::new();
        let mut p: usize = 0;
        while p < payers.len()
            invariant
                p <= payers@.len(),
                start_era < end_era && end_era - start_era <= i64::MAX,
                requested@.len() == p,
                forall|k: int|
                    0 <= k < p ==> crate::charge::charge_fits(*pricing, (#[trigger] payers@[k]).2)
                        && charge_total_spec(
                        crate::charge::customer_charge_spec(
                            *pricing,
                            (payers@[k]).2,
                            start_era as int,
                            end_era as int,
                        ),
                    ) <= u128::MAX,
                forall|k: int|
                    0 <= k < p ==> (#[trigger] requested@[k]).0
                        == crate::charge::customer_charge_spec(
                        *pricing,
                        (payers@[k]).2,
                        start_era as int,
                        end_era as int,
                    ) && (requested@[k]).1 == charge_total_spec((requested@[k]).0),
            decreases payers@.len() - p,
        {
            let usage = payers[p].2;
            let full = match crate::charge::get_customer_charge(pricing, &usage, start_era, end_era) {
                Some(charge) => charge,
                None => {
                    return Err(PayoutCallError::ArithmeticOverflow);
                },
            };
            let total = match charge_total(&full) {
                Some(total) => total,
                None => {
                    return Err(PayoutCallError::ArithmeticOverflow);
                },
            };
            requested.push((full, total));
            p = p + 1;
        }

        // then the collaborator exchanges, booking each payer's outcome
        let ghost mut collected: Seq<u128> = Seq::empty();
        let mut staged_debts: Vec<(AccountId, u128)> = Vec::new();
        let mut pending_events: Vec<PayoutEvent> = Vec::new();
        let mut p: usize = 0;
        while p < payers.len()
            invariant
                p <= payers@.len(),
                start_era < end_era && end_era - start_era <= i64::MAX,
                collected.len() == p,
                requested@.len() == payers@.len(),
                forall|k: int|
                    0 <= k < payers@.len() ==> (#[trigger] requested@[k]).0
                        == crate::charge::customer_charge_spec(
                        *pricing,
                        (payers@[k]).2,
                        start_era as int,
                        end_era as int,
                    ) && (requested@[k]).1 == charge_total_spec((requested@[k]).0),
                new_totals.transfer == old_totals.transfer + charges_sum(
                    booked_charges_spec(
                        *pricing,
                        start_era as int,
                        end_era as int,
                        payers@.take(p as int),
                        collected,
                    ),
                ).0,
                new_totals.storage == old_totals.storage + charges_sum(
                    booked_charges_spec(
                        *pricing,
                        start_era as int,
                        end_era as int,
                        payers@.take(p as int),
                        collected,
                    ),
                ).1,
                new_totals.puts == old_totals.puts + charges_sum(
                    booked_charges_spec(
                        *pricing,
                        start_era as int,
                        end_era as int,
                        payers@.take(p as int),
                        collected,
                    ),
                ).2,
                new_totals.gets == old_totals.gets + charges_sum(
                    booked_charges_spec(
                        *pricing,
                        start_era as int,
                        end_era as int,
                        payers@.take(p as int),
                        collected,
                    ),
                ).3,
                self.active_billing_reports@ == old(self).active_billing_reports@,
                self.debtor_customers@ == old(self).debtor_customers@,
                ({
                    let folded_opt = charging_debts_spec(
                        old(self).debtor_customers@,
                        cluster_id,
                        *pricing,
                        start_era as int,
                        end_era as int,
                        payers@.take(p as int),
                        collected,
                    );
                    &&& folded_opt is Some
                    &&& ({
                        let folded = folded_opt->Some_0;
                        &&& forall|j1: int, j2: int|
                            0 <= j1 < j2 < staged_debts@.len() ==> (#[trigger] staged_debts@[j1]).0
                                != (#[trigger] staged_debts@[j2]).0
                        &&& forall|j: int|
                            0 <= j < staged_debts@.len() ==> folded.contains_key(
                                (cluster_id, (#[trigger] staged_debts@[j]).0),
                            ) && staged_debts@[j].1 == folded[(cluster_id, staged_debts@[j].0)]
                        &&& forall|key: (ClusterId, AccountId)|
                            !(key.0 == cluster_id && staged_has(staged_debts@, key.1)) ==> ((
                            #[trigger] folded.contains_key(key)) <==> old(
                                self,
                            ).debtor_customers@.contains_key(key)) && (folded.contains_key(key)
                                ==> folded[key] == old(self).debtor_customers@[key])
                    })
                }),
            decreases payers@.len() - p,
        {
            let customer_id = payers[p].0;
            let bucket_id = payers[p].1;
            let usage = payers[p].2;
            let mut customer_charge = requested[p].0;
            let total_customer_charge = requested[p].1;
            let amount_actually_charged = match charger.charge_content_owner(
                cluster_id,
                bucket_id,
                customer_id,
                vault,
                &usage,
                total_customer_charge,
            ) {
                Ok(actually) => actually,
                Err(_) => {
                    pending_events.push(
                        PayoutEvent::ChargeError {
                            cluster_id,
                            era,
                            batch_index,
                            customer_id,
                            amount: total_customer_charge,
                        },
                    );
                    0
                },
            };
            let ghost prev_folded = charging_debts_spec(
                old(self).debtor_customers@,
                cluster_id,
                *pricing,
                start_era as int,
                end_era as int,
                payers@.take(p as int),
                collected,
            )->Some_0;
            let ghost old_staged = staged_debts@;
            let ghost mut staged_update: Option<int> = None;
            if amount_actually_charged < total_customer_charge {
                let debt = total_customer_charge - amount_actually_charged;
                // fold this customer's shortfall into its staged debt
                let mut j: usize = 0;
                let mut staged_at: Option<usize> = None;
                while j < staged_debts.len() && staged_at.is_none()
                    invariant
                        j <= staged_debts@.len(),
                        staged_debts@ == old_staged,
                        staged_at is Some ==> staged_at->Some_0 < staged_debts@.len()
                            && (staged_debts@[staged_at->Some_0 as int]).0 == customer_id,
                        staged_at is None ==> forall|k: int|
                            0 <= k < j ==> (#[trigger] staged_debts@[k]).0 != customer_id,
                    decreases staged_debts@.len() - j + if staged_at is Some {
                        0int
                    } else {
                        1int
                    },
                {
                    if staged_debts[j].0 == customer_id {
                        staged_at = Some(j);
                    } else {
                        j = j + 1;
                    }
                }
                match staged_at {
                    Some(j) => {
                        let entry = staged_debts.remove(j);
                        let grown = match entry.1.checked_add(debt) {
                            Some(grown) => grown,
                            None => {
                                return Err(PayoutCallError::ArithmeticOverflow);
                            },
                        };
                        staged_debts.insert(j, (customer_id, grown));
                        proof {
                            staged_update = Some(j as int);
                            assert(staged_debts@ =~= old_staged.update(
                                j as int,
                                (customer_id, grown),
                            ));
                            assert(entry.1 == prev_folded[(cluster_id, customer_id)]);
                            assert(staged_debts@[j as int].1 == entry.1 + debt);
                        }
                    },
                    None => {
                        let base: u128 = match self.debtor_customers.get(&(cluster_id, customer_id)) {
                            Some(existing) => *existing,
                            None => 0,
                        };
                        let grown = match base.checked_add(debt) {
                            Some(grown) => grown,
                            None => {
                                return Err(PayoutCallError::ArithmeticOverflow);
                            },
                        };
                        staged_debts.push((customer_id, grown));
                        proof {
                            staged_update = Some(old_staged.len() as int);
                            assert(!staged_has(old_staged, customer_id)) by {
                                if staged_has(old_staged, customer_id) {
                                    let w = choose|w: int|
                                        0 <= w < old_staged.len() && (
                                        #[trigger] old_staged[w]).0 == customer_id;
                                    assert(false);
                                }
                            }
                            // an absent staged entry means the booked
                            // ledger still reads as before the call here
                            assert(staged_debts@ =~= old_staged.push((customer_id, grown)));
                            assert(grown == base + debt);
                        }
                    },
                }
                pending_events.push(
                    PayoutEvent::Indebted {
                        cluster_id,
                        era,
                        batch_index,
                        customer_id,
                        bucket_id,
                        amount: debt,
                    },
                );
                pending_events.push(
                    PayoutEvent::ChargeFailed {
                        cluster_id,
                        era,
                        batch_index,
                        customer_id,
                        bucket_id,
                        charged: amount_actually_charged,
                        expected_to_charge: total_customer_charge,
                    },
                );
                customer_charge = crate::charge::scale_charge(
                    &customer_charge,
                    amount_actually_charged,
                    total_customer_charge,
                );
            } else {
                pending_events.push(
                    PayoutEvent::Charged {
                        cluster_id,
                        era,
                        batch_index,
                        customer_id,
                        bucket_id,
                        amount: total_customer_charge,
                    },
                );
            }
            new_totals = match add_charges(&new_totals, &customer_charge) {
                Some(grown) => grown,
                None => {
                    return Err(PayoutCallError::ArithmeticOverflow);
                },
            };
            proof {
                let prev_collected = collected;
                collected = collected.push(amount_actually_charged);
                assert(payers@.take(p + 1).drop_last() =~= payers@.take(p as int));
                assert(payers@.take(p + 1).last() == payers@[p as int]);
                assert(collected.drop_last() =~= prev_collected);
                // the fold over the shorter prefix is unchanged by the
                // extended collected list
                assert(charging_debts_spec(
                    old(self).debtor_customers@,
                    cluster_id,
                    *pricing,
                    start_era as int,
                    end_era as int,
                    payers@.take(p as int),
                    prev_collected,
                ) == Some(prev_folded));
                lemma_charging_debts_collected_prefix(
                    old(self).debtor_customers@,
                    cluster_id,
                    *pricing,
                    start_era as int,
                    end_era as int,
                    payers@.take(p as int),
                    prev_collected,
                    collected,
                );
                // the booked list of the longer prefix extends the old one
                let booked_now = booked_charges_spec(
                    *pricing,
                    start_era as int,
                    end_era as int,
                    payers@.take(p + 1),
                    collected,
                );
                assert(booked_now.drop_last() =~= booked_charges_spec(
                    *pricing,
                    start_era as int,
                    end_era as int,
                    payers@.take(p as int),
                    prev_collected,
                ));
                assert(booked_now.last() == customer_charge);
                // the booked ledger of the longer prefix: unchanged when
                // the charge was collected in full, otherwise the previous
                // ledger with this customer's shortfall folded in
                let folded_opt_now = charging_debts_spec(
                    old(self).debtor_customers@,
                    cluster_id,
                    *pricing,
                    start_era as int,
                    end_era as int,
                    payers@.take(p + 1),
                    collected,
                );
                if amount_actually_charged >= total_customer_charge {
                    assert(folded_opt_now == Some(prev_folded));
                    assert(staged_debts@ == old_staged);
                } else {
                    let debt_key = (cluster_id, customer_id);
                    let folded_now = prev_folded.insert(
                        debt_key,
                        staged_debts@[staged_update->Some_0].1,
                    );
                    assert(folded_opt_now == Some(folded_now)) by {
                        if staged_has(old_staged, customer_id) {
                        } else {
                            // the ledger read as before the call for this
                            // customer, so the exec base was the fold's
                        }
                    }
                    let ju = staged_update->Some_0;
                    assert forall|j1: int, j2: int|
                        0 <= j1 < j2 < staged_debts@.len() implies (#[trigger] staged_debts@[j1]).0
                        != (#[trigger] staged_debts@[j2]).0 by {
                        if j2 < old_staged.len() {
                            if j1 != ju && j2 != ju {
                                assert(staged_debts@[j1] == old_staged[j1]);
                                assert(staged_debts@[j2] == old_staged[j2]);
                            } else if j1 == ju {
                                assert(old_staged[j1].0 == customer_id);
                                assert(staged_debts@[j2] == old_staged[j2]);
                            } else {
                                assert(old_staged[j2].0 == customer_id);
                                assert(staged_debts@[j1] == old_staged[j1]);
                            }
                        } else {
                            assert(staged_debts@[j2].0 == customer_id);
                            assert(staged_debts@[j1] == old_staged[j1]);
                            assert(!staged_has(old_staged, customer_id));
                        }
                    }
                    assert forall|j: int| 0 <= j < staged_debts@.len() implies folded_now.contains_key(
                        (cluster_id, (#[trigger] staged_debts@[j]).0),
                    ) && staged_debts@[j].1 == folded_now[(cluster_id, staged_debts@[j].0)] by {
                        if j == ju {
                        } else {
                            assert(staged_debts@[j] == old_staged[j]);
                            assert(old_staged[j].0 != customer_id);
                        }
                    }
                    assert forall|key: (ClusterId, AccountId)|
                        !(key.0 == cluster_id && staged_has(staged_debts@, key.1)) implies ((
                    #[trigger] folded_now.contains_key(key)) <==> old(
                        self,
                    ).debtor_customers@.contains_key(key)) && (folded_now.contains_key(key)
                        ==> folded_now[key] == old(self).debtor_customers@[key]) by {
                        if key.0 == cluster_id {
                            assert(key != debt_key) by {
                                if key == debt_key {
                                    assert(staged_debts@[ju].0 == customer_id);
                                    assert(staged_has(staged_debts@, customer_id));
                                }
                            }
                            assert(!staged_has(old_staged, key.1)) by {
                                if staged_has(old_staged, key.1) {
                                    let w = choose|w: int|
                                        0 <= w < old_staged.len() && (#[trigger] old_staged[w]).0
                                            == key.1;
                                    if w == ju && ju < old_staged.len() {
                                        assert(old_staged[ju].0 == customer_id);
                                        assert(key.1 == customer_id);
                                        assert(staged_debts@[ju].0 == customer_id);
                                    } else {
                                        assert(staged_debts@[w] == old_staged[w]);
                                    }
                                    assert(staged_has(staged_debts@, key.1));
                                }
                            }
                        } else {
                            // a foreign cluster's key: the fold never
                            // touches it
                            assert(key != debt_key);
                        }
                    }
                }
            }
            p = p + 1;
        }

        // all arithmetic done: commit the report, the debts and the events
        let report = match self.active_billing_reports.remove(&(cluster_id, era)) {
            Some(report) => report,
            None => {
                proof {
                    assert(false);
                }
                return Err(PayoutCallError::BillingReportDoesNotExist);
            },
        };
        let mut updated = BillingReport { total_customer_charge: new_totals, ..report };
        updated.charging_processed_batches.insert(batch_index);
        self.active_billing_reports.insert((cluster_id, era), updated);
        proof {
            lemma_reinsert_same(
                old(self).active_billing_reports@,
                self.active_billing_reports@,
                (cluster_id, era),
            );
            assert(reports_wf(self.active_billing_reports@)) by {
                assert forall|k: (ClusterId, DdcEra)|
                    #[trigger] self.active_billing_reports@.contains_key(k) implies ({
                    let m = self.active_billing_reports@;
                    m[k].state == PayoutState::Finalized || (m[k].start_era < m[k].end_era
                        && m[k].end_era - m[k].start_era <= i64::MAX)
                }) by {
                    if k != (cluster_id, era) {
                        assert(old(self).active_billing_reports@.contains_key(k));
                    }
                }
            }
        }
        let ghost committed_rep = self.active_billing_reports@[(cluster_id, era)];
        proof {
            assert(payers@.take(payers@.len() as int) =~= payers@);
        }
        let ghost folded = charging_debts_spec(
            old(self).debtor_customers@,
            cluster_id,
            *pricing,
            start_era as int,
            end_era as int,
            payers@,
            collected,
        )->Some_0;
        proof {
            assert(staged_debts@.skip(0) =~= staged_debts@);
            assert(self.debtor_customers@ == old(self).debtor_customers@);
            // nothing of the booked ledger is applied yet: keys outside
            // the staged set already agree with it, per the loop's facts
            assert forall|key: (ClusterId, AccountId)|
                !(key.0 == cluster_id && staged_has(staged_debts@, key.1)) implies ((
            #[trigger] self.debtor_customers@.contains_key(key)) <==> folded.contains_key(key))
                && (self.debtor_customers@.contains_key(key) ==> self.debtor_customers@[key]
                == folded[key]) by {
                assert((folded.contains_key(key) <==> old(self).debtor_customers@.contains_key(
                    key,
                )) && (folded.contains_key(key) ==> folded[key] == old(
                    self,
                ).debtor_customers@[key]));
            }
        }
        let mut d: usize = 0;
        while d < staged_debts.len()
            invariant
                d <= staged_debts@.len(),
                self.active_billing_reports@ == old(self).active_billing_reports@.insert(
                    (cluster_id, era),
                    committed_rep,
                ),
                reports_wf(self.active_billing_reports@),
                self.pallet_account == old(self).pallet_account,
                forall|j1: int, j2: int|
                    0 <= j1 < j2 < staged_debts@.len() ==> (#[trigger] staged_debts@[j1]).0 != (
                    #[trigger] staged_debts@[j2]).0,
                forall|j: int|
                    0 <= j < staged_debts@.len() ==> folded.contains_key(
                        (cluster_id, (#[trigger] staged_debts@[j]).0),
                    ) && staged_debts@[j].1 == folded[(cluster_id, staged_debts@[j].0)],
                // the entries not yet applied still read as before the call
                forall|key: (ClusterId, AccountId)|
                    key.0 == cluster_id && staged_has(staged_debts@.skip(d as int), key.1) ==> ((
                    #[trigger] self.debtor_customers@.contains_key(key)) <==> old(
                        self,
                    ).debtor_customers@.contains_key(key)) && (
                    self.debtor_customers@.contains_key(key) ==> self.debtor_customers@[key]
                        == old(self).debtor_customers@[key]),
                // every other key already reads as the booked ledger
                forall|key: (ClusterId, AccountId)|
                    !(key.0 == cluster_id && staged_has(staged_debts@.skip(d as int), key.1))
                        ==> ((#[trigger] self.debtor_customers@.contains_key(key))
                        <==> folded.contains_key(key)) && (self.debtor_customers@.contains_key(key)
                        ==> self.debtor_customers@[key] == folded[key]),
                forall|key: (ClusterId, AccountId)|
                    !(key.0 == cluster_id && staged_has(staged_debts@, key.1)) ==> ((
                    #[trigger] folded.contains_key(key)) <==> old(
                        self,
                    ).debtor_customers@.contains_key(key)) && (folded.contains_key(key)
                        ==> folded[key] == old(self).debtor_customers@[key]),
            decreases staged_debts@.len() - d,
        {
            let customer = staged_debts[d].0;
            let value = staged_debts[d].1;
            self.debtor_customers.insert((cluster_id, customer), value);
            proof {
                assert forall|key: (ClusterId, AccountId)|
                    key.0 == cluster_id && staged_has(staged_debts@.skip(d + 1), key.1) implies ((
                #[trigger] self.debtor_customers@.contains_key(key)) <==> old(
                    self,
                ).debtor_customers@.contains_key(key)) && (
                self.debtor_customers@.contains_key(key) ==> self.debtor_customers@[key] == old(
                    self,
                ).debtor_customers@[key]) by {
                    let w = choose|w: int|
                        0 <= w < staged_debts@.skip(d + 1).len() && (#[trigger] staged_debts@.skip(
                            d + 1,
                        )[w]).0 == key.1;
                    assert(staged_debts@[d + 1 + w].0 == key.1);
                    assert(key.1 != customer);
                    assert(staged_has(staged_debts@.skip(d as int), key.1)) by {
                        assert(staged_debts@.skip(d as int)[1 + w].0 == key.1);
                    }
                }
                assert forall|key: (ClusterId, AccountId)|
                    !(key.0 == cluster_id && staged_has(staged_debts@.skip(d + 1), key.1)) implies
                    ((#[trigger] self.debtor_customers@.contains_key(key)) <==> folded.contains_key(
                    key,
                )) && (self.debtor_customers@.contains_key(key) ==> self.debtor_customers@[key]
                    == folded[key]) by {
                    if key == (cluster_id, customer) {
                        assert(self.debtor_customers@[key] == value);
                    } else {
                        if key.0 == cluster_id && staged_has(staged_debts@.skip(d as int), key.1) {
                            let w = choose|w: int|
                                0 <= w < staged_debts@.skip(d as int).len() && (
                                #[trigger] staged_debts@.skip(d as int)[w]).0 == key.1;
                            assert(staged_debts@[d + w].0 == key.1);
                            if w == 0 {
                                assert(key.1 == customer);
                                assert(false);
                            } else {
                                assert(staged_debts@.skip(d + 1)[w - 1].0 == key.1);
                                assert(staged_has(staged_debts@.skip(d + 1), key.1));
                                assert(false);
                            }
                        }
                    }
                }
            }
            d = d + 1;
        }
        proof {
            // every staged entry is applied: the ledger is the booked fold
            assert(self.debtor_customers@ =~= folded) by {
                assert forall|key: (ClusterId, AccountId)| !(key.0 == cluster_id && staged_has(
                    staged_debts@.skip(staged_debts@.len() as int),
                    key.1,
                )) by {
                    if staged_has(staged_debts@.skip(staged_debts@.len() as int), key.1) {
                        let w = choose|w: int|
                            0 <= w < staged_debts@.skip(staged_debts@.len() as int).len() && (
                            #[trigger] staged_debts@.skip(staged_debts@.len() as int)[w]).0
                                == key.1;
                        assert(false);
                    }
                }
            }
            lemma_charging_debts_monotonic(
                old(self).debtor_customers@,
                cluster_id,
                *pricing,
                start_era as int,
                end_era as int,
                payers@,
                collected,
            );
        }
        let mut e: usize = 0;
        while e < pending_events.len()
            invariant
                e <= pending_events@.len(),
                self.active_billing_reports@ == old(self).active_billing_reports@.insert(
                    (cluster_id, era),
                    committed_rep,
                ),
                reports_wf(self.active_billing_reports@),
                self.pallet_account == old(self).pallet_account,
                self.debtor_customers@ == folded,
                Some(folded) == charging_debts_spec(
                    old(self).debtor_customers@,
                    cluster_id,
                    *pricing,
                    start_era as int,
                    end_era as int,
                    payers@,
                    collected,
                ),
                forall|k: (ClusterId, AccountId)|
                    #[trigger] old(self).debtor_customers@.contains_key(k)
                        ==> self.debtor_customers@.contains_key(k) && self.debtor_customers@[k]
                        >= old(self).debtor_customers@[k],
                forall|k: (ClusterId, AccountId)|
                    #[trigger] self.debtor_customers@.contains_key(k) && !old(
                        self,
                    ).debtor_customers@.contains_key(k) ==> k.0 == cluster_id,
            decreases pending_events@.len() - e,
        {
            events.push(pending_events[e]);
            e = e + 1;
        }
        Ok(())
    }
}

/// Sum of a sequence of paid reward amounts.
pub open spec fn rewards_sum(s: Seq<u128>) -> int
    decreases s.len(),
{
    if s.len() == 0 {
        0
    } else {
        rewards_sum(s.drop_last()) + s.last()
    }
}

/// The reward actually paid for an expected amount, given what the vault
/// could spend when the payee's turn came: the full amount when it fits,
/// the spendable balance otherwise; nothing is drawn for a zero reward.
pub open spec fn paid_reward_spec(expected: int, spendable: u128) -> int {
    if expected <= 0 {
        0
    } else if expected <= spendable {
        expected
    } else {
        spendable as int
    }
}

/// The rewards paid to a batch of payees, one per payee in order, given
/// the vault's spendable balance at each payee's turn.
pub open spec fn paid_rewards_spec(
    payees: Seq<(AccountId, crate::primitives::NodePubKey, NodeUsage)>,
    spendable: Seq<u128>,
    total_usage: NodeUsage,
    total_charge: CustomerCharge,
) -> Seq<u128> {
    Seq::new(
        payees.len(),
        |k: int|
            paid_reward_spec(
                crate::charge::reward_total_spec((payees[k]).2, total_usage, total_charge),
                spendable[k],
            ) as u128,
    )
}

/// The events one batch of rewards emits, in order: a shortfall beyond
/// the dust tolerance is reported before the payee's reward event.
pub open spec fn rewarding_events_spec(
    cluster_id: ClusterId,
    era: DdcEra,
    batch_index: BatchIndex,
    payees: Seq<(AccountId, crate::primitives::NodePubKey, NodeUsage)>,
    spendable: Seq<u128>,
    total_usage: NodeUsage,
    total_charge: CustomerCharge,
) -> Seq<PayoutEvent>
    decreases payees.len(),
{
    if payees.len() == 0 {
        Seq::empty()
    } else {
        let front = rewarding_events_spec(
            cluster_id,
            era,
            batch_index,
            payees.drop_last(),
            spendable.drop_last(),
            total_usage,
            total_charge,
        );
        let expected = crate::charge::reward_total_spec(payees.last().2, total_usage, total_charge);
        let spend = spendable[payees.len() - 1];
        front + (if expected > 0 && expected > spend && expected - spend > MILLICENTS {
            seq![
                PayoutEvent::NotDistributedReward {
                    cluster_id,
                    era,
                    batch_index,
                    node_provider_id: payees.last().0,
                    expected_reward: expected as u128,
                    distributed_reward: spend,
                },
            ]
        } else {
            Seq::empty()
        }) + seq![
            PayoutEvent::Rewarded {
                cluster_id,
                era,
                batch_index,
                node_provider_id: payees.last().0,
                rewarded: paid_reward_spec(expected, spend) as u128,
                expected_to_reward: expected as u128,
            },
        ]
    }
}

impl PayoutLedger {
    /// Processes one batch of payees: each provider is rewarded its
    /// proportional share of the post-fee charge, capped at the vault's
    /// spendable balance with a shortfall beyond the dust tolerance
    /// reported as an explicit event, and the batch index joins the
    /// processed set — a second submission of the same index is rejected.
    /// A transfer failure leaves earlier transfers with the currency
    /// collaborator but the on-ledger report unchanged.
    #[verifier::rlimit(60)]
    #[verifier::loop_isolation(false)]
    pub fn send_rewarding_providers_batch<C: CustomerCharger, L: Currency>(
        &mut self,
        registry: &ValidatorRegistry,
        eras: &crate::eras::EraValidationStore,
        caller: AccountId,
        cluster_id: ClusterId,
        era: DdcEra,
        batch_index: BatchIndex,
        payees: &Vec<(AccountId, crate::primitives::NodePubKey, NodeUsage)>,
        batch_proof: &crate::primitives::MMRProof,
        charger: &mut C,
        currency: &mut L,
        events: &mut Vec<PayoutEvent>,
    ) -> (r: Result<(), PayoutCallError>)
        requires
            eras.wf(),
            reports_wf(old(self).active_billing_reports@),
        ensures
            reports_wf(final(self).active_billing_reports@),
            r == Result::<(), PayoutCallError>::Err(PayoutCallError::Unauthorised) <==> !registry.is_ocw_validator_spec(caller),
            registry.is_ocw_validator_spec(caller) ==> (r == Result::<(), PayoutCallError>::Err(
                PayoutCallError::BatchSizeIsOutOfBounds,
            ) <==> !(0 < payees@.len() <= MAX_PAYOUT_BATCH_SIZE)),
            registry.is_ocw_validator_spec(caller) && 0 < payees@.len() <= MAX_PAYOUT_BATCH_SIZE
                ==> (r == Result::<(), PayoutCallError>::Err(
                PayoutCallError::BillingReportDoesNotExist,
            ) <==> !old(self).active_billing_reports@.contains_key((cluster_id, era))),
            registry.is_ocw_validator_spec(caller) && 0 < payees@.len() <= MAX_PAYOUT_BATCH_SIZE
                && old(self).active_billing_reports@.contains_key((cluster_id, era)) ==> ({
                let old_rep = old(self).active_billing_reports@[(cluster_id, era)];
                &&& (r == Result::<(), PayoutCallError>::Err(PayoutCallError::NotExpectedState)
                    <==> old_rep.state != PayoutState::RewardingProviders)
                &&& (old_rep.state == PayoutState::RewardingProviders ==> (r
                    == Result::<(), PayoutCallError>::Err(PayoutCallError::BatchIndexIsOutOfRange)
                    <==> batch_index > old_rep.rewarding_max_batch_index))
                &&& (old_rep.state == PayoutState::RewardingProviders && batch_index
                    <= old_rep.rewarding_max_batch_index ==> (r
                    == Result::<(), PayoutCallError>::Err(
                    PayoutCallError::BatchIndexAlreadyProcessed,
                ) <==> old_rep.rewarding_processed_batches@.contains(batch_index)))
                &&& (old_rep.state == PayoutState::RewardingProviders && batch_index
                    <= old_rep.rewarding_max_batch_index
                    && !old_rep.rewarding_processed_batches@.contains(batch_index) ==> (r
                    == Result::<(), PayoutCallError>::Err(PayoutCallError::BatchValidationFailed)
                    <==> !crate::eras::providers_batch_valid_spec(
                    *eras,
                    cluster_id,
                    era,
                    batch_index as int,
                    old_rep.rewarding_max_batch_index as int,
                    payees@,
                    batch_proof.proof.deep_view(),
                )))
                // past the gates, only an overflowing reward or a refusal
                // by the currency collaborator can stop the call
                &&& (old_rep.state == PayoutState::RewardingProviders && batch_index
                    <= old_rep.rewarding_max_batch_index
                    && !old_rep.rewarding_processed_batches@.contains(batch_index)
                    && crate::eras::providers_batch_valid_spec(
                    *eras,
                    cluster_id,
                    era,
                    batch_index as int,
                    old_rep.rewarding_max_batch_index as int,
                    payees@,
                    batch_proof.proof.deep_view(),
                ) ==> r is Ok || r == Result::<(), PayoutCallError>::Err(
                    PayoutCallError::ArithmeticOverflow,
                ) || r == Result::<(), PayoutCallError>::Err(PayoutCallError::TransferFailed))
                &&& (r is Ok ==> forall|k: int|
                    0 <= k < payees@.len() ==> crate::charge::reward_total_spec(
                        (#[trigger] payees@[k]).2,
                        old_rep.total_node_usage,
                        old_rep.total_customer_charge,
                    ) <= u128::MAX)
            }),
            r is Err ==> final(self).active_billing_reports@ == old(
                self,
            ).active_billing_reports@ && final(self).debtor_customers@ == old(
                self,
            ).debtor_customers@ && final(events)@ == old(events)@,
            r is Ok ==> ({
                let old_rep = old(self).active_billing_reports@[(cluster_id, era)];
                let rep = final(self).active_billing_reports@[(cluster_id, era)];
                &&& final(self).active_billing_reports@ == old(
                    self,
                ).active_billing_reports@.insert((cluster_id, era), rep)
                &&& rep == BillingReport {
                    total_distributed_reward: rep.total_distributed_reward,
                    rewarding_processed_batches: rep.rewarding_processed_batches,
                    ..old_rep
                }
                &&& rep.rewarding_processed_batches@ == old_rep.rewarding_processed_batches@.insert(
                    batch_index,
                )
                &&& exists|spendable: Seq<u128>|
                    {
                        let paid = #[trigger] paid_rewards_spec(
                            payees@,
                            spendable,
                            old_rep.total_node_usage,
                            old_rep.total_customer_charge,
                        );
                        &&& spendable.len() == payees@.len()
                        &&& rep.total_distributed_reward == old_rep.total_distributed_reward
                            + rewards_sum(paid)
                        &&& final(events)@ == old(events)@ + rewarding_events_spec(
                            cluster_id,
                            era,
                            batch_index,
                            payees@,
                            spendable,
                            old_rep.total_node_usage,
                            old_rep.total_customer_charge,
                        )
                    }
                &&& rep.total_distributed_reward >= old_rep.total_distributed_reward
                &&& final(self).debtor_customers@ == old(self).debtor_customers@
            }),
    {
        if !registry.is_ocw_validator(caller) {
            return Err(PayoutCallError::Unauthorised);
        }
        if payees.len() == 0 || payees.len() > MAX_PAYOUT_BATCH_SIZE as usize {
            return Err(PayoutCallError::BatchSizeIsOutOfBounds);
        }
        let report = match self.active_billing_reports.get(&(cluster_id, era)) {
            Some(report) => report,
            None => {
                return Err(PayoutCallError::BillingReportDoesNotExist);
            },
        };
        if !state_eq(report.state, PayoutState::RewardingProviders) {
            return Err(PayoutCallError::NotExpectedState);
        }
        if batch_index > report.rewarding_max_batch_index {
            return Err(PayoutCallError::BatchIndexIsOutOfRange);
        }
        if report.rewarding_processed_batches.contains(&batch_index) {
            return Err(PayoutCallError::BatchIndexAlreadyProcessed);
        }
        if !eras.is_providers_batch_valid(
            cluster_id,
            era,
            batch_index,
            report.rewarding_max_batch_index,
            payees,
            batch_proof,
        ) {
            return Err(PayoutCallError::BatchValidationFailed);
        }
        let vault = report.vault;
        let total_node_usage = report.total_node_usage;
        let total_customer_charge = report.total_customer_charge;
        let mut new_distributed: u128 = report.total_distributed_reward;
        let ghost old_distributed = report.total_distributed_reward;
        let ghost mut spendables: Seq<u128> = Seq::empty();

        // first every input-determined reward, so an arithmetic error can
        // never strand a partial transfer
        let mut expected_rewards: Vec<u128> = Vec::new();
        let mut p: usize = 0;
        while p < payees.len()
            invariant
                p <= payees@.len(),
                expected_rewards@.len() == p,
                forall|k: int|
                    0 <= k < p ==> #[trigger] (expected_rewards@[k])
                        == crate::charge::reward_total_spec(
                        (payees@[k]).2,
                        total_node_usage,
                        total_customer_charge,
                    ),
            decreases payees@.len() - p,
        {
            let node_usage = payees[p].2;
            let node_reward = crate::charge::get_node_reward(
                &node_usage,
                &total_node_usage,
                &total_customer_charge,
            );
            let amount = match sum_reward(&node_reward) {
                Some(amount) => amount,
                None => {
                    return Err(PayoutCallError::ArithmeticOverflow);
                },
            };
            expected_rewards.push(amount);
            p = p + 1;
        }

        let mut pending_events: Vec<PayoutEvent> = Vec::new();
        let mut p: usize = 0;
        while p < payees.len()
            invariant
                p <= payees@.len(),
                spendables.len() == p,
                expected_rewards@.len() == payees@.len(),
                forall|k: int|
                    0 <= k < payees@.len() ==> #[trigger] (expected_rewards@[k])
                        == crate::charge::reward_total_spec(
                        (payees@[k]).2,
                        total_node_usage,
                        total_customer_charge,
                    ),
                new_distributed == old_distributed + rewards_sum(
                    paid_rewards_spec(
                        payees@.take(p as int),
                        spendables,
                        total_node_usage,
                        total_customer_charge,
                    ),
                ),
                pending_events@ == rewarding_events_spec(
                    cluster_id,
                    era,
                    batch_index,
                    payees@.take(p as int),
                    spendables,
                    total_node_usage,
                    total_customer_charge,
                ),
                new_distributed >= old_distributed,
                self.active_billing_reports@ == old(self).active_billing_reports@,
                self.debtor_customers@ == old(self).debtor_customers@,
            decreases payees@.len() - p,
        {
            let node_provider_id = payees[p].0;
            let node_key = payees[p].1;
            let node_usage = payees[p].2;
            let amount_to_reward = expected_rewards[p];
            let mut reward: u128 = amount_to_reward;
            let mut spendable_now: u128 = 0;
            if amount_to_reward > 0 {
                let free = currency.free_balance(vault);
                let minimum = currency.minimum_balance();
                let vault_balance = if free >= minimum {
                    free - minimum
                } else {
                    0
                };
                spendable_now = vault_balance;
                if reward > vault_balance {
                    if reward - vault_balance > MILLICENTS {
                        pending_events.push(
                            PayoutEvent::NotDistributedReward {
                                cluster_id,
                                era,
                                batch_index,
                                node_provider_id,
                                expected_reward: amount_to_reward,
                                distributed_reward: vault_balance,
                            },
                        );
                    }
                    reward = vault_balance;
                }
                if currency.transfer(vault, node_provider_id, reward).is_err() {
                    return Err(PayoutCallError::TransferFailed);
                }
                new_distributed = match new_distributed.checked_add(reward) {
                    Some(grown) => grown,
                    None => {
                        return Err(PayoutCallError::ArithmeticOverflow);
                    },
                };
            } else {
                reward = 0;
            }
            if charger.inc_total_node_usage(cluster_id, node_key, &node_usage).is_err() {
                return Err(PayoutCallError::TransferFailed);
            }
            pending_events.push(
                PayoutEvent::Rewarded {
                    cluster_id,
                    era,
                    batch_index,
                    node_provider_id,
                    rewarded: reward,
                    expected_to_reward: amount_to_reward,
                },
            );
            proof {
                let prev = spendables;
                spendables = spendables.push(spendable_now);
                let ghost expected = crate::charge::reward_total_spec(
                    (payees@[p as int]).2,
                    total_node_usage,
                    total_customer_charge,
                );
                assert(expected == amount_to_reward);
                assert(reward == paid_reward_spec(expected, spendable_now));
                assert(payees@.take(p + 1).drop_last() =~= payees@.take(p as int));
                assert(payees@.take(p + 1).last() == payees@[p as int]);
                assert(spendables.drop_last() =~= prev);
                assert(spendables[payees@.take(p + 1).len() - 1] == spendable_now);
                // the events of the longer prefix are the old ones plus
                // this payee's
                assert(pending_events@ =~= rewarding_events_spec(
                    cluster_id,
                    era,
                    batch_index,
                    payees@.take(p + 1),
                    spendables,
                    total_node_usage,
                    total_customer_charge,
                ));
                // the paid list of the longer prefix extends the old one
                let paid_now = paid_rewards_spec(
                    payees@.take(p + 1),
                    spendables,
                    total_node_usage,
                    total_customer_charge,
                );
                assert(paid_now.drop_last() =~= paid_rewards_spec(
                    payees@.take(p as int),
                    prev,
                    total_node_usage,
                    total_customer_charge,
                ));
                assert(paid_now.last() == reward);
            }
            p = p + 1;
        }

        // all checks and transfers done: commit the report and the events
        let report = match self.active_billing_reports.remove(&(cluster_id, era)) {
            Some(report) => report,
            None => {
                proof {
                    assert(false);
                }
                return Err(PayoutCallError::BillingReportDoesNotExist);
            },
        };
        let mut updated = BillingReport { total_distributed_reward: new_distributed, ..report };
        updated.rewarding_processed_batches.insert(batch_index);
        self.active_billing_reports.insert((cluster_id, era), updated);
        proof {
            lemma_reinsert_same(
                old(self).active_billing_reports@,
                self.active_billing_reports@,
                (cluster_id, era),
            );
            assert(reports_wf(self.active_billing_reports@)) by {
                assert forall|k: (ClusterId, DdcEra)|
                    #[trigger] self.active_billing_reports@.contains_key(k) implies ({
                    let m = self.active_billing_reports@;
                    m[k].state == PayoutState::Finalized || (m[k].start_era < m[k].end_era
                        && m[k].end_era - m[k].start_era <= i64::MAX)
                }) by {
                    if k != (cluster_id, era) {
                        assert(old(self).active_billing_reports@.contains_key(k));
                    }
                }
            }
        }
        let ghost committed_rep = self.active_billing_reports@[(cluster_id, era)];
        let ghost flushed = pending_events@;
        proof {
            assert(payees@.take(payees@.len() as int) =~= payees@);
        }
        let mut e: usize = 0;
        while e < pending_events.len()
            invariant
                e <= pending_events@.len(),
                pending_events@ == flushed,
                events@ == old(events)@ + flushed.take(e as int),
                self.active_billing_reports@ == old(self).active_billing_reports@.insert(
                    (cluster_id, era),
                    committed_rep,
                ),
                reports_wf(self.active_billing_reports@),
                self.debtor_customers@ == old(self).debtor_customers@,
            decreases pending_events@.len() - e,
        {
            events.push(pending_events[e]);
            proof {
                assert(events@ =~= old(events)@ + flushed.take(e + 1));
            }
            e = e + 1;
        }
        proof {
            assert(flushed.take(flushed.len() as int) =~= flushed);
            assert forall|k: int| 0 <= k < payees@.len() implies crate::charge::reward_total_spec(
                (#[trigger] payees@[k]).2,
                total_node_usage,
                total_customer_charge,
            ) <= u128::MAX by {
                assert(expected_rewards@[k] == crate::charge::reward_total_spec(
                    (payees@[k]).2,
                    total_node_usage,
                    total_customer_charge,
                ));
            }
        }
        Ok(())
    }
}

/// Adds the four components of a node reward, or reports overflow.
fn sum_reward(r: &crate::primitives::NodeReward) -> (s: Option<u128>)
    ensures
        s is Some <==> r.transfer + r.storage + r.puts + r.gets <= u128::MAX,
        s is Some ==> s->Some_0 == r.transfer + r.storage + r.puts + r.gets,
{
    match r.transfer.checked_add(r.storage) {
        Some(ts) => match ts.checked_add(r.puts) {
            Some(tsp) => tsp.checked_add(r.gets),
            None => None,
        },
        None => None,
    }
}

/// Adds two charges componentwise, or reports overflow.
fn add_charges(a: &CustomerCharge, b: &CustomerCharge) -> (r: Option<CustomerCharge>)
    ensures
        r is Some <==> a.transfer + b.transfer <= u128::MAX && a.storage + b.storage <= u128::MAX
            && a.puts + b.puts <= u128::MAX && a.gets + b.gets <= u128::MAX,
        r is Some ==> r->Some_0 == (CustomerCharge {
            transfer: (a.transfer + b.transfer) as u128,
            storage: (a.storage + b.storage) as u128,
            puts: (a.puts + b.puts) as u128,
            gets: (a.gets + b.gets) as u128,
        }),
{
    let transfer = match a.transfer.checked_add(b.transfer) {
        Some(v) => v,
        None => {
            return None;
        },
    };
    let storage = match a.storage.checked_add(b.storage) {
        Some(v) => v,
        None => {
            return None;
        },
    };
    let puts = match a.puts.checked_add(b.puts) {
        Some(v) => v,
        None => {
            return None;
        },
    };
    let gets = match a.gets.checked_add(b.gets) {
        Some(v) => v,
        None => {
            return None;
        },
    };
    Some(CustomerCharge { transfer, storage, puts, gets })
}

/// Whether every report's era bounds form a well-formed interval whose
/// width fits the signed time type. A finalized report is exempt: the
/// admin skip path synthesizes finalized reports with empty bounds, and
/// nothing reads the bounds of a finalized report.
pub open spec fn reports_wf(m: Map<(ClusterId, DdcEra), BillingReport>) -> bool {
    forall|k: (ClusterId, DdcEra)|
        #[trigger] m.contains_key(k) ==> m[k].state == PayoutState::Finalized || (m[k].start_era
            < m[k].end_era && m[k].end_era - m[k].start_era <= i64::MAX)
}

/// Removing a key and inserting a value for the same key leaves every
/// other key's mapping unchanged, and the whole map equal to a single
/// insertion into the original.
proof fn lemma_reinsert_same<K, V>(old_map: Map<K, V>, new_map: Map<K, V>, key: K)
    requires
        old_map.contains_key(key),
        new_map == old_map.remove(key).insert(key, new_map[key]),
    ensures
        new_map == old_map.insert(key, new_map[key]),
{
    assert(new_map =~= old_map.insert(key, new_map[key]));
}

/// Continues validation from after a given era by the admin path: the
/// cluster's last-paid-era marker is force-advanced, a finalized billing
/// report is synthesized for the skipped era, and a skipped validation
/// record is written if none exists. Bypasses the normal quorum.
pub fn skip_dac_validation_to_era(
    eras: &mut crate::eras::EraValidationStore,
    payouts: &mut PayoutLedger,
    last_paid_eras: &mut BTreeMap<ClusterId, DdcEra>,
    validator_set: &Vec<AccountId>,
    cluster_id: ClusterId,
    era_id: DdcEra,
) -> (r: Result<(), crate::eras::VerificationCallError>)
    requires
        old(eras).wf(),
        reports_wf(old(payouts).active_billing_reports@),
    ensures
        final(eras).wf(),
        reports_wf(final(payouts).active_billing_reports@),
        ({
            let last_paid = if old(last_paid_eras)@.contains_key(cluster_id) {
                old(last_paid_eras)@[cluster_id]
            } else {
                0
            };
            &&& (r is Err <==> era_id <= last_paid)
            &&& (r is Err ==> r->Err_0 == crate::eras::VerificationCallError::EraAlreadyPaid
                && final(eras).entries@ == old(eras).entries@
                && final(payouts).active_billing_reports@ == old(payouts).active_billing_reports@
                && final(last_paid_eras)@ == old(last_paid_eras)@)
            &&& (r is Ok ==> final(eras).has_record(cluster_id, era_id)
                && final(payouts).active_billing_reports@.contains_key((cluster_id, era_id))
                && final(payouts).active_billing_reports@[(cluster_id, era_id)].state
                == PayoutState::Finalized && final(last_paid_eras)@ == old(
                last_paid_eras,
            )@.insert(cluster_id, era_id))
            // an era that had no validation record is recorded as skipped;
            // an existing record is left as it stood
            &&& (r is Ok && !old(eras).has_record(cluster_id, era_id)
                ==> (final(eras).entries@[final(eras).index_of(cluster_id, era_id)]).2.status
                == EraValidationStatus::PayoutSkipped)
            &&& (r is Ok && old(eras).has_record(cluster_id, era_id) ==> final(eras).entries@
                == old(eras).entries@)
        }),
{
    broadcast use vstd::laws_cmp::group_laws_cmp;

    let last_paid: DdcEra = match last_paid_eras.get(&cluster_id) {
        Some(era) => *era,
        None => 0,
    };
    if era_id <= last_paid {
        return Err(crate::eras::VerificationCallError::EraAlreadyPaid);
    }
    eras.do_skip_era_validation(validator_set, cluster_id, era_id);
    proof {
        if !old(eras).has_record(cluster_id, era_id) {
            // the skipped record sits at the end; the store's uniqueness
            // makes it the one the key lookup finds
            let n = eras.entries@.len() - 1;
            assert((eras.entries@[n]).0 == cluster_id && (eras.entries@[n]).1 == era_id);
            let j = eras.index_of(cluster_id, era_id);
            assert((eras.entries@[j]).0 == cluster_id && (eras.entries@[j]).1 == era_id);
            assert(j == n);
        }
    }
    let report = BillingReport {
        state: PayoutState::Finalized,
        vault: payouts.pallet_account,
        start_era: 0,
        end_era: 0,
        total_customer_charge: CustomerCharge::zero(),
        total_distributed_reward: 0,
        total_node_usage: NodeUsage::zero(),
        charging_max_batch_index: 0,
        charging_processed_batches: std::collections::BTreeSet::new(),
        rewarding_max_batch_index: 0,
        rewarding_processed_batches: std::collections::BTreeSet::new(),
    };
    payouts.active_billing_reports.insert((cluster_id, era_id), report);
    last_paid_eras.insert(cluster_id, era_id);
    Ok(())
}

} // verus!
