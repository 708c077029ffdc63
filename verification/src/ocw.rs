//! Batched reporting of off-chain consensus errors: the errors one worker
//! pass accumulates are turned into on-ledger events in a single call, so
//! operators see all issues of one pass together.

use vstd::prelude::*;

use crate::aggregates::AggregateKey;
use crate::eras::{ValidatorRegistry, VerificationCallError};
use crate::primitives::{AccountId, BatchIndex, BucketId, ClusterId, DdcEra, NodePubKey};

verus! {

/// Errors an off-chain worker pass collects instead of halting on:
/// retrieval failures are retried next pass, transaction failures name
/// the step that could not be submitted.
#[verifier::ext_equal]
#[derive(PartialEq, Eq, Clone, Debug)]
pub enum OCWError {
    NodeUsageRetrievalError {
        cluster_id: ClusterId,
        era_id: DdcEra,
        node_pub_key: NodePubKey,
    },
    BucketAggregatesRetrievalError {
        cluster_id: ClusterId,
        era_id: DdcEra,
        node_pub_key: NodePubKey,
    },
    EraRetrievalError {
        cluster_id: ClusterId,
        node_pub_key: Option<NodePubKey>,
    },
    BucketAggregateRetrievalError {
        cluster_id: ClusterId,
        era_id: DdcEra,
        bucket_id: BucketId,
        node_pub_key: NodePubKey,
    },
    ChallengeResponseRetrievalError {
        cluster_id: ClusterId,
        era_id: DdcEra,
        aggregate_key: AggregateKey,
        aggregator: NodePubKey,
    },
    TraverseResponseRetrievalError {
        cluster_id: ClusterId,
        era_id: DdcEra,
        aggregate_key: AggregateKey,
        aggregator: NodePubKey,
    },
    PrepareEraTransactionError {
        cluster_id: ClusterId,
        era_id: DdcEra,
        payers_merkle_root_hash: Vec<u8>,
        payees_merkle_root_hash: Vec<u8>,
    },
    CommitBillingFingerprintTransactionError {
        cluster_id: ClusterId,
        era_id: DdcEra,
        payers_root: Vec<u8>,
        payees_root: Vec<u8>,
    },
    BeginBillingReportTransactionError {
        cluster_id: ClusterId,
        era_id: DdcEra,
    },
    BeginChargingCustomersTransactionError {
        cluster_id: ClusterId,
        era_id: DdcEra,
    },
    SendChargingCustomersBatchTransactionError {
        cluster_id: ClusterId,
        era_id: DdcEra,
        batch_index: BatchIndex,
    },
    SendRewardingProvidersBatchTransactionError {
        cluster_id: ClusterId,
        era_id: DdcEra,
        batch_index: BatchIndex,
    },
    EndChargingCustomersTransactionError {
        cluster_id: ClusterId,
        era_id: DdcEra,
    },
    BeginRewardingProvidersTransactionError {
        cluster_id: ClusterId,
        era_id: DdcEra,
    },
    EndRewardingProvidersTransactionError {
        cluster_id: ClusterId,
        era_id: DdcEra,
    },
    EndBillingReportTransactionError {
        cluster_id: ClusterId,
        era_id: DdcEra,
    },
    BillingReportDoesNotExist {
        cluster_id: ClusterId,
        era_id: DdcEra,
    },
    EmptyCustomerActivity {
        cluster_id: ClusterId,
        era_id: DdcEra,
    },
    BatchIndexConversionFailed {
        cluster_id: ClusterId,
        era_id: DdcEra,
    },
    NoAvailableSigner,
    NotEnoughDACNodes {
        num_nodes: u16,
    },
    FailedToCreateMerkleRoot {
        cluster_id: ClusterId,
        era_id: DdcEra,
    },
    FailedToCreateMerkleProof {
        cluster_id: ClusterId,
        era_id: DdcEra,
    },
    FailedToCollectVerificationKey,
    FailedToFetchVerificationKey,
    FailedToFetchNodeProvider,
    FailedToFetchClusterNodes,
    FailedToFetchDacNodes,
    FailedToFetchNodeTotalUsage {
        cluster_id: ClusterId,
        node_pub_key: NodePubKey,
    },
    EmptyConsistentGroup,
    FailedToFetchVerifiedDeltaUsage,
    FailedToFetchVerifiedPayableUsage,
}

/// Events of the era-validation side, one per reported consensus error,
/// each attributed to the reporting validator.
#[verifier::ext_equal]
#[derive(PartialEq, Eq, Clone, Debug)]
pub enum VerificationEvent {
    NodeUsageRetrievalError {
        cluster_id: ClusterId,
        era_id: DdcEra,
        node_pub_key: NodePubKey,
        validator: AccountId,
    },
    BucketAggregatesRetrievalError {
        cluster_id: ClusterId,
        era_id: DdcEra,
        node_pub_key: NodePubKey,
        validator: AccountId,
    },
    EraRetrievalError {
        cluster_id: ClusterId,
        node_pub_key: Option<NodePubKey>,
        validator: AccountId,
    },
    BucketAggregateRetrievalError {
        cluster_id: ClusterId,
        era_id: DdcEra,
        bucket_id: BucketId,
        node_pub_key: NodePubKey,
        validator: AccountId,
    },
    ChallengeResponseRetrievalError {
        cluster_id: ClusterId,
        era_id: DdcEra,
        aggregate_key: AggregateKey,
        aggregator: NodePubKey,
        validator: AccountId,
    },
    TraverseResponseRetrievalError {
        cluster_id: ClusterId,
        era_id: DdcEra,
        aggregate_key: AggregateKey,
        aggregator: NodePubKey,
        validator: AccountId,
    },
    PrepareEraTransactionError {
        cluster_id: ClusterId,
        era_id: DdcEra,
        payers_merkle_root_hash: Vec<u8>,
        payees_merkle_root_hash: Vec<u8>,
        validator: AccountId,
    },
    CommitBillingFingerprintTransactionError {
        cluster_id: ClusterId,
        era_id: DdcEra,
        payers_root: Vec<u8>,
        payees_root: Vec<u8>,
        validator: AccountId,
    },
    BeginBillingReportTransactionError {
        cluster_id: ClusterId,
        era_id: DdcEra,
        validator: AccountId,
    },
    BeginChargingCustomersTransactionError {
        cluster_id: ClusterId,
        era_id: DdcEra,
        validator: AccountId,
    },
    SendChargingCustomersBatchTransactionError {
        cluster_id: ClusterId,
        era_id: DdcEra,
        batch_index: BatchIndex,
        validator: AccountId,
    },
    SendRewardingProvidersBatchTransactionError {
        cluster_id: ClusterId,
        era_id: DdcEra,
        batch_index: BatchIndex,
        validator: AccountId,
    },
    EndChargingCustomersTransactionError {
        cluster_id: ClusterId,
        era_id: DdcEra,
        validator: AccountId,
    },
    BeginRewardingProvidersTransactionError {
        cluster_id: ClusterId,
        era_id: DdcEra,
        validator: AccountId,
    },
    EndRewardingProvidersTransactionError {
        cluster_id: ClusterId,
        era_id: DdcEra,
        validator: AccountId,
    },
    EndBillingReportTransactionError {
        cluster_id: ClusterId,
        era_id: DdcEra,
        validator: AccountId,
    },
    BillingReportDoesNotExist {
        cluster_id: ClusterId,
        era_id: DdcEra,
        validator: AccountId,
    },
    EmptyCustomerActivity {
        cluster_id: ClusterId,
        era_id: DdcEra,
        validator: AccountId,
    },
    BatchIndexConversionFailed {
        cluster_id: ClusterId,
        era_id: DdcEra,
        validator: AccountId,
    },
    NoAvailableSigner {
        validator: AccountId,
    },
    NotEnoughDACNodes {
        num_nodes: u16,
        validator: AccountId,
    },
    FailedToCreateMerkleRoot {
        cluster_id: ClusterId,
        era_id: DdcEra,
        validator: AccountId,
    },
    FailedToCreateMerkleProof {
        cluster_id: ClusterId,
        era_id: DdcEra,
        validator: AccountId,
    },
    FailedToCollectVerificationKey {
        validator: AccountId,
    },
    FailedToFetchVerificationKey {
        validator: AccountId,
    },
    FailedToFetchNodeProvider {
        validator: AccountId,
    },
    FailedToFetchClusterNodes {
        validator: AccountId,
    },
    FailedToFetchDacNodes {
        validator: AccountId,
    },
    FailedToFetchNodeTotalUsage {
        cluster_id: ClusterId,
        node_pub_key: NodePubKey,
        validator: AccountId,
    },
    EmptyConsistentGroup,
    FailedToFetchVerifiedDeltaUsage,
    FailedToFetchVerifiedPayableUsage,
}

/// The event that one consensus error surfaces as, attributed to the
/// reporting validator.
pub open spec fn consensus_event_of(e: OCWError, validator: AccountId) -> VerificationEvent {
    match e {
        OCWError::NodeUsageRetrievalError { cluster_id, era_id, node_pub_key } => VerificationEvent::NodeUsageRetrievalError { cluster_id, era_id, node_pub_key, validator },
        OCWError::BucketAggregatesRetrievalError { cluster_id, era_id, node_pub_key } => VerificationEvent::BucketAggregatesRetrievalError { cluster_id, era_id, node_pub_key, validator },
        OCWError::EraRetrievalError { cluster_id, node_pub_key } => VerificationEvent::EraRetrievalError { cluster_id, node_pub_key, validator },
        OCWError::BucketAggregateRetrievalError { cluster_id, era_id, bucket_id, node_pub_key } => VerificationEvent::BucketAggregateRetrievalError { cluster_id, era_id, bucket_id, node_pub_key, validator },
        OCWError::ChallengeResponseRetrievalError { cluster_id, era_id, aggregate_key, aggregator } => VerificationEvent::ChallengeResponseRetrievalError { cluster_id, era_id, aggregate_key, aggregator, validator },
        OCWError::TraverseResponseRetrievalError { cluster_id, era_id, aggregate_key, aggregator } => VerificationEvent::TraverseResponseRetrievalError { cluster_id, era_id, aggregate_key, aggregator, validator },
        OCWError::PrepareEraTransactionError { cluster_id, era_id, payers_merkle_root_hash, payees_merkle_root_hash } => VerificationEvent::PrepareEraTransactionError { cluster_id, era_id, payers_merkle_root_hash, payees_merkle_root_hash, validator },
        OCWError::CommitBillingFingerprintTransactionError { cluster_id, era_id, payers_root, payees_root } => VerificationEvent::CommitBillingFingerprintTransactionError { cluster_id, era_id, payers_root, payees_root, validator },
        OCWError::BeginBillingReportTransactionError { cluster_id, era_id } => VerificationEvent::BeginBillingReportTransactionError { cluster_id, era_id, validator },
        OCWError::BeginChargingCustomersTransactionError { cluster_id, era_id } => VerificationEvent::BeginChargingCustomersTransactionError { cluster_id, era_id, validator },
        OCWError::SendChargingCustomersBatchTransactionError { cluster_id, era_id, batch_index } => VerificationEvent::SendChargingCustomersBatchTransactionError { cluster_id, era_id, batch_index, validator },
        OCWError::SendRewardingProvidersBatchTransactionError { cluster_id, era_id, batch_index } => VerificationEvent::SendRewardingProvidersBatchTransactionError { cluster_id, era_id, batch_index, validator },
        OCWError::EndChargingCustomersTransactionError { cluster_id, era_id } => VerificationEvent::EndChargingCustomersTransactionError { cluster_id, era_id, validator },
        OCWError::BeginRewardingProvidersTransactionError { cluster_id, era_id } => VerificationEvent::BeginRewardingProvidersTransactionError { cluster_id, era_id, validator },
        OCWError::EndRewardingProvidersTransactionError { cluster_id, era_id } => VerificationEvent::EndRewardingProvidersTransactionError { cluster_id, era_id, validator },
        OCWError::EndBillingReportTransactionError { cluster_id, era_id } => VerificationEvent::EndBillingReportTransactionError { cluster_id, era_id, validator },
        OCWError::BillingReportDoesNotExist { cluster_id, era_id } => VerificationEvent::BillingReportDoesNotExist { cluster_id, era_id, validator },
        OCWError::EmptyCustomerActivity { cluster_id, era_id } => VerificationEvent::EmptyCustomerActivity { cluster_id, era_id, validator },
        OCWError::BatchIndexConversionFailed { cluster_id, era_id } => VerificationEvent::BatchIndexConversionFailed { cluster_id, era_id, validator },
        OCWError::NoAvailableSigner => VerificationEvent::NoAvailableSigner { validator },
        OCWError::NotEnoughDACNodes { num_nodes } => VerificationEvent::NotEnoughDACNodes { num_nodes, validator },
        OCWError::FailedToCreateMerkleRoot { cluster_id, era_id } => VerificationEvent::FailedToCreateMerkleRoot { cluster_id, era_id, validator },
        OCWError::FailedToCreateMerkleProof { cluster_id, era_id } => VerificationEvent::FailedToCreateMerkleProof { cluster_id, era_id, validator },
        OCWError::FailedToCollectVerificationKey => VerificationEvent::FailedToCollectVerificationKey { validator },
        OCWError::FailedToFetchVerificationKey => VerificationEvent::FailedToFetchVerificationKey { validator },
        OCWError::FailedToFetchNodeProvider => VerificationEvent::FailedToFetchNodeProvider { validator },
        OCWError::FailedToFetchClusterNodes => VerificationEvent::FailedToFetchClusterNodes { validator },
        OCWError::FailedToFetchDacNodes => VerificationEvent::FailedToFetchDacNodes { validator },
        OCWError::FailedToFetchNodeTotalUsage { cluster_id, node_pub_key } => VerificationEvent::FailedToFetchNodeTotalUsage { cluster_id, node_pub_key, validator },
        OCWError::EmptyConsistentGroup => VerificationEvent::EmptyConsistentGroup,
        OCWError::FailedToFetchVerifiedDeltaUsage => VerificationEvent::FailedToFetchVerifiedDeltaUsage,
        OCWError::FailedToFetchVerifiedPayableUsage => VerificationEvent::FailedToFetchVerifiedPayableUsage,
    }
}

/// Turns one consensus error into its event.
pub fn event_of(e: OCWError, validator: AccountId) -> (r: VerificationEvent)
    ensures
        r == consensus_event_of(e, validator),
{
    match e {
        OCWError::NodeUsageRetrievalError { cluster_id, era_id, node_pub_key } => VerificationEvent::NodeUsageRetrievalError { cluster_id, era_id, node_pub_key, validator },
        OCWError::BucketAggregatesRetrievalError { cluster_id, era_id, node_pub_key } => VerificationEvent::BucketAggregatesRetrievalError { cluster_id, era_id, node_pub_key, validator },
        OCWError::EraRetrievalError { cluster_id, node_pub_key } => VerificationEvent::EraRetrievalError { cluster_id, node_pub_key, validator },
        OCWError::BucketAggregateRetrievalError { cluster_id, era_id, bucket_id, node_pub_key } => VerificationEvent::BucketAggregateRetrievalError { cluster_id, era_id, bucket_id, node_pub_key, validator },
        OCWError::ChallengeResponseRetrievalError { cluster_id, era_id, aggregate_key, aggregator } => VerificationEvent::ChallengeResponseRetrievalError { cluster_id, era_id, aggregate_key, aggregator, validator },
        OCWError::TraverseResponseRetrievalError { cluster_id, era_id, aggregate_key, aggregator } => VerificationEvent::TraverseResponseRetrievalError { cluster_id, era_id, aggregate_key, aggregator, validator },
        OCWError::PrepareEraTransactionError { cluster_id, era_id, payers_merkle_root_hash, payees_merkle_root_hash } => VerificationEvent::PrepareEraTransactionError { cluster_id, era_id, payers_merkle_root_hash, payees_merkle_root_hash, validator },
        OCWError::CommitBillingFingerprintTransactionError { cluster_id, era_id, payers_root, payees_root } => VerificationEvent::CommitBillingFingerprintTransactionError { cluster_id, era_id, payers_root, payees_root, validator },
        OCWError::BeginBillingReportTransactionError { cluster_id, era_id } => VerificationEvent::BeginBillingReportTransactionError { cluster_id, era_id, validator },
        OCWError::BeginChargingCustomersTransactionError { cluster_id, era_id } => VerificationEvent::BeginChargingCustomersTransactionError { cluster_id, era_id, validator },
        OCWError::SendChargingCustomersBatchTransactionError { cluster_id, era_id, batch_index } => VerificationEvent::SendChargingCustomersBatchTransactionError { cluster_id, era_id, batch_index, validator },
        OCWError::SendRewardingProvidersBatchTransactionError { cluster_id, era_id, batch_index } => VerificationEvent::SendRewardingProvidersBatchTransactionError { cluster_id, era_id, batch_index, validator },
        OCWError::EndChargingCustomersTransactionError { cluster_id, era_id } => VerificationEvent::EndChargingCustomersTransactionError { cluster_id, era_id, validator },
        OCWError::BeginRewardingProvidersTransactionError { cluster_id, era_id } => VerificationEvent::BeginRewardingProvidersTransactionError { cluster_id, era_id, validator },
        OCWError::EndRewardingProvidersTransactionError { cluster_id, era_id } => VerificationEvent::EndRewardingProvidersTransactionError { cluster_id, era_id, validator },
        OCWError::EndBillingReportTransactionError { cluster_id, era_id } => VerificationEvent::EndBillingReportTransactionError { cluster_id, era_id, validator },
        OCWError::BillingReportDoesNotExist { cluster_id, era_id } => VerificationEvent::BillingReportDoesNotExist { cluster_id, era_id, validator },
        OCWError::EmptyCustomerActivity { cluster_id, era_id } => VerificationEvent::EmptyCustomerActivity { cluster_id, era_id, validator },
        OCWError::BatchIndexConversionFailed { cluster_id, era_id } => VerificationEvent::BatchIndexConversionFailed { cluster_id, era_id, validator },
        OCWError::NoAvailableSigner => VerificationEvent::NoAvailableSigner { validator },
        OCWError::NotEnoughDACNodes { num_nodes } => VerificationEvent::NotEnoughDACNodes { num_nodes, validator },
        OCWError::FailedToCreateMerkleRoot { cluster_id, era_id } => VerificationEvent::FailedToCreateMerkleRoot { cluster_id, era_id, validator },
        OCWError::FailedToCreateMerkleProof { cluster_id, era_id } => VerificationEvent::FailedToCreateMerkleProof { cluster_id, era_id, validator },
        OCWError::FailedToCollectVerificationKey => VerificationEvent::FailedToCollectVerificationKey { validator },
        OCWError::FailedToFetchVerificationKey => VerificationEvent::FailedToFetchVerificationKey { validator },
        OCWError::FailedToFetchNodeProvider => VerificationEvent::FailedToFetchNodeProvider { validator },
        OCWError::FailedToFetchClusterNodes => VerificationEvent::FailedToFetchClusterNodes { validator },
        OCWError::FailedToFetchDacNodes => VerificationEvent::FailedToFetchDacNodes { validator },
        OCWError::FailedToFetchNodeTotalUsage { cluster_id, node_pub_key } => VerificationEvent::FailedToFetchNodeTotalUsage { cluster_id, node_pub_key, validator },
        OCWError::EmptyConsistentGroup => VerificationEvent::EmptyConsistentGroup,
        OCWError::FailedToFetchVerifiedDeltaUsage => VerificationEvent::FailedToFetchVerifiedDeltaUsage,
        OCWError::FailedToFetchVerifiedPayableUsage => VerificationEvent::FailedToFetchVerifiedPayableUsage,
    }
}

/// Emits the consensus errors a worker pass collected as events in one
/// batch: only a recognized validator may report, and every error becomes
/// exactly one event attributed to the caller, in order.
pub fn emit_consensus_errors(
    registry: &ValidatorRegistry,
    caller: AccountId,
    errors: Vec<OCWError>,
    events: &mut Vec<VerificationEvent>,
) -> (r: Result<(), VerificationCallError>)
    ensures
        r is Err <==> !registry.is_ocw_validator_spec(caller),
        r is Err ==> r->Err_0 == VerificationCallError::Unauthorized && final(events)@ == old(
            events,
        )@,
        r is Ok ==> final(events)@ == old(events)@ + errors@.map_values(
            |e: OCWError| consensus_event_of(e, caller),
        ),
{
    if !registry.is_ocw_validator(caller) {
        return Err(VerificationCallError::Unauthorized);
    }
    let ghost all = errors@;
    let mut rest = errors;
    let ghost mut i: int = 0;
    while rest.len() > 0
        invariant
            0 <= i <= all.len(),
            i + rest@.len() == all.len(),
            rest@ == all.skip(i),
            events@ == old(events)@ + all.take(i).map_values(
                |e: OCWError| consensus_event_of(e, caller),
            ),
        decreases rest@.len(),
    {
        let e = rest.remove(0);
        proof {
            assert(e == all[i]);
            assert(rest@ =~= all.skip(i + 1));
        }
        let event = event_of(e, caller);
        events.push(event);
        proof {
            assert(all.take(i + 1).map_values(|er: OCWError| consensus_event_of(er, caller))
                =~= all.take(i).map_values(
                |er: OCWError| consensus_event_of(er, caller),
            ).push(consensus_event_of(all[i], caller)));
            i = i + 1;
        }
    }
    proof {
        assert(all.take(all.len() as int) =~= all);
        assert(events@ =~= old(events)@ + all.map_values(
            |e: OCWError| consensus_event_of(e, caller),
        ));
    }
    Ok(())
}

} // verus!
