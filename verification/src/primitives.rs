//! Core data model of the settlement subsystem: identifiers, usage records,
//! charges, rewards, payout phases and the parameters a cluster is governed by.

use vstd::prelude::*;

verus! {

/// An accounting epoch over which usage is aggregated and settled.
pub type DdcEra = u32;

/// Identifier of a customer bucket.
pub type BucketId = u64;

/// Index of one fixed-size batch of payers or payees within an era.
pub type BatchIndex = u16;

/// Identifier of a storage cluster.
pub type ClusterId = u64;

/// Identifier of a ledger account (customer, provider, validator or vault).
pub type AccountId = u64;

/// Number of nodes of a cluster, per validation status.
pub type ClusterNodesCount = u16;

/// Most batches a payout phase may declare.
pub const MAX_PAYOUT_BATCH_COUNT: u16 = 1000;

/// Most payers or payees a single batch may carry.
pub const MAX_PAYOUT_BATCH_SIZE: u16 = 500;

/// Smallest token denomination used by the dust tolerance.
pub const MILLICENTS: u128 = 100_000;

/// One cent worth of tokens.
pub const CENTS: u128 = 1_000 * MILLICENTS;

/// One dollar worth of tokens.
pub const DOLLARS: u128 = 100 * CENTS;

/// Nominal month length in seconds used to pro-rate storage charges.
pub const AVG_SECONDS_MONTH: i64 = 2630016;

/// Bytes per mebibyte, the pricing unit of stored and streamed bytes.
pub const MEBIBYTE: u128 = 1048576;

/// The 32-byte public key of a storage node, held as four 64-bit words:
/// word 0 holds the key's first eight bytes, least-significant byte
/// first, and so on.
#[derive(PartialEq, Eq, Structural, Clone, Copy, Debug, Hash)]
pub struct StorageNodePubKey {
    pub w0: u64,
    pub w1: u64,
    pub w2: u64,
    pub w3: u64,
}

/// Public key identifying a node, by the kind of node.
#[derive(PartialEq, Eq, Structural, Clone, Copy, Debug, Hash)]
pub enum NodePubKey {
    StoragePubKey(StorageNodePubKey),
}

/// Operating mode of a storage node.
#[derive(PartialEq, Eq, Structural, Clone, Copy, Debug, Hash)]
pub enum StorageNodeMode {
    /// Caches in RAM and stores data on disk.
    Full,
    /// No RAM cache; stores data on disk.
    Storage,
    /// Caches in RAM only; stores nothing on disk.
    Cache,
    /// Data-activity-capture aggregator node.
    DAC,
}

/// Connection and mode parameters of a storage node.
#[derive(PartialEq, Eq, Clone, Debug)]
pub struct StorageNodeParams {
    pub mode: StorageNodeMode,
    pub host: Vec<u8>,
    pub domain: Vec<u8>,
    pub ssl: bool,
    pub http_port: u16,
    pub grpc_port: u16,
    pub p2p_port: u16,
}

impl Default for StorageNodeParams {
    /// A full-mode node with no address and closed ports.
    fn default() -> (r: StorageNodeParams)
        ensures
            r.mode == StorageNodeMode::Full,
            r.host@.len() == 0 && r.domain@.len() == 0,
            !r.ssl,
            r.http_port == 0 && r.grpc_port == 0 && r.p2p_port == 0,
    {
        StorageNodeParams {
            mode: StorageNodeMode::Full,
            host: Vec::new(),
            domain: Vec::new(),
            ssl: false,
            http_port: 0,
            grpc_port: 0,
            p2p_port: 0,
        }
    }
}

/// Parameters of a node, by the kind of node.
#[derive(PartialEq, Eq, Clone, Debug)]
pub enum NodeParams {
    StorageParams(StorageNodeParams),
}

/// Identity and connection parameters of an aggregator that reported usage.
#[derive(PartialEq, Eq, Clone, Debug)]
pub struct AggregatorInfo {
    pub node_pub_key: NodePubKey,
    pub node_params: StorageNodeParams,
}

/// Kind of node.
#[derive(PartialEq, Eq, Structural, Clone, Copy, Debug)]
pub enum NodeType {
    Storage,
}

impl NodeType {
    /// Numeric code of this node type on the wire.
    pub fn into_code(self) -> (r: u8)
        ensures
            r == 1,
    {
        match self {
            NodeType::Storage => 1,
        }
    }

    /// Parses a numeric node-type code; only code 1 names a type.
    pub fn try_from(value: u8) -> (r: Result<NodeType, ()>)
        ensures
            value == 1 <==> r == Result::<NodeType, ()>::Ok(NodeType::Storage),
            value != 1 <==> r is Err,
    {
        match value {
            1 => Ok(NodeType::Storage),
            _ => Err(()),
        }
    }
}

/// Lifecycle status of a cluster.
#[derive(PartialEq, Eq, Structural, Clone, Copy, Debug)]
pub enum ClusterStatus {
    Unbonded,
    Bonded,
    Activated,
    Unbonding,
}

/// How a node joined a cluster.
#[derive(PartialEq, Eq, Structural, Clone, Copy, Debug)]
pub enum ClusterNodeKind {
    Genesis,
    External,
}

/// Validation status of a node within a cluster.
#[derive(PartialEq, Eq, Structural, Clone, Copy, Debug)]
pub enum ClusterNodeStatus {
    AwaitsValidation,
    ValidationSucceeded,
    ValidationFailed,
}

/// Membership state of one node of a cluster.
#[derive(PartialEq, Eq, Structural, Clone, Copy, Debug)]
pub struct ClusterNodeState<BlockNumber> {
    pub kind: ClusterNodeKind,
    pub status: ClusterNodeStatus,
    pub added_at: BlockNumber,
}

/// Node counts of a cluster, by validation status.
#[derive(PartialEq, Eq, Structural, Clone, Copy, Debug)]
pub struct ClusterNodesStats {
    pub await_validation: ClusterNodesCount,
    pub validation_succeeded: ClusterNodesCount,
    pub validation_failed: ClusterNodesCount,
}

/// Price per unit of each usage dimension, in tokens.
#[derive(PartialEq, Eq, Structural, Clone, Copy, Debug)]
pub struct ClusterPricingParams {
    pub unit_per_mb_stored: u128,
    pub unit_per_mb_streamed: u128,
    pub unit_per_put_request: u128,
    pub unit_per_get_request: u128,
}

/// Protocol fee shares of a cluster, each a fixed-point fraction held as
/// parts per quintillion (see [`crate::arith::PERQUINTILL_ACCURACY`]).
#[derive(PartialEq, Eq, Structural, Clone, Copy, Debug)]
pub struct ClusterFeesParams {
    pub treasury_share: u64,
    pub validators_share: u64,
    pub cluster_reserve_share: u64,
}

/// Bonding parameters of a cluster.
#[derive(PartialEq, Eq, Structural, Clone, Copy, Debug)]
pub struct ClusterBondingParams<BlockNumber> {
    pub storage_bond_size: u128,
    pub storage_chill_delay: BlockNumber,
    pub storage_unbonding_delay: BlockNumber,
}

/// Governance parameters of a bucket.
#[derive(PartialEq, Eq, Structural, Clone, Copy, Debug)]
pub struct BucketParams {
    pub is_public: bool,
}

/// Usage of a bucket over an era: flow quantities are per-era deltas,
/// stored bytes are a running balance.
#[derive(PartialEq, Eq, Structural, Clone, Copy, Debug)]
pub struct BucketUsage {
    pub transferred_bytes: u64,
    pub stored_bytes: i64,
    pub number_of_puts: u64,
    pub number_of_gets: u64,
}

/// Usage of a node over an era: flow quantities are per-era deltas,
/// stored bytes are a running balance.
#[derive(PartialEq, Eq, Structural, Clone, Copy, Debug)]
pub struct NodeUsage {
    pub transferred_bytes: u64,
    pub stored_bytes: i64,
    pub number_of_puts: u64,
    pub number_of_gets: u64,
}

impl NodeUsage {
    /// The all-zero usage record.
    pub open spec fn spec_zero() -> NodeUsage {
        NodeUsage { transferred_bytes: 0, stored_bytes: 0, number_of_puts: 0, number_of_gets: 0 }
    }

    /// The all-zero usage record.
    pub fn zero() -> (r: NodeUsage)
        ensures
            r == NodeUsage::spec_zero(),
    {
        NodeUsage { transferred_bytes: 0, stored_bytes: 0, number_of_puts: 0, number_of_gets: 0 }
    }
}

impl BucketUsage {
    /// The all-zero usage record.
    pub open spec fn spec_zero() -> BucketUsage {
        BucketUsage { transferred_bytes: 0, stored_bytes: 0, number_of_puts: 0, number_of_gets: 0 }
    }

    /// The all-zero usage record.
    pub fn zero() -> (r: BucketUsage)
        ensures
            r == BucketUsage::spec_zero(),
    {
        BucketUsage { transferred_bytes: 0, stored_bytes: 0, number_of_puts: 0, number_of_gets: 0 }
    }
}

/// Charge of a customer in tokens, one term per usage dimension.
#[derive(PartialEq, Eq, Structural, Clone, Copy, Debug)]
pub struct CustomerCharge {
    pub transfer: u128,
    pub storage: u128,
    pub puts: u128,
    pub gets: u128,
}

impl CustomerCharge {
    /// The all-zero charge.
    pub open spec fn spec_zero() -> CustomerCharge {
        CustomerCharge { transfer: 0, storage: 0, puts: 0, gets: 0 }
    }

    /// The all-zero charge.
    pub fn zero() -> (r: CustomerCharge)
        ensures
            r == CustomerCharge::spec_zero(),
    {
        CustomerCharge { transfer: 0, storage: 0, puts: 0, gets: 0 }
    }
}

/// Reward of a node provider in tokens, one term per usage dimension.
#[derive(PartialEq, Eq, Structural, Clone, Copy, Debug)]
pub struct NodeReward {
    pub transfer: u128,
    pub storage: u128,
    pub puts: u128,
    pub gets: u128,
}

/// Reward of a node provider in tokens, one term per usage dimension.
#[derive(PartialEq, Eq, Structural, Clone, Copy, Debug)]
pub struct ProviderReward {
    pub transfer: u128,
    pub storage: u128,
    pub puts: u128,
    pub gets: u128,
}

/// An inclusion proof attached to a batch submission: the sibling hashes
/// needed to recompute the committed root of batch roots.
#[derive(PartialEq, Eq, Clone, Debug)]
pub struct MMRProof {
    pub proof: Vec<Vec<u8>>,
}

/// Errors of the node repository.
#[derive(PartialEq, Eq, Structural, Clone, Copy, Debug)]
pub enum NodeRepositoryError {
    StorageNodeAlreadyExists,
    StorageNodeDoesNotExist,
}

/// Error of the read-only payout queries.
#[derive(PartialEq, Eq, Structural, Clone, Copy, Debug)]
pub enum PayoutError {
    BillingReportDoesNotExist,
}

/// Errors of the cluster registry queries.
#[derive(PartialEq, Eq, Structural, Clone, Copy, Debug)]
pub enum ClusterVisitorError {
    ClusterDoesNotExist,
    ClusterGovParamsNotSet,
}

/// Phase of a billing report. The phases form a strict total order and a
/// report only ever moves forward through them.
#[derive(PartialEq, Eq, Structural, Clone, Copy, Debug)]
pub enum PayoutState {
    NotInitialized,
    Initialized,
    ChargingCustomers,
    CustomersChargedWithFees,
    RewardingProviders,
    ProvidersRewarded,
    Finalized,
}

impl PayoutState {
    /// Position of this phase in the lifecycle order.
    pub open spec fn rank(self) -> int {
        match self {
            PayoutState::NotInitialized => 0,
            PayoutState::Initialized => 1,
            PayoutState::ChargingCustomers => 2,
            PayoutState::CustomersChargedWithFees => 3,
            PayoutState::RewardingProviders => 4,
            PayoutState::ProvidersRewarded => 5,
            PayoutState::Finalized => 6,
        }
    }
}

/// Validation status of an era. Once payout starts, the status only moves
/// to one of the terminal payout outcomes.
#[derive(PartialEq, Eq, Structural, Clone, Copy, Debug)]
pub enum EraValidationStatus {
    ValidatingData,
    ReadyForPayout,
    PayoutInProgress,
    PayoutFailed,
    PayoutSuccess,
    PayoutSkipped,
}

/// Identity and time bounds of one aggregation era as an aggregator reports it.
#[derive(PartialEq, Eq, Structural, Clone, Copy, Debug)]
pub struct EraActivity {
    pub id: DdcEra,
    pub start: i64,
    pub end: i64,
}

/// Current stored bytes of one bucket as the ledger records them.
#[derive(PartialEq, Eq, Structural, Clone, Copy, Debug)]
pub struct BucketStorageUsage {
    pub bucket_id: BucketId,
    pub owner_id: AccountId,
    pub stored_bytes: i64,
}

/// Current stored bytes of one node as the ledger records them.
#[derive(PartialEq, Eq, Structural, Clone, Copy, Debug)]
pub struct NodeStorageUsage {
    pub node_key: NodePubKey,
    pub provider_id: AccountId,
    pub stored_bytes: i64,
}

} // verus!
