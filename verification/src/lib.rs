//! Era verification and payout settlement for a decentralized data cluster.
//!
//! The library models the on-ledger state of a cluster's billing eras and the
//! off-chain computation that validators run over aggregator reports: grouping
//! conflicting usage reports by consistency, batching payable usage under
//! Merkle commitments, and driving a strictly ordered, batch-idempotent payout
//! state machine.

pub mod aggregates;
pub mod arith;
pub mod challenge;
pub mod charge;
pub mod eras;
pub mod merkle;
pub mod ocw;
pub mod payable;
pub mod payout;
pub mod pipeline;
pub mod primitives;
