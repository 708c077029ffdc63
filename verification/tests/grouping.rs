//! Consistency grouping and challenge arbitration on concrete scenarios.

use ddc_settlement::aggregates::{
    group_by_consistency, Aggregate, BucketSubAggregate, NodeAggregate,
};
use ddc_settlement::pipeline::get_total_usage;
use ddc_settlement::primitives::{NodePubKey, StorageNodePubKey};

fn key(tag: u64) -> NodePubKey {
    NodePubKey::StoragePubKey(StorageNodePubKey { w0: tag, w1: 0, w2: 0, w3: 0 })
}

fn node_aggregate(node: u64, stored: i64, transferred: u64, puts: u64, gets: u64, aggregator: u64) -> NodeAggregate {
    NodeAggregate {
        node_id: key(node),
        stored_bytes: stored,
        transferred_bytes: transferred,
        number_of_puts: puts,
        number_of_gets: gets,
        aggregator: key(aggregator),
    }
}

/// Three identical reports with redundancy factor three are consensus;
/// a fourth distinct report for the same node lands in others.
#[test]
fn consensus_scenario_cluster_era_five() {
    // cluster C, era 5, redundancy factor 3, quorum 67%
    let agg1 = node_aggregate(7, 100, 50, 10, 20, 1);
    let agg2 = node_aggregate(7, 100, 50, 10, 20, 2);
    let agg3 = node_aggregate(7, 100, 50, 10, 20, 3);
    // a misbehaving fourth aggregator reports different numbers for node 7
    let bad = node_aggregate(7, 999, 50, 10, 20, 4);
    let aggregates = vec![agg1, agg2, agg3, bad];

    let groups = group_by_consistency(&aggregates, 3, 67);
    assert_eq!(groups.consensus.len(), 1);
    assert_eq!(groups.consensus[0].count, 3);
    assert_eq!(groups.consensus[0].aggregate.stored_bytes, 100);
    assert_eq!(groups.consensus[0].aggregators.len(), 3);
    assert_eq!(groups.quorum.len(), 0);
    assert_eq!(groups.others.len(), 1);
    assert_eq!(groups.others[0].count, 1);
    assert_eq!(groups.others[0].aggregate.stored_bytes, 999);

    // the challenge for the outlier fails: the era's usage excludes it
    let verdicts = vec![false];
    let total = get_total_usage(&groups, &verdicts, 3);
    assert_eq!(total.len(), 1);
    assert_eq!(total[0].stored_bytes, 100);
    assert_eq!(total[0].transferred_bytes, 50);

    // had the challenge passed, the outlier would not enter anyway: its
    // aggregation key was already accepted by the consensus value
    let verdicts = vec![true];
    let total = get_total_usage(&groups, &verdicts, 3);
    assert_eq!(total.len(), 1);
    assert_eq!(total[0].stored_bytes, 100);
}

/// Every aggregate is classified into exactly one of the three groups.
#[test]
fn grouping_partitions_every_report() {
    let aggregates = vec![
        node_aggregate(1, 10, 1, 1, 1, 1),
        node_aggregate(1, 10, 1, 1, 1, 2),
        node_aggregate(1, 10, 1, 1, 1, 3),
        node_aggregate(2, 20, 2, 2, 2, 1),
        node_aggregate(2, 20, 2, 2, 2, 2),
        node_aggregate(3, 30, 3, 3, 3, 3),
    ];
    let groups = group_by_consistency(&aggregates, 3, 67);
    // node 1: count 3 == redundancy -> consensus
    assert_eq!(groups.consensus.len(), 1);
    assert_eq!(groups.consensus[0].count, 3);
    // node 2: count 2 >= round(67% * 3) == 2 -> quorum
    assert_eq!(groups.quorum.len(), 1);
    assert_eq!(groups.quorum[0].count, 2);
    // node 3: count 1 < 2 -> others
    assert_eq!(groups.others.len(), 1);
    assert_eq!(groups.others[0].count, 1);
    let total: usize = groups.consensus.len() + groups.quorum.len() + groups.others.len();
    assert_eq!(total, 3);
}

/// A report count above the redundancy factor is accepted as anomalous
/// excess without a passing challenge.
#[test]
fn excess_reports_accepted_from_others() {
    // redundancy factor 1 with quorum 100%: two identical reports exceed it
    let aggregates = vec![
        node_aggregate(5, 10, 1, 1, 1, 1),
        node_aggregate(5, 10, 1, 1, 1, 2),
    ];
    let groups = group_by_consistency(&aggregates, 1, 100);
    // count 2 != 1 and 2 >= threshold 1 -> quorum, not others
    assert_eq!(groups.quorum.len(), 1);
    assert_eq!(groups.quorum[0].count, 2);
}

/// Bucket sub-aggregates group by bucket, node and usage.
#[test]
fn bucket_sub_aggregates_group_by_report() {
    let a = BucketSubAggregate {
        bucket_id: 1,
        node_id: key(1),
        stored_bytes: 5,
        transferred_bytes: 6,
        number_of_puts: 7,
        number_of_gets: 8,
        aggregator: key(1),
    };
    let mut b = a;
    b.aggregator = key(2);
    let mut c = a;
    c.bucket_id = 2;
    c.aggregator = key(3);
    let groups = group_by_consistency(&vec![a, b, c], 2, 67);
    assert_eq!(groups.consensus.len(), 1);
    assert_eq!(groups.consensus[0].count, 2);
    assert_eq!(groups.consensus[0].aggregate.get_key(), a.get_key());
    // a single report meets the rounded quorum share of two (one), so the
    // lone bucket lands in the quorum group
    assert_eq!(groups.quorum.len(), 1);
    assert_eq!(groups.quorum[0].aggregate.bucket_id, 2);
    assert_eq!(groups.others.len(), 0);
}
