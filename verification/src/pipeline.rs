//! Per-era processing pipeline: combining the consistency groups and the
//! challenge outcomes into the era's usable usage set, committing usage
//! sets under batched Merkle roots, and the billing fingerprint that
//! validators must agree on bit-for-bit before payout proceeds.

use vstd::bytes::spec_u64_to_le_bytes;
use vstd::prelude::*;

use crate::aggregates::{Aggregate, AggregateKey, ConsistencyGroups, ConsolidatedAggregate};
use crate::challenge::{all_from_eligible_groups, challenge_others};
use crate::merkle::{
    blake2s, blake2s_of, chunked, convert_to_batch_merkle_roots, create_merkle_root,
    merkle_root_spec, sorted_le, split_to_batches, Hashable, SplitOrd,
};
use crate::payable::{i64_bits, i64_to_bits, push_u64_le, BucketPayableUsage, NodePayableUsage};
use crate::primitives::{ClusterId, EraActivity, NodeUsage};

verus! {

/// The aggregates of a list of consolidated groups, in group order.
pub open spec fn group_aggregates<A: Aggregate>(gs: Seq<ConsolidatedAggregate<A>>) -> Seq<A> {
    gs.map_values(|g: ConsolidatedAggregate<A>| g.aggregate)
}

/// Combines an era's consistency groups into its usable usage set: every
/// consensus and quorum aggregate enters as-is, and each minority
/// aggregate enters by the challenge verdict handed in for it (or as
/// anomalous excess when more aggregators reported it than expected).
/// Whether `usage` is the usable usage set of `groups` under `verdicts`:
/// every consensus and quorum aggregate in order, then the arbitrated
/// minority aggregates — each from an eligible group, no key reused, and
/// every eligible first-of-key minority aggregate present.
pub open spec fn total_usage_spec<A: Aggregate>(
    usage: Seq<A>,
    groups: ConsistencyGroups<A>,
    verdicts: Seq<bool>,
    redundancy_factor: u16,
) -> bool {
    let nc = groups.consensus@.len() as int;
    let nq = groups.quorum@.len() as int;
    &&& usage.len() >= nc + nq
    &&& usage.take(nc) == group_aggregates(groups.consensus@)
    &&& usage.subrange(nc, nc + nq) == group_aggregates(groups.quorum@)
    &&& all_from_eligible_groups(
        usage.skip(nc + nq),
        groups.others@,
        verdicts,
        groups.others@.len() as int,
        redundancy_factor,
    )
    &&& forall|k: int, b: int|
        0 <= k < usage.len() - (nc + nq) && 0 <= b < nc + nq ==> (#[trigger] usage.skip(
            nc + nq,
        )[k]).key_spec() != (#[trigger] usage[b]).key_spec()
    &&& forall|k: int, k2: int|
        0 <= k < k2 < usage.len() - (nc + nq) ==> (#[trigger] usage.skip(nc + nq)[k]).key_spec()
            != (#[trigger] usage.skip(nc + nq)[k2]).key_spec()
    &&& forall|j: int|
        0 <= j < groups.others@.len() && ((#[trigger] groups.others@[j]).count > redundancy_factor
            || verdicts[j]) && (forall|b: int|
            0 <= b < nc + nq ==> (#[trigger] usage[b]).key_spec()
                != groups.others@[j].aggregate.key_spec()) && (forall|j2: int|
            0 <= j2 < j ==> (#[trigger] groups.others@[j2]).aggregate.key_spec()
                != groups.others@[j].aggregate.key_spec()) ==> usage.skip(nc + nq).contains(
            groups.others@[j].aggregate,
        )
}

pub fn get_total_usage<A: Aggregate>(
    groups: &ConsistencyGroups<A>,
    verdicts: &Vec<bool>,
    redundancy_factor: u16,
) -> (r: Vec<A>)
    requires
        verdicts@.len() == groups.others@.len(),
    ensures
        total_usage_spec(r@, *groups, verdicts@, redundancy_factor),
{
    let mut total_usage: Vec<A> = Vec::new();
    let mut accepted_keys: Vec<AggregateKey> = Vec::new();
    let mut i: usize = 0;
    while i < groups.consensus.len()
        invariant
            i <= groups.consensus@.len(),
            total_usage@.len() == i,
            forall|k: int|
                0 <= k < i ==> #[trigger] (total_usage@[k]) == (groups.consensus@[k]).aggregate,
        decreases groups.consensus@.len() - i,
    {
        total_usage.push(groups.consensus[i].aggregate);
        i = i + 1;
    }
    let mut q: usize = 0;
    while q < groups.quorum.len()
        invariant
            q <= groups.quorum@.len(),
            total_usage@.len() == groups.consensus@.len() + q,
            forall|k: int|
                0 <= k < groups.consensus@.len() ==> #[trigger] (total_usage@[k]) == (
                groups.consensus@[k]).aggregate,
            forall|k: int|
                0 <= k < q ==> #[trigger] (total_usage@[groups.consensus@.len() + k]) == (
                groups.quorum@[k]).aggregate,
        decreases groups.quorum@.len() - q,
    {
        total_usage.push(groups.quorum[q].aggregate);
        q = q + 1;
    }
    let mut kk: usize = 0;
    while kk < total_usage.len()
        invariant
            kk <= total_usage@.len(),
            accepted_keys@.len() == kk,
            forall|k: int|
                0 <= k < kk ==> #[trigger] (accepted_keys@[k]) == (total_usage@[k]).key_spec(),
            total_usage@.len() == groups.consensus@.len() + groups.quorum@.len(),
            forall|k: int|
                0 <= k < groups.consensus@.len() ==> #[trigger] (total_usage@[k]) == (
                groups.consensus@[k]).aggregate,
            forall|k: int|
                0 <= k < groups.quorum@.len() ==> #[trigger] (total_usage@[groups.consensus@.len()
                    + k]) == (groups.quorum@[k]).aggregate,
        decreases total_usage@.len() - kk,
    {
        let key = total_usage[kk].get_key();
        accepted_keys.push(key);
        kk = kk + 1;
    }
    let ghost base = total_usage@;
    let ghost base_keys = accepted_keys@;
    let verified_usage = challenge_others(
        &groups.others,
        &mut accepted_keys,
        verdicts,
        redundancy_factor,
    );
    proof {
        // membership in the built key list is exactly holding a key of a
        // consensus or quorum aggregate
        assert forall|x: crate::aggregates::AggregateKey| #[trigger] base_keys.contains(x) implies
            exists|b: int| 0 <= b < base.len() && (#[trigger] base[b]).key_spec() == x by {
            let w = choose|w: int| 0 <= w < base_keys.len() && base_keys[w] == x;
            assert(base[w].key_spec() == x);
        }
        assert forall|b: int| 0 <= b < base.len() implies base_keys.contains(
            (#[trigger] base[b]).key_spec(),
        ) by {
            assert(base_keys[b] == base[b].key_spec());
        }
    }
    let mut v: usize = 0;
    while v < verified_usage.len()
        invariant
            v <= verified_usage@.len(),
            total_usage@ == base + verified_usage@.take(v as int),
        decreases verified_usage@.len() - v,
    {
        total_usage.push(verified_usage[v]);
        proof {
            assert(total_usage@ =~= base + verified_usage@.take(v + 1));
        }
        v = v + 1;
    }
    proof {
        assert(verified_usage@.take(verified_usage@.len() as int) =~= verified_usage@);
        let nc = groups.consensus@.len() as int;
        let nq = groups.quorum@.len() as int;
        assert forall|k: int| 0 <= k < nc implies total_usage@[k] == (
        #[trigger] groups.consensus@[k]).aggregate by {
            assert(total_usage@[k] == base[k]);
        }
        assert forall|k: int| 0 <= k < nq implies total_usage@[nc + k] == (
        #[trigger] groups.quorum@[k]).aggregate by {
            assert(total_usage@[nc + k] == base[nc + k]);
        }
        assert(total_usage@.take(nc) =~= group_aggregates(groups.consensus@));
        assert(total_usage@.subrange(nc, nc + nq) =~= group_aggregates(groups.quorum@));
        assert(total_usage@.skip(nc + nq) =~= verified_usage@);
        assert forall|k: int, b: int|
            0 <= k < total_usage@.len() - (nc + nq) && 0 <= b < nc + nq implies (
        #[trigger] total_usage@.skip(nc + nq)[k]).key_spec() != (
        #[trigger] total_usage@[b]).key_spec() by {
            assert(total_usage@.skip(nc + nq)[k] == verified_usage@[k]);
            assert(total_usage@[b] == base[b]);
            assert(!base_keys.contains(verified_usage@[k].key_spec()));
            assert(base_keys[b] == base[b].key_spec());
        }
        assert forall|j: int|
            0 <= j < groups.others@.len() && ((#[trigger] groups.others@[j]).count
                > redundancy_factor || verdicts@[j]) && (forall|b: int|
                0 <= b < nc + nq ==> (#[trigger] total_usage@[b]).key_spec()
                    != groups.others@[j].aggregate.key_spec()) && (forall|j2: int|
                0 <= j2 < j ==> (#[trigger] groups.others@[j2]).aggregate.key_spec()
                    != groups.others@[j].aggregate.key_spec()) implies total_usage@.skip(
            nc + nq,
        ).contains(groups.others@[j].aggregate) by {
            assert(!base_keys.contains(groups.others@[j].aggregate.key_spec())) by {
                if base_keys.contains(groups.others@[j].aggregate.key_spec()) {
                    let w = choose|w: int|
                        0 <= w < base.len() && (#[trigger] base[w]).key_spec()
                            == groups.others@[j].aggregate.key_spec();
                    assert(total_usage@[w] == base[w]);
                }
            }
            assert(verified_usage@.contains(groups.others@[j].aggregate));
        }
    }
    total_usage
}

/// The Merkle commitment of a usage set: the overall root and one root
/// per fixed-size batch of the deterministically ordered set.
pub struct UsageCommitment {
    pub root: Vec<u8>,
    pub batch_roots: Vec<Vec<u8>>,
}

/// Whether `batch_roots` and `root` are the Merkle commitment of `usage`:
/// the batch roots cover a sorted arrangement of exactly the usage set's
/// elements, window by window, and `root` commits the batch roots.
pub open spec fn usage_commitment_spec<A: SplitOrd + Hashable>(
    usage: Seq<A>,
    batch_size: int,
    batch_roots: Seq<Vec<u8>>,
    root: Seq<u8>,
) -> bool {
    &&& root == merkle_root_spec(Seq::new(batch_roots.len(), |b: int| (batch_roots[b])@))
    &&& root.len() == 32
    &&& exists|sorted: Seq<A>|
        {
            &&& sorted.to_multiset() == usage.to_multiset()
            &&& #[trigger] sorted_le(sorted)
            &&& batch_roots.len() == (sorted.len() + batch_size - 1) / batch_size
            &&& forall|b: int|
                0 <= b < batch_roots.len() ==> (#[trigger] batch_roots[b])@ == merkle_root_spec(
                    crate::merkle::batch_leaf_hashes(
                        sorted.subrange(
                            b * batch_size,
                            if (b + 1) * batch_size <= sorted.len() {
                                (b + 1) * batch_size
                            } else {
                                sorted.len() as int
                            },
                        ),
                    ),
                )
        }
}

/// Law: the commitment of a usage set is a function of its elements
/// alone. Two commitments of inputs holding the same elements — in any
/// order — have identical batch roots and an identical root.
pub proof fn lemma_usage_commitment_deterministic<A: SplitOrd + Hashable>(
    usage1: Seq<A>,
    usage2: Seq<A>,
    batch_size: int,
    batch_roots1: Seq<Vec<u8>>,
    batch_roots2: Seq<Vec<u8>>,
    root1: Seq<u8>,
    root2: Seq<u8>,
)
    requires
        batch_size > 0,
        usage1.to_multiset() == usage2.to_multiset(),
        usage_commitment_spec(usage1, batch_size, batch_roots1, root1),
        usage_commitment_spec(usage2, batch_size, batch_roots2, root2),
    ensures
        batch_roots1.len() == batch_roots2.len(),
        forall|b: int| 0 <= b < batch_roots1.len() ==> (#[trigger] batch_roots1[b])@ == (
        batch_roots2[b])@,
        root1 == root2,
{
    let leq = |a: A, b: A| a.le_spec(b);
    A::lemma_le_total_ordering();
    let sorted1 = choose|sorted: Seq<A>|
        {
            &&& sorted.to_multiset() == usage1.to_multiset()
            &&& #[trigger] sorted_le(sorted)
            &&& batch_roots1.len() == (sorted.len() + batch_size - 1) / batch_size
            &&& forall|b: int|
                0 <= b < batch_roots1.len() ==> (#[trigger] batch_roots1[b])@ == merkle_root_spec(
                    crate::merkle::batch_leaf_hashes(
                        sorted.subrange(
                            b * batch_size,
                            if (b + 1) * batch_size <= sorted.len() {
                                (b + 1) * batch_size
                            } else {
                                sorted.len() as int
                            },
                        ),
                    ),
                )
        };
    let sorted2 = choose|sorted: Seq<A>|
        {
            &&& sorted.to_multiset() == usage2.to_multiset()
            &&& #[trigger] sorted_le(sorted)
            &&& batch_roots2.len() == (sorted.len() + batch_size - 1) / batch_size
            &&& forall|b: int|
                0 <= b < batch_roots2.len() ==> (#[trigger] batch_roots2[b])@ == merkle_root_spec(
                    crate::merkle::batch_leaf_hashes(
                        sorted.subrange(
                            b * batch_size,
                            if (b + 1) * batch_size <= sorted.len() {
                                (b + 1) * batch_size
                            } else {
                                sorted.len() as int
                            },
                        ),
                    ),
                )
        };
    assert(vstd::relations::sorted_by(sorted1, leq));
    assert(vstd::relations::sorted_by(sorted2, leq));
    vstd::seq_lib::lemma_sorted_unique(sorted1, sorted2, leq);
    assert(sorted1 =~= sorted2);
    assert forall|b: int| 0 <= b < batch_roots1.len() implies (#[trigger] batch_roots1[b])@ == (
    batch_roots2[b])@ by {
        assert(sorted1.subrange(
            b * batch_size,
            if (b + 1) * batch_size <= sorted1.len() {
                (b + 1) * batch_size
            } else {
                sorted1.len() as int
            },
        ) =~= sorted2.subrange(
            b * batch_size,
            if (b + 1) * batch_size <= sorted2.len() {
                (b + 1) * batch_size
            } else {
                sorted2.len() as int
            },
        ));
    }
    assert(Seq::new(batch_roots1.len(), |b: int| (batch_roots1[b])@) =~= Seq::new(
        batch_roots2.len(),
        |b: int| (batch_roots2[b])@,
    ));
}

/// Commits a usage set: the set is deterministically sorted and cut into
/// fixed-size batches, each batch's member digests are rolled into a
/// batch root, and the batch roots into the overall root.
pub fn commit_usage_set<A: SplitOrd + Hashable>(usage: &Vec<A>, batch_size: usize) -> (r:
    UsageCommitment)
    requires
        batch_size > 0,
    ensures
        usage_commitment_spec(usage@, batch_size as int, r.batch_roots@, r.root@),
{
    let batches = split_to_batches(usage, batch_size);
    let batch_roots = convert_to_batch_merkle_roots(&batches);
    let root = create_merkle_root(&batch_roots);
    proof {
        assert(batch_roots.deep_view() =~~= Seq::new(
            batch_roots@.len(),
            |b: int| (batch_roots@[b])@,
        ));
        let sorted = choose|sorted: Seq<A>|
            {
                &&& sorted.to_multiset() == usage@.to_multiset()
                &&& sorted_le(sorted)
                &&& #[trigger] chunked(sorted, batch_size as int, batches@)
            };
        assert(sorted.to_multiset() == usage@.to_multiset() && sorted_le(sorted) && chunked(
            sorted,
            batch_size as int,
            batches@,
        ));
        assert forall|b: int| 0 <= b < batch_roots@.len() implies (#[trigger] batch_roots@[b])@
            == merkle_root_spec(
            crate::merkle::batch_leaf_hashes(
                sorted.subrange(
                    b * batch_size,
                    if (b + 1) * batch_size <= sorted.len() {
                        (b + 1) * (batch_size as int)
                    } else {
                        sorted.len() as int
                    },
                ),
            ),
        ) by {
            assert((batches@[b])@ =~= sorted.subrange(
                b * batch_size,
                if (b + 1) * batch_size <= sorted.len() {
                    (b + 1) * (batch_size as int)
                } else {
                    sorted.len() as int
                },
            ));
        }
    }
    UsageCommitment { root, batch_roots }
}

/// The outcome of processing one era's aggregator reports: the usable
/// delta-usage sets with their Merkle commitments, as every validator
/// must reproduce them before voting.
pub struct EraUsageCommitments {
    pub buckets_usage: Vec<crate::aggregates::BucketSubAggregate>,
    pub buckets_root: Vec<u8>,
    pub buckets_batch_roots: Vec<Vec<u8>>,
    pub nodes_usage: Vec<crate::aggregates::NodeAggregate>,
    pub nodes_root: Vec<u8>,
    pub nodes_batch_roots: Vec<Vec<u8>>,
}

/// Processes one era's reports end to end: bucket and node aggregates are
/// partitioned by consistency, the challenge verdicts decide the minority
/// groups, and the resulting usage sets are committed under batched
/// Merkle roots — the roots each validator then signs and votes on.
pub fn process_dac_era(
    bucket_aggregates: &Vec<crate::aggregates::BucketSubAggregate>,
    node_aggregates: &Vec<crate::aggregates::NodeAggregate>,
    bucket_verdicts: &Vec<bool>,
    node_verdicts: &Vec<bool>,
    redundancy_factor: u16,
    quorum_parts: u8,
    batch_size: usize,
) -> (r: Option<EraUsageCommitments>)
    requires
        batch_size > 0,
    ensures
        r is Some ==> ({
            let c = r->Some_0;
            // the returned usage sets arise from a consistency partition
            // of the reports under the handed-in verdicts, and the roots
            // commit exactly those sets
            exists|
                bg: crate::aggregates::ConsistencyGroups<crate::aggregates::BucketSubAggregate>,
                ng: crate::aggregates::ConsistencyGroups<crate::aggregates::NodeAggregate>,
            |
                {
                    &&& #[trigger] crate::aggregates::consistency_partition_spec(
                        bg,
                        bucket_aggregates@,
                        redundancy_factor,
                        quorum_parts,
                    )
                    &&& #[trigger] crate::aggregates::consistency_partition_spec(
                        ng,
                        node_aggregates@,
                        redundancy_factor,
                        quorum_parts,
                    )
                    &&& bucket_verdicts@.len() == bg.others@.len()
                    &&& node_verdicts@.len() == ng.others@.len()
                    &&& total_usage_spec(c.buckets_usage@, bg, bucket_verdicts@, redundancy_factor)
                    &&& total_usage_spec(c.nodes_usage@, ng, node_verdicts@, redundancy_factor)
                }
        }),
        r is Some ==> ({
            let c = r->Some_0;
            &&& usage_commitment_spec(
                c.buckets_usage@,
                batch_size as int,
                c.buckets_batch_roots@,
                c.buckets_root@,
            )
            &&& usage_commitment_spec(
                c.nodes_usage@,
                batch_size as int,
                c.nodes_batch_roots@,
                c.nodes_root@,
            )
        }),
        // the era is refused only when the verdicts do not line up with
        // the minority groups of a consistency partition
        r is None ==> exists|
            bg: crate::aggregates::ConsistencyGroups<crate::aggregates::BucketSubAggregate>,
            ng: crate::aggregates::ConsistencyGroups<crate::aggregates::NodeAggregate>,
        |
            {
                &&& #[trigger] crate::aggregates::consistency_partition_spec(
                    bg,
                    bucket_aggregates@,
                    redundancy_factor,
                    quorum_parts,
                )
                &&& #[trigger] crate::aggregates::consistency_partition_spec(
                    ng,
                    node_aggregates@,
                    redundancy_factor,
                    quorum_parts,
                )
                &&& (bucket_verdicts@.len() != bg.others@.len() || node_verdicts@.len()
                    != ng.others@.len())
            },
{
    let bucket_groups = crate::aggregates::group_by_consistency(
        bucket_aggregates,
        redundancy_factor,
        quorum_parts,
    );
    let node_groups = crate::aggregates::group_by_consistency(
        node_aggregates,
        redundancy_factor,
        quorum_parts,
    );
    if bucket_verdicts.len() != bucket_groups.others.len() || node_verdicts.len()
        != node_groups.others.len() {
        proof {
            assert(crate::aggregates::consistency_partition_spec(
                bucket_groups,
                bucket_aggregates@,
                redundancy_factor,
                quorum_parts,
            ));
            assert(crate::aggregates::consistency_partition_spec(
                node_groups,
                node_aggregates@,
                redundancy_factor,
                quorum_parts,
            ));
        }
        return None;
    }
    let buckets_usage = get_total_usage(&bucket_groups, bucket_verdicts, redundancy_factor);
    let nodes_usage = get_total_usage(&node_groups, node_verdicts, redundancy_factor);
    let buckets_commitment = commit_usage_set(&buckets_usage, batch_size);
    let nodes_commitment = commit_usage_set(&nodes_usage, batch_size);
    proof {
        assert(crate::aggregates::consistency_partition_spec(
            bucket_groups,
            bucket_aggregates@,
            redundancy_factor,
            quorum_parts,
        ));
        assert(crate::aggregates::consistency_partition_spec(
            node_groups,
            node_aggregates@,
            redundancy_factor,
            quorum_parts,
        ));
    }
    Some(
        EraUsageCommitments {
            buckets_usage,
            buckets_root: buckets_commitment.root,
            buckets_batch_roots: buckets_commitment.batch_roots,
            nodes_usage,
            nodes_root: nodes_commitment.root,
            nodes_batch_roots: nodes_commitment.batch_roots,
        },
    )
}

/// The input of a payout phase's batch loop: the highest batch index the
/// phase will declare, from the committed batch roots. An era without a
/// single batch has nothing to pay, and more batches than the batch
/// counter can index cannot be declared.
pub fn batch_loop_input(batch_roots: &Vec<Vec<u8>>) -> (r: Option<crate::primitives::BatchIndex>)
    ensures
        r is Some <==> 0 < batch_roots@.len() <= crate::primitives::BatchIndex::MAX + 1,
        r is Some ==> r->Some_0 == batch_roots@.len() - 1,
{
    if batch_roots.len() == 0 {
        return None;
    }
    let max_batch_index = batch_roots.len() - 1;
    if max_batch_index > crate::primitives::BatchIndex::MAX as usize {
        return None;
    }
    Some(max_batch_index as u16)
}

/// Payable usage of one era of one cluster: the full payer and payee
/// lists with their Merkle commitments, and the cluster-wide usage total
/// that provider rewards are shared by.
pub struct PayableEraUsage {
    pub cluster_id: ClusterId,
    pub era: EraActivity,
    pub payers_usage: Vec<BucketPayableUsage>,
    pub payers_root: Vec<u8>,
    pub payers_batch_roots: Vec<Vec<u8>>,
    pub payees_usage: Vec<NodePayableUsage>,
    pub payees_root: Vec<u8>,
    pub payees_batch_roots: Vec<Vec<u8>>,
    pub cluster_usage: NodeUsage,
}

/// Componentwise sum of the payees' usage over a prefix, as unbounded
/// integers.
pub open spec fn usage_sum(payees: Seq<NodePayableUsage>) -> (int, int, int, int)
    decreases payees.len(),
{
    if payees.len() == 0 {
        (0int, 0int, 0int, 0int)
    } else {
        let front = usage_sum(payees.drop_last());
        let u = payees.last().usage;
        (
            front.0 + u.transferred_bytes,
            front.1 + u.stored_bytes,
            front.2 + u.number_of_puts,
            front.3 + u.number_of_gets,
        )
    }
}

/// Whether every running partial sum of the payees' usage fits its
/// counter type.
pub open spec fn usage_sums_fit(payees: Seq<NodePayableUsage>) -> bool
    decreases payees.len(),
{
    if payees.len() == 0 {
        true
    } else {
        let sums = usage_sum(payees);
        &&& usage_sums_fit(payees.drop_last())
        &&& sums.0 <= u64::MAX
        &&& i64::MIN <= sums.1 <= i64::MAX
        &&& sums.2 <= u64::MAX
        &&& sums.3 <= u64::MAX
    }
}

/// A fitting sum stays fitting on every prefix.
proof fn lemma_usage_sums_fit_prefix(payees: Seq<NodePayableUsage>, k: int)
    requires
        usage_sums_fit(payees),
        0 <= k <= payees.len(),
    ensures
        usage_sums_fit(payees.take(k)),
    decreases payees.len(),
{
    if k < payees.len() {
        assert(payees.drop_last().take(k) =~= payees.take(k));
        lemma_usage_sums_fit_prefix(payees.drop_last(), k);
    } else {
        assert(payees.take(k) =~= payees);
    }
}

/// Sums the usage of all payees into the cluster-wide total, or reports
/// that a dimension overflowed its counter. Succeeds exactly when every
/// running partial sum fits; the result is then the exact componentwise
/// sum.
pub fn total_cluster_usage(payees: &Vec<NodePayableUsage>) -> (r: Option<NodeUsage>)
    ensures
        r is Some <==> usage_sums_fit(payees@),
        r is Some ==> ({
            let sums = usage_sum(payees@);
            &&& r->Some_0.transferred_bytes == sums.0
            &&& r->Some_0.stored_bytes == sums.1
            &&& r->Some_0.number_of_puts == sums.2
            &&& r->Some_0.number_of_gets == sums.3
        }),
{
    let mut total = NodeUsage::zero();
    let mut i: usize = 0;
    proof {
        assert(payees@.take(0) =~= Seq::<NodePayableUsage>::empty());
    }
    while i < payees.len()
        invariant
            i <= payees@.len(),
            usage_sums_fit(payees@.take(i as int)),
            total.transferred_bytes == usage_sum(payees@.take(i as int)).0,
            total.stored_bytes == usage_sum(payees@.take(i as int)).1,
            total.number_of_puts == usage_sum(payees@.take(i as int)).2,
            total.number_of_gets == usage_sum(payees@.take(i as int)).3,
        decreases payees@.len() - i,
    {
        proof {
            assert(payees@.take(i + 1).drop_last() =~= payees@.take(i as int));
            assert(payees@.take(i + 1).last() == payees@[i as int]);
            if !usage_sums_fit(payees@) {
            } else {
                lemma_usage_sums_fit_prefix(payees@, i + 1);
            }
        }
        let u = payees[i].usage;
        let transferred = match total.transferred_bytes.checked_add(u.transferred_bytes) {
            Some(v) => v,
            None => {
                return None;
            },
        };
        let stored = match total.stored_bytes.checked_add(u.stored_bytes) {
            Some(v) => v,
            None => {
                return None;
            },
        };
        let puts = match total.number_of_puts.checked_add(u.number_of_puts) {
            Some(v) => v,
            None => {
                return None;
            },
        };
        let gets = match total.number_of_gets.checked_add(u.number_of_gets) {
            Some(v) => v,
            None => {
                return None;
            },
        };
        total = NodeUsage {
            transferred_bytes: transferred,
            stored_bytes: stored,
            number_of_puts: puts,
            number_of_gets: gets,
        };
        i = i + 1;
    }
    proof {
        assert(payees@.take(payees@.len() as int) =~= payees@);
    }
    Some(total)
}

/// Canonical byte encoding of the fingerprint's preimage: the cluster,
/// the era's identity and bounds, both roots, and the cluster usage.
pub open spec fn fingerprint_bytes(
    cluster_id: ClusterId,
    era: EraActivity,
    payers_root: Seq<u8>,
    payees_root: Seq<u8>,
    cluster_usage: NodeUsage,
) -> Seq<u8> {
    spec_u64_to_le_bytes(cluster_id) + spec_u64_to_le_bytes(era.id as u64) + spec_u64_to_le_bytes(
        i64_bits(era.start),
    ) + spec_u64_to_le_bytes(i64_bits(era.end)) + payers_root + payees_root + spec_u64_to_le_bytes(
        cluster_usage.transferred_bytes,
    ) + spec_u64_to_le_bytes(i64_bits(cluster_usage.stored_bytes)) + spec_u64_to_le_bytes(
        cluster_usage.number_of_puts,
    ) + spec_u64_to_le_bytes(cluster_usage.number_of_gets)
}

/// The billing fingerprint: the digest over the fingerprint preimage —
/// the commitment every validator must reproduce bit-for-bit.
pub open spec fn fingerprint_spec(
    cluster_id: ClusterId,
    era: EraActivity,
    payers_root: Seq<u8>,
    payees_root: Seq<u8>,
    cluster_usage: NodeUsage,
) -> Seq<u8> {
    blake2s_of(fingerprint_bytes(cluster_id, era, payers_root, payees_root, cluster_usage))
}

impl PayableEraUsage {
    /// Computes the billing fingerprint of this era's payable usage.
    pub fn fingerprint(&self) -> (r: Vec<u8>)
        ensures
            r@ == fingerprint_spec(
                self.cluster_id,
                self.era,
                self.payers_root@,
                self.payees_root@,
                self.cluster_usage,
            ),
            r@.len() == 32,
    {
        let mut data: Vec<u8> = Vec::new();
        push_u64_le(&mut data, self.cluster_id);
        push_u64_le(&mut data, self.era.id as u64);
        push_u64_le(&mut data, i64_to_bits(self.era.start));
        push_u64_le(&mut data, i64_to_bits(self.era.end));
        crate::challenge::push_bytes(&mut data, &self.payers_root);
        crate::challenge::push_bytes(&mut data, &self.payees_root);
        push_u64_le(&mut data, self.cluster_usage.transferred_bytes);
        push_u64_le(&mut data, i64_to_bits(self.cluster_usage.stored_bytes));
        push_u64_le(&mut data, self.cluster_usage.number_of_puts);
        push_u64_le(&mut data, self.cluster_usage.number_of_gets);
        proof {
            assert(data@ =~= fingerprint_bytes(
                self.cluster_id,
                self.era,
                self.payers_root@,
                self.payees_root@,
                self.cluster_usage,
            ));
        }
        blake2s(&data)
    }
}

/// Builds the payable usage of an era from the merged payer and payee
/// lists: both lists are committed under batched Merkle roots and the
/// cluster-wide usage total is derived; a usage total that overflows its
/// counters is reported rather than wrapped.
pub fn build_payable_era_usage(
    cluster_id: ClusterId,
    era: EraActivity,
    payers_usage: Vec<BucketPayableUsage>,
    payees_usage: Vec<NodePayableUsage>,
    batch_size: usize,
) -> (r: Option<PayableEraUsage>)
    requires
        batch_size > 0,
    ensures
        r is Some <==> usage_sums_fit(payees_usage@),
        r is Some ==> ({
            let p = r->Some_0;
            &&& p.cluster_id == cluster_id && p.era == era
            &&& p.payers_usage@ == payers_usage@
            &&& p.payees_usage@ == payees_usage@
            &&& usage_commitment_spec(
                p.payers_usage@,
                batch_size as int,
                p.payers_batch_roots@,
                p.payers_root@,
            )
            &&& usage_commitment_spec(
                p.payees_usage@,
                batch_size as int,
                p.payees_batch_roots@,
                p.payees_root@,
            )
            &&& p.cluster_usage.transferred_bytes == usage_sum(payees_usage@).0
            &&& p.cluster_usage.stored_bytes == usage_sum(payees_usage@).1
            &&& p.cluster_usage.number_of_puts == usage_sum(payees_usage@).2
            &&& p.cluster_usage.number_of_gets == usage_sum(payees_usage@).3
        }),
{
    let cluster_usage = match total_cluster_usage(&payees_usage) {
        Some(total) => total,
        None => {
            return None;
        },
    };
    let payers_commitment = commit_usage_set(&payers_usage, batch_size);
    let payees_commitment = commit_usage_set(&payees_usage, batch_size);
    Some(
        PayableEraUsage {
            cluster_id,
            era,
            payers_usage,
            payers_root: payers_commitment.root,
            payers_batch_roots: payers_commitment.batch_roots,
            payees_usage,
            payees_root: payees_commitment.root,
            payees_batch_roots: payees_commitment.batch_roots,
            cluster_usage,
        },
    )
}

} // verus!
