//! Usage aggregates as aggregators report them, and the consistency
//! grouper: aggregates for the same target reported by several aggregators
//! are partitioned into consensus, quorum and others groups by how many
//! aggregators delivered an identical report.

use vstd::bytes::spec_u64_to_le_bytes;
use vstd::prelude::*;
use vstd::relations::total_ordering;

use crate::arith::{percent_mul, percent_mul_spec};
use crate::merkle::{blake2s, blake2s_of, Hashable, SplitOrd};
use crate::payable::{
    i64_bits, i64_to_bits, node_key_bytes, node_key_le, node_key_le_exec, push_node_key_bytes,
    push_u64_le,
};
use crate::primitives::{BucketId, NodePubKey};

verus! {

/// Aggregation key of an aggregate: the node, or the bucket on a node,
/// whose usage it reports.
#[derive(PartialEq, Eq, Structural, Clone, Copy, Debug)]
pub enum AggregateKey {
    NodeAggregateKey(NodePubKey),
    BucketSubAggregateKey(BucketId, NodePubKey),
}

/// Per-era usage delta of one bucket on one node, as one aggregator
/// reported it.
#[derive(PartialEq, Eq, Structural, Clone, Copy, Debug)]
pub struct BucketSubAggregate {
    pub bucket_id: BucketId,
    pub node_id: NodePubKey,
    pub stored_bytes: i64,
    pub transferred_bytes: u64,
    pub number_of_puts: u64,
    pub number_of_gets: u64,
    /// The aggregator that delivered this report.
    pub aggregator: NodePubKey,
}

/// Per-era usage delta of one node, as one aggregator reported it.
#[derive(PartialEq, Eq, Structural, Clone, Copy, Debug)]
pub struct NodeAggregate {
    pub node_id: NodePubKey,
    pub stored_bytes: i64,
    pub transferred_bytes: u64,
    pub number_of_puts: u64,
    pub number_of_gets: u64,
    /// The aggregator that delivered this report.
    pub aggregator: NodePubKey,
}

/// An activity aggregate: keyed, hashable, attributable to the aggregator
/// that reported it, and comparable as a report (identity of every field
/// except the reporting aggregator).
pub trait Aggregate: Sized + Copy + SplitOrd + Hashable {
    /// The aggregation key.
    spec fn key_spec(self) -> AggregateKey;

    /// The reporting aggregator.
    spec fn aggregator_spec(self) -> NodePubKey;

    /// The aggregate with the reporter identity erased: two aggregates are
    /// the same report when these coincide.
    spec fn report_spec(self) -> Self;

    /// Returns the aggregation key.
    fn get_key(&self) -> (r: AggregateKey)
        ensures
            r == self.key_spec(),
    ;

    /// Returns the reporting aggregator.
    fn get_aggregator(&self) -> (r: NodePubKey)
        ensures
            r == self.aggregator_spec(),
    ;

    /// Decides whether two aggregates are the same report.
    fn same_report(&self, other: &Self) -> (r: bool)
        ensures
            r == (self.report_spec() == other.report_spec()),
    ;

    /// Number of activity records this aggregate aggregates, saturated.
    fn get_number_of_leaves(&self) -> u64;
}

/// The zero key used when erasing a reporter identity.
pub open spec fn erased_reporter() -> NodePubKey {
    NodePubKey::StoragePubKey(crate::primitives::StorageNodePubKey { w0: 0, w1: 0, w2: 0, w3: 0 })
}

/// Canonical byte encoding of a bucket sub-aggregate's report content.
pub open spec fn bucket_sub_aggregate_bytes(a: BucketSubAggregate) -> Seq<u8> {
    spec_u64_to_le_bytes(a.bucket_id) + node_key_bytes(a.node_id) + spec_u64_to_le_bytes(
        i64_bits(a.stored_bytes),
    ) + spec_u64_to_le_bytes(a.transferred_bytes) + spec_u64_to_le_bytes(a.number_of_puts)
        + spec_u64_to_le_bytes(a.number_of_gets)
}

/// Canonical byte encoding of a node aggregate's report content.
pub open spec fn node_aggregate_bytes(a: NodeAggregate) -> Seq<u8> {
    node_key_bytes(a.node_id) + spec_u64_to_le_bytes(i64_bits(a.stored_bytes))
        + spec_u64_to_le_bytes(a.transferred_bytes) + spec_u64_to_le_bytes(a.number_of_puts)
        + spec_u64_to_le_bytes(a.number_of_gets)
}

impl Hashable for BucketSubAggregate {
    open spec fn hash_spec(self) -> Seq<u8> {
        blake2s_of(bucket_sub_aggregate_bytes(self))
    }

    fn hash(&self) -> (r: Vec<u8>) {
        let mut data: Vec<u8> = Vec::new();
        push_u64_le(&mut data, self.bucket_id);
        push_node_key_bytes(&mut data, &self.node_id);
        push_u64_le(&mut data, i64_to_bits(self.stored_bytes));
        push_u64_le(&mut data, self.transferred_bytes);
        push_u64_le(&mut data, self.number_of_puts);
        push_u64_le(&mut data, self.number_of_gets);
        proof {
            assert(data@ =~= bucket_sub_aggregate_bytes(*self));
        }
        blake2s(&data)
    }
}

impl Hashable for NodeAggregate {
    open spec fn hash_spec(self) -> Seq<u8> {
        blake2s_of(node_aggregate_bytes(self))
    }

    fn hash(&self) -> (r: Vec<u8>) {
        let mut data: Vec<u8> = Vec::new();
        push_node_key_bytes(&mut data, &self.node_id);
        push_u64_le(&mut data, i64_to_bits(self.stored_bytes));
        push_u64_le(&mut data, self.transferred_bytes);
        push_u64_le(&mut data, self.number_of_puts);
        push_u64_le(&mut data, self.number_of_gets);
        proof {
            assert(data@ =~= node_aggregate_bytes(*self));
        }
        blake2s(&data)
    }
}

impl SplitOrd for BucketSubAggregate {
    open spec fn le_spec(self, other: Self) -> bool {
        if self.bucket_id != other.bucket_id {
            self.bucket_id < other.bucket_id
        } else if self.node_id != other.node_id {
            !node_key_le(other.node_id, self.node_id)
        } else if self.stored_bytes != other.stored_bytes {
            self.stored_bytes < other.stored_bytes
        } else if self.transferred_bytes != other.transferred_bytes {
            self.transferred_bytes < other.transferred_bytes
        } else if self.number_of_puts != other.number_of_puts {
            self.number_of_puts < other.number_of_puts
        } else if self.number_of_gets != other.number_of_gets {
            self.number_of_gets < other.number_of_gets
        } else {
            node_key_le(self.aggregator, other.aggregator)
        }
    }

    proof fn lemma_le_total_ordering() {
    }

    fn le_exec(&self, other: &Self) -> (r: bool) {
        if self.bucket_id != other.bucket_id {
            self.bucket_id < other.bucket_id
        } else if !node_key_eq(&self.node_id, &other.node_id) {
            !node_key_le_exec(&other.node_id, &self.node_id)
        } else if self.stored_bytes != other.stored_bytes {
            self.stored_bytes < other.stored_bytes
        } else if self.transferred_bytes != other.transferred_bytes {
            self.transferred_bytes < other.transferred_bytes
        } else if self.number_of_puts != other.number_of_puts {
            self.number_of_puts < other.number_of_puts
        } else if self.number_of_gets != other.number_of_gets {
            self.number_of_gets < other.number_of_gets
        } else {
            node_key_le_exec(&self.aggregator, &other.aggregator)
        }
    }
}

impl SplitOrd for NodeAggregate {
    open spec fn le_spec(self, other: Self) -> bool {
        if self.node_id != other.node_id {
            !node_key_le(other.node_id, self.node_id)
        } else if self.stored_bytes != other.stored_bytes {
            self.stored_bytes < other.stored_bytes
        } else if self.transferred_bytes != other.transferred_bytes {
            self.transferred_bytes < other.transferred_bytes
        } else if self.number_of_puts != other.number_of_puts {
            self.number_of_puts < other.number_of_puts
        } else if self.number_of_gets != other.number_of_gets {
            self.number_of_gets < other.number_of_gets
        } else {
            node_key_le(self.aggregator, other.aggregator)
        }
    }

    proof fn lemma_le_total_ordering() {
    }

    fn le_exec(&self, other: &Self) -> (r: bool) {
        if !node_key_eq(&self.node_id, &other.node_id) {
            !node_key_le_exec(&other.node_id, &self.node_id)
        } else if self.stored_bytes != other.stored_bytes {
            self.stored_bytes < other.stored_bytes
        } else if self.transferred_bytes != other.transferred_bytes {
            self.transferred_bytes < other.transferred_bytes
        } else if self.number_of_puts != other.number_of_puts {
            self.number_of_puts < other.number_of_puts
        } else if self.number_of_gets != other.number_of_gets {
            self.number_of_gets < other.number_of_gets
        } else {
            node_key_le_exec(&self.aggregator, &other.aggregator)
        }
    }
}

/// Decides equality of two node keys.
pub fn node_key_eq(a: &NodePubKey, b: &NodePubKey) -> (r: bool)
    ensures
        r == (*a == *b),
{
    let NodePubKey::StoragePubKey(x) = a;
    let NodePubKey::StoragePubKey(y) = b;
    x.w0 == y.w0 && x.w1 == y.w1 && x.w2 == y.w2 && x.w3 == y.w3
}

impl Aggregate for BucketSubAggregate {
    open spec fn key_spec(self) -> AggregateKey {
        AggregateKey::BucketSubAggregateKey(self.bucket_id, self.node_id)
    }

    open spec fn aggregator_spec(self) -> NodePubKey {
        self.aggregator
    }

    open spec fn report_spec(self) -> Self {
        BucketSubAggregate { aggregator: erased_reporter(), ..self }
    }

    fn get_key(&self) -> (r: AggregateKey) {
        AggregateKey::BucketSubAggregateKey(self.bucket_id, self.node_id)
    }

    fn get_aggregator(&self) -> (r: NodePubKey) {
        self.aggregator
    }

    fn same_report(&self, other: &Self) -> (r: bool) {
        self.bucket_id == other.bucket_id && node_key_eq(&self.node_id, &other.node_id)
            && self.stored_bytes == other.stored_bytes && self.transferred_bytes
            == other.transferred_bytes && self.number_of_puts == other.number_of_puts
            && self.number_of_gets == other.number_of_gets
    }

    fn get_number_of_leaves(&self) -> u64 {
        if self.number_of_gets <= u64::MAX - self.number_of_puts {
            self.number_of_gets + self.number_of_puts
        } else {
            u64::MAX
        }
    }
}

impl Aggregate for NodeAggregate {
    open spec fn key_spec(self) -> AggregateKey {
        AggregateKey::NodeAggregateKey(self.node_id)
    }

    open spec fn aggregator_spec(self) -> NodePubKey {
        self.aggregator
    }

    open spec fn report_spec(self) -> Self {
        NodeAggregate { aggregator: erased_reporter(), ..self }
    }

    fn get_key(&self) -> (r: AggregateKey) {
        AggregateKey::NodeAggregateKey(self.node_id)
    }

    fn get_aggregator(&self) -> (r: NodePubKey) {
        self.aggregator
    }

    fn same_report(&self, other: &Self) -> (r: bool) {
        node_key_eq(&self.node_id, &other.node_id) && self.stored_bytes == other.stored_bytes
            && self.transferred_bytes == other.transferred_bytes && self.number_of_puts
            == other.number_of_puts && self.number_of_gets == other.number_of_gets
    }

    fn get_number_of_leaves(&self) -> u64 {
        if self.number_of_gets <= u64::MAX - self.number_of_puts {
            self.number_of_gets + self.number_of_puts
        } else {
            u64::MAX
        }
    }
}

/// A merged group of identical reports: one representative, how many
/// aggregators delivered it, and which.
#[derive(PartialEq, Eq, Clone, Debug)]
pub struct ConsolidatedAggregate<A> {
    /// The representative aggregate.
    pub aggregate: A,
    /// Number of aggregators that delivered this exact report.
    pub count: u16,
    /// The aggregators that delivered it, in report order.
    pub aggregators: Vec<NodePubKey>,
}

/// The three consistency classes of an era's aggregates.
#[derive(PartialEq, Eq, Clone, Debug)]
pub struct ConsistencyGroups<A> {
    pub consensus: Vec<ConsolidatedAggregate<A>>,
    pub quorum: Vec<ConsolidatedAggregate<A>>,
    pub others: Vec<ConsolidatedAggregate<A>>,
}

/// The reporters that delivered the same report as `rep`, in input order.
pub open spec fn matching_aggregators<A: Aggregate>(s: Seq<A>, rep: A) -> Seq<NodePubKey>
    decreases s.len(),
{
    if s.len() == 0 {
        Seq::empty()
    } else {
        matching_aggregators(s.drop_last(), rep) + if s.last().report_spec() == rep.report_spec() {
            seq![s.last().aggregator_spec()]
        } else {
            Seq::empty()
        }
    }
}

/// How many aggregators delivered the same report as `rep`.
pub open spec fn count_matching<A: Aggregate>(s: Seq<A>, rep: A) -> nat {
    matching_aggregators(s, rep).len()
}

/// A count clamped to the counter type.
pub open spec fn clamped_count(n: nat) -> u16 {
    if n >= u16::MAX {
        u16::MAX
    } else {
        n as u16
    }
}

/// Whether some element of `reps` is the same report as `a`.
pub open spec fn matches_some_rep<A: Aggregate>(reps: Seq<A>, a: A) -> bool {
    exists|j: int| 0 <= j < reps.len() && (#[trigger] reps[j]).report_spec() == a.report_spec()
}

/// Whether some element of `input` is the same report as `rep`.
pub open spec fn occurs_in<A: Aggregate>(input: Seq<A>, rep: A) -> bool {
    exists|i: int| 0 <= i < input.len() && (#[trigger] input[i]).report_spec() == rep.report_spec()
}

/// Whether `x` is one of the first `bound` representatives.
pub open spec fn is_one_of<A>(reps: Seq<A>, bound: int, x: A) -> bool {
    exists|k: int| 0 <= k < bound && (#[trigger] reps[k]) == x
}

/// Whether a consolidated group correctly summarizes the input's reports
/// that are identical to its representative.
pub open spec fn group_sound<A: Aggregate>(g: ConsolidatedAggregate<A>, input: Seq<A>) -> bool {
    &&& g.count == clamped_count(count_matching(input, g.aggregate))
    &&& g.aggregators@ == matching_aggregators(input, g.aggregate)
    &&& occurs_in(input, g.aggregate)
}

/// All groups of a partition, in classification order.
pub open spec fn all_groups<A>(cg: ConsistencyGroups<A>) -> Seq<ConsolidatedAggregate<A>> {
    cg.consensus@ + cg.quorum@ + cg.others@
}

/// Whether `groups` is the consistency partition of `input`: every group
/// faithfully summarizes the input's identical reports, no report appears
/// in two groups, every input aggregate is accounted for, and the three
/// classes hold exactly the unanimous, quorum-reaching and remaining
/// report counts.
pub open spec fn consistency_partition_spec<A: Aggregate>(
    groups: ConsistencyGroups<A>,
    input: Seq<A>,
    redundancy_factor: u16,
    quorum_parts: u8,
) -> bool {
    let threshold = percent_mul_spec(quorum_parts as int, redundancy_factor as int);
    let all = all_groups(groups);
    &&& forall|j: int| 0 <= j < all.len() ==> group_sound(#[trigger] all[j], input)
    &&& forall|j: int, k: int|
        0 <= j < k < all.len() ==> (#[trigger] all[j]).aggregate.report_spec() != (
        #[trigger] all[k]).aggregate.report_spec()
    &&& forall|i: int|
        0 <= i < input.len() ==> matches_some_rep(
            all.map_values(|g: ConsolidatedAggregate<A>| g.aggregate),
            #[trigger] input[i],
        )
    &&& forall|j: int|
        0 <= j < groups.consensus@.len() ==> (#[trigger] groups.consensus@[j]).count
            == redundancy_factor
    &&& forall|j: int|
        0 <= j < groups.quorum@.len() ==> (#[trigger] groups.quorum@[j]).count
            != redundancy_factor && groups.quorum@[j].count >= threshold
    &&& forall|j: int|
        0 <= j < groups.others@.len() ==> (#[trigger] groups.others@[j]).count
            != redundancy_factor && groups.others@[j].count < threshold
}

/// Partitions an era's aggregates by consistency. Identical reports
/// (equal in every field but the reporter) are merged into one group with
/// a reporter count; a group reported by every expected aggregator is
/// consensus, one meeting the quorum share of the redundancy factor is
/// quorum, and the rest await arbitration. Every distinct report lands in
/// exactly one group.
#[verifier::rlimit(60)]
pub fn group_by_consistency<A: Aggregate>(
    aggregates: &Vec<A>,
    redundancy_factor: u16,
    quorum_parts: u8,
) -> (r: ConsistencyGroups<A>)
    ensures
        consistency_partition_spec(r, aggregates@, redundancy_factor, quorum_parts),
{
    let ghost input = aggregates@;
    let mut reps: Vec<A> = Vec::new();
    let mut member_lists: Vec<Vec<NodePubKey>> = Vec::new();
    let mut i: usize = 0;
    while i < aggregates.len()
        invariant
            i <= input.len(),
            input == aggregates@,
            reps@.len() == member_lists@.len(),
            forall|j: int|
                0 <= j < reps@.len() ==> (#[trigger] member_lists@[j])@ == matching_aggregators(
                    input.take(i as int),
                    reps@[j],
                ),
            forall|j: int, k: int|
                0 <= j < k < reps@.len() ==> (#[trigger] reps@[j]).report_spec() != (
                #[trigger] reps@[k]).report_spec(),
            forall|j: int| 0 <= j < reps@.len() ==> occurs_in(input, #[trigger] reps@[j]),
            forall|i2: int|
                0 <= i2 < i ==> matches_some_rep(reps@, #[trigger] input[i2]),
        decreases input.len() - i,
    {
        let a = aggregates[i];
        let mut j: usize = 0;
        let mut found: bool = false;
        while j < reps.len() && !found
            invariant
                j <= reps@.len(),
                found ==> j < reps@.len() && (reps@[j as int]).report_spec() == a.report_spec(),
                !found ==> forall|k: int|
                    0 <= k < j ==> (#[trigger] reps@[k]).report_spec() != a.report_spec(),
            decreases reps@.len() - j + if found {
                0int
            } else {
                1int
            },
        {
            if reps[j].same_report(&a) {
                found = true;
            } else {
                j = j + 1;
            }
        }
        proof {
            assert(input.take(i + 1).drop_last() =~= input.take(i as int));
            assert(input.take(i + 1).last() == input[i as int]);
        }
        if found {
            let mut members = member_lists.remove(j);
            members.push(a.get_aggregator());
            member_lists.insert(j, members);
            proof {
                assert forall|k: int| 0 <= k < reps@.len() implies (#[trigger] member_lists@[k])@
                    == matching_aggregators(input.take(i + 1), reps@[k]) by {
                    if k == j {
                        assert(reps@[k].report_spec() == input[i as int].report_spec());
                    } else {
                        if reps@[k].report_spec() == a.report_spec() {
                            if k < j {
                                assert(reps@[k].report_spec() != reps@[j as int].report_spec());
                            } else {
                                assert(reps@[j as int].report_spec() != reps@[k].report_spec());
                            }
                        }
                        assert(reps@[k].report_spec() != a.report_spec());
                    }
                }
                assert(matches_some_rep(reps@, input[i as int])) by {
                    assert(reps@[j as int].report_spec() == input[i as int].report_spec());
                }
            }
        } else {
            let ghost old_reps = reps@;
            reps.push(a);
            let mut members: Vec<NodePubKey> = Vec::new();
            members.push(a.get_aggregator());
            member_lists.push(members);
            proof {
                let ghost nj = reps@.len() - 1;
                assert forall|i2: int|
                    0 <= i2 < input.take(i as int).len() implies (#[trigger] input.take(
                    i as int,
                )[i2]).report_spec() != a.report_spec() by {
                    let k = choose|k: int|
                        0 <= k < old_reps.len() && (#[trigger] old_reps[k]).report_spec()
                            == input[i2].report_spec();
                    assert(old_reps[k].report_spec() != a.report_spec());
                }
                lemma_no_match_empty(input.take(i as int), a);
                assert forall|k: int| 0 <= k < reps@.len() implies (#[trigger] member_lists@[k])@
                    == matching_aggregators(input.take(i + 1), reps@[k]) by {
                    if k < nj {
                        assert(reps@[k] == old_reps[k]);
                        assert(old_reps[k].report_spec() != a.report_spec());
                    } else {
                        assert(reps@[k] == a);
                        assert(matching_aggregators(input.take(i + 1), a) =~= matching_aggregators(
                            input.take(i as int),
                            a,
                        ) + seq![a.aggregator_spec()]);
                        assert(member_lists@[k]@ =~= seq![a.aggregator_spec()]);
                    }
                }
                assert forall|i2: int| 0 <= i2 < i + 1 implies matches_some_rep(
                    reps@,
                    #[trigger] input[i2],
                ) by {
                    if i2 < i {
                        let k = choose|k: int|
                            0 <= k < old_reps.len() && (#[trigger] old_reps[k]).report_spec()
                                == input[i2].report_spec();
                        assert(reps@[k] == old_reps[k]);
                    } else {
                        assert(reps@[nj] == a);
                    }
                }
                assert forall|j2: int, k: int|
                    0 <= j2 < k < reps@.len() implies (#[trigger] reps@[j2]).report_spec() != (
                    #[trigger] reps@[k]).report_spec() by {
                    if k < nj {
                        assert(reps@[j2] == old_reps[j2] && reps@[k] == old_reps[k]);
                    } else {
                        assert(reps@[j2] == old_reps[j2] && reps@[k] == a);
                    }
                }
                assert forall|j2: int| 0 <= j2 < reps@.len() implies occurs_in(
                    input,
                    #[trigger] reps@[j2],
                ) by {
                    if j2 < nj {
                        assert(reps@[j2] == old_reps[j2]);
                    } else {
                        assert(reps@[j2] == a && input[i as int] == a);
                    }
                }
            }
        }
        i = i + 1;
    }
    proof {
        assert(input.take(input.len() as int) =~= input);
    }

    let threshold_wide = percent_mul(quorum_parts, redundancy_factor as u64);
    let mut consensus: Vec<ConsolidatedAggregate<A>> = Vec::new();
    let mut quorum: Vec<ConsolidatedAggregate<A>> = Vec::new();
    let mut others: Vec<ConsolidatedAggregate<A>> = Vec::new();
    let mut g: usize = 0;
    while g < reps.len()
        invariant
            g <= reps@.len(),
            input == aggregates@,
            reps@.len() == member_lists@.len(),
            forall|j: int|
                0 <= j < reps@.len() ==> (#[trigger] member_lists@[j])@ == matching_aggregators(
                    input,
                    reps@[j],
                ),
            forall|j: int, k: int|
                0 <= j < k < reps@.len() ==> (#[trigger] reps@[j]).report_spec() != (
                #[trigger] reps@[k]).report_spec(),
            forall|j: int| 0 <= j < reps@.len() ==> occurs_in(input, #[trigger] reps@[j]),
            forall|i2: int|
                0 <= i2 < input.len() ==> matches_some_rep(reps@, #[trigger] input[i2]),
            threshold_wide == percent_mul_spec(quorum_parts as int, redundancy_factor as int),
            threshold_wide <= redundancy_factor,
            ({
                let all = consensus@ + quorum@ + others@;
                &&& all.len() == g
                &&& forall|j: int| 0 <= j < all.len() ==> group_sound(#[trigger] all[j], input)
                &&& forall|j: int|
                    0 <= j < all.len() ==> is_one_of(reps@, g as int, (#[trigger] all[j]).aggregate)
                &&& forall|k: int|
                    0 <= k < g ==> matches_some_rep(
                        all.map_values(|gr: ConsolidatedAggregate<A>| gr.aggregate),
                        #[trigger] reps@[k],
                    )
                &&& forall|j: int, k: int|
                    0 <= j < k < all.len() ==> (#[trigger] all[j]).aggregate.report_spec() != (
                    #[trigger] all[k]).aggregate.report_spec()
                &&& forall|j: int|
                    0 <= j < consensus@.len() ==> (#[trigger] consensus@[j]).count
                        == redundancy_factor
                &&& forall|j: int|
                    0 <= j < quorum@.len() ==> (#[trigger] quorum@[j]).count != redundancy_factor
                        && quorum@[j].count >= threshold_wide
                &&& forall|j: int|
                    0 <= j < others@.len() ==> (#[trigger] others@[j]).count != redundancy_factor
                        && others@[j].count < threshold_wide
            }),
        decreases reps@.len() - g,
    {
        let ghost old_all = consensus@ + quorum@ + others@;
        let rep = reps[g];
        let members = &member_lists[g];
        let count: u16 = if members.len() >= u16::MAX as usize {
            u16::MAX
        } else {
            members.len() as u16
        };
        let consolidated = ConsolidatedAggregate {
            aggregate: rep,
            count,
            aggregators: clone_keys(members),
        };
        proof {
            assert(group_sound(consolidated, input));
        }
        if count == redundancy_factor {
            consensus.push(consolidated);
            proof {
                assert(consensus@ + quorum@ + others@ =~= old_all.insert(
                    consensus@.len() - 1,
                    consolidated,
                ));
            }
        } else if count >= threshold_wide as u16 {
            quorum.push(consolidated);
            proof {
                assert(consensus@ + quorum@ + others@ =~= old_all.insert(
                    consensus@.len() + quorum@.len() - 1,
                    consolidated,
                ));
            }
        } else {
            others.push(consolidated);
            proof {
                assert(consensus@ + quorum@ + others@ =~= old_all.push(consolidated));
            }
        }
        proof {
            let all = consensus@ + quorum@ + others@;
            lemma_groups_push_step(old_all, all, consolidated, reps@, input, g as int);
        }
        g = g + 1;
    }
    proof {
        let r = ConsistencyGroups { consensus, quorum, others };
        let all = all_groups(r);
        assert forall|i2: int| 0 <= i2 < input.len() implies matches_some_rep(
            all.map_values(|gr: ConsolidatedAggregate<A>| gr.aggregate),
            #[trigger] input[i2],
        ) by {
            let k = choose|k: int|
                0 <= k < reps@.len() && (#[trigger] reps@[k]).report_spec()
                    == input[i2].report_spec();
            assert(matches_some_rep(
                all.map_values(|gr: ConsolidatedAggregate<A>| gr.aggregate),
                reps@[k],
            ));
            let m = all.map_values(|gr: ConsolidatedAggregate<A>| gr.aggregate);
            let j = choose|j: int|
                0 <= j < m.len() && (#[trigger] m[j]).report_spec() == reps@[k].report_spec();
            assert(m[j].report_spec() == input[i2].report_spec());
        }
    }
    ConsistencyGroups { consensus, quorum, others }
}

/// One classification step keeps the collected groups consistent: the new
/// group stands for representative `g`, which no earlier group stood for.
proof fn lemma_groups_push_step<A: Aggregate>(
    old_all: Seq<ConsolidatedAggregate<A>>,
    all: Seq<ConsolidatedAggregate<A>>,
    pushed: ConsolidatedAggregate<A>,
    reps: Seq<A>,
    input: Seq<A>,
    g: int,
)
    requires
        0 <= g < reps.len(),
        old_all.len() == g,
        pushed.aggregate == reps[g],
        group_sound(pushed, input),
        forall|j: int| 0 <= j < old_all.len() ==> group_sound(#[trigger] old_all[j], input),
        forall|j: int|
            0 <= j < old_all.len() ==> is_one_of(reps, g, (#[trigger] old_all[j]).aggregate),
        forall|k: int|
            0 <= k < g ==> matches_some_rep(
                old_all.map_values(|gr: ConsolidatedAggregate<A>| gr.aggregate),
                #[trigger] reps[k],
            ),
        forall|j: int, k: int|
            0 <= j < k < old_all.len() ==> (#[trigger] old_all[j]).aggregate.report_spec() != (
            #[trigger] old_all[k]).aggregate.report_spec(),
        forall|j: int, k: int|
            0 <= j < k < reps.len() ==> (#[trigger] reps[j]).report_spec() != (
            #[trigger] reps[k]).report_spec(),
        all == old_all.push(pushed) || exists|p: int|
            0 <= p <= old_all.len() && all == old_all.insert(p, pushed),
    ensures
        all.len() == g + 1,
        forall|j: int| 0 <= j < all.len() ==> group_sound(#[trigger] all[j], input),
        forall|j: int|
            0 <= j < all.len() ==> is_one_of(reps, g + 1, (#[trigger] all[j]).aggregate),
        forall|k: int|
            0 <= k < g + 1 ==> matches_some_rep(
                all.map_values(|gr: ConsolidatedAggregate<A>| gr.aggregate),
                #[trigger] reps[k],
            ),
        forall|j: int, k: int|
            0 <= j < k < all.len() ==> (#[trigger] all[j]).aggregate.report_spec() != (
            #[trigger] all[k]).aggregate.report_spec(),
{
    let p = if all == old_all.push(pushed) {
        old_all.len() as int
    } else {
        choose|p: int| 0 <= p <= old_all.len() && all == old_all.insert(p, pushed)
    };
    assert(all == old_all.insert(p, pushed)) by {
        if all == old_all.push(pushed) {
            assert(old_all.push(pushed) =~= old_all.insert(old_all.len() as int, pushed));
        }
    }
    assert(all.len() == g + 1);
    assert forall|j: int| 0 <= j < all.len() implies #[trigger] all[j] == (if j < p {
        old_all[j]
    } else if j == p {
        pushed
    } else {
        old_all[j - 1]
    }) by {
        assert(all == old_all.insert(p, pushed));
    }
    // the new representative's report differs from every earlier group's
    assert forall|j: int| 0 <= j < old_all.len() implies (#[trigger] old_all[j]).aggregate.report_spec()
        != pushed.aggregate.report_spec() by {
        let k = choose|k: int| 0 <= k < g && (#[trigger] reps[k]) == old_all[j].aggregate;
        assert(reps[k].report_spec() != reps[g].report_spec());
    }
    assert forall|j: int| 0 <= j < all.len() implies is_one_of(
        reps,
        g + 1,
        (#[trigger] all[j]).aggregate,
    ) by {
        if j < p {
            let k = choose|k: int| 0 <= k < g && (#[trigger] reps[k]) == old_all[j].aggregate;
            assert(all[j].aggregate == reps[k]);
        } else if j == p {
            assert(all[j].aggregate == reps[g]);
        } else {
            let k = choose|k: int| 0 <= k < g && (#[trigger] reps[k]) == old_all[j - 1].aggregate;
            assert(all[j].aggregate == reps[k]);
        }
    }
    let m_old = old_all.map_values(|gr: ConsolidatedAggregate<A>| gr.aggregate);
    let m = all.map_values(|gr: ConsolidatedAggregate<A>| gr.aggregate);
    assert forall|k: int| 0 <= k < g + 1 implies matches_some_rep(m, #[trigger] reps[k]) by {
        if k < g {
            let j = choose|j: int|
                0 <= j < m_old.len() && (#[trigger] m_old[j]).report_spec() == reps[k].report_spec();
            if j < p {
                assert(m[j] == all[j].aggregate && all[j] == old_all[j]);
                assert(m[j].report_spec() == reps[k].report_spec());
            } else {
                assert(m[j + 1] == all[j + 1].aggregate && all[j + 1] == old_all[j]);
                assert(m[j + 1].report_spec() == reps[k].report_spec());
            }
        } else {
            assert(m[p] == pushed.aggregate);
            assert(m[p].report_spec() == reps[g].report_spec());
        }
    }
}

/// If no element of `s` is the same report as `rep`, the reporter list of
/// `rep` over `s` is empty.
proof fn lemma_no_match_empty<A: Aggregate>(s: Seq<A>, rep: A)
    requires
        forall|i: int| 0 <= i < s.len() ==> (#[trigger] s[i]).report_spec() != rep.report_spec(),
    ensures
        matching_aggregators(s, rep).len() == 0,
    decreases s.len(),
{
    if s.len() > 0 {
        lemma_no_match_empty(s.drop_last(), rep);
        assert(s.last() == s[s.len() - 1]);
    }
}

/// Copies a list of node keys.
fn clone_keys(keys: &Vec<NodePubKey>) -> (r: Vec<NodePubKey>)
    ensures
        r@ == keys@,
{
    let mut out: Vec<NodePubKey> = Vec::new();
    let mut i: usize = 0;
    while i < keys.len()
        invariant
            i <= keys@.len(),
            out@ =~= keys@.take(i as int),
        decreases keys@.len() - i,
    {
        out.push(keys[i]);
        proof {
            assert(out@ =~= keys@.take(i + 1));
        }
        i = i + 1;
    }
    proof {
        assert(keys@.take(keys@.len() as int) =~= keys@);
    }
    out
}

} // verus!
