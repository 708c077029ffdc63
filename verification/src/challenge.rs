//! Challenge and arbitration of minority aggregates: recomputing a Merkle
//! root from a fetched partial proof, deciding acceptance per aggregate,
//! and the random sampling of tree nodes to challenge.

use rand::seq::SliceRandom;
use rand::SeedableRng;
use vstd::bytes::spec_u64_to_le_bytes;
use vstd::prelude::*;

use crate::aggregates::{Aggregate, AggregateKey, ConsolidatedAggregate};
use crate::eras::bytes_eq;
use crate::merkle::{blake2s, blake2s_of, create_merkle_root, merkle_root_spec, zero_hash};
use crate::payable::{i64_bits, i64_to_bits, push_u64_le};

verus! {

/// One raw activity record fetched for a challenge, reduced to the fields
/// the leaf digests cover.
#[derive(PartialEq, Eq, Clone, Debug)]
pub struct ChallengeLeaf {
    pub record_id: Vec<u8>,
    pub request_type: Vec<u8>,
    pub bucket_id: u64,
    pub stored_bytes: i64,
    pub transferred_bytes: u64,
}

/// One proof segment of a challenge response: the fetched leaves and the
/// sibling path up to the aggregate's root, innermost node first.
#[derive(PartialEq, Eq, Clone, Debug)]
pub struct ChallengeProof {
    pub leafs: Vec<ChallengeLeaf>,
    pub path: Vec<Vec<u8>>,
}

/// A challenge response: the proof segments fetched from the aggregator.
#[derive(PartialEq, Eq, Clone, Debug)]
pub struct ChallengeAggregateResponse {
    pub proofs: Vec<ChallengeProof>,
}

/// Canonical byte encoding of a challenge leaf under a node aggregate.
pub open spec fn node_leaf_bytes(l: ChallengeLeaf) -> Seq<u8> {
    l.record_id@ + l.request_type@ + spec_u64_to_le_bytes(i64_bits(l.stored_bytes))
        + spec_u64_to_le_bytes(l.transferred_bytes)
}

/// Canonical byte encoding of a challenge leaf under a bucket
/// sub-aggregate.
pub open spec fn bucket_leaf_bytes(l: ChallengeLeaf) -> Seq<u8> {
    spec_u64_to_le_bytes(l.bucket_id) + l.record_id@ + l.request_type@ + spec_u64_to_le_bytes(
        i64_bits(l.stored_bytes),
    ) + spec_u64_to_le_bytes(l.transferred_bytes)
}

/// The leaf digest of a challenge leaf, by the kind of aggregate.
pub open spec fn leaf_hash_spec(l: ChallengeLeaf, bucket_kind: bool) -> Seq<u8> {
    if bucket_kind {
        blake2s_of(bucket_leaf_bytes(l))
    } else {
        blake2s_of(node_leaf_bytes(l))
    }
}

/// Computes the leaf digest of a challenge leaf.
pub fn leaf_hash(l: &ChallengeLeaf, bucket_kind: bool) -> (r: Vec<u8>)
    ensures
        r@ == leaf_hash_spec(*l, bucket_kind),
        r@.len() == 32,
{
    let mut data: Vec<u8> = Vec::new();
    if bucket_kind {
        push_u64_le(&mut data, l.bucket_id);
    }
    push_bytes(&mut data, &l.record_id);
    push_bytes(&mut data, &l.request_type);
    push_u64_le(&mut data, i64_to_bits(l.stored_bytes));
    push_u64_le(&mut data, l.transferred_bytes);
    proof {
        if bucket_kind {
            assert(data@ =~= bucket_leaf_bytes(*l));
        } else {
            assert(data@ =~= node_leaf_bytes(*l));
        }
    }
    blake2s(&data)
}

/// Appends a byte string.
pub fn push_bytes(out: &mut Vec<u8>, bytes: &Vec<u8>)
    ensures
        final(out)@ == old(out)@ + bytes@,
{
    let mut i: usize = 0;
    while i < bytes.len()
        invariant
            i <= bytes@.len(),
            out@ == old(out)@ + bytes@.take(i as int),
        decreases bytes@.len() - i,
    {
        out.push(bytes[i]);
        proof {
            assert(out@ =~= old(out)@ + bytes@.take(i + 1));
        }
        i = i + 1;
    }
    proof {
        assert(bytes@.take(bytes@.len() as int) =~= bytes@);
    }
}

/// The root recomputed from one proof segment: the root over the leaf
/// digests, folded with each path node from the innermost out.
pub open spec fn segment_root_spec(leaf_hashes: Seq<Seq<u8>>, path: Seq<Seq<u8>>) -> Seq<u8>
    decreases path.len(),
{
    if path.len() == 0 {
        merkle_root_spec(leaf_hashes)
    } else {
        merkle_root_spec(seq![segment_root_spec(leaf_hashes, path.drop_first()), path.first()])
    }
}

/// The root that a whole challenge response recomputes: the last
/// segment's root, or the zero hash for an empty response.
pub open spec fn response_root_spec(r: ChallengeAggregateResponse, bucket_kind: bool) -> Seq<u8> {
    if r.proofs@.len() == 0 {
        zero_hash()
    } else {
        let last = r.proofs@.last();
        segment_root_spec(
            last.leafs@.map_values(|l: ChallengeLeaf| leaf_hash_spec(l, bucket_kind)),
            last.path.deep_view(),
        )
    }
}

/// Recomputes the Merkle root that a challenge response stands for: for
/// each proof segment the fetched leaves are hashed and rolled into a
/// root, which is then folded with the fetched path nodes from the
/// innermost out; the path is walked in reverse fetch order.
pub fn get_hash_from_merkle_path(response: &ChallengeAggregateResponse, bucket_kind: bool) -> (r:
    Vec<u8>)
    requires
        forall|si: int, pi: int|
            0 <= si < response.proofs@.len() && 0 <= pi < (response.proofs@[si]).path@.len()
                ==> (#[trigger] ((response.proofs@[si]).path@[pi])@).len() == 32,
    ensures
        r@ == response_root_spec(*response, bucket_kind),
        r@.len() == 32,
{
    let mut resulting_hash = crate::eras::zero_root_bytes();
    let mut s: usize = 0;
    while s < response.proofs.len()
        invariant
            s <= response.proofs@.len(),
            forall|si: int, pi: int|
                0 <= si < response.proofs@.len() && 0 <= pi < (response.proofs@[si]).path@.len()
                    ==> (#[trigger] ((response.proofs@[si]).path@[pi])@).len() == 32,
            resulting_hash@.len() == 32,
            s == 0 ==> resulting_hash@ == zero_hash(),
            s > 0 ==> resulting_hash@ == segment_root_spec(
                (response.proofs@[s - 1]).leafs@.map_values(
                    |l: ChallengeLeaf| leaf_hash_spec(l, bucket_kind),
                ),
                (response.proofs@[s - 1]).path.deep_view(),
            ),
        decreases response.proofs@.len() - s,
    {
        let segment = &response.proofs[s];
        let mut leaf_hashes: Vec<Vec<u8>> = Vec::new();
        let mut k: usize = 0;
        while k < segment.leafs.len()
            invariant
                k <= segment.leafs@.len(),
                leaf_hashes@.len() == k,
                forall|m: int|
                    0 <= m < k ==> (#[trigger] leaf_hashes@[m])@ == leaf_hash_spec(
                        segment.leafs@[m],
                        bucket_kind,
                    ) && (leaf_hashes@[m])@.len() == 32,
            decreases segment.leafs@.len() - k,
        {
            leaf_hashes.push(leaf_hash(&segment.leafs[k], bucket_kind));
            k = k + 1;
        }
        proof {
            assert(leaf_hashes.deep_view() =~~= segment.leafs@.map_values(
                |l: ChallengeLeaf| leaf_hash_spec(l, bucket_kind),
            ));
        }
        let mut node_root = create_merkle_root(&leaf_hashes);
        let ghost leaf_hash_seq = segment.leafs@.map_values(
            |l: ChallengeLeaf| leaf_hash_spec(l, bucket_kind),
        );
        let ghost path_seq = segment.path.deep_view();
        proof {
            assert(path_seq.len() == segment.path@.len());
        }
        let mut p: usize = segment.path.len();
        while p > 0
            invariant
                p <= path_seq.len(),
                path_seq == segment.path.deep_view(),
                path_seq.len() == segment.path@.len(),
                s < response.proofs@.len(),
                segment == &response.proofs@[s as int],
                forall|si: int, pi: int|
                    0 <= si < response.proofs@.len() && 0 <= pi < (
                    response.proofs@[si]).path@.len() ==> (#[trigger] ((
                    response.proofs@[si]).path@[pi])@).len() == 32,
                node_root@.len() == 32,
                node_root@ == segment_root_spec(
                    leaf_hash_seq,
                    path_seq.subrange(p as int, path_seq.len() as int),
                ),
            decreases p,
        {
            p = p - 1;
            let path_hash = &segment.path[p];
            let mut pair: Vec<Vec<u8>> = Vec::new();
            pair.push(node_root);
            pair.push(crate::eras::clone_bytes(path_hash));
            proof {
                assert(path_seq[p as int] == (segment.path@[p as int])@);
                assert(pair.deep_view() =~~= seq![
                    segment_root_spec(
                        leaf_hash_seq,
                        path_seq.subrange(p + 1, path_seq.len() as int),
                    ),
                    path_seq[p as int],
                ]);
            }
            node_root = create_merkle_root(&pair);
            proof {
                let tail = path_seq.subrange(p as int, path_seq.len() as int);
                assert(tail.drop_first() =~= path_seq.subrange(p + 1, path_seq.len() as int));
                assert(tail.first() == path_seq[p as int]);
                assert(node_root@ == segment_root_spec(leaf_hash_seq, tail));
            }
        }
        proof {
            assert(path_seq.subrange(0, path_seq.len() as int) =~= path_seq);
        }
        resulting_hash = node_root;
        s = s + 1;
    }
    resulting_hash
}

/// Decides a legacy Merkle-path challenge: the root recomputed from the
/// fetched partial proof must equal the root the aggregator reports for
/// its whole tree.
pub fn evaluate_merkle_challenge(
    response: &ChallengeAggregateResponse,
    traversed_root: &Vec<u8>,
    bucket_kind: bool,
) -> (r: bool)
    requires
        forall|si: int, pi: int|
            0 <= si < response.proofs@.len() && 0 <= pi < (response.proofs@[si]).path@.len()
                ==> (#[trigger] ((response.proofs@[si]).path@[pi])@).len() == 32,
    ensures
        r == (response_root_spec(*response, bucket_kind) == traversed_root@),
{
    let computed = get_hash_from_merkle_path(response, bucket_kind);
    bytes_eq(&computed, traversed_root)
}

/// Relies on `rand::rngs::SmallRng` seeded from the per-target nonce and
/// `rand::seq::SliceRandom::choose_multiple`, which samples exactly
/// `min(amount, len)` distinct elements of the range without replacement:
/// the choice depends on the process's random-number generator build, so
/// nothing beyond membership, size and distinctness is promised of it.
#[verifier::external_body]
pub fn sample_merkle_node_ids(number_of_identifiers: usize, total_levels: u64, nonce: u64) -> (r:
    Vec<u64>)
    ensures
        r@.len() == if number_of_identifiers <= total_levels {
            number_of_identifiers as int
        } else {
            total_levels as int
        },
        forall|i: int| 0 <= i < r@.len() ==> r@[i] < total_levels,
        forall|i: int, j: int| 0 <= i < j < r@.len() ==> r@[i] != r@[j],
{
    let mut small_rng = rand::rngs::SmallRng::seed_from_u64(nonce);
    let int_list: Vec<u64> = (0..total_levels).collect();
    int_list.choose_multiple(&mut small_rng, number_of_identifiers).cloned().collect()
}

/// Number of levels of a tree over the given leaf count: the number of
/// halvings that exhaust it.
pub open spec fn tree_levels_spec(n: int) -> int
    decreases n,
{
    if n <= 0 {
        0
    } else {
        1 + tree_levels_spec(n / 2)
    }
}

/// Number of levels of the aggregate's record tree.
pub fn total_tree_levels(number_of_leaves: u64) -> (r: u64)
    requires
        number_of_leaves > 0,
    ensures
        r == tree_levels_spec(number_of_leaves as int),
        1 <= r <= 64,
{
    proof {
        lemma_tree_levels_bound(number_of_leaves as int);
        lemma_tree_levels_nonneg(number_of_leaves as int);
    }
    let mut levels: u64 = 0;
    let mut n: u64 = number_of_leaves;
    while n > 0
        invariant
            levels + tree_levels_spec(n as int) == tree_levels_spec(number_of_leaves as int),
            tree_levels_spec(n as int) >= 0,
            levels <= 64,
            tree_levels_spec(number_of_leaves as int) <= 64,
        decreases n,
    {
        n = n / 2;
        levels = levels + 1;
        proof {
            lemma_tree_levels_nonneg(n as int);
        }
    }
    proof {
        // one level at least: the first halving counts
        lemma_tree_levels_nonneg(number_of_leaves as int / 2);
    }
    levels
}

/// A level count is never negative.
proof fn lemma_tree_levels_nonneg(n: int)
    ensures
        tree_levels_spec(n) >= 0,
    decreases n,
{
    if n > 0 {
        lemma_tree_levels_nonneg(n / 2);
    }
}

/// A 64-bit leaf count never yields more than 64 levels.
proof fn lemma_tree_levels_bound(n: int)
    requires
        n <= u64::MAX,
    ensures
        tree_levels_spec(n) <= 64,
{
    vstd::arithmetic::power2::lemma2_to64();
    vstd::arithmetic::power2::lemma2_to64_rest();
    lemma_tree_levels_le(n, 64);
}

/// A count below the k-th power of two halves to zero within k steps.
proof fn lemma_tree_levels_le(n: int, k: nat)
    requires
        n < vstd::arithmetic::power2::pow2(k),
    ensures
        tree_levels_spec(n) <= k,
    decreases k,
{
    if n > 0 {
        assert(k > 0) by {
            if k == 0 {
                vstd::arithmetic::power2::lemma2_to64();
            }
        }
        vstd::arithmetic::power2::lemma_pow2_unfold(k);
        lemma_tree_levels_le(n / 2, (k - 1) as nat);
    }
}

/// Picks the Merkle node identifiers to challenge for an aggregate: a
/// pseudo-random sample over the tree's levels, seeded by the per-target
/// nonce so a repeated challenge does not replay the same sample.
pub fn find_random_merkle_node_ids(
    number_of_identifiers: usize,
    number_of_leaves: u64,
    nonce: u64,
) -> (r: Vec<u64>)
    requires
        number_of_leaves > 0,
    ensures
        r@.len() == if number_of_identifiers <= tree_levels_spec(number_of_leaves as int) {
            number_of_identifiers as int
        } else {
            tree_levels_spec(number_of_leaves as int)
        },
        forall|i: int|
            0 <= i < r@.len() ==> r@[i] < tree_levels_spec(number_of_leaves as int),
        forall|i: int, j: int| 0 <= i < j < r@.len() ==> r@[i] != r@[j],
{
    let total_levels = total_tree_levels(number_of_leaves);
    sample_merkle_node_ids(number_of_identifiers, total_levels, nonce)
}

/// Whether `a` is the representative of an eligible group among the first
/// `bound` others: one with more reporters than the redundancy factor, or
/// one whose challenge verdict passed.
pub open spec fn from_eligible_group<A: Aggregate>(
    others: Seq<ConsolidatedAggregate<A>>,
    verdicts: Seq<bool>,
    bound: int,
    redundancy_factor: u16,
    a: A,
) -> bool {
    exists|j: int|
        0 <= j < bound && a == (#[trigger] others[j]).aggregate && (others[j].count
            > redundancy_factor || verdicts[j])
}

/// Whether every member of `vu` comes from an eligible group.
pub open spec fn all_from_eligible_groups<A: Aggregate>(
    vu: Seq<A>,
    others: Seq<ConsolidatedAggregate<A>>,
    verdicts: Seq<bool>,
    bound: int,
    redundancy_factor: u16,
) -> bool {
    forall|k: int|
        0 <= k < vu.len() ==> from_eligible_group(
            others,
            verdicts,
            bound,
            redundancy_factor,
            #[trigger] vu[k],
        )
}

/// Which aggregates of the `others` group enter the payable set, given
/// one challenge verdict per group member: an aggregate whose key was
/// already accepted is skipped to prevent double counting; one with more
/// reporters than the redundancy factor is accepted as anomalous excess;
/// any other enters only if its challenge verdict passed.
#[verifier::rlimit(60)]
pub fn challenge_others<A: Aggregate>(
    others: &Vec<ConsolidatedAggregate<A>>,
    accepted_keys: &mut Vec<AggregateKey>,
    verdicts: &Vec<bool>,
    redundancy_factor: u16,
) -> (r: Vec<A>)
    requires
        verdicts@.len() == others@.len(),
    ensures
        // every accepted aggregate comes from an eligible group
        all_from_eligible_groups(r@, others@, verdicts@, others@.len() as int, redundancy_factor),
        // the keys list grows by exactly the accepted aggregates' keys
        final(accepted_keys)@.len() == old(accepted_keys)@.len() + r@.len(),
        forall|k: int|
            0 <= k < old(accepted_keys)@.len() ==> #[trigger] (final(accepted_keys)@[k]) == old(
                accepted_keys,
            )@[k],
        forall|k: int|
            0 <= k < r@.len() ==> final(accepted_keys)@[old(accepted_keys)@.len() + k] == (
            #[trigger] r@[k]).key_spec(),
        // no accepted key was accepted before this call, and none twice:
        // an aggregate whose key a consensus or quorum group (or an earlier
        // accepted minority aggregate) already used is skipped
        forall|k: int|
            0 <= k < r@.len() ==> !old(accepted_keys)@.contains((#[trigger] r@[k]).key_spec()),
        forall|k: int, k2: int|
            0 <= k < k2 < r@.len() ==> (#[trigger] r@[k]).key_spec() != (
            #[trigger] r@[k2]).key_spec(),
        // an eligible aggregate whose key nobody used before it is accepted
        forall|j: int|
            0 <= j < others@.len() && ((#[trigger] others@[j]).count > redundancy_factor
                || verdicts@[j]) && !old(accepted_keys)@.contains(others@[j].aggregate.key_spec())
                && (forall|j2: int|
                0 <= j2 < j ==> (#[trigger] others@[j2]).aggregate.key_spec()
                    != others@[j].aggregate.key_spec()) ==> r@.contains(others@[j].aggregate),
{
    let mut verified_usage: Vec<A> = Vec::new();
    let ghost keys0 = accepted_keys@;
    let mut j: usize = 0;
    while j < others.len()
        invariant
            j <= others@.len(),
            verdicts@.len() == others@.len(),
            accepted_keys@.len() == keys0.len() + verified_usage@.len(),
            forall|k: int| 0 <= k < keys0.len() ==> #[trigger] (accepted_keys@[k]) == keys0[k],
            forall|k: int|
                0 <= k < verified_usage@.len() ==> accepted_keys@[keys0.len() + k] == (
                #[trigger] verified_usage@[k]).key_spec(),
            forall|k: int|
                0 <= k < verified_usage@.len() ==> !keys0.contains(
                    (#[trigger] verified_usage@[k]).key_spec(),
                ),
            forall|k: int, k2: int|
                0 <= k < k2 < verified_usage@.len() ==> (#[trigger] verified_usage@[k]).key_spec()
                    != (#[trigger] verified_usage@[k2]).key_spec(),
            all_from_eligible_groups(
                verified_usage@,
                others@,
                verdicts@,
                j as int,
                redundancy_factor,
            ),
            forall|j2: int|
                0 <= j2 < j && ((#[trigger] others@[j2]).count > redundancy_factor
                    || verdicts@[j2]) && !keys0.contains(others@[j2].aggregate.key_spec()) && (
                forall|j3: int|
                    0 <= j3 < j2 ==> (#[trigger] others@[j3]).aggregate.key_spec()
                        != others@[j2].aggregate.key_spec()) ==> verified_usage@.contains(
                    others@[j2].aggregate,
                ),
        decreases others@.len() - j,
    {
        let consolidated = &others[j];
        let aggregate_key = consolidated.aggregate.get_key();
        let mut already: bool = false;
        let mut a: usize = 0;
        while a < accepted_keys.len() && !already
            invariant
                a <= accepted_keys@.len(),
                already ==> accepted_keys@.contains(aggregate_key),
                !already ==> forall|k: int| 0 <= k < a ==> accepted_keys@[k] != aggregate_key,
            decreases accepted_keys@.len() - a + if already {
                0int
            } else {
                1int
            },
        {
            if key_eq(&accepted_keys[a], &aggregate_key) {
                already = true;
            } else {
                a = a + 1;
            }
        }
        let ghost old_verified = verified_usage@;
        let ghost old_keys = accepted_keys@;
        let mut pushed: bool = false;
        if !already {
            let take_it: bool = consolidated.count > redundancy_factor || verdicts[j];
            if take_it {
                verified_usage.push(consolidated.aggregate);
                accepted_keys.push(aggregate_key);
                pushed = true;
            }
        }
        proof {
            if pushed {
                // the scan cleared the key against every key accepted so
                // far, both the callers' and this call's own
                assert forall|k: int| 0 <= k < keys0.len() implies keys0[k] != aggregate_key by {
                    assert(old_keys[k] == keys0[k]);
                }
                assert(!keys0.contains(aggregate_key));
                assert forall|k: int| 0 <= k < old_verified.len() implies (
                #[trigger] old_verified[k]).key_spec() != aggregate_key by {
                    assert(old_keys[keys0.len() + k] == old_verified[k].key_spec());
                }
            }
        }
        proof {
            assert forall|k: int| 0 <= k < verified_usage@.len() implies from_eligible_group(
                others@,
                verdicts@,
                j + 1,
                redundancy_factor,
                #[trigger] verified_usage@[k],
            ) by {
                if k < old_verified.len() {
                    assert(verified_usage@[k] == old_verified[k]);
                    assert(from_eligible_group(
                        others@,
                        verdicts@,
                        j as int,
                        redundancy_factor,
                        old_verified[k],
                    ));
                    let w = choose|w: int|
                        0 <= w < j && old_verified[k] == (#[trigger] others@[w]).aggregate && (
                        others@[w].count > redundancy_factor || verdicts@[w]);
                    assert(0 <= w < j + 1 && verified_usage@[k] == (others@[w]).aggregate && (
                    others@[w].count > redundancy_factor || verdicts@[w]));
                } else {
                    assert(pushed);
                    assert(verified_usage@[k] == (others@[j as int]).aggregate);
                    assert(others@[j as int].count > redundancy_factor || verdicts@[j as int]);
                }
            }
            assert forall|j2: int|
                0 <= j2 < j + 1 && ((#[trigger] others@[j2]).count > redundancy_factor
                    || verdicts@[j2]) && !keys0.contains(others@[j2].aggregate.key_spec()) && (
                forall|j3: int|
                    0 <= j3 < j2 ==> (#[trigger] others@[j3]).aggregate.key_spec()
                        != others@[j2].aggregate.key_spec()) implies verified_usage@.contains(
                (others@[j2]).aggregate,
            ) by {
                if j2 < j {
                    assert(old_verified.contains((others@[j2]).aggregate));
                    let w = choose|w: int|
                        0 <= w < old_verified.len() && old_verified[w] == (others@[j2]).aggregate;
                    assert(verified_usage@[w] == (others@[j2]).aggregate);
                } else {
                    if already {
                        let w = choose|w: int|
                            0 <= w < old_keys.len() && old_keys[w] == aggregate_key;
                        if w < keys0.len() {
                            assert(keys0[w] == aggregate_key);
                            assert(keys0.contains(aggregate_key));
                            assert(false);
                        } else {
                            let k = w - keys0.len();
                            assert(old_verified[k].key_spec() == aggregate_key);
                            assert(from_eligible_group(
                                others@,
                                verdicts@,
                                j as int,
                                redundancy_factor,
                                old_verified[k],
                            ));
                            let src = choose|s2: int|
                                0 <= s2 < j && old_verified[k] == (
                                #[trigger] others@[s2]).aggregate && (others@[s2].count
                                    > redundancy_factor || verdicts@[s2]);
                            assert((others@[src]).aggregate.key_spec()
                                == others@[j2].aggregate.key_spec());
                            assert(false);
                        }
                    } else {
                        assert(pushed);
                        assert(verified_usage@.last() == (others@[j2]).aggregate);
                    }
                }
            }
        }
        j = j + 1;
    }
    verified_usage
}

/// Decides equality of two aggregation keys.
pub fn key_eq(a: &AggregateKey, b: &AggregateKey) -> (r: bool)
    ensures
        r == (*a == *b),
{
    match (a, b) {
        (AggregateKey::NodeAggregateKey(x), AggregateKey::NodeAggregateKey(y)) => {
            crate::aggregates::node_key_eq(x, y)
        },
        (
            AggregateKey::BucketSubAggregateKey(bx, x),
            AggregateKey::BucketSubAggregateKey(by, y),
        ) => *bx == *by && crate::aggregates::node_key_eq(x, y),
        _ => false,
    }
}

} // verus!
