//! Merkle batching engine: deterministic splitting of usage sets into
//! fixed-size batches, Merkle-mountain-range commitments over batch roots,
//! and inclusion proofs for single batches.

use vstd::prelude::*;
use vstd::relations::total_ordering;
use vstd::seq_lib::lemma_sorted_unique;

verus! {

/// The defined root of an empty hash list: thirty-two zero bytes.
pub open spec fn zero_hash() -> Seq<u8> {
    Seq::new(32, |i: int| 0u8)
}

/// The 32-byte digest that the settlement hashes everything with.
/// It is determined by the input bytes alone.
pub uninterp spec fn blake2s_of(bytes: Seq<u8>) -> Seq<u8>;

/// Relies on `blake2::Blake2s256`: a 32-byte digest of the input bytes,
/// depending on the input bytes alone.
#[verifier::external_body]
pub fn blake2s(bytes: &Vec<u8>) -> (r: Vec<u8>)
    ensures
        r@ == blake2s_of(bytes@),
        r@.len() == 32,
{
    let mut hasher = <blake2::Blake2s256 as blake2::Digest>::new();
    <blake2::Blake2s256 as blake2::Digest>::update(&mut hasher, bytes.as_slice());
    <blake2::Blake2s256 as blake2::Digest>::finalize(hasher).to_vec()
}

#[verifier::external_type_specification]
#[verifier::external_body]
pub struct ExMmrError(polkadot_ckb_merkle_mountain_range::Error);

/// Merges two Merkle mountain range nodes by hashing their concatenation.
pub struct MergeMMRHash;

impl polkadot_ckb_merkle_mountain_range::Merge for MergeMMRHash {
    type Item = Vec<u8>;

    #[verifier::external_body]
    fn merge(left: &Vec<u8>, right: &Vec<u8>) -> Result<
        Vec<u8>,
        polkadot_ckb_merkle_mountain_range::Error,
    > {
        let mut hasher = <blake2::Blake2s256 as blake2::Digest>::new();
        <blake2::Blake2s256 as blake2::Digest>::update(&mut hasher, left.as_slice());
        <blake2::Blake2s256 as blake2::Digest>::update(&mut hasher, right.as_slice());
        Ok(<blake2::Blake2s256 as blake2::Digest>::finalize(hasher).to_vec())
    }
}

/// Root of the Merkle mountain range built over the given non-empty leaf
/// list, merging with [`blake2s_of`]. Determined by the leaves alone.
pub uninterp spec fn mmr_root_of(leaves: Seq<Seq<u8>>) -> Seq<u8>;

/// Inclusion proof that the Merkle mountain range over `leaves` yields for
/// the leaf at `index`. Determined by the leaves and the index alone.
pub uninterp spec fn mmr_proof_of(leaves: Seq<Seq<u8>>, index: int) -> Seq<Seq<u8>>;

/// Node position of the leaf with the given index in a Merkle mountain range.
pub uninterp spec fn mmr_leaf_pos_of(index: int) -> int;

/// Size of the Merkle mountain range whose last leaf has the given index.
pub uninterp spec fn mmr_size_of(max_index: int) -> int;

/// Verdict of Merkle-mountain-range proof verification: `Some(b)` when
/// verification ran and compared the recomputed root with `root` (`b` is the
/// comparison), `None` when the proof was malformed for that tree shape.
pub uninterp spec fn mmr_verdict(
    root: Seq<u8>,
    mmr_size: int,
    pos: int,
    leaf: Seq<u8>,
    proof: Seq<Seq<u8>>,
) -> Option<bool>;

/// Relies on `polkadot_ckb_merkle_mountain_range::MMR::push` and `get_root`
/// over an in-memory store, which cannot fail on a non-empty leaf list; the
/// root depends on the leaf list alone.
#[verifier::external_body]
pub fn mmr_root(leaves: &Vec<Vec<u8>>) -> (r: Vec<u8>)
    requires
        leaves@.len() > 0,
        forall|i: int| 0 <= i < leaves@.len() ==> leaves.deep_view()[i].len() == 32,
    ensures
        r@ == mmr_root_of(leaves.deep_view()),
        r@.len() == 32,
{
    let store = polkadot_ckb_merkle_mountain_range::util::MemStore::default();
    let mut mmr: polkadot_ckb_merkle_mountain_range::util::MemMMR<Vec<u8>, MergeMMRHash> =
        polkadot_ckb_merkle_mountain_range::util::MemMMR::new(0, &store);
    for leaf in leaves.iter() {
        mmr.push(leaf.clone()).unwrap();
    }
    mmr.get_root().unwrap()
}

/// Relies on `polkadot_ckb_merkle_mountain_range::MMR::gen_proof` (together
/// with `push` and `leaf_index_to_pos`): the proof for a valid leaf index is
/// produced without error, depends on the leaves and index alone, and — the
/// crate's defining guarantee — verifies that leaf against the root of the
/// same leaf list.
#[verifier::external_body]
pub fn mmr_gen_proof(leaves: &Vec<Vec<u8>>, index: u64) -> (r: Vec<Vec<u8>>)
    requires
        (index as int) < leaves@.len(),
        forall|i: int| 0 <= i < leaves@.len() ==> leaves.deep_view()[i].len() == 32,
    ensures
        r.deep_view() == mmr_proof_of(leaves.deep_view(), index as int),
        mmr_verdict(
            mmr_root_of(leaves.deep_view()),
            mmr_size_of(leaves@.len() - 1),
            mmr_leaf_pos_of(index as int),
            leaves.deep_view()[index as int],
            r.deep_view(),
        ) == Some(true),
{
    let store = polkadot_ckb_merkle_mountain_range::util::MemStore::default();
    let mut mmr: polkadot_ckb_merkle_mountain_range::util::MemMMR<Vec<u8>, MergeMMRHash> =
        polkadot_ckb_merkle_mountain_range::util::MemMMR::new(0, &store);
    for leaf in leaves.iter() {
        mmr.push(leaf.clone()).unwrap();
    }
    let pos = polkadot_ckb_merkle_mountain_range::leaf_index_to_pos(index);
    let proof = mmr.gen_proof(vec![pos]).unwrap();
    proof.proof_items().to_vec()
}

/// Relies on `polkadot_ckb_merkle_mountain_range::leaf_index_to_pos`.
#[verifier::external_body]
pub fn leaf_index_to_pos(index: u64) -> (r: u64)
    ensures
        r == mmr_leaf_pos_of(index as int),
{
    polkadot_ckb_merkle_mountain_range::leaf_index_to_pos(index)
}

/// Relies on `polkadot_ckb_merkle_mountain_range::leaf_index_to_mmr_size`.
#[verifier::external_body]
pub fn leaf_index_to_mmr_size(max_index: u64) -> (r: u64)
    ensures
        r == mmr_size_of(max_index as int),
{
    polkadot_ckb_merkle_mountain_range::leaf_index_to_mmr_size(max_index)
}

/// Relies on `polkadot_ckb_merkle_mountain_range::MerkleProof::verify`: the
/// verdict depends only on the proof items, tree size, position, leaf and
/// root; a malformed proof is reported as an error, mapped here to `None`.
#[verifier::external_body]
pub fn mmr_verify(
    root: &Vec<u8>,
    mmr_size: u64,
    pos: u64,
    leaf: &Vec<u8>,
    proof: &Vec<Vec<u8>>,
) -> (r: Option<bool>)
    ensures
        r == mmr_verdict(root@, mmr_size as int, pos as int, leaf@, proof.deep_view()),
{
    let merkle_proof: polkadot_ckb_merkle_mountain_range::MerkleProof<Vec<u8>, MergeMMRHash> =
        polkadot_ckb_merkle_mountain_range::MerkleProof::new(mmr_size, proof.clone());
    match merkle_proof.verify(root.clone(), vec![(pos, leaf.clone())]) {
        Ok(matched) => Some(matched),
        Err(_) => None,
    }
}

/// A total order that batch splitting sorts by, with an executable
/// comparison that matches it.
pub trait SplitOrd: Sized + Copy {
    /// The ordering relation.
    spec fn le_spec(self, other: Self) -> bool;

    /// The relation is a total ordering.
    proof fn lemma_le_total_ordering()
        ensures
            total_ordering(|a: Self, b: Self| a.le_spec(b)),
    ;

    /// Decides the ordering relation.
    fn le_exec(&self, other: &Self) -> (r: bool)
        ensures
            r == self.le_spec(*other),
    ;
}

/// Whether `s` is sorted by the element order.
pub open spec fn sorted_le<A: SplitOrd>(s: Seq<A>) -> bool {
    forall|i: int, j: int| 0 <= i < j < s.len() ==> #[trigger] s[i].le_spec(#[trigger] s[j])
}

/// Sorts by the element order; the result is the unique sorted arrangement
/// of the input's elements.
pub fn sort_by_le<A: SplitOrd>(input: &Vec<A>) -> (r: Vec<A>)
    ensures
        r@.to_multiset() == input@.to_multiset(),
        sorted_le(r@),
        r@.len() == input@.len(),
{
    let ghost leq = |a: A, b: A| a.le_spec(b);
    proof {
        A::lemma_le_total_ordering();
    }
    let mut out: Vec<A> = Vec::new();
    let mut i: usize = 0;
    proof {
        assert(out@ =~= input@.take(0));
    }
    while i < input.len()
        invariant
            i <= input@.len(),
            out@.len() == i,
            out@.to_multiset() == input@.take(i as int).to_multiset(),
            sorted_le(out@),
            total_ordering(leq),
            forall|a: A, b: A| #[trigger] leq(a, b) == a.le_spec(b),
        decreases input@.len() - i,
    {
        let x = input[i];
        let mut j: usize = 0;
        while j < out.len() && out[j].le_exec(&x)
            invariant
                j <= out@.len(),
                forall|k: int| 0 <= k < j ==> #[trigger] out@[k].le_spec(x),
                i <= input@.len(),
                out@.len() == i,
                x == input@[i as int],
                sorted_le(out@),
                total_ordering(leq),
                forall|a: A, b: A| #[trigger] leq(a, b) == a.le_spec(b),
            decreases out@.len() - j,
        {
            j = j + 1;
        }
        proof {
            if j < out@.len() {
                // the scan stopped because out[j] is not below x, so by
                // totality x is below out[j], and by sortedness below the rest
                assert(leq(x, out@[j as int]) || leq(out@[j as int], x));
            }
            assert forall|k: int| j <= k < out@.len() implies x.le_spec(#[trigger] out@[k]) by {
                assert(leq(x, out@[j as int]));
                if k > j {
                    assert(out@[j as int].le_spec(out@[k]));
                    assert(leq(x, out@[j as int]) && leq(out@[j as int], out@[k]));
                }
            }
        }
        let ghost old_out = out@;
        out.insert(j, x);
        proof {
            vstd::seq_lib::to_multiset_insert(old_out, j as int, x);
            vstd::seq_lib::to_multiset_build(input@.take(i as int), input@[i as int]);
            assert(input@.take(i as int + 1) =~= input@.take(i as int).push(input@[i as int]));
            assert forall|p: int, q: int| 0 <= p < q < out@.len() implies #[trigger] out@[p].le_spec(
                #[trigger] out@[q],
            ) by {
                if q < j {
                    assert(out@[p] == old_out[p] && out@[q] == old_out[q]);
                } else if p < j && q == j {
                    assert(out@[p] == old_out[p] && out@[q] == x);
                } else if p < j && q > j {
                    assert(out@[p] == old_out[p] && out@[q] == old_out[q - 1]);
                } else if p == j {
                    assert(out@[p] == x && out@[q] == old_out[q - 1]);
                } else {
                    assert(out@[p] == old_out[p - 1] && out@[q] == old_out[q - 1]);
                }
            }
        }
        i = i + 1;
    }
    proof {
        assert(input@.take(input@.len() as int) =~= input@);
    }
    out
}

/// The batches that a sorted sequence is cut into: full windows of
/// `batch_size`, the last one possibly shorter.
pub open spec fn chunked<A>(s: Seq<A>, batch_size: int, batches: Seq<Vec<A>>) -> bool {
    &&& batches.len() == (s.len() + batch_size - 1) / batch_size
    &&& forall|b: int|
        0 <= b < batches.len() ==> (#[trigger] batches[b])@ =~= s.subrange(
            b * batch_size,
            if (b + 1) * batch_size <= s.len() {
                (b + 1) * batch_size
            } else {
                s.len() as int
            },
        )
}

/// Splits activities into fixed-size batches: sorts them by their total
/// order, then cuts the sorted sequence into windows of `batch_size`.
/// Sorting first makes the batch contents a function of the input's
/// elements alone, whatever order the network delivered them in.
pub fn split_to_batches<A: SplitOrd>(activities: &Vec<A>, batch_size: usize) -> (r: Vec<Vec<A>>)
    requires
        batch_size > 0,
    ensures
        exists|sorted: Seq<A>|
            {
                &&& sorted.to_multiset() == activities@.to_multiset()
                &&& sorted_le(sorted)
                &&& #[trigger] chunked(sorted, batch_size as int, r@)
            },
{
    let sorted = sort_by_le(activities);
    let n = sorted.len();
    let ghost s = sorted@;
    let ghost bs = batch_size as int;
    let mut batches: Vec<Vec<A>> = Vec::new();
    let mut start: usize = 0;
    proof {
        assert(0int * bs == 0) by (nonlinear_arith);
        if n == 0 {
            assert((0 + bs - 1) / bs == 0) by (nonlinear_arith)
                requires
                    bs > 0,
            ;
        }
    }
    while start < n
        invariant
            batch_size > 0,
            bs == batch_size as int,
            n == s.len(),
            s == sorted@,
            start <= n,
            start < n ==> start as int == batches@.len() * bs,
            start == n ==> batches@.len() == (n + bs - 1) / bs,
            forall|b: int|
                0 <= b < batches@.len() ==> (#[trigger] batches@[b])@ =~= s.subrange(
                    b * bs,
                    if (b + 1) * bs <= s.len() {
                        (b + 1) * bs
                    } else {
                        s.len() as int
                    },
                ),
        decreases n - start,
    {
        let end: usize = if n - start >= batch_size {
            start + batch_size
        } else {
            n
        };
        let mut batch: Vec<A> = Vec::new();
        let mut k: usize = start;
        while k < end
            invariant
                start <= k <= end <= n,
                n == s.len(),
                s == sorted@,
                batch@ =~= s.subrange(start as int, k as int),
            decreases end - k,
        {
            batch.push(sorted[k]);
            proof {
                assert(batch@ =~= s.subrange(start as int, k + 1));
            }
            k = k + 1;
        }
        let ghost nb = batches@.len() as int;
        batches.push(batch);
        proof {
            assert(nb * bs == start as int);
            assert((nb + 1) * bs == nb * bs + bs) by (nonlinear_arith);
            // the new batch is exactly window nb of the sorted sequence
            assert((batches@[nb])@ =~= s.subrange(
                nb * bs,
                if (nb + 1) * bs <= s.len() {
                    (nb + 1) * bs
                } else {
                    s.len() as int
                },
            ));
            if end < n {
                assert(end as int == (nb + 1) * bs);
            } else {
                // the final window: the count comes out as the rounded-up quotient
                assert(batches@.len() == (n as int + bs - 1) / bs) by (nonlinear_arith)
                    requires
                        bs > 0,
                        nb * bs == start as int,
                        start < n <= nb * bs + bs,
                        batches@.len() == nb + 1,
                ;
            }
        }
        start = end;
    }
    proof {
        if n == 0 {
            assert(batches@.len() == 0);
            assert((0 + bs - 1) / bs == 0) by (nonlinear_arith)
                requires
                    bs > 0,
            ;
        }
        assert(chunked(s, bs, batches@));
    }
    batches
}

/// Law: batch splitting is deterministic. Any two sorted arrangements of
/// the same elements are the same sequence, so any two batchings of inputs
/// that hold the same elements — in whatever order — are identical.
pub proof fn lemma_split_to_batches_deterministic<A: SplitOrd>(
    sorted1: Seq<A>,
    sorted2: Seq<A>,
    batches1: Seq<Vec<A>>,
    batches2: Seq<Vec<A>>,
    batch_size: int,
)
    requires
        batch_size > 0,
        sorted1.to_multiset() == sorted2.to_multiset(),
        sorted_le(sorted1),
        sorted_le(sorted2),
        chunked(sorted1, batch_size, batches1),
        chunked(sorted2, batch_size, batches2),
    ensures
        batches1.len() == batches2.len(),
        forall|b: int| 0 <= b < batches1.len() ==> (#[trigger] batches1[b])@ == batches2[b]@,
{
    let leq = |a: A, b: A| a.le_spec(b);
    A::lemma_le_total_ordering();
    assert(vstd::relations::sorted_by(sorted1, leq));
    assert(vstd::relations::sorted_by(sorted2, leq));
    lemma_sorted_unique(sorted1, sorted2, leq);
    assert(sorted1 =~= sorted2);
    assert forall|b: int| 0 <= b < batches1.len() implies (#[trigger] batches1[b])@ == batches2[b]@
        by {
        assert(batches1[b]@ =~= batches2[b]@);
    }
}

/// A value that contributes a 32-byte leaf to a Merkle commitment.
pub trait Hashable: Sized {
    /// The leaf digest of this value.
    spec fn hash_spec(self) -> Seq<u8>;

    /// Computes the leaf digest.
    fn hash(&self) -> (r: Vec<u8>)
        ensures
            r@ == self.hash_spec(),
            r@.len() == 32,
    ;
}

/// The root committed for a list of leaf hashes: the Merkle mountain range
/// root for a non-empty list, the defined zero hash for an empty one.
pub open spec fn merkle_root_spec(leaves: Seq<Seq<u8>>) -> Seq<u8> {
    if leaves.len() == 0 {
        zero_hash()
    } else {
        mmr_root_of(leaves)
    }
}

/// Creates the Merkle root over a list of leaf hashes; an empty list yields
/// the defined zero hash rather than an error.
pub fn create_merkle_root(leaves: &Vec<Vec<u8>>) -> (r: Vec<u8>)
    requires
        forall|i: int| 0 <= i < leaves@.len() ==> (#[trigger] leaves@[i])@.len() == 32,
    ensures
        r@ == merkle_root_spec(leaves.deep_view()),
        r@.len() == 32,
{
    proof {
        assert(leaves.deep_view().len() == leaves@.len());
    }
    if leaves.len() == 0 {
        let mut zero: Vec<u8> = Vec::new();
        let mut i: usize = 0;
        while i < 32
            invariant
                i <= 32,
                zero@ =~= Seq::new(i as nat, |k: int| 0u8),
            decreases 32 - i,
        {
            zero.push(0u8);
            proof {
                assert(zero@ =~= Seq::new(i as nat + 1, |k: int| 0u8));
            }
            i = i + 1;
        }
        proof {
            assert(zero@ =~= zero_hash());
        }
        zero
    } else {
        proof {
            assert forall|i: int| 0 <= i < leaves@.len() implies leaves.deep_view()[i].len() == 32
                by {
                assert(leaves.deep_view()[i] == (leaves@[i])@);
            }
        }
        mmr_root(leaves)
    }
}

/// The digests of a batch's members, in batch order.
pub open spec fn batch_leaf_hashes<A: Hashable>(batch: Seq<A>) -> Seq<Seq<u8>> {
    batch.map_values(|a: A| a.hash_spec())
}

/// Converts each batch into its Merkle root: the members are hashed and the
/// hashes committed under one root per batch.
pub fn convert_to_batch_merkle_roots<A: Hashable>(batches: &Vec<Vec<A>>) -> (r: Vec<Vec<u8>>)
    ensures
        r@.len() == batches@.len(),
        forall|b: int|
            0 <= b < batches@.len() ==> (#[trigger] r@[b])@ == merkle_root_spec(
                batch_leaf_hashes((batches@[b])@),
            ) && (r@[b])@.len() == 32,
{
    let mut roots: Vec<Vec<u8>> = Vec::new();
    let mut b: usize = 0;
    while b < batches.len()
        invariant
            b <= batches@.len(),
            roots@.len() == b,
            forall|k: int|
                0 <= k < b ==> (#[trigger] roots@[k])@ == merkle_root_spec(
                    batch_leaf_hashes((batches@[k])@),
                ) && (roots@[k])@.len() == 32,
        decreases batches@.len() - b,
    {
        let batch = &batches[b];
        let mut hashes: Vec<Vec<u8>> = Vec::new();
        let mut k: usize = 0;
        while k < batch.len()
            invariant
                k <= batch@.len(),
                hashes@.len() == k,
                forall|i: int|
                    0 <= i < k ==> (#[trigger] hashes@[i])@ == batch@[i].hash_spec() && (
                    hashes@[i])@.len() == 32,
            decreases batch@.len() - k,
        {
            hashes.push(batch[k].hash());
            k = k + 1;
        }
        proof {
            assert(hashes.deep_view() =~~= batch_leaf_hashes(batch@));
        }
        let root = create_merkle_root(&hashes);
        roots.push(root);
        b = b + 1;
    }
    roots
}

} // verus!
