//! Payable usage: the final billable or rewardable quantity per bucket and
//! node for an era — prior on-ledger stored usage merged with the verified
//! per-era delta — with the canonical hashing and ordering that the Merkle
//! batching engine relies on.

use vstd::bytes::{spec_u64_to_le_bytes, u64_to_le_bytes};
use vstd::prelude::*;
use vstd::relations::total_ordering;

use crate::merkle::{blake2s, blake2s_of, Hashable, SplitOrd};
use crate::primitives::{
    BucketId, BucketStorageUsage, BucketUsage, NodePubKey, NodeStorageUsage, NodeUsage,
    StorageNodePubKey,
};

verus! {

/// The bit pattern of a signed 64-bit count, as an unsigned word.
pub open spec fn i64_bits(x: i64) -> u64 {
    if x >= 0 {
        x as u64
    } else {
        (x + 0x1_0000_0000_0000_0000int) as u64
    }
}

/// Reinterprets a signed count as its unsigned bit pattern.
pub fn i64_to_bits(x: i64) -> (r: u64)
    ensures
        r == i64_bits(x),
{
    if x >= 0 {
        x as u64
    } else {
        let offset: i64 = -(x + 1);
        u64::MAX - (offset as u64)
    }
}

/// The four words of a node key, in order.
pub open spec fn node_key_words(k: NodePubKey) -> (u64, u64, u64, u64) {
    match k {
        NodePubKey::StoragePubKey(s) => (s.w0, s.w1, s.w2, s.w3),
    }
}

/// Canonical byte encoding of a node key: its four words, little-endian.
pub open spec fn node_key_bytes(k: NodePubKey) -> Seq<u8> {
    let w = node_key_words(k);
    spec_u64_to_le_bytes(w.0) + spec_u64_to_le_bytes(w.1) + spec_u64_to_le_bytes(w.2)
        + spec_u64_to_le_bytes(w.3)
}

/// Appends the canonical encoding of a node key.
pub fn push_node_key_bytes(out: &mut Vec<u8>, k: &NodePubKey)
    ensures
        final(out)@ == old(out)@ + node_key_bytes(*k),
{
    match k {
        NodePubKey::StoragePubKey(s) => {
            push_u64_le(out, s.w0);
            push_u64_le(out, s.w1);
            push_u64_le(out, s.w2);
            push_u64_le(out, s.w3);
            proof {
                assert(out@ =~= old(out)@ + node_key_bytes(*k));
            }
        },
    }
}

/// Appends the little-endian bytes of a word.
pub fn push_u64_le(out: &mut Vec<u8>, x: u64)
    ensures
        final(out)@ == old(out)@ + spec_u64_to_le_bytes(x),
{
    let bytes = u64_to_le_bytes(x);
    let mut i: usize = 0;
    while i < bytes.len()
        invariant
            i <= bytes@.len(),
            bytes@ == spec_u64_to_le_bytes(x),
            bytes@.len() == 8,
            out@ == old(out)@ + bytes@.take(i as int),
        decreases bytes@.len() - i,
    {
        let b = bytes[i];
        out.push(b);
        proof {
            assert(out@ =~= old(out)@ + bytes@.take(i + 1));
        }
        i = i + 1;
    }
    proof {
        assert(bytes@.take(8) =~= bytes@);
    }
}

/// The lowercase hex character of a nibble.
pub open spec fn hex_char(n: int) -> char {
    if n == 0 {
        '0'
    } else if n == 1 {
        '1'
    } else if n == 2 {
        '2'
    } else if n == 3 {
        '3'
    } else if n == 4 {
        '4'
    } else if n == 5 {
        '5'
    } else if n == 6 {
        '6'
    } else if n == 7 {
        '7'
    } else if n == 8 {
        '8'
    } else if n == 9 {
        '9'
    } else if n == 10 {
        'a'
    } else if n == 11 {
        'b'
    } else if n == 12 {
        'c'
    } else if n == 13 {
        'd'
    } else if n == 14 {
        'e'
    } else {
        'f'
    }
}

/// The lowercase hex rendering of a byte string: two characters per byte,
/// high nibble first.
pub open spec fn hex_chars_of(bytes: Seq<u8>) -> Seq<char>
    decreases bytes.len(),
{
    if bytes.len() == 0 {
        Seq::empty()
    } else {
        hex_chars_of(bytes.drop_last()) + seq![
            hex_char(bytes.last() as int / 16),
            hex_char(bytes.last() as int % 16),
        ]
    }
}

/// Relies on `hex::encode`: the lowercase hex rendering of the input
/// bytes, two characters per byte, high nibble first.
#[verifier::external_body]
pub fn hex_of_bytes(bytes: &Vec<u8>) -> (r: String)
    ensures
        r@ == hex_chars_of(bytes@),
{
    hex::encode(bytes.as_slice())
}

/// The value of an ASCII hex digit, if the byte is one.
pub open spec fn hex_digit_value(c: u8) -> Option<u8> {
    if 0x30 <= c <= 0x39 {
        Some((c - 0x30) as u8)
    } else if 0x61 <= c <= 0x66 {
        Some((c - 0x61 + 10) as u8)
    } else if 0x41 <= c <= 0x46 {
        Some((c - 0x41 + 10) as u8)
    } else {
        None
    }
}

/// Reads the value of an ASCII hex digit.
pub fn read_hex_digit(c: u8) -> (r: Option<u8>)
    ensures
        r == hex_digit_value(c),
{
    if 0x30 <= c && c <= 0x39 {
        Some(c - 0x30)
    } else if 0x61 <= c && c <= 0x66 {
        Some(c - 0x61 + 10)
    } else if 0x41 <= c && c <= 0x46 {
        Some(c - 0x41 + 10)
    } else {
        None
    }
}

/// The bytes an ASCII hex string decodes to, when every character is a
/// hex digit and their number is even.
pub open spec fn hex_decoded(s: Seq<u8>) -> Option<Seq<u8>>
    decreases s.len(),
{
    if s.len() % 2 != 0 {
        None
    } else if s.len() == 0 {
        Some(Seq::empty())
    } else {
        match (hex_decoded(s.drop_last().drop_last()), hex_digit_value(s[s.len() - 2]), hex_digit_value(s.last())) {
            (Some(front), Some(hi), Some(lo)) => Some(front.push((hi * 16 + lo) as u8)),
            _ => None,
        }
    }
}

/// Decodes an ASCII hex string into bytes; a stray character or an odd
/// length is an error.
pub fn decode_hex(s: &Vec<u8>) -> (r: Result<Vec<u8>, ()>)
    ensures
        r is Ok <==> hex_decoded(s@) is Some,
        r is Ok ==> Some(r->Ok_0@) == hex_decoded(s@),
{
    if s.len() % 2 != 0 {
        return Err(());
    }
    let mut out: Vec<u8> = Vec::new();
    let mut i: usize = 0;
    while i < s.len()
        invariant
            i <= s@.len(),
            i % 2 == 0,
            s@.len() % 2 == 0,
            Some(out@) == hex_decoded(s@.take(i as int)),
        decreases s@.len() - i,
    {
        let hi = match read_hex_digit(s[i]) {
            Some(hi) => hi,
            None => {
                proof {
                    lemma_hex_decoded_prefix_none(s@, i as int);
                }
                return Err(());
            },
        };
        let lo = match read_hex_digit(s[i + 1]) {
            Some(lo) => lo,
            None => {
                proof {
                    lemma_hex_decoded_prefix_none(s@, i + 1);
                }
                return Err(());
            },
        };
        out.push(hi * 16 + lo);
        proof {
            assert(s@.take(i + 2).drop_last() =~= s@.take(i + 1));
            assert(s@.take(i + 1).drop_last() =~= s@.take(i as int));
            assert(s@.take(i + 2).drop_last().drop_last() =~= s@.take(i as int));
            assert(s@.take(i + 2)[i + 1] == s@[i + 1] && s@.take(i + 2)[i as int] == s@[i as int]);
        }
        i = i + 2;
    }
    proof {
        assert(s@.take(s@.len() as int) =~= s@);
    }
    Ok(out)
}

/// If a hex digit at position `bad` of an even-length string is invalid,
/// the whole string does not decode.
proof fn lemma_hex_decoded_prefix_none(s: Seq<u8>, bad: int)
    requires
        0 <= bad < s.len(),
        s.len() % 2 == 0,
        hex_digit_value(s[bad]) is None,
    ensures
        hex_decoded(s) is None,
    decreases s.len(),
{
    if s.len() > 0 {
        if bad < s.len() - 2 {
            assert(s.drop_last().drop_last()[bad] == s[bad]);
            lemma_hex_decoded_prefix_none(s.drop_last().drop_last(), bad);
        }
    }
}

impl NodePubKey {
    /// The lowercase hex rendering of this key's canonical bytes.
    pub fn get_hex(&self) -> (r: String)
        ensures
            r@ == hex_chars_of(node_key_bytes(*self)),
    {
        let mut bytes: Vec<u8> = Vec::new();
        push_node_key_bytes(&mut bytes, self);
        hex_of_bytes(&bytes)
    }
}

/// Parses a node key from the ASCII hex string an aggregator reports,
/// with or without the usual two-character prefix before the sixty-four
/// hex digits of the key.
pub fn node_key_from_hex(hex_str: &Vec<u8>) -> (r: Result<NodePubKey, ()>)
    ensures
        ({
            let digits = if hex_str@.len() == 66 {
                hex_str@.skip(2)
            } else {
                hex_str@
            };
            &&& (r is Ok <==> hex_decoded(digits) is Some && hex_decoded(digits)->Some_0.len()
                == 32)
            &&& (r is Ok ==> node_key_bytes(r->Ok_0) == hex_decoded(digits)->Some_0)
        }),
{
    let digits: Vec<u8> = if hex_str.len() == 66 {
        let mut rest: Vec<u8> = Vec::new();
        let mut i: usize = 2;
        while i < hex_str.len()
            invariant
                2 <= i <= hex_str@.len(),
                hex_str@.len() == 66,
                rest@ =~= hex_str@.subrange(2, i as int),
            decreases hex_str@.len() - i,
        {
            rest.push(hex_str[i]);
            proof {
                assert(rest@ =~= hex_str@.subrange(2, i + 1));
            }
            i = i + 1;
        }
        proof {
            assert(rest@ =~= hex_str@.skip(2));
        }
        rest
    } else {
        crate::eras::clone_bytes(hex_str)
    };
    let bytes = match decode_hex(&digits) {
        Ok(bytes) => bytes,
        Err(_) => {
            return Err(());
        },
    };
    if bytes.len() != 32 {
        return Err(());
    }
    let mut words: Vec<u64> = Vec::new();
    let mut w: usize = 0;
    while w < 4
        invariant
            w <= 4,
            bytes@.len() == 32,
            words@.len() == w,
            forall|k: int|
                0 <= k < w ==> vstd::bytes::spec_u64_to_le_bytes(#[trigger] words@[k])
                    == bytes@.subrange(8 * k, 8 * k + 8),
        decreases 4 - w,
    {
        let chunk = vstd::slice::slice_subrange(bytes.as_slice(), w * 8, w * 8 + 8);
        let word = vstd::bytes::u64_from_le_bytes(chunk);
        proof {
            vstd::bytes::lemma_auto_spec_u64_to_from_le_bytes();
        }
        words.push(word);
        w = w + 1;
    }
    let key = NodePubKey::StoragePubKey(
        StorageNodePubKey { w0: words[0], w1: words[1], w2: words[2], w3: words[3] },
    );
    proof {
        assert(node_key_bytes(key) =~= bytes@.subrange(0, 8) + bytes@.subrange(8, 16)
            + bytes@.subrange(16, 24) + bytes@.subrange(24, 32));
        assert(node_key_bytes(key) =~= bytes@);
    }
    Ok(key)
}

/// Whether the strict part of the first differing component orders `a`
/// before `b`; equal keys compare by every later component in turn.
pub open spec fn usage_le(
    at: u64,
    as_: i64,
    ap: u64,
    ag: u64,
    bt: u64,
    bs: i64,
    bp: u64,
    bg: u64,
) -> bool {
    if at != bt {
        at < bt
    } else if as_ != bs {
        as_ < bs
    } else if ap != bp {
        ap < bp
    } else {
        ag <= bg
    }
}

/// Whether node key `a` comes no later than node key `b` in word order.
pub open spec fn node_key_le(a: NodePubKey, b: NodePubKey) -> bool {
    let x = node_key_words(a);
    let y = node_key_words(b);
    if x.0 != y.0 {
        x.0 < y.0
    } else if x.1 != y.1 {
        x.1 < y.1
    } else if x.2 != y.2 {
        x.2 < y.2
    } else {
        x.3 <= y.3
    }
}

/// Decides the node-key order.
pub fn node_key_le_exec(a: &NodePubKey, b: &NodePubKey) -> (r: bool)
    ensures
        r == node_key_le(*a, *b),
{
    let NodePubKey::StoragePubKey(x) = a;
    let NodePubKey::StoragePubKey(y) = b;
    if x.w0 != y.w0 {
        x.w0 < y.w0
    } else if x.w1 != y.w1 {
        x.w1 < y.w1
    } else if x.w2 != y.w2 {
        x.w2 < y.w2
    } else {
        x.w3 <= y.w3
    }
}

/// Payable usage of one bucket: the bucket and the overall usage its owner
/// is charged for this era.
#[derive(PartialEq, Eq, Structural, Clone, Copy, Debug)]
pub struct BucketPayableUsage {
    pub bucket_id: BucketId,
    pub usage: BucketUsage,
}

/// Payable usage of one node: the node and the overall usage its provider
/// is rewarded for this era.
#[derive(PartialEq, Eq, Structural, Clone, Copy, Debug)]
pub struct NodePayableUsage {
    pub node_key: NodePubKey,
    pub usage: NodeUsage,
}

/// Canonical byte encoding of a bucket's payable usage.
pub open spec fn bucket_payable_bytes(p: BucketPayableUsage) -> Seq<u8> {
    spec_u64_to_le_bytes(p.bucket_id) + spec_u64_to_le_bytes(i64_bits(p.usage.stored_bytes))
        + spec_u64_to_le_bytes(p.usage.transferred_bytes) + spec_u64_to_le_bytes(
        p.usage.number_of_puts,
    ) + spec_u64_to_le_bytes(p.usage.number_of_gets)
}

/// Canonical byte encoding of a node's payable usage.
pub open spec fn node_payable_bytes(p: NodePayableUsage) -> Seq<u8> {
    node_key_bytes(p.node_key) + spec_u64_to_le_bytes(i64_bits(p.usage.stored_bytes))
        + spec_u64_to_le_bytes(p.usage.transferred_bytes) + spec_u64_to_le_bytes(
        p.usage.number_of_puts,
    ) + spec_u64_to_le_bytes(p.usage.number_of_gets)
}

impl Hashable for BucketPayableUsage {
    open spec fn hash_spec(self) -> Seq<u8> {
        blake2s_of(bucket_payable_bytes(self))
    }

    fn hash(&self) -> (r: Vec<u8>) {
        let mut data: Vec<u8> = Vec::new();
        push_u64_le(&mut data, self.bucket_id);
        push_u64_le(&mut data, i64_to_bits(self.usage.stored_bytes));
        push_u64_le(&mut data, self.usage.transferred_bytes);
        push_u64_le(&mut data, self.usage.number_of_puts);
        push_u64_le(&mut data, self.usage.number_of_gets);
        proof {
            assert(data@ =~= bucket_payable_bytes(*self));
        }
        blake2s(&data)
    }
}

impl Hashable for NodePayableUsage {
    open spec fn hash_spec(self) -> Seq<u8> {
        blake2s_of(node_payable_bytes(self))
    }

    fn hash(&self) -> (r: Vec<u8>) {
        let mut data: Vec<u8> = Vec::new();
        push_node_key_bytes(&mut data, &self.node_key);
        push_u64_le(&mut data, i64_to_bits(self.usage.stored_bytes));
        push_u64_le(&mut data, self.usage.transferred_bytes);
        push_u64_le(&mut data, self.usage.number_of_puts);
        push_u64_le(&mut data, self.usage.number_of_gets);
        proof {
            assert(data@ =~= node_payable_bytes(*self));
        }
        blake2s(&data)
    }
}

impl SplitOrd for BucketPayableUsage {
    open spec fn le_spec(self, other: Self) -> bool {
        if self.bucket_id != other.bucket_id {
            self.bucket_id < other.bucket_id
        } else {
            usage_le(
                self.usage.transferred_bytes,
                self.usage.stored_bytes,
                self.usage.number_of_puts,
                self.usage.number_of_gets,
                other.usage.transferred_bytes,
                other.usage.stored_bytes,
                other.usage.number_of_puts,
                other.usage.number_of_gets,
            )
        }
    }

    proof fn lemma_le_total_ordering() {
    }

    fn le_exec(&self, other: &Self) -> (r: bool) {
        if self.bucket_id != other.bucket_id {
            self.bucket_id < other.bucket_id
        } else if self.usage.transferred_bytes != other.usage.transferred_bytes {
            self.usage.transferred_bytes < other.usage.transferred_bytes
        } else if self.usage.stored_bytes != other.usage.stored_bytes {
            self.usage.stored_bytes < other.usage.stored_bytes
        } else if self.usage.number_of_puts != other.usage.number_of_puts {
            self.usage.number_of_puts < other.usage.number_of_puts
        } else {
            self.usage.number_of_gets <= other.usage.number_of_gets
        }
    }
}

impl SplitOrd for NodePayableUsage {
    open spec fn le_spec(self, other: Self) -> bool {
        if self.node_key != other.node_key {
            !node_key_le(other.node_key, self.node_key)
        } else {
            usage_le(
                self.usage.transferred_bytes,
                self.usage.stored_bytes,
                self.usage.number_of_puts,
                self.usage.number_of_gets,
                other.usage.transferred_bytes,
                other.usage.stored_bytes,
                other.usage.number_of_puts,
                other.usage.number_of_gets,
            )
        }
    }

    proof fn lemma_le_total_ordering() {
    }

    fn le_exec(&self, other: &Self) -> (r: bool) {
        let self_key_eq: bool = {
            let NodePubKey::StoragePubKey(x) = &self.node_key;
            let NodePubKey::StoragePubKey(y) = &other.node_key;
            x.w0 == y.w0 && x.w1 == y.w1 && x.w2 == y.w2 && x.w3 == y.w3
        };
        if !self_key_eq {
            !node_key_le_exec(&other.node_key, &self.node_key)
        } else if self.usage.transferred_bytes != other.usage.transferred_bytes {
            self.usage.transferred_bytes < other.usage.transferred_bytes
        } else if self.usage.stored_bytes != other.usage.stored_bytes {
            self.usage.stored_bytes < other.usage.stored_bytes
        } else if self.usage.number_of_puts != other.usage.number_of_puts {
            self.usage.number_of_puts < other.usage.number_of_puts
        } else {
            self.usage.number_of_gets <= other.usage.number_of_gets
        }
    }
}

/// Whether some delta reports activity for the bucket.
pub open spec fn has_bucket_delta(
    deltas: Seq<crate::aggregates::BucketSubAggregate>,
    id: BucketId,
) -> bool {
    exists|i: int| 0 <= i < deltas.len() && (#[trigger] deltas[i]).bucket_id == id
}

/// The delta reported for the bucket (unique when ids are unique).
pub open spec fn bucket_delta_at(
    deltas: Seq<crate::aggregates::BucketSubAggregate>,
    id: BucketId,
) -> crate::aggregates::BucketSubAggregate {
    deltas[choose|i: int| 0 <= i < deltas.len() && (#[trigger] deltas[i]).bucket_id == id]
}

/// Whether the ledger snapshot holds the bucket.
pub open spec fn has_bucket_current(current: Seq<BucketStorageUsage>, id: BucketId) -> bool {
    exists|i: int| 0 <= i < current.len() && (#[trigger] current[i]).bucket_id == id
}

/// Payable usage of a bucket present in the ledger snapshot: flow
/// quantities come from this era's delta (zero without one), stored bytes
/// are the running balance plus the delta's contribution.
pub open spec fn merged_bucket_payable(
    cur: BucketStorageUsage,
    delta: Option<crate::aggregates::BucketSubAggregate>,
) -> BucketPayableUsage {
    match delta {
        Some(d) => BucketPayableUsage {
            bucket_id: cur.bucket_id,
            usage: BucketUsage {
                transferred_bytes: d.transferred_bytes,
                stored_bytes: sat_add_i64_spec(cur.stored_bytes as int, d.stored_bytes as int) as i64,
                number_of_puts: d.number_of_puts,
                number_of_gets: d.number_of_gets,
            },
        },
        None => BucketPayableUsage {
            bucket_id: cur.bucket_id,
            usage: BucketUsage {
                transferred_bytes: 0,
                stored_bytes: cur.stored_bytes,
                number_of_puts: 0,
                number_of_gets: 0,
            },
        },
    }
}

/// Payable usage of a bucket that only this era's delta knows: the delta
/// as-is.
pub open spec fn delta_only_bucket_payable(
    d: crate::aggregates::BucketSubAggregate,
) -> BucketPayableUsage {
    BucketPayableUsage {
        bucket_id: d.bucket_id,
        usage: BucketUsage {
            transferred_bytes: d.transferred_bytes,
            stored_bytes: d.stored_bytes,
            number_of_puts: d.number_of_puts,
            number_of_gets: d.number_of_gets,
        },
    }
}

/// The payable usage of the buckets that appear only in the delta set, in
/// delta order.
pub open spec fn delta_only_bucket_payables(
    deltas: Seq<crate::aggregates::BucketSubAggregate>,
    current: Seq<BucketStorageUsage>,
) -> Seq<BucketPayableUsage>
    decreases deltas.len(),
{
    if deltas.len() == 0 {
        Seq::empty()
    } else {
        delta_only_bucket_payables(deltas.drop_last(), current) + if !has_bucket_current(
            current,
            deltas.last().bucket_id,
        ) {
            seq![delta_only_bucket_payable(deltas.last())]
        } else {
            Seq::empty()
        }
    }
}

/// Merges this era's verified bucket deltas with the ledger's stored-usage
/// snapshot into the final billable usage per bucket: buckets in both get
/// the sum rule, snapshot-only buckets keep their balance with zero flow,
/// and delta-only buckets are billed for the delta as-is. No bucket of
/// either input is dropped.
pub fn calculate_buckets_payable_usage(
    current: &Vec<BucketStorageUsage>,
    deltas: &Vec<crate::aggregates::BucketSubAggregate>,
) -> (r: Vec<BucketPayableUsage>)
    requires
        forall|i: int, j: int|
            0 <= i < j < current@.len() ==> (#[trigger] current@[i]).bucket_id != (
            #[trigger] current@[j]).bucket_id,
        forall|i: int, j: int|
            0 <= i < j < deltas@.len() ==> (#[trigger] deltas@[i]).bucket_id != (
            #[trigger] deltas@[j]).bucket_id,
    ensures
        r@.len() >= current@.len(),
        forall|i: int|
            0 <= i < current@.len() ==> r@[i] == merged_bucket_payable(
                #[trigger] current@[i],
                if has_bucket_delta(deltas@, current@[i].bucket_id) {
                    Some(bucket_delta_at(deltas@, current@[i].bucket_id))
                } else {
                    None
                },
            ),
        r@.skip(current@.len() as int) == delta_only_bucket_payables(deltas@, current@),
{
    let mut result: Vec<BucketPayableUsage> = Vec::new();
    let mut i: usize = 0;
    while i < current.len()
        invariant
            i <= current@.len(),
            result@.len() == i,
            forall|k: int, j: int|
                0 <= k < j < deltas@.len() ==> (#[trigger] deltas@[k]).bucket_id != (
                #[trigger] deltas@[j]).bucket_id,
            forall|k: int|
                0 <= k < i ==> result@[k] == merged_bucket_payable(
                    #[trigger] current@[k],
                    if has_bucket_delta(deltas@, current@[k].bucket_id) {
                        Some(bucket_delta_at(deltas@, current@[k].bucket_id))
                    } else {
                        None
                    },
                ),
        decreases current@.len() - i,
    {
        let cur = current[i];
        let mut j: usize = 0;
        let mut found: Option<usize> = None;
        while j < deltas.len() && found.is_none()
            invariant
                j <= deltas@.len(),
                found is Some ==> found->Some_0 < deltas@.len() && (deltas@[found->Some_0 as int]).bucket_id
                    == cur.bucket_id,
                found is None ==> forall|k: int|
                    0 <= k < j ==> (#[trigger] deltas@[k]).bucket_id != cur.bucket_id,
            decreases deltas@.len() - j + if found is Some {
                0int
            } else {
                1int
            },
        {
            if deltas[j].bucket_id == cur.bucket_id {
                found = Some(j);
            } else {
                j = j + 1;
            }
        }
        match found {
            Some(j) => {
                let d = deltas[j];
                let payable = BucketPayableUsage {
                    bucket_id: cur.bucket_id,
                    usage: BucketUsage {
                        transferred_bytes: d.transferred_bytes,
                        stored_bytes: sat_add_i64(cur.stored_bytes, d.stored_bytes),
                        number_of_puts: d.number_of_puts,
                        number_of_gets: d.number_of_gets,
                    },
                };
                result.push(payable);
                proof {
                    let w = choose|k: int|
                        0 <= k < deltas@.len() && (#[trigger] deltas@[k]).bucket_id
                            == cur.bucket_id;
                    assert(w == j);
                }
            },
            None => {
                let payable = BucketPayableUsage {
                    bucket_id: cur.bucket_id,
                    usage: BucketUsage {
                        transferred_bytes: 0,
                        stored_bytes: cur.stored_bytes,
                        number_of_puts: 0,
                        number_of_gets: 0,
                    },
                };
                result.push(payable);
            },
        }
        i = i + 1;
    }
    let ghost merged_part = result@;
    let mut d: usize = 0;
    while d < deltas.len()
        invariant
            d <= deltas@.len(),
            result@ == merged_part + delta_only_bucket_payables(
                deltas@.take(d as int),
                current@,
            ),
        decreases deltas@.len() - d,
    {
        let delta = deltas[d];
        let mut c: usize = 0;
        let mut in_current: bool = false;
        while c < current.len() && !in_current
            invariant
                c <= current@.len(),
                in_current ==> has_bucket_current(current@, delta.bucket_id),
                !in_current ==> forall|k: int|
                    0 <= k < c ==> (#[trigger] current@[k]).bucket_id != delta.bucket_id,
            decreases current@.len() - c + if in_current {
                0int
            } else {
                1int
            },
        {
            if current[c].bucket_id == delta.bucket_id {
                in_current = true;
            } else {
                c = c + 1;
            }
        }
        proof {
            assert(deltas@.take(d + 1).drop_last() =~= deltas@.take(d as int));
            assert(deltas@.take(d + 1).last() == deltas@[d as int]);
        }
        if !in_current {
            result.push(
                BucketPayableUsage {
                    bucket_id: delta.bucket_id,
                    usage: BucketUsage {
                        transferred_bytes: delta.transferred_bytes,
                        stored_bytes: delta.stored_bytes,
                        number_of_puts: delta.number_of_puts,
                        number_of_gets: delta.number_of_gets,
                    },
                },
            );
            proof {
                assert(result@ =~= merged_part + delta_only_bucket_payables(
                    deltas@.take(d + 1),
                    current@,
                ));
            }
        } else {
            proof {
                assert(result@ =~= merged_part + delta_only_bucket_payables(
                    deltas@.take(d + 1),
                    current@,
                ));
            }
        }
        d = d + 1;
    }
    proof {
        assert(deltas@.take(deltas@.len() as int) =~= deltas@);
        assert(result@.skip(current@.len() as int) =~= delta_only_bucket_payables(
            deltas@,
            current@,
        ));
    }
    result
}

/// Whether some delta reports activity for the node.
pub open spec fn has_node_delta(
    deltas: Seq<crate::aggregates::NodeAggregate>,
    key: NodePubKey,
) -> bool {
    exists|i: int| 0 <= i < deltas.len() && (#[trigger] deltas[i]).node_id == key
}

/// The delta reported for the node (unique when keys are unique).
pub open spec fn node_delta_at(
    deltas: Seq<crate::aggregates::NodeAggregate>,
    key: NodePubKey,
) -> crate::aggregates::NodeAggregate {
    deltas[choose|i: int| 0 <= i < deltas.len() && (#[trigger] deltas[i]).node_id == key]
}

/// Whether the ledger snapshot holds the node.
pub open spec fn has_node_current(current: Seq<NodeStorageUsage>, key: NodePubKey) -> bool {
    exists|i: int| 0 <= i < current.len() && (#[trigger] current[i]).node_key == key
}

/// Payable usage of a node present in the ledger snapshot: flow
/// quantities come from this era's delta (zero without one), stored bytes
/// are the running balance plus the delta's contribution.
pub open spec fn merged_node_payable(
    cur: NodeStorageUsage,
    delta: Option<crate::aggregates::NodeAggregate>,
) -> NodePayableUsage {
    match delta {
        Some(d) => NodePayableUsage {
            node_key: cur.node_key,
            usage: NodeUsage {
                transferred_bytes: d.transferred_bytes,
                stored_bytes: sat_add_i64_spec(cur.stored_bytes as int, d.stored_bytes as int) as i64,
                number_of_puts: d.number_of_puts,
                number_of_gets: d.number_of_gets,
            },
        },
        None => NodePayableUsage {
            node_key: cur.node_key,
            usage: NodeUsage {
                transferred_bytes: 0,
                stored_bytes: cur.stored_bytes,
                number_of_puts: 0,
                number_of_gets: 0,
            },
        },
    }
}

/// Payable usage of a node that only this era's delta knows: the delta
/// as-is.
pub open spec fn delta_only_node_payable(d: crate::aggregates::NodeAggregate) -> NodePayableUsage {
    NodePayableUsage {
        node_key: d.node_id,
        usage: NodeUsage {
            transferred_bytes: d.transferred_bytes,
            stored_bytes: d.stored_bytes,
            number_of_puts: d.number_of_puts,
            number_of_gets: d.number_of_gets,
        },
    }
}

/// The payable usage of the nodes that appear only in the delta set, in
/// delta order.
pub open spec fn delta_only_node_payables(
    deltas: Seq<crate::aggregates::NodeAggregate>,
    current: Seq<NodeStorageUsage>,
) -> Seq<NodePayableUsage>
    decreases deltas.len(),
{
    if deltas.len() == 0 {
        Seq::empty()
    } else {
        delta_only_node_payables(deltas.drop_last(), current) + if !has_node_current(
            current,
            deltas.last().node_id,
        ) {
            seq![delta_only_node_payable(deltas.last())]
        } else {
            Seq::empty()
        }
    }
}

/// Merges this era's verified node deltas with the ledger's stored-usage
/// snapshot into the final rewardable usage per node: nodes in both get
/// the sum rule, snapshot-only nodes keep their balance with zero flow,
/// and delta-only nodes are rewarded for the delta as-is. No node of
/// either input is dropped.
pub fn calculate_nodes_payable_usage(
    current: &Vec<NodeStorageUsage>,
    deltas: &Vec<crate::aggregates::NodeAggregate>,
) -> (r: Vec<NodePayableUsage>)
    requires
        forall|i: int, j: int|
            0 <= i < j < current@.len() ==> (#[trigger] current@[i]).node_key != (
            #[trigger] current@[j]).node_key,
        forall|i: int, j: int|
            0 <= i < j < deltas@.len() ==> (#[trigger] deltas@[i]).node_id != (
            #[trigger] deltas@[j]).node_id,
    ensures
        r@.len() >= current@.len(),
        forall|i: int|
            0 <= i < current@.len() ==> r@[i] == merged_node_payable(
                #[trigger] current@[i],
                if has_node_delta(deltas@, current@[i].node_key) {
                    Some(node_delta_at(deltas@, current@[i].node_key))
                } else {
                    None
                },
            ),
        r@.skip(current@.len() as int) == delta_only_node_payables(deltas@, current@),
{
    let mut result: Vec<NodePayableUsage> = Vec::new();
    let mut i: usize = 0;
    while i < current.len()
        invariant
            i <= current@.len(),
            result@.len() == i,
            forall|k: int, j: int|
                0 <= k < j < deltas@.len() ==> (#[trigger] deltas@[k]).node_id != (
                #[trigger] deltas@[j]).node_id,
            forall|k: int|
                0 <= k < i ==> result@[k] == merged_node_payable(
                    #[trigger] current@[k],
                    if has_node_delta(deltas@, current@[k].node_key) {
                        Some(node_delta_at(deltas@, current@[k].node_key))
                    } else {
                        None
                    },
                ),
        decreases current@.len() - i,
    {
        let cur = current[i];
        let mut j: usize = 0;
        let mut found: Option<usize> = None;
        while j < deltas.len() && found.is_none()
            invariant
                j <= deltas@.len(),
                found is Some ==> found->Some_0 < deltas@.len() && (deltas@[found->Some_0 as int]).node_id
                    == cur.node_key,
                found is None ==> forall|k: int|
                    0 <= k < j ==> (#[trigger] deltas@[k]).node_id != cur.node_key,
            decreases deltas@.len() - j + if found is Some {
                0int
            } else {
                1int
            },
        {
            if crate::aggregates::node_key_eq(&deltas[j].node_id, &cur.node_key) {
                found = Some(j);
            } else {
                j = j + 1;
            }
        }
        match found {
            Some(j) => {
                let d = deltas[j];
                let payable = NodePayableUsage {
                    node_key: cur.node_key,
                    usage: NodeUsage {
                        transferred_bytes: d.transferred_bytes,
                        stored_bytes: sat_add_i64(cur.stored_bytes, d.stored_bytes),
                        number_of_puts: d.number_of_puts,
                        number_of_gets: d.number_of_gets,
                    },
                };
                result.push(payable);
                proof {
                    let w = choose|k: int|
                        0 <= k < deltas@.len() && (#[trigger] deltas@[k]).node_id == cur.node_key;
                    assert(w == j);
                }
            },
            None => {
                let payable = NodePayableUsage {
                    node_key: cur.node_key,
                    usage: NodeUsage {
                        transferred_bytes: 0,
                        stored_bytes: cur.stored_bytes,
                        number_of_puts: 0,
                        number_of_gets: 0,
                    },
                };
                result.push(payable);
            },
        }
        i = i + 1;
    }
    let ghost merged_part = result@;
    let mut d: usize = 0;
    while d < deltas.len()
        invariant
            d <= deltas@.len(),
            result@ == merged_part + delta_only_node_payables(deltas@.take(d as int), current@),
        decreases deltas@.len() - d,
    {
        let delta = deltas[d];
        let mut c: usize = 0;
        let mut in_current: bool = false;
        while c < current.len() && !in_current
            invariant
                c <= current@.len(),
                in_current ==> has_node_current(current@, delta.node_id),
                !in_current ==> forall|k: int|
                    0 <= k < c ==> (#[trigger] current@[k]).node_key != delta.node_id,
            decreases current@.len() - c + if in_current {
                0int
            } else {
                1int
            },
        {
            if crate::aggregates::node_key_eq(&current[c].node_key, &delta.node_id) {
                in_current = true;
            } else {
                c = c + 1;
            }
        }
        proof {
            assert(deltas@.take(d + 1).drop_last() =~= deltas@.take(d as int));
            assert(deltas@.take(d + 1).last() == deltas@[d as int]);
        }
        if !in_current {
            result.push(
                NodePayableUsage {
                    node_key: delta.node_id,
                    usage: NodeUsage {
                        transferred_bytes: delta.transferred_bytes,
                        stored_bytes: delta.stored_bytes,
                        number_of_puts: delta.number_of_puts,
                        number_of_gets: delta.number_of_gets,
                    },
                },
            );
            proof {
                assert(result@ =~= merged_part + delta_only_node_payables(
                    deltas@.take(d + 1),
                    current@,
                ));
            }
        } else {
            proof {
                assert(result@ =~= merged_part + delta_only_node_payables(
                    deltas@.take(d + 1),
                    current@,
                ));
            }
        }
        d = d + 1;
    }
    proof {
        assert(deltas@.take(deltas@.len() as int) =~= deltas@);
        assert(result@.skip(current@.len() as int) =~= delta_only_node_payables(deltas@, current@));
    }
    result
}

/// Adds two signed byte counts, saturating at the numeric bounds.
pub open spec fn sat_add_i64_spec(a: int, b: int) -> int {
    if a + b > i64::MAX {
        i64::MAX as int
    } else if a + b < i64::MIN {
        i64::MIN as int
    } else {
        a + b
    }
}

/// Adds two signed byte counts, saturating at the numeric bounds.
pub fn sat_add_i64(a: i64, b: i64) -> (r: i64)
    ensures
        r == sat_add_i64_spec(a as int, b as int),
{
    if a >= 0 {
        if b > i64::MAX - a {
            i64::MAX
        } else {
            a + b
        }
    } else {
        if b < i64::MIN - a {
            i64::MIN
        } else {
            a + b
        }
    }
}

} // verus!
