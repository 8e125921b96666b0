//! Uniform integers from raw bytes, by rejection sampling.

use vstd::prelude::*;

verus! {

/// One more than the largest value of a `u64`.
pub open spec fn two_64() -> int {
    0x1_0000_0000_0000_0000
}

/// Number of values that `w` bytes can take.
pub open spec fn pow256(w: nat) -> int
    decreases w,
{
    if w == 0 {
        1
    } else {
        256 * pow256((w - 1) as nat)
    }
}

/// Number of integers in the inclusive range from `min` to `max`.
pub open spec fn range_size(min: i64, max: i64) -> int {
    max - min + 1
}

/// `w` is the least number of bytes whose raw values cover `range`.
pub open spec fn is_width(range: int, w: nat) -> bool {
    pow256(w) >= range && (w == 0 || pow256((w - 1) as nat) < range)
}

/// Bytes drawn for one integer of a range of `range` values, for a `range`
/// of at most 2^64.
pub open spec fn width_of(range: int) -> nat {
    if range <= 1 {
        0
    } else if range <= 0x100 {
        1
    } else if range <= 0x1_0000 {
        2
    } else if range <= 0x100_0000 {
        3
    } else if range <= 0x1_0000_0000 {
        4
    } else if range <= 0x100_0000_0000 {
        5
    } else if range <= 0x1_0000_0000_0000 {
        6
    } else if range <= 0x100_0000_0000_0000 {
        7
    } else {
        8
    }
}

/// Raw values below this limit are accepted: the largest `u64` less its
/// remainder by `range`.
pub open spec fn acceptance_limit(range: int) -> int {
    u64::MAX - (u64::MAX as int % range)
}

/// The unsigned integer that `chunk` spells, most significant byte first.
pub open spec fn be_value(chunk: Seq<u8>) -> int
    decreases chunk.len(),
{
    if chunk.len() == 0 {
        0
    } else {
        256 * be_value(chunk.drop_last()) + chunk.last()
    }
}

/// Chunk `k` of `raw`, for chunks of `w` bytes.
pub open spec fn chunk_of(raw: Seq<u8>, w: nat, k: nat) -> Seq<u8> {
    raw.subrange((k * w) as int, (k * w + w) as int)
}

/// The integers that the first `chunks` chunks of `raw` yield for the range
/// from `min` to `max`, in order, up to `count` of them. A chunk whose value
/// is below the acceptance limit yields `min` plus that value's remainder by
/// the size of the range; any other chunk yields nothing.
pub open spec fn sampled(raw: Seq<u8>, min: i64, max: i64, count: nat, chunks: nat) -> Seq<i64>
    decreases chunks,
{
    if chunks == 0 {
        Seq::empty()
    } else {
        let before = sampled(raw, min, max, count, (chunks - 1) as nat);
        let range = range_size(min, max);
        let value = be_value(chunk_of(raw, width_of(range), (chunks - 1) as nat));
        if before.len() < count && value < acceptance_limit(range) {
            before.push((min + value % range) as i64)
        } else {
            before
        }
    }
}

/// The integers that all whole chunks of `raw` yield, up to `count` of them.
pub open spec fn sampled_all(raw: Seq<u8>, min: i64, max: i64, count: nat) -> Seq<i64> {
    sampled(raw, min, max, count, raw.len() / width_of(range_size(min, max)))
}

/// The powers of 256 up to the eighth.
pub proof fn lemma_pow256_values()
    ensures
        pow256(0) == 1,
        pow256(1) == 0x100,
        pow256(2) == 0x1_0000,
        pow256(3) == 0x100_0000,
        pow256(4) == 0x1_0000_0000,
        pow256(5) == 0x100_0000_0000,
        pow256(6) == 0x1_0000_0000_0000,
        pow256(7) == 0x100_0000_0000_0000,
        pow256(8) == two_64(),
{
    reveal_with_fuel(pow256, 9);
}

/// `width_of` is the least number of bytes that cover the range.
pub proof fn lemma_width_is_least(range: int)
    requires
        1 <= range <= two_64(),
    ensures
        is_width(range, width_of(range)),
        forall|w: nat| is_width(range, w) ==> w == width_of(range),
{
    lemma_pow256_values();
    assert forall|w: nat| is_width(range, w) implies w == width_of(range) by {
        lemma_pow256_grows(w);
        if w > 0 {
            lemma_pow256_grows((w - 1) as nat);
        }
    }
}

/// Beyond eight bytes the powers of 256 exceed every `u64`, and each power is
/// less than the next.
pub proof fn lemma_pow256_grows(w: nat)
    ensures
        pow256(w) >= 1,
        pow256(w) < pow256(w + 1),
        w >= 8 ==> pow256(w) >= two_64(),
    decreases w,
{
    lemma_pow256_values();
    if w > 0 {
        lemma_pow256_grows((w - 1) as nat);
    }
}

/// A chunk of `w` bytes spells a value below `256^w`.
pub proof fn lemma_be_value_bound(chunk: Seq<u8>)
    ensures
        0 <= be_value(chunk) < pow256(chunk.len()),
    decreases chunk.len(),
{
    if chunk.len() > 0 {
        lemma_be_value_bound(chunk.drop_last());
    }
}

/// No more than `count` integers are yielded, and no more than one for each
/// chunk; each lies in the range.
pub proof fn lemma_sampled_in_range(raw: Seq<u8>, min: i64, max: i64, count: nat, chunks: nat)
    requires
        min < max,
    ensures
        sampled(raw, min, max, count, chunks).len() <= count,
        sampled(raw, min, max, count, chunks).len() <= chunks,
        forall|i: int|
            0 <= i < sampled(raw, min, max, count, chunks).len() ==> min <= #[trigger] sampled(
                raw,
                min,
                max,
                count,
                chunks,
            )[i] <= max,
    decreases chunks,
{
    if chunks > 0 {
        lemma_sampled_in_range(raw, min, max, count, (chunks - 1) as nat);
        let range = range_size(min, max);
        let value = be_value(chunk_of(raw, width_of(range), (chunks - 1) as nat));
        lemma_be_value_bound(chunk_of(raw, width_of(range), (chunks - 1) as nat));
        assert(0 <= value % range < range) by (nonlinear_arith)
            requires
                range > 0,
        ;
    }
}

/// Once `count` integers are there, further chunks change nothing.
pub proof fn lemma_sampled_stays(
    raw: Seq<u8>,
    min: i64,
    max: i64,
    count: nat,
    chunks: nat,
    more: nat,
)
    requires
        sampled(raw, min, max, count, chunks).len() >= count,
        chunks <= more,
    ensures
        sampled(raw, min, max, count, more) == sampled(raw, min, max, count, chunks),
    decreases more,
{
    if more > chunks {
        lemma_sampled_stays(raw, min, max, count, chunks, (more - 1) as nat);
    }
}

/// Bytes drawn for one integer of a range of `range` values.
pub fn bytes_per_int(range: u128) -> (w: usize)
    requires
        1 <= range <= two_64(),
    ensures
        w == width_of(range as int),
        is_width(range as int, w as nat),
        w <= 8,
{
    proof {
        lemma_width_is_least(range as int);
    }
    if range <= 1 {
        0
    } else if range <= 0x100 {
        1
    } else if range <= 0x1_0000 {
        2
    } else if range <= 0x100_0000 {
        3
    } else if range <= 0x1_0000_0000 {
        4
    } else if range <= 0x100_0000_0000 {
        5
    } else if range <= 0x1_0000_0000_0000 {
        6
    } else if range <= 0x100_0000_0000_0000 {
        7
    } else {
        8
    }
}

/// Number of integers in the inclusive range from `min` to `max`.
pub fn range_between(min: i64, max: i64) -> (range: u128)
    requires
        min < max,
    ensures
        range == range_size(min, max),
        2 <= range <= two_64(),
{
    (max as i128 - min as i128 + 1) as u128
}

/// The value that the `w` bytes of `raw` from `offset` on spell, most
/// significant byte first.
pub fn chunk_value(raw: &[u8], offset: usize, w: usize) -> (value: u128)
    requires
        w <= 8,
        offset + w <= raw@.len(),
    ensures
        value == be_value(raw@.subrange(offset as int, offset + w)),
        value < pow256(w as nat),
{
    let len = raw.len();
    let mut value: u128 = 0;
    let mut i: usize = 0;
    proof {
        lemma_pow256_values();
    }
    while i < w
        invariant
            i <= w <= 8,
            offset + w <= len == raw@.len(),
            value == be_value(raw@.subrange(offset as int, offset + i)),
            value < pow256(i as nat),
        decreases w - i,
    {
        proof {
            lemma_pow256_values();
            lemma_pow256_monotone(i as nat, 7);
            let next = raw@.subrange(offset as int, offset + i + 1);
            assert(next.drop_last() =~= raw@.subrange(offset as int, offset + i));
            assert(next.last() == raw@[offset + i]);
        }
        value = value * 256 + raw[offset + i] as u128;
        i = i + 1;
    }
    value
}

/// A larger exponent gives no smaller power.
pub proof fn lemma_pow256_monotone(a: nat, b: nat)
    requires
        a <= b,
    ensures
        pow256(a) <= pow256(b),
    decreases b,
{
    if a < b {
        lemma_pow256_monotone(a, (b - 1) as nat);
        lemma_pow256_grows((b - 1) as nat);
    }
}

/// Rejection sampling: walk `raw` in chunks of as many bytes as the range
/// from `min` to `max` needs, and turn each chunk whose value is below the
/// acceptance limit into an integer of the range, until `count` integers are
/// there. `None` when `raw` runs out before that.
pub fn sample_integers(raw: &[u8], min: i64, max: i64, count: usize) -> (integers: Option<Vec<i64>>)
    requires
        min < max,
    ensures
        integers is Some <==> sampled_all(raw@, min, max, count as nat).len() == count,
        integers is Some ==> integers->0@ == sampled_all(raw@, min, max, count as nat),
        integers is Some ==> forall|i: int|
            0 <= i < count ==> min <= #[trigger] integers->0@[i] <= max,
{
    let range = range_between(min, max);
    let w = bytes_per_int(range);
    let limit: u128 = (u64::MAX as u128) - (u64::MAX as u128) % range;
    let len = raw.len();
    let total: usize = len / w;
    let mut integers: Vec<i64> = Vec::new();
    let mut k: usize = 0;
    while integers.len() < count && k < total
        invariant
            min < max,
            range == range_size(min, max),
            2 <= range <= two_64(),
            1 <= w <= 8,
            w == width_of(range as int),
            limit == acceptance_limit(range as int),
            len == raw@.len(),
            total == len / w,
            k <= total,
            integers@ == sampled(raw@, min, max, count as nat, k as nat),
            integers@.len() <= count,
        decreases total - k,
    {
        proof {
            assert(k * w + w <= len) by (nonlinear_arith)
                requires
                    k < total,
                    total == len / w,
                    w >= 1,
            ;
            lemma_sampled_in_range(raw@, min, max, count as nat, (k + 1) as nat);
        }
        let offset = k * w;
        let value = chunk_value(raw, offset, w);
        if value < limit {
            let r = value % range;
            proof {
                assert(0 <= (value as int) % (range as int) < (range as int)) by (nonlinear_arith)
                    requires
                        range > 0,
                        value >= 0,
                ;
            }
            let sample = (min as i128 + r as i128) as i64;
            integers.push(sample);
        }
        k = k + 1;
    }
    proof {
        lemma_sampled_in_range(raw@, min, max, count as nat, total as nat);
        if integers@.len() >= count {
            lemma_sampled_stays(raw@, min, max, count as nat, k as nat, total as nat);
        }
    }
    if integers.len() < count {
        None
    } else {
        Some(integers)
    }
}

} // verus!
