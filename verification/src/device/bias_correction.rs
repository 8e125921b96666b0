//! Bias correction of raw entropy.

use vstd::prelude::*;

verus! {

/// Bit `i` of `byte`, counted from the least significant one.
pub open spec fn bit_of(byte: u8, i: u8) -> bool {
    (byte >> i) & 1u8 == 1u8
}

/// What pair `k` of `byte` contributes to the debiased stream. Pair `k` is
/// made of bits `2k + 1` and `2k`, read in that order: `(1, 0)` gives a one,
/// `(0, 1)` gives a zero, equal bits give nothing.
pub open spec fn pair_emits(byte: u8, k: int) -> Option<bool> {
    let second = bit_of(byte, (2 * k) as u8);
    let first = bit_of(byte, (2 * k + 1) as u8);
    if first != second {
        Some(first)
    } else {
        None
    }
}

/// The bits that the first `pairs` bit pairs of `input` emit, in order. Pairs
/// are taken byte by byte, and within a byte from the low pair to the high
/// one.
pub open spec fn extracted_bits(input: Seq<u8>, pairs: nat) -> Seq<bool>
    decreases pairs,
{
    if pairs == 0 {
        Seq::empty()
    } else {
        let p = pairs - 1;
        let before = extracted_bits(input, p as nat);
        match pair_emits(input[p / 4], p % 4) {
            Some(bit) => before.push(bit),
            None => before,
        }
    }
}

/// Weight of bit `k` in a byte.
pub open spec fn bit_weight(k: nat) -> nat
    decreases k,
{
    if k == 0 {
        1
    } else {
        2 * bit_weight((k - 1) as nat)
    }
}

/// Value of the `n` bits of `bits` that start at `start`, the first of them
/// being the least significant.
pub open spec fn packed_value(bits: Seq<bool>, start: int, n: nat) -> nat
    decreases n,
{
    if n == 0 {
        0
    } else {
        packed_value(bits, start, (n - 1) as nat) + if bits[start + n - 1] {
            bit_weight((n - 1) as nat)
        } else {
            0
        }
    }
}

/// The whole bytes that `bits` fill, least significant bit first. Bits left
/// over after the last whole byte are dropped.
pub open spec fn pack_bits(bits: Seq<bool>) -> Seq<u8> {
    Seq::new(bits.len() / 8, |i: int| packed_value(bits, 8 * i, 8) as u8)
}

/// The Von Neumann extraction of `input`.
pub open spec fn von_neumann_spec(input: Seq<u8>) -> Seq<u8> {
    pack_bits(extracted_bits(input, 4 * input.len()))
}

/// A group of `n` bits is worth less than the weight of bit `n`.
pub proof fn lemma_packed_value_bound(bits: Seq<bool>, start: int, n: nat)
    ensures
        packed_value(bits, start, n) < bit_weight(n),
    decreases n,
{
    if n > 0 {
        lemma_packed_value_bound(bits, start, (n - 1) as nat);
    }
}

/// The value of a group of bits depends on those bits only.
pub proof fn lemma_packed_value_same(a: Seq<bool>, b: Seq<bool>, start: int, n: nat)
    requires
        forall|j: int| start <= j < start + n ==> a[j] == b[j],
    ensures
        packed_value(a, start, n) == packed_value(b, start, n),
    decreases n,
{
    if n > 0 {
        lemma_packed_value_same(a, b, start, (n - 1) as nat);
    }
}

/// `pairs` bit pairs emit at most `pairs` bits.
pub proof fn lemma_extracted_len(input: Seq<u8>, pairs: nat)
    ensures
        extracted_bits(input, pairs).len() <= pairs,
    decreases pairs,
{
    if pairs > 0 {
        lemma_extracted_len(input, (pairs - 1) as nat);
    }
}

/// The extraction of `input` is at most half as long as `input`.
pub proof fn lemma_von_neumann_len(input: Seq<u8>)
    ensures
        von_neumann_spec(input).len() <= input.len() / 2,
{
    lemma_extracted_len(input, 4 * input.len());
}

/// Extracting twice is defined for every input, and the second extraction is
/// no longer than the first: it is at most half as long.
pub proof fn lemma_von_neumann_twice(input: Seq<u8>)
    ensures
        von_neumann_spec(von_neumann_spec(input)).len() <= von_neumann_spec(input).len() / 2,
        von_neumann_spec(von_neumann_spec(input)).len() <= von_neumann_spec(input).len(),
{
    lemma_von_neumann_len(von_neumann_spec(input));
}

proof fn lemma_weights()
    ensures
        bit_weight(0) == 1,
        bit_weight(1) == 2,
        bit_weight(2) == 4,
        bit_weight(3) == 8,
        bit_weight(4) == 16,
        bit_weight(5) == 32,
        bit_weight(6) == 64,
        bit_weight(7) == 128,
        bit_weight(8) == 256,
{
    reveal_with_fuel(bit_weight, 9);
}

/// Von Neumann extractor: removes bias from `input` at the price of most of
/// its length.
pub fn von_neumann(input: &[u8]) -> (output: Vec<u8>)
    ensures
        output@ == von_neumann_spec(input@),
        output@.len() <= input@.len() / 2,
{
    let mut output: Vec<u8> = Vec::new();
    let mut out_byte: u8 = 0;
    let mut out_bits: u8 = 0;
    let ghost mut bits: Seq<bool> = Seq::empty();
    let mut idx: usize = 0;
    while idx < input.len()
        invariant
            idx <= input.len(),
            bits == extracted_bits(input@, (4 * idx) as nat),
            output@ == pack_bits(bits),
            out_bits < 8,
            out_bits == bits.len() % 8,
            out_byte == packed_value(bits, (8 * (bits.len() / 8)) as int, out_bits as nat),
        decreases input.len() - idx,
    {
        let byte: u8 = input[idx];
        let mut k: u8 = 0;
        while k < 4
            invariant
                idx < input.len(),
                byte == input@[idx as int],
                k <= 4,
                bits == extracted_bits(input@, (4 * idx + k) as nat),
                output@ == pack_bits(bits),
                out_bits < 8,
                out_bits == bits.len() % 8,
                out_byte == packed_value(bits, (8 * (bits.len() / 8)) as int, out_bits as nat),
            decreases 4 - k,
        {
            let second: u8 = (byte >> (2 * k)) & 1;
            let first: u8 = (byte >> (2 * k + 1)) & 1;
            proof {
                let p = 4 * idx + k;
                assert(p / 4 == idx as int && p % 4 == k as int);
                assert(first == 0 || first == 1) by (bit_vector)
                    requires
                        first == (byte >> (2u8 * k + 1u8)) & 1u8,
                ;
                assert(second == 0 || second == 1) by (bit_vector)
                    requires
                        second == (byte >> (2u8 * k)) & 1u8,
                ;
            }
            if first != second {
                let ghost old_bits = bits;
                let ghost base = 8 * (bits.len() / 8);
                proof {
                    bits = bits.push(first == 1);
                    lemma_weights();
                    lemma_packed_value_bound(old_bits, base as int, out_bits as nat);
                    lemma_packed_value_same(old_bits, bits, base as int, out_bits as nat);
                }
                if first == 1 {
                    proof {
                        let weight: u8 = 1u8 << out_bits;
                        assert(weight == bit_weight(out_bits as nat)) by {
                            assert(out_bits < 8 ==> (1u8 << out_bits) == if out_bits == 0 {
                                1u8
                            } else if out_bits == 1 {
                                2u8
                            } else if out_bits == 2 {
                                4u8
                            } else if out_bits == 3 {
                                8u8
                            } else if out_bits == 4 {
                                16u8
                            } else if out_bits == 5 {
                                32u8
                            } else if out_bits == 6 {
                                64u8
                            } else {
                                128u8
                            }) by (bit_vector);
                        }
                        assert(out_byte | weight == out_byte + weight) by (bit_vector)
                            requires
                                out_bits < 8,
                                weight == 1u8 << out_bits,
                                out_byte < weight,
                        ;
                    }
                    out_byte = out_byte | (1u8 << out_bits);
                }
                out_bits = out_bits + 1;
                proof {
                    assert forall|i: int| 0 <= i < old_bits.len() / 8 implies #[trigger] packed_value(
                        bits,
                        8 * i,
                        8,
                    ) == packed_value(old_bits, 8 * i, 8) by {
                        lemma_packed_value_same(old_bits, bits, 8 * i, 8);
                    }
                }
                if out_bits == 8 {
                    assert(output@.push(out_byte) =~= pack_bits(bits));
                    output.push(out_byte);
                    out_byte = 0;
                    out_bits = 0;
                } else {
                    assert(output@ =~= pack_bits(bits));
                }
            }
            k = k + 1;
        }
        idx = idx + 1;
    }
    proof {
        lemma_von_neumann_len(input@);
    }
    output
}

/// No correction: the raw bytes as they came.
pub fn none(input: &[u8]) -> (output: Vec<u8>)
    ensures
        output@ == input@,
{
    let mut output: Vec<u8> = Vec::new();
    let mut idx: usize = 0;
    while idx < input.len()
        invariant
            idx <= input.len(),
            output@ == input@.subrange(0, idx as int),
        decreases input.len() - idx,
    {
        output.push(input[idx]);
        idx = idx + 1;
    }
    assert(input@.subrange(0, idx as int) =~= input@);
    output
}

} // verus!
