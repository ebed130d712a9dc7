//! Bit vectors read as numbers.
use vstd::arithmetic::power2::{lemma2_to64, lemma2_to64_rest, lemma_pow2_strictly_increases, lemma_pow2_unfold, pow2};
use vstd::pervasive::unreached;
use vstd::prelude::*;

use crate::population::Individual;

verus! {

/// The number that the bits spell in binary, the first bit counting most.
pub open spec fn binary_value(bits: Seq<bool>) -> nat
    decreases bits.len(),
{
    if bits.len() == 0 {
        0
    } else {
        2 * binary_value(bits.drop_last()) + if bits.last() {
            1nat
        } else {
            0nat
        }
    }
}

/// `len` bits spell a number below 2 to the power `len`.
pub proof fn lemma_binary_value_bounded(bits: Seq<bool>)
    ensures
        binary_value(bits) < pow2(bits.len()),
    decreases bits.len(),
{
    if bits.len() == 0 {
        lemma2_to64();
    } else {
        lemma_binary_value_bounded(bits.drop_last());
        lemma_pow2_unfold(bits.len());
    }
}

/// The number that the bits `from..to` spell in binary.
pub fn decode_binary(bits: &Vec<bool>, from: usize, to: usize) -> (value: u64)
    requires
        from <= to <= bits.len(),
        to - from <= 64,
    ensures
        value == binary_value(bits@.subrange(from as int, to as int)),
{
    let mut value: u64 = 0;
    let mut i: usize = from;
    assert(bits@.subrange(from as int, from as int) =~= Seq::<bool>::empty());
    while i < to
        invariant
            from <= i <= to <= bits.len(),
            to - from <= 64,
            value == binary_value(bits@.subrange(from as int, i as int)),
        decreases to - i,
    {
        proof {
            let read = bits@.subrange(from as int, i as int);
            let next = bits@.subrange(from as int, i + 1);
            assert(next.drop_last() =~= read);
            assert(next.last() == bits@[i as int]);
            lemma_binary_value_bounded(next);
            lemma2_to64();
            lemma2_to64_rest();
            if next.len() < 64 {
                lemma_pow2_strictly_increases(next.len(), 64);
            }
        }
        value = 2 * value + if bits[i] {
            1
        } else {
            0
        };
        i = i + 1;
    }
    value
}

/// The number that the bits of an individual spell in binary.
pub fn decimal(individual: &Individual) -> (value: u64)
    requires
        individual@ is Binary,
        individual@.dim() <= 64,
    ensures
        value == binary_value(individual@.bits()),
{
    match individual {
        Individual::Binary(bits) => {
            assert(bits@.subrange(0, bits.len() as int) =~= bits@);
            decode_binary(bits, 0, bits.len())
        },
        Individual::Permuted(_) => unreached(),
    }
}

/// The two quantities that an individual spells: the first five bits give
/// the first, the bits from the sixth on the second.
pub fn quantities(individual: &Individual) -> (pair: (u64, u64))
    requires
        individual@ is Binary,
        5 <= individual@.dim() <= 69,
    ensures
        pair.0 == binary_value(individual@.bits().subrange(0, 5)),
        pair.1 == binary_value(individual@.bits().subrange(5, individual@.dim() as int)),
{
    match individual {
        Individual::Binary(bits) => {
            let first = decode_binary(bits, 0, 5);
            let second = decode_binary(bits, 5, bits.len());
            (first, second)
        },
        Individual::Permuted(_) => unreached(),
    }
}

} // verus!
