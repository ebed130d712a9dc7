//! The mathematical value of an individual.
use vstd::prelude::*;

use crate::loader_config::PopType;
use crate::permutation::is_permutation;

verus! {

/// What an individual stands for: a sequence of bits, or an order of the
/// values `0..dim`.
pub enum Genotype {
    Binary(Seq<bool>),
    Permuted(Seq<usize>),
}

impl Genotype {
    /// The number of genes.
    pub open spec fn dim(self) -> nat {
        match self {
            Genotype::Binary(bits) => bits.len(),
            Genotype::Permuted(order) => order.len(),
        }
    }

    /// The representation that the genotype uses.
    pub open spec fn kind(self) -> PopType {
        match self {
            Genotype::Binary(_) => PopType::Binary,
            Genotype::Permuted(_) => PopType::Permuted,
        }
    }

    /// The bits of a bit vector.
    pub open spec fn bits(self) -> Seq<bool>
        recommends
            self is Binary,
    {
        self->Binary_0
    }

    /// The order of a permutation.
    pub open spec fn order(self) -> Seq<usize>
        recommends
            self is Permuted,
    {
        self->Permuted_0
    }

    /// The invariant of a genotype: a permutation holds each of `0..dim`
    /// exactly once. Bit vectors have none.
    pub open spec fn wf(self) -> bool {
        self matches Genotype::Permuted(order) ==> is_permutation(order)
    }

    /// A well-formed genotype of the given representation and length.
    pub open spec fn fits(self, kind: PopType, dim: nat) -> bool {
        &&& self.wf()
        &&& self.kind() == kind
        &&& self.dim() == dim
    }
}

/// The word for a bit: `true` or `false`.
pub open spec fn bit_word(bit: bool) -> Seq<char> {
    if bit {
        seq!['t', 'r', 'u', 'e']
    } else {
        seq!['f', 'a', 'l', 's', 'e']
    }
}

/// The character of a decimal digit.
pub open spec fn digit(value: nat) -> char {
    seq!['0', '1', '2', '3', '4', '5', '6', '7', '8', '9'][value as int]
}

/// A number in decimal digits, without leading zeros.
pub open spec fn decimal(value: nat) -> Seq<char>
    decreases value,
{
    if value < 10 {
        seq![digit(value)]
    } else {
        decimal(value / 10).push(digit(value % 10))
    }
}

/// The words one after the other, a comma and a space between each two.
pub open spec fn joined(words: Seq<Seq<char>>) -> Seq<char>
    decreases words.len(),
{
    if words.len() == 0 {
        Seq::empty()
    } else if words.len() == 1 {
        words[0]
    } else {
        joined(words.drop_last()) + seq![',', ' '] + words.last()
    }
}

/// The words as a list: joined, between square brackets.
pub open spec fn listed(words: Seq<Seq<char>>) -> Seq<char> {
    seq!['['] + joined(words) + seq![']']
}

/// The text that lists bits by their words.
pub open spec fn bits_as_text(genes: Seq<bool>) -> Seq<char> {
    listed(Seq::new(genes.len(), |i: int| bit_word(genes[i])))
}

/// The text that lists numbers in decimal digits.
pub open spec fn order_as_text(genes: Seq<usize>) -> Seq<char> {
    listed(Seq::new(genes.len(), |i: int| decimal(genes[i] as nat)))
}

/// `std::fmt::Debug` for `Vec<bool>`, through `format!`: an opening bracket,
/// the bits as `true` or `false` with a comma and a space between each
/// two, and a closing bracket.
#[verifier::external_body]
pub(crate) fn bits_text(genes: &Vec<bool>) -> (text: String)
    ensures
        text@ == bits_as_text(genes@),
{
    format!("{:?}", genes)
}

/// `std::fmt::Debug` for `Vec<usize>`, through `format!`: an opening
/// bracket, the numbers in decimal digits with a comma and a space between
/// each two, and a closing bracket.
#[verifier::external_body]
pub(crate) fn order_text(genes: &Vec<usize>) -> (text: String)
    ensures
        text@ == order_as_text(genes@),
{
    format!("{:?}", genes)
}

impl Genotype {
    /// The genes as text, listed between square brackets.
    pub open spec fn as_text(self) -> Seq<char> {
        match self {
            Genotype::Binary(bits) => bits_as_text(bits),
            Genotype::Permuted(order) => order_as_text(order),
        }
    }
}

} // verus!
