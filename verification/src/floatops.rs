//! The arithmetic on doubles, which this library leaves to its host.
//!
//! Doubles travel through the library as IEEE-754 bit patterns. Sign,
//! order and the test for NaN are read from the pattern; sums, products,
//! quotients, conversions and decimal text are asked of a [`FloatOps`] that
//! the caller hands in. A contract that depends on such an answer speaks of
//! the [`FloatModel`] of the host that gave it: it says what is returned
//! given what this host computes, and nothing of what a double is.

use vstd::prelude::*;

verus! {

/// What one host computes on doubles: a function for each operation.
pub struct FloatModel {
    /// The sum of two doubles.
    pub sum: spec_fn(u64, u64) -> u64,
    /// The product of two doubles.
    pub product: spec_fn(u64, u64) -> u64,
    /// The quotient of the first double by the second.
    pub quotient: spec_fn(u64, u64) -> u64,
    /// The double for an unsigned integer.
    pub of_unsigned: spec_fn(u64) -> u64,
    /// The double for a signed integer.
    pub of_signed: spec_fn(i64) -> u64,
    /// The unsigned integer for a double.
    pub to_unsigned: spec_fn(u64) -> u64,
    /// The signed integer for a double.
    pub to_signed: spec_fn(u64) -> i64,
    /// The double that a text spells, if it spells one.
    pub parsed: spec_fn(Seq<char>) -> Option<u64>,
    /// The text of a double.
    pub text: spec_fn(u64) -> Seq<char>,
}

/// The double-precision unit of the host. Every method works on bit
/// patterns and is meant to be the IEEE-754 binary64 operation that its
/// name says.
///
/// The contracts ask one thing of an implementation: that each method is a
/// function of the host and of its arguments, the function that `model`
/// holds for it. This library has no implementation of its own, and nothing
/// here verifies one that is written elsewhere: what is proved of a host's
/// answers is proved for hosts that keep to this.
pub trait FloatOps {
    /// What this host computes.
    spec fn model(&self) -> FloatModel;

    /// The sum of two doubles.
    fn add(&self, a: u64, b: u64) -> (r: u64)
        ensures
            r == float_sum(self.model(), a, b),
    ;

    /// The product of two doubles.
    fn mul(&self, a: u64, b: u64) -> (r: u64)
        ensures
            r == float_product(self.model(), a, b),
    ;

    /// The quotient of two doubles.
    fn div(&self, a: u64, b: u64) -> (r: u64)
        ensures
            r == float_quotient(self.model(), a, b),
    ;

    /// The double nearest to an unsigned integer.
    fn from_unsigned(&self, value: u64) -> (r: u64)
        ensures
            r == float_of_unsigned(self.model(), value),
    ;

    /// The double nearest to a signed integer.
    fn from_signed(&self, value: i64) -> (r: u64)
        ensures
            r == float_of_signed(self.model(), value),
    ;

    /// The double cut to an unsigned integer, towards zero.
    fn to_unsigned(&self, bits: u64) -> (r: u64)
        ensures
            r == float_to_unsigned(self.model(), bits),
    ;

    /// The double cut to a signed integer, towards zero.
    fn to_signed(&self, bits: u64) -> (r: i64)
        ensures
            r == float_to_signed(self.model(), bits),
    ;

    /// The double that a decimal text spells, if it spells one.
    fn parse(&self, text: &str) -> (r: Option<u64>)
        ensures
            r == float_parsed(self.model(), text@),
    ;

    /// The shortest decimal text that spells the double.
    fn format(&self, bits: u64) -> (r: String)
        ensures
            r@ == float_text(self.model(), bits),
    ;
}

/// The sum of the doubles `a` and `b`, as `m` has it.
pub open spec fn float_sum(m: FloatModel, a: u64, b: u64) -> u64 {
    (m.sum)(a, b)
}

/// The product of the doubles `a` and `b`, as `m` has it.
pub open spec fn float_product(m: FloatModel, a: u64, b: u64) -> u64 {
    (m.product)(a, b)
}

/// The quotient of the double `a` by the double `b`, as `m` has it.
pub open spec fn float_quotient(m: FloatModel, a: u64, b: u64) -> u64 {
    (m.quotient)(a, b)
}

/// The double for `value`, as `m` has it.
pub open spec fn float_of_unsigned(m: FloatModel, value: u64) -> u64 {
    (m.of_unsigned)(value)
}

/// The double for `value`, as `m` has it.
pub open spec fn float_of_signed(m: FloatModel, value: i64) -> u64 {
    (m.of_signed)(value)
}

/// The double `bits` cut to an unsigned integer, as `m` has it.
pub open spec fn float_to_unsigned(m: FloatModel, bits: u64) -> u64 {
    (m.to_unsigned)(bits)
}

/// The double `bits` cut to a signed integer, as `m` has it.
pub open spec fn float_to_signed(m: FloatModel, bits: u64) -> i64 {
    (m.to_signed)(bits)
}

/// The double that `text` spells, as `m` has it.
pub open spec fn float_parsed(m: FloatModel, text: Seq<char>) -> Option<u64> {
    (m.parsed)(text)
}

/// The decimal text of the double `bits`, as `m` has it.
pub open spec fn float_text(m: FloatModel, bits: u64) -> Seq<char> {
    (m.text)(bits)
}

} // verus!
