//! Three-valued logic on values: comparisons and connectives that answer
//! true, false or NULL.

use vstd::prelude::*;
use crate::floatops::{FloatModel, FloatOps};
use crate::types::variant::{value_from_3vl, Value, Variant};

verus! {

impl Value {
    /// True where `self` equals `rhs`, NULL where they cannot be compared.
    pub open spec fn equals(self, floats: FloatModel, rhs: Value) -> Value {
        value_from_3vl(
            match self.compare(floats, rhs) {
                None => 0,
                Some(c) => if c == 0 {
                    1
                } else {
                    -1
                },
            },
        )
    }

    /// True where `self` differs from `rhs`, NULL where they cannot be
    /// compared.
    pub open spec fn not_equals(self, floats: FloatModel, rhs: Value) -> Value {
        value_from_3vl(
            match self.compare(floats, rhs) {
                None => 0,
                Some(c) => if c == 0 {
                    -1
                } else {
                    1
                },
            },
        )
    }

    /// True where `self` is below `rhs`, NULL where they cannot be
    /// compared.
    pub open spec fn less_than(self, floats: FloatModel, rhs: Value) -> Value {
        value_from_3vl(
            match self.compare(floats, rhs) {
                None => 0,
                Some(c) => if c == -1 {
                    1
                } else {
                    -1
                },
            },
        )
    }

    /// True where `self` is above `rhs`, NULL where they cannot be
    /// compared.
    pub open spec fn greater_than(self, floats: FloatModel, rhs: Value) -> Value {
        value_from_3vl(
            match self.compare(floats, rhs) {
                None => 0,
                Some(c) => if c == 1 {
                    1
                } else {
                    -1
                },
            },
        )
    }

    /// True where `self` is at most `rhs`, NULL where they cannot be
    /// compared.
    pub open spec fn less_than_or_equal(self, floats: FloatModel, rhs: Value) -> Value {
        value_from_3vl(
            match self.compare(floats, rhs) {
                None => 0,
                Some(c) => if c == -1 || c == 0 {
                    1
                } else {
                    -1
                },
            },
        )
    }

    /// True where `self` is at least `rhs`, NULL where they cannot be
    /// compared.
    pub open spec fn greater_than_or_equal(self, floats: FloatModel, rhs: Value) -> Value {
        value_from_3vl(
            match self.compare(floats, rhs) {
                None => 0,
                Some(c) => if c == 0 || c == 1 {
                    1
                } else {
                    -1
                },
            },
        )
    }

    /// Whether the truth value is unknown.
    pub open spec fn is_null(self) -> bool {
        self.to_3vl() == 0
    }

    /// Whether the truth value is true.
    pub open spec fn tests_true(self) -> bool {
        self.to_3vl() == 1
    }

    /// Kleene's negation.
    pub open spec fn not(self) -> Value {
        value_from_3vl(-self.to_3vl())
    }

    /// Kleene's conjunction: the lesser of the two truth values.
    pub open spec fn and(self, rhs: Value) -> Value {
        value_from_3vl(
            if self.to_3vl() < rhs.to_3vl() {
                self.to_3vl()
            } else {
                rhs.to_3vl()
            },
        )
    }

    /// Kleene's disjunction: the greater of the two truth values.
    pub open spec fn or(self, rhs: Value) -> Value {
        value_from_3vl(
            if self.to_3vl() > rhs.to_3vl() {
                self.to_3vl()
            } else {
                rhs.to_3vl()
            },
        )
    }
}

impl Variant {
    /// The NULL value.
    pub fn null() -> (r: Variant)
        ensures
            r@ == Value::Null,
    {
        Variant::from_3vl(0)
    }

    /// `self = rhs` in three-valued logic.
    pub fn equals<F: FloatOps>(&self, rhs: &Variant, host: &F) -> (r: Variant)
        ensures
            r@ == self@.equals(host.model(), rhs@),
    {
        Variant::from_3vl(
            match self.compare(rhs, host) {
                None => 0,
                Some(c) => if c == 0 {
                    1
                } else {
                    -1
                },
            },
        )
    }

    /// `self <> rhs` in three-valued logic.
    pub fn not_equals<F: FloatOps>(&self, rhs: &Variant, host: &F) -> (r: Variant)
        ensures
            r@ == self@.not_equals(host.model(), rhs@),
    {
        Variant::from_3vl(
            match self.compare(rhs, host) {
                None => 0,
                Some(c) => if c == 0 {
                    -1
                } else {
                    1
                },
            },
        )
    }

    /// `self < rhs` in three-valued logic.
    pub fn less_than<F: FloatOps>(&self, rhs: &Variant, host: &F) -> (r: Variant)
        ensures
            r@ == self@.less_than(host.model(), rhs@),
    {
        Variant::from_3vl(
            match self.compare(rhs, host) {
                None => 0,
                Some(c) => if c == -1 {
                    1
                } else {
                    -1
                },
            },
        )
    }

    /// `self > rhs` in three-valued logic.
    pub fn greater_than<F: FloatOps>(&self, rhs: &Variant, host: &F) -> (r: Variant)
        ensures
            r@ == self@.greater_than(host.model(), rhs@),
    {
        Variant::from_3vl(
            match self.compare(rhs, host) {
                None => 0,
                Some(c) => if c == 1 {
                    1
                } else {
                    -1
                },
            },
        )
    }

    /// `self <= rhs` in three-valued logic.
    pub fn less_than_or_equal<F: FloatOps>(&self, rhs: &Variant, host: &F) -> (r: Variant)
        ensures
            r@ == self@.less_than_or_equal(host.model(), rhs@),
    {
        Variant::from_3vl(
            match self.compare(rhs, host) {
                None => 0,
                Some(c) => if c == -1 || c == 0 {
                    1
                } else {
                    -1
                },
            },
        )
    }

    /// `self >= rhs` in three-valued logic.
    pub fn greater_than_or_equal<F: FloatOps>(&self, rhs: &Variant, host: &F) -> (r: Variant)
        ensures
            r@ == self@.greater_than_or_equal(host.model(), rhs@),
    {
        Variant::from_3vl(
            match self.compare(rhs, host) {
                None => 0,
                Some(c) => if c == 0 || c == 1 {
                    1
                } else {
                    -1
                },
            },
        )
    }

    /// Whether the truth value is unknown.
    pub fn is_null(&self) -> (r: bool)
        ensures
            r == self@.is_null(),
    {
        self.to_3vl() == 0
    }

    /// Whether the truth value is true.
    pub fn tests_true(&self) -> (r: bool)
        ensures
            r == self@.tests_true(),
    {
        self.to_3vl() == 1
    }

    /// Kleene's negation.
    pub fn not(&self) -> (r: Variant)
        ensures
            r@ == self@.not(),
    {
        Variant::from_3vl(-self.to_3vl())
    }

    /// Kleene's conjunction.
    pub fn and(&self, rhs: &Variant) -> (r: Variant)
        ensures
            r@ == self@.and(rhs@),
    {
        let l: i8 = self.to_3vl();
        let r: i8 = rhs.to_3vl();
        Variant::from_3vl(
            if l < r {
                l
            } else {
                r
            },
        )
    }

    /// Kleene's disjunction.
    pub fn or(&self, rhs: &Variant) -> (r: Variant)
        ensures
            r@ == self@.or(rhs@),
    {
        let l: i8 = self.to_3vl();
        let r: i8 = rhs.to_3vl();
        Variant::from_3vl(
            if l > r {
                l
            } else {
                r
            },
        )
    }
}

/// Kleene's connectives on truth values: a conjunction has the lesser of
/// the two truth values, a disjunction the greater, a negation the
/// opposite.
pub proof fn lemma_kleene_connectives(a: Value, b: Value)
    ensures
        a.and(b).to_3vl() == vstd::math::min(a.to_3vl(), b.to_3vl()),
        a.or(b).to_3vl() == vstd::math::max(a.to_3vl(), b.to_3vl()),
        a.not().to_3vl() == -a.to_3vl(),
        -1 <= a.to_3vl() <= 1,
{
}

/// A comparison with NULL on either side is NULL.
pub proof fn lemma_comparison_with_null(floats: FloatModel, x: Value)
    ensures
        Value::Null.equals(floats, x) is Null,
        Value::Null.not_equals(floats, x) is Null,
        Value::Null.less_than(floats, x) is Null,
        Value::Null.greater_than(floats, x) is Null,
        Value::Null.less_than_or_equal(floats, x) is Null,
        Value::Null.greater_than_or_equal(floats, x) is Null,
        x.equals(floats, Value::Null) is Null,
        x.not_equals(floats, Value::Null) is Null,
        x.less_than(floats, Value::Null) is Null,
        x.greater_than(floats, Value::Null) is Null,
        x.less_than_or_equal(floats, Value::Null) is Null,
        x.greater_than_or_equal(floats, Value::Null) is Null,
        Value::Null.compare(floats, x) is None,
        x.compare(floats, Value::Null) is None,
{
}

} // verus!
