//! Doubles that are never NaN, held by their IEEE-754 bit pattern.

use vstd::prelude::*;

verus! {

/// The pattern without its sign bit.
pub open spec fn magnitude(bits: u64) -> u64 {
    (bits % 0x8000_0000_0000_0000) as u64
}

/// Whether the sign bit is set.
pub open spec fn is_negative(bits: u64) -> bool {
    bits >= 0x8000_0000_0000_0000
}

/// Whether the pattern is a NaN.
pub open spec fn is_nan(bits: u64) -> bool {
    magnitude(bits) > 0x7FF0_0000_0000_0000
}

/// Whether the pattern is one of the two zeros.
pub open spec fn is_zero(bits: u64) -> bool {
    magnitude(bits) == 0
}

/// The pattern with its sign flipped: the negated double.
pub open spec fn negated(bits: u64) -> u64 {
    if is_negative(bits) {
        (bits - 0x8000_0000_0000_0000) as u64
    } else {
        (bits + 0x8000_0000_0000_0000) as u64
    }
}

/// Where a pattern stands in the order of the doubles: patterns of
/// negative doubles count down from the middle, the others up from it. The
/// two zeros stand next to each other.
pub open spec fn order_key(bits: u64) -> int {
    if is_negative(bits) {
        0x7FFF_FFFF_FFFF_FFFF - bits
    } else {
        bits as int
    }
}

/// Numeric order of two doubles that are not NaN: `-1` where `a` is below
/// `b`, `1` where it is above, `0` where they are equal. The two zeros are
/// equal.
pub open spec fn numeric_order(a: u64, b: u64) -> int {
    if is_zero(a) && is_zero(b) {
        0
    } else if order_key(a) < order_key(b) {
        -1
    } else if order_key(a) > order_key(b) {
        1
    } else {
        0
    }
}

/// A double-precision floating point number that is guaranteed never to be
/// NaN, held by its bit pattern.
#[derive(Clone, Copy, Debug)]
pub struct F64NoNaN {
    bits: u64,
}

impl View for F64NoNaN {
    type V = u64;

    closed spec fn view(&self) -> u64 {
        self.bits
    }
}

impl F64NoNaN {
    #[verifier::type_invariant]
    spec fn not_nan(&self) -> bool {
        !is_nan(self.bits)
    }

    /// The double with the given bit pattern; `None` for a NaN.
    pub fn new(bits: u64) -> (r: Option<F64NoNaN>)
        ensures
            match r {
                Some(f) => f@ == bits && !is_nan(bits),
                None => is_nan(bits),
            },
    {
        if bits % 0x8000_0000_0000_0000 > 0x7FF0_0000_0000_0000 {
            None
        } else {
            Some(F64NoNaN { bits })
        }
    }

    /// Positive zero.
    pub fn zero() -> (r: F64NoNaN)
        ensures
            r@ == 0,
    {
        F64NoNaN { bits: 0 }
    }

    /// The bit pattern.
    pub fn to_bits(&self) -> (r: u64)
        ensures
            r == self@,
            !is_nan(r),
    {
        proof {
            use_type_invariant(self);
        }
        self.bits
    }

    /// Whether this is one of the two zeros.
    pub fn is_zero(&self) -> (r: bool)
        ensures
            r == is_zero(self@),
    {
        self.bits % 0x8000_0000_0000_0000 == 0
    }

    /// The negated double.
    pub fn negate(&self) -> (r: F64NoNaN)
        ensures
            r@ == negated(self@),
    {
        proof {
            use_type_invariant(self);
        }
        if self.bits >= 0x8000_0000_0000_0000 {
            F64NoNaN { bits: self.bits - 0x8000_0000_0000_0000 }
        } else {
            F64NoNaN { bits: self.bits + 0x8000_0000_0000_0000 }
        }
    }

    /// Numeric order: `-1`, `0` or `1`.
    pub fn compare(&self, other: &F64NoNaN) -> (r: i8)
        ensures
            r as int == numeric_order(self@, other@),
    {
        let a: u64 = self.bits;
        let b: u64 = other.bits;
        if a % 0x8000_0000_0000_0000 == 0 && b % 0x8000_0000_0000_0000 == 0 {
            return 0;
        }
        let a_neg: bool = a >= 0x8000_0000_0000_0000;
        let b_neg: bool = b >= 0x8000_0000_0000_0000;
        if a_neg && !b_neg {
            -1
        } else if !a_neg && b_neg {
            1
        } else if a_neg {
            if a > b {
                -1
            } else if a < b {
                1
            } else {
                0
            }
        } else {
            if a < b {
                -1
            } else if a > b {
                1
            } else {
                0
            }
        }
    }
}

} // verus!
