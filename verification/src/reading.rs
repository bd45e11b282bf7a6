//! Measured values.

use vstd::prelude::*;

verus! {

/// A measured value: an IEEE 754 double, held by its bit pattern.
#[derive(Debug, Clone, Copy, PartialEq, Eq, Structural)]
pub struct Reading {
    /// The bit pattern: sign, exponent, fraction.
    pub bits: u64,
}

/// The bit of the sign.
pub const SIGN_BIT: u64 = 0x8000_0000_0000_0000;

/// The magnitude of infinity. A larger one is no number.
pub const INFINITY: u64 = 0x7ff0_0000_0000_0000;

impl Reading {
    /// The bit pattern without the sign.
    pub open spec fn magnitude(self) -> int {
        if self.bits < SIGN_BIT {
            self.bits as int
        } else {
            self.bits - SIGN_BIT
        }
    }

    /// True of the patterns that stand for no number.
    pub open spec fn is_nan(self) -> bool {
        self.magnitude() > INFINITY
    }

    /// A rank that orders numbers by their value; both zeros have rank 0.
    pub open spec fn rank(self) -> int {
        if self.bits < SIGN_BIT {
            self.magnitude()
        } else {
            -self.magnitude()
        }
    }

    /// Numeric order; nothing is less than, or more than, what is no number.
    pub open spec fn less_than(self, other: Reading) -> bool {
        !self.is_nan() && !other.is_nan() && self.rank() < other.rank()
    }

    /// True of a number that is not below zero.
    pub open spec fn non_negative(self) -> bool {
        !self.is_nan() && self.rank() >= 0
    }

    /// Positive zero.
    pub open spec fn spec_zero() -> Reading {
        Reading { bits: 0 }
    }

    /// Positive zero.
    pub fn zero() -> (r: Reading)
        ensures
            r == Reading::spec_zero(),
    {
        Reading { bits: 0 }
    }

    fn abs_bits(&self) -> (r: u64)
        ensures
            r == self.magnitude(),
    {
        if self.bits < SIGN_BIT {
            self.bits
        } else {
            self.bits - SIGN_BIT
        }
    }

    /// Compares two values as numbers.
    pub fn lt(&self, other: &Reading) -> (r: bool)
        ensures
            r == self.less_than(*other),
    {
        let a = self.abs_bits();
        let b = other.abs_bits();
        if a > INFINITY || b > INFINITY {
            false
        } else if self.bits < SIGN_BIT {
            other.bits < SIGN_BIT && a < b
        } else if other.bits < SIGN_BIT {
            a > 0 || b > 0
        } else {
            b < a
        }
    }

    /// Tests for a number.
    pub fn is_number(&self) -> (r: bool)
        ensures
            r == !self.is_nan(),
    {
        self.abs_bits() <= INFINITY
    }

    /// Tests for a number that is not below zero.
    pub fn at_least_zero(&self) -> (r: bool)
        ensures
            r == self.non_negative(),
    {
        let a = self.abs_bits();
        a <= INFINITY && (self.bits < SIGN_BIT || a == 0)
    }
}

/// The order of numbers is strict, and no two of them are both smaller than
/// the other.
pub proof fn lemma_order(a: Reading, b: Reading, c: Reading)
    ensures
        !a.less_than(a),
        a.less_than(b) ==> !b.less_than(a),
        a.less_than(b) && b.less_than(c) ==> a.less_than(c),
{
}

/// Numbers compare as the doubles that their bits stand for: positive ones by
/// their bits, negative ones the other way round, a negative one below a
/// positive one, and the two zeros alike. What is no number compares with
/// nothing.
pub proof fn lemma_bits_compare(a: Reading, b: Reading)
    ensures
        a.bits <= 0x7ff0_0000_0000_0000 && b.bits <= 0x7ff0_0000_0000_0000 ==> a.less_than(b) == (
        a.bits < b.bits),
        0x8000_0000_0000_0000 <= a.bits <= 0xfff0_0000_0000_0000 && 0x8000_0000_0000_0000 <= b.bits
            <= 0xfff0_0000_0000_0000 ==> a.less_than(b) == (b.bits < a.bits),
        0x8000_0000_0000_0000 < a.bits <= 0xfff0_0000_0000_0000 && b.bits <= 0x7ff0_0000_0000_0000
            ==> a.less_than(b) && !b.less_than(a),
        a.bits == 0x8000_0000_0000_0000 && b.bits <= 0x7ff0_0000_0000_0000 ==> a.less_than(b) == (
        b.bits > 0) && !b.less_than(a),
        a.bits > 0xfff0_0000_0000_0000 || 0x7ff0_0000_0000_0000 < a.bits < 0x8000_0000_0000_0000
            ==> !a.less_than(b) && !b.less_than(a),
{
}

/// The bits tell numbers from what is none, and numbers below zero from the
/// others.
pub proof fn lemma_bits_tell(a: Reading)
    ensures
        a.is_nan() == (a.bits > 0xfff0_0000_0000_0000 || 0x7ff0_0000_0000_0000 < a.bits
            < 0x8000_0000_0000_0000),
        a.non_negative() == (a.bits <= 0x7ff0_0000_0000_0000 || a.bits == 0x8000_0000_0000_0000),
        Reading::spec_zero().bits == 0,
{
}

} // verus!
