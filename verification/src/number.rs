//! Numbers of the language: IEEE-754 double-precision values, carried as
//! their 64-bit patterns.
//!
//! Everything that can be read off the bits is decided here: sign, zero,
//! not-a-number, order, equality and whether a value has a fractional part.
//! Rounded arithmetic and decimal text are not computed in this module.
use vstd::prelude::*;

verus! {

/// The sign bit of a double.
pub const SIGN_BIT: u64 = 0x8000_0000_0000_0000;

/// Bits of positive infinity: all exponent bits set, fraction zero.
pub const INFINITY_BITS: u64 = 0x7ff0_0000_0000_0000;

/// The pattern with its sign bit cleared.
pub open spec fn magnitude(bits: u64) -> u64 {
    if bits >= SIGN_BIT {
        (bits - SIGN_BIT) as u64
    } else {
        bits
    }
}

/// Whether the sign bit is set.
pub open spec fn is_negative(bits: u64) -> bool {
    bits >= SIGN_BIT
}

/// Not-a-number: exponent all ones and a fraction that is not zero.
pub open spec fn is_nan(bits: u64) -> bool {
    magnitude(bits) > INFINITY_BITS
}

/// Positive or negative zero.
pub open spec fn is_zero(bits: u64) -> bool {
    magnitude(bits) == 0
}

/// The pattern with its sign bit flipped.
pub open spec fn negated(bits: u64) -> u64 {
    if bits >= SIGN_BIT {
        (bits - SIGN_BIT) as u64
    } else {
        (bits + SIGN_BIT) as u64
    }
}

/// Where a pattern that is not a NaN stands in numeric order: doubles of one
/// sign are ordered as their magnitudes are, and both zeros stand at 0.
pub open spec fn rank(bits: u64) -> int {
    if bits >= SIGN_BIT {
        -(magnitude(bits) as int)
    } else {
        magnitude(bits) as int
    }
}

/// Numeric `<`: false as soon as either side is a NaN.
pub open spec fn less(a: u64, b: u64) -> bool {
    !is_nan(a) && !is_nan(b) && rank(a) < rank(b)
}

/// Numeric `==`: a NaN equals nothing, and the two zeros are equal.
pub open spec fn same(a: u64, b: u64) -> bool {
    !is_nan(a) && !is_nan(b) && rank(a) == rank(b)
}

/// Numeric `<=`.
pub open spec fn at_most(a: u64, b: u64) -> bool {
    less(a, b) || same(a, b)
}

/// The biased exponent, 0 to 2047.
pub open spec fn exponent(bits: u64) -> int {
    magnitude(bits) as int / 0x10_0000_0000_0000
}

/// Whether the value equals itself with the fractional part cut off.
///
/// An infinity and a zero do; a NaN does not. A finite value below one in
/// size does not, one of at least 2^52 does. Between, the value is
/// `1.f * 2^(e - 1023)` and the lowest `1075 - e` bits of the fraction hold
/// what lies behind the binary point: shifting left by `e - 1011` pushes
/// everything else out of the word.
pub open spec fn is_whole(bits: u64) -> bool {
    let m = magnitude(bits);
    let e = exponent(bits);
    if m > INFINITY_BITS {
        false
    } else if m == INFINITY_BITS || m == 0 {
        true
    } else if e < 1023 {
        false
    } else if e >= 1075 {
        true
    } else {
        m << ((e - 1011) as u64) == 0
    }
}

/// A double-precision number, held as its bits.
#[derive(Clone, Copy, Debug)]
pub struct Number {
    pub bits: u64,
}

impl Number {
    /// The number with the given IEEE-754 pattern.
    pub fn from_bits(bits: u64) -> (n: Number)
        ensures
            n.bits == bits,
    {
        Number { bits }
    }

    /// The IEEE-754 pattern.
    pub fn to_bits(&self) -> (bits: u64)
        ensures
            bits == self.bits,
    {
        self.bits
    }

    fn magnitude(&self) -> (m: u64)
        ensures
            m == magnitude(self.bits),
    {
        if self.bits >= SIGN_BIT {
            self.bits - SIGN_BIT
        } else {
            self.bits
        }
    }

    /// Whether this is a NaN.
    pub fn is_nan(&self) -> (r: bool)
        ensures
            r == is_nan(self.bits),
    {
        self.magnitude() > INFINITY_BITS
    }

    /// Whether this is `0.0` or `-0.0`.
    pub fn is_zero(&self) -> (r: bool)
        ensures
            r == is_zero(self.bits),
    {
        self.magnitude() == 0
    }

    /// The number with the opposite sign; a NaN stays a NaN.
    pub fn negate(&self) -> (n: Number)
        ensures
            n.bits == negated(self.bits),
            magnitude(n.bits) == magnitude(self.bits),
            is_negative(n.bits) != is_negative(self.bits),
    {
        if self.bits >= SIGN_BIT {
            Number { bits: self.bits - SIGN_BIT }
        } else {
            Number { bits: self.bits + SIGN_BIT }
        }
    }

    /// Numeric `<`.
    pub fn less_than(&self, other: &Number) -> (r: bool)
        ensures
            r == less(self.bits, other.bits),
    {
        let a: u64 = self.magnitude();
        let b: u64 = other.magnitude();
        if a > INFINITY_BITS || b > INFINITY_BITS {
            return false;
        }
        let a_negative = self.bits >= SIGN_BIT;
        let b_negative = other.bits >= SIGN_BIT;
        if a_negative {
            if b_negative {
                a > b
            } else {
                a != 0 || b != 0
            }
        } else {
            if b_negative {
                false
            } else {
                a < b
            }
        }
    }

    /// Numeric `==`.
    pub fn equals(&self, other: &Number) -> (r: bool)
        ensures
            r == same(self.bits, other.bits),
    {
        let a: u64 = self.magnitude();
        let b: u64 = other.magnitude();
        if a > INFINITY_BITS || b > INFINITY_BITS {
            return false;
        }
        if a == 0 && b == 0 {
            return true;
        }
        self.bits == other.bits
    }

    /// Numeric `<=`.
    pub fn at_most(&self, other: &Number) -> (r: bool)
        ensures
            r == at_most(self.bits, other.bits),
    {
        self.less_than(other) || self.equals(other)
    }

    /// Whether the number has no fractional part.
    pub fn is_whole(&self) -> (r: bool)
        ensures
            r == is_whole(self.bits),
    {
        let m: u64 = self.magnitude();
        if m > INFINITY_BITS {
            return false;
        }
        if m == INFINITY_BITS || m == 0 {
            return true;
        }
        let e: u64 = m / 0x10_0000_0000_0000;
        if e < 1023 {
            false
        } else if e >= 1075 {
            true
        } else {
            m << (e - 1011) == 0
        }
    }
}

/// Numeric equality is symmetric, and reflexive on everything but a NaN.
pub proof fn same_is_symmetric(a: u64, b: u64)
    ensures
        same(a, b) == same(b, a),
        same(a, a) == !is_nan(a),
{
}

/// Of two numbers at most one is below the other, and none is below itself.
pub proof fn less_is_strict(a: u64, b: u64)
    ensures
        !(less(a, b) && less(b, a)),
        !less(a, a),
        !(less(a, b) && same(a, b)),
{
}

/// Flipping the sign twice gives the number back, and turns the order round.
pub proof fn negated_twice(a: u64, b: u64)
    ensures
        negated(negated(a)) == a,
        less(a, b) == less(negated(b), negated(a)),
{
}

} // verus!
