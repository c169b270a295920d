//! Real numbers that pass through the library by their IEEE 754 bit patterns.

use vstd::prelude::*;

verus! {

/// A double precision number, held as its bit pattern.
#[derive(Clone, Copy, Debug, PartialEq, Eq, Structural)]
pub struct Real64 {
    pub bits: u64,
}

/// A single precision number, held as its bit pattern.
#[derive(Clone, Copy, Debug, PartialEq, Eq, Structural)]
pub struct Real32 {
    pub bits: u32,
}

/// The bit pattern of the sign alone.
pub const SIGN_BIT: u64 = 0x8000_0000_0000_0000;

/// The bit pattern of positive infinity: a larger magnitude is not a number.
pub const INFINITY_BITS: u64 = 0x7FF0_0000_0000_0000;

impl Real64 {
    /// The bits below the sign.
    pub open spec fn magnitude(self) -> int {
        if self.bits >= SIGN_BIT {
            self.bits - SIGN_BIT
        } else {
            self.bits as int
        }
    }

    /// The pattern stands for no number.
    pub open spec fn is_nan(self) -> bool {
        self.magnitude() > INFINITY_BITS
    }

    /// An integer that orders the numbers as their values do; both zeros have rank 0.
    pub open spec fn rank(self) -> int {
        if self.bits >= SIGN_BIT {
            -self.magnitude()
        } else {
            self.magnitude()
        }
    }

    /// Zero.
    pub fn zero() -> (r: Real64)
        ensures
            r.bits == 0,
            r.rank() == 0,
            !r.is_nan(),
    {
        Real64 { bits: 0 }
    }

    /// Whether the number is at least `other`; false where either is not a number.
    pub fn at_least(self, other: Real64) -> (r: bool)
        ensures
            r == (!self.is_nan() && !other.is_nan() && self.rank() >= other.rank()),
    {
        let a: u64 = if self.bits >= SIGN_BIT { self.bits - SIGN_BIT } else { self.bits };
        let b: u64 = if other.bits >= SIGN_BIT { other.bits - SIGN_BIT } else { other.bits };
        if a > INFINITY_BITS || b > INFINITY_BITS {
            return false;
        }
        if self.bits >= SIGN_BIT {
            if other.bits >= SIGN_BIT {
                a <= b
            } else {
                a == 0 && b == 0
            }
        } else {
            if other.bits >= SIGN_BIT {
                true
            } else {
                a >= b
            }
        }
    }

    /// Whether the number is below zero.
    pub fn is_negative(self) -> (r: bool)
        ensures
            r == (!self.is_nan() && self.rank() < 0),
    {
        SIGN_BIT < self.bits && self.bits - SIGN_BIT <= INFINITY_BITS
    }

    /// Whether the number is above zero.
    pub fn is_positive(self) -> (r: bool)
        ensures
            r == (!self.is_nan() && self.rank() > 0),
    {
        0 < self.bits && self.bits <= INFINITY_BITS
    }
}

} // verus!
