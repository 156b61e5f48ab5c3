//! Double-precision numbers as plain data.
//!
//! A measured quantity travels through this library as the 64 bits of its
//! IEEE 754 binary64 encoding: one sign bit, eleven exponent bits and
//! fifty-two fraction bits, most significant first. Read as an unsigned
//! integer, the encodings of each sign are ordered like the magnitudes they
//! stand for, so that the questions asked here (is the number a NaN, is it
//! at most zero) are comparisons of integers.

use vstd::prelude::*;

verus! {

/// The encoding of negative zero: the sign bit alone.
pub const SIGN_BIT: u64 = 0x8000_0000_0000_0000;

/// The encoding of positive infinity: all exponent bits, no fraction bit.
pub const INFINITY: u64 = 0x7ff0_0000_0000_0000;

/// A double-precision number, held as its IEEE 754 binary64 bit pattern.
#[derive(Clone, Copy, Debug, PartialEq, Eq, Structural)]
pub struct DoubleBits {
    /// The encoding, as an unsigned integer.
    pub bits: u64,
}

impl DoubleBits {
    /// The encoding without its sign bit.
    pub open spec fn magnitude(self) -> int {
        if self.bits >= SIGN_BIT {
            self.bits - SIGN_BIT
        } else {
            self.bits as int
        }
    }

    /// The sign bit is set.
    pub open spec fn sign_negative(self) -> bool {
        self.bits >= SIGN_BIT
    }

    /// The number is not a number: its magnitude lies beyond infinity.
    pub open spec fn is_nan(self) -> bool {
        self.magnitude() > INFINITY
    }

    /// The number is positive or negative zero.
    pub open spec fn is_zero(self) -> bool {
        self.magnitude() == 0
    }

    /// The number is greater than zero; positive infinity is.
    pub open spec fn is_positive(self) -> bool {
        !self.is_nan() && !self.is_zero() && !self.sign_negative()
    }

    /// The number is at most zero; both zeros and negative infinity are, no
    /// NaN is.
    pub open spec fn is_non_positive(self) -> bool {
        !self.is_nan() && (self.is_zero() || self.sign_negative())
    }

    /// Whether the number is at most zero.
    pub fn non_positive(self) -> (b: bool)
        ensures
            b == self.is_non_positive(),
    {
        self.bits == 0 || (SIGN_BIT <= self.bits && self.bits <= SIGN_BIT + INFINITY)
    }

    /// Every number is exactly one of: a NaN, greater than zero, at most
    /// zero.
    pub proof fn lemma_trichotomy(self)
        ensures
            self.is_nan() || self.is_positive() || self.is_non_positive(),
            !(self.is_nan() && self.is_positive()),
            !(self.is_nan() && self.is_non_positive()),
            !(self.is_positive() && self.is_non_positive()),
    {
    }
}

} // verus!
