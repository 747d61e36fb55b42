//! Binary floating-point values carried by their IEEE 754 bit patterns.
//!
//! Prices, volumes and ratios arrive as binary64 (or binary32) numbers. The
//! library keeps the exact bit pattern and decides every comparison it needs
//! from it, following IEEE 754: NaN compares false with everything, the two
//! zeros are equal, and otherwise the order is that of sign and magnitude.

use vstd::prelude::*;

verus! {

/// A binary64 number, kept as its bit pattern (`f64::to_bits`).
#[derive(Clone, Copy, PartialEq, Eq, Structural, Debug)]
pub struct Ieee64 {
    pub bits: u64,
}

/// A binary32 number, kept as its bit pattern (`f32::to_bits`).
#[derive(Clone, Copy, PartialEq, Eq, Structural, Debug)]
pub struct Ieee32 {
    pub bits: u32,
}

pub open spec fn sign64() -> int { 0x8000_0000_0000_0000 }
pub open spec fn inf64() -> int { 0x7FF0_0000_0000_0000 }
pub open spec fn sign32() -> int { 0x8000_0000 }
pub open spec fn inf32() -> int { 0x7F80_0000 }

impl Ieee64 {
    /// Magnitude bits: everything but the sign bit.
    pub open spec fn mag(self) -> int { self.bits as int % sign64() }

    pub open spec fn negative_sign(self) -> bool { self.bits as int >= sign64() }

    pub open spec fn is_nan_spec(self) -> bool { self.mag() > inf64() }

    pub open spec fn is_finite_spec(self) -> bool { self.mag() < inf64() }

    /// Position on the real line (infinities included) for values that are not NaN.
    pub open spec fn key(self) -> int {
        if self.negative_sign() { -self.mag() } else { self.mag() }
    }

    /// IEEE `self < other`.
    pub open spec fn lt_spec(self, other: Ieee64) -> bool {
        !self.is_nan_spec() && !other.is_nan_spec() && self.key() < other.key()
    }

    /// IEEE `self <= other`.
    pub open spec fn le_spec(self, other: Ieee64) -> bool {
        !self.is_nan_spec() && !other.is_nan_spec() && self.key() <= other.key()
    }

    /// IEEE `self == other`.
    pub open spec fn eq_spec(self, other: Ieee64) -> bool {
        !self.is_nan_spec() && !other.is_nan_spec() && self.key() == other.key()
    }

    /// IEEE `self == 0.0`.
    pub open spec fn is_zero_spec(self) -> bool { self.mag() == 0 }

    /// IEEE `self > 0.0`.
    pub open spec fn is_positive_spec(self) -> bool {
        !self.negative_sign() && self.mag() > 0 && !self.is_nan_spec()
    }

    /// IEEE `self < 0.0`.
    pub open spec fn is_negative_spec(self) -> bool {
        self.negative_sign() && self.mag() > 0 && !self.is_nan_spec()
    }

    pub fn from_bits(bits: u64) -> (r: Ieee64)
        ensures r.bits == bits,
    {
        Ieee64 { bits }
    }

    pub fn to_bits(self) -> (r: u64)
        ensures r == self.bits,
    {
        self.bits
    }

    /// The positive zero.
    pub fn zero() -> (r: Ieee64)
        ensures r.bits == 0,
    {
        Ieee64 { bits: 0 }
    }

    fn magnitude(self) -> (m: u64)
        ensures m == self.mag(),
    {
        self.bits % 0x8000_0000_0000_0000u64
    }

    /// `f64::is_finite`.
    pub fn is_finite(self) -> (r: bool)
        ensures r == self.is_finite_spec(),
    {
        self.magnitude() < 0x7FF0_0000_0000_0000u64
    }

    /// `f64::is_nan`.
    pub fn is_nan(self) -> (r: bool)
        ensures r == self.is_nan_spec(),
    {
        self.magnitude() > 0x7FF0_0000_0000_0000u64
    }

    /// `self == 0.0`.
    pub fn is_zero(self) -> (r: bool)
        ensures r == self.is_zero_spec(),
    {
        self.magnitude() == 0
    }

    /// `self > 0.0`.
    pub fn is_positive(self) -> (r: bool)
        ensures r == self.is_positive_spec(),
    {
        self.bits < 0x8000_0000_0000_0000u64 && self.bits > 0 && !self.is_nan()
    }

    /// `self < 0.0`.
    pub fn is_negative(self) -> (r: bool)
        ensures r == self.is_negative_spec(),
    {
        self.bits > 0x8000_0000_0000_0000u64 && !self.is_nan()
    }

    /// `self < other`.
    pub fn lt(self, other: Ieee64) -> (r: bool)
        ensures r == self.lt_spec(other),
    {
        if self.is_nan() || other.is_nan() {
            return false;
        }
        let a = self.magnitude();
        let b = other.magnitude();
        let a_neg = self.bits >= 0x8000_0000_0000_0000u64;
        let b_neg = other.bits >= 0x8000_0000_0000_0000u64;
        if a_neg && b_neg {
            b < a
        } else if a_neg {
            !(a == 0 && b == 0)
        } else if b_neg {
            false
        } else {
            a < b
        }
    }

    /// `self <= other`.
    pub fn le(self, other: Ieee64) -> (r: bool)
        ensures r == self.le_spec(other),
    {
        !self.is_nan() && !other.is_nan() && !other.lt(self)
    }

    /// `self == other`.
    pub fn eq(self, other: Ieee64) -> (r: bool)
        ensures r == self.eq_spec(other),
    {
        self.le(other) && other.le(self)
    }
}

impl Ieee32 {
    pub open spec fn mag(self) -> int { self.bits as int % sign32() }

    pub open spec fn negative_sign(self) -> bool { self.bits as int >= sign32() }

    pub open spec fn is_nan_spec(self) -> bool { self.mag() > inf32() }

    pub open spec fn key(self) -> int {
        if self.negative_sign() { -self.mag() } else { self.mag() }
    }

    /// IEEE `self < other`.
    pub open spec fn lt_spec(self, other: Ieee32) -> bool {
        !self.is_nan_spec() && !other.is_nan_spec() && self.key() < other.key()
    }

    /// IEEE `self <= other`.
    pub open spec fn le_spec(self, other: Ieee32) -> bool {
        !self.is_nan_spec() && !other.is_nan_spec() && self.key() <= other.key()
    }

    pub fn from_bits(bits: u32) -> (r: Ieee32)
        ensures r.bits == bits,
    {
        Ieee32 { bits }
    }

    pub fn to_bits(self) -> (r: u32)
        ensures r == self.bits,
    {
        self.bits
    }

    /// The positive zero.
    pub fn zero() -> (r: Ieee32)
        ensures r.bits == 0,
    {
        Ieee32 { bits: 0 }
    }

    /// The number one (`0x3F80_0000`).
    pub fn one() -> (r: Ieee32)
        ensures r.bits == 0x3F80_0000,
    {
        Ieee32 { bits: 0x3F80_0000 }
    }

    fn magnitude(self) -> (m: u32)
        ensures m == self.mag(),
    {
        self.bits % 0x8000_0000u32
    }

    pub fn is_nan(self) -> (r: bool)
        ensures r == self.is_nan_spec(),
    {
        self.magnitude() > 0x7F80_0000u32
    }

    /// `self < other`.
    pub fn lt(self, other: Ieee32) -> (r: bool)
        ensures r == self.lt_spec(other),
    {
        if self.is_nan() || other.is_nan() {
            return false;
        }
        let a = self.magnitude();
        let b = other.magnitude();
        let a_neg = self.bits >= 0x8000_0000u32;
        let b_neg = other.bits >= 0x8000_0000u32;
        if a_neg && b_neg {
            b < a
        } else if a_neg {
            !(a == 0 && b == 0)
        } else if b_neg {
            false
        } else {
            a < b
        }
    }

    /// `self <= other`.
    pub fn le(self, other: Ieee32) -> (r: bool)
        ensures r == self.le_spec(other),
    {
        !self.is_nan() && !other.is_nan() && !other.lt(self)
    }
}

} // verus!
