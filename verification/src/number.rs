//! Real numbers as they arrive from decoded data: IEEE 754 binary64 values,
//! held by their bit pattern and read as exact fractions.

use vstd::arithmetic::power2::*;
use vstd::prelude::*;

verus! {

/// Two to the power 52: the weight of the hidden bit of a normal number.
pub const HIDDEN_BIT: u64 = 0x10_0000_0000_0000;

/// Two to the power 63: the weight of the sign bit.
pub const SIGN_BIT: u64 = 0x8000_0000_0000_0000;

/// A binary64 number, held by its bit pattern.
///
/// A finite value is `numerator() / denominator()` exactly; the two zeros
/// have numerator 0. Infinities and NaNs are the patterns whose exponent
/// field is all ones.
#[derive(Clone, Copy, Debug, PartialEq, Eq, Structural)]
pub struct Binary64 {
    pub bits: u64,
}

impl Binary64 {
    /// Whether the sign bit is set.
    pub open spec fn negative(self) -> bool {
        self.bits >= SIGN_BIT
    }

    /// The eleven-bit exponent field.
    pub open spec fn exponent_field(self) -> int {
        (self.bits as int / HIDDEN_BIT as int) % 2048
    }

    /// The 52-bit fraction field.
    pub open spec fn fraction_field(self) -> int {
        self.bits as int % HIDDEN_BIT as int
    }

    /// Neither an infinity nor a NaN.
    pub open spec fn finite(self) -> bool {
        self.exponent_field() != 2047
    }

    /// The integer `m` of the reading `m * 2^exponent()` of the magnitude.
    pub open spec fn significand(self) -> int {
        if self.exponent_field() == 0 {
            self.fraction_field()
        } else {
            self.fraction_field() + HIDDEN_BIT as int
        }
    }

    /// The power of two by which `significand()` is scaled.
    pub open spec fn exponent(self) -> int {
        if self.exponent_field() == 0 {
            -1074
        } else {
            self.exponent_field() - 1075
        }
    }

    /// Numerator of the value of a finite number.
    pub open spec fn numerator(self) -> int {
        let magnitude = if self.exponent() >= 0 {
            self.significand() * pow2(self.exponent() as nat)
        } else {
            self.significand()
        };
        if self.negative() {
            -magnitude
        } else {
            magnitude
        }
    }

    /// Denominator of the value of a finite number: a positive power of two.
    pub open spec fn denominator(self) -> int {
        if self.exponent() >= 0 {
            1
        } else {
            pow2((-self.exponent()) as nat) as int
        }
    }

    /// The number with the given bit pattern.
    pub fn from_bits(bits: u64) -> (r: Binary64)
        ensures
            r.bits == bits,
    {
        Binary64 { bits }
    }

    /// Positive zero, the value that stands in for a missing number.
    pub fn zero() -> (r: Binary64)
        ensures
            r.bits == 0,
            r.finite(),
            r.numerator() == 0,
            r.denominator() == pow2(1074),
    {
        Binary64 { bits: 0 }
    }

    /// The bit pattern.
    pub fn to_bits(&self) -> (bits: u64)
        ensures
            bits == self.bits,
    {
        self.bits
    }

    /// Whether the sign bit is set.
    pub fn is_negative(&self) -> (r: bool)
        ensures
            r == self.negative(),
    {
        self.bits >= SIGN_BIT
    }

    /// Whether the number is neither an infinity nor a NaN.
    pub fn is_finite(&self) -> (r: bool)
        ensures
            r == self.finite(),
    {
        (self.bits / HIDDEN_BIT) % 2048 != 2047
    }

    /// The significand and the exponent of the magnitude.
    pub fn parts(&self) -> (r: (u64, i32))
        ensures
            r.0 == self.significand(),
            r.1 == self.exponent(),
            r.0 < 2 * HIDDEN_BIT,
            -1074 <= r.1 <= 972,
            self.finite() ==> r.1 <= 971,
    {
        let field: u64 = (self.bits / HIDDEN_BIT) % 2048;
        let fraction: u64 = self.bits % HIDDEN_BIT;
        if field == 0 {
            (fraction, -1074)
        } else {
            (fraction + HIDDEN_BIT, field as i32 - 1075)
        }
    }
}

} // verus!
