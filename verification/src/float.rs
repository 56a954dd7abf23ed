//! Floating-point readings, carried as IEEE 754 binary64 bit patterns and
//! ordered by integer arithmetic on those patterns.
use vstd::prelude::*;

verus! {

/// The bit that holds the sign in a binary64 pattern.
pub const SIGN_BIT: u64 = 0x8000_0000_0000_0000;

/// The pattern of positive infinity; a larger magnitude is not a number.
pub const INFINITY_BITS: u64 = 0x7ff0_0000_0000_0000;

/// A binary64 number, held by its bit pattern.
#[derive(Clone, Copy, Debug, PartialEq, Eq, Hash, Structural)]
pub struct FloatBits {
    pub bits: u64,
}

impl FloatBits {
    /// Whether the sign bit is set.
    pub open spec fn spec_negative(self) -> bool {
        self.bits >= SIGN_BIT
    }

    /// The pattern without its sign bit.
    pub open spec fn spec_magnitude(self) -> int {
        if self.bits >= SIGN_BIT {
            self.bits - SIGN_BIT
        } else {
            self.bits as int
        }
    }

    /// Whether the pattern is not a number.
    pub open spec fn spec_is_nan(self) -> bool {
        self.spec_magnitude() > INFINITY_BITS
    }

    /// Where the number stands among all binary64 numbers: patterns of
    /// non-negative numbers grow with the number, those of negative numbers
    /// with its distance from zero, and both zeros stand at 0.
    pub open spec fn spec_rank(self) -> int {
        if self.spec_negative() {
            -self.spec_magnitude()
        } else {
            self.spec_magnitude()
        }
    }

    /// Whether `self` is greater than `other` as numbers: neither is not a
    /// number, and `self` stands higher.
    pub open spec fn spec_gt(self, other: FloatBits) -> bool {
        &&& !self.spec_is_nan()
        &&& !other.spec_is_nan()
        &&& self.spec_rank() > other.spec_rank()
    }

    /// The number with the pattern `bits`.
    pub fn from_bits(bits: u64) -> (r: FloatBits)
        ensures
            r.bits == bits,
    {
        FloatBits { bits }
    }

    /// The pattern of the number.
    pub fn to_bits(&self) -> (r: u64)
        ensures
            r == self.bits,
    {
        self.bits
    }

    /// Tests whether the sign bit is set.
    pub fn is_negative(&self) -> (r: bool)
        ensures
            r == self.spec_negative(),
    {
        self.bits >= SIGN_BIT
    }

    /// The pattern without its sign bit.
    pub fn magnitude(&self) -> (r: u64)
        ensures
            r == self.spec_magnitude(),
    {
        if self.bits >= SIGN_BIT {
            self.bits - SIGN_BIT
        } else {
            self.bits
        }
    }

    /// Tests whether the pattern is not a number.
    pub fn is_nan(&self) -> (r: bool)
        ensures
            r == self.spec_is_nan(),
    {
        self.magnitude() > INFINITY_BITS
    }

    /// Tests whether `self` is greater than `other` as numbers.
    pub fn gt(&self, other: &FloatBits) -> (r: bool)
        ensures
            r == self.spec_gt(*other),
    {
        if self.is_nan() || other.is_nan() {
            return false;
        }
        let a: u64 = self.magnitude();
        let b: u64 = other.magnitude();
        match (self.is_negative(), other.is_negative()) {
            (false, false) => a > b,
            (false, true) => a > 0 || b > 0,
            (true, false) => false,
            (true, true) => a < b,
        }
    }
}

} // verus!
