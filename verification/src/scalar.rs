//! Simulation quantities carried by their bit pattern.
//!
//! The simulation works in 32-bit binary floating point. The core never does
//! arithmetic on such a quantity: it stores it, hands it back unchanged and
//! decides whether two of them are near each other. All of that is done on
//! the bit pattern, so that a stored value is restored exactly.

use vstd::prelude::*;

verus! {

/// The first bit pattern whose sign bit is set.
pub const SIGN_BIT: u32 = 0x8000_0000;

/// The pattern of positive infinity. Patterns whose magnitude lies above it
/// are no numbers.
pub const INFINITY_BITS: u32 = 0x7f80_0000;

/// A 32-bit floating-point quantity, held as its bit pattern.
#[derive(Clone, Copy, PartialEq, Eq, Structural, Debug)]
pub struct Scalar {
    pub bits: u32,
}

impl Scalar {
    /// The position of the pattern on the number line of representable
    /// values: patterns without the sign bit count upwards from positive
    /// zero at 0, those with it count downwards from negative zero at -1.
    /// No two patterns share a position.
    pub open spec fn key(self) -> int {
        if self.bits < SIGN_BIT {
            self.bits as int
        } else {
            SIGN_BIT - self.bits - 1
        }
    }

    /// The number of representable steps between two quantities.
    pub open spec fn distance(self, other: Scalar) -> nat {
        vstd::math::abs(self.key() - other.key())
    }

    /// Whether two quantities lie at most `tolerance` steps apart.
    pub open spec fn close_to(self, other: Scalar, tolerance: u32) -> bool {
        self.distance(other) <= tolerance
    }

    /// The pattern without its sign bit: the pattern of the absolute value.
    /// Among numbers, a larger magnitude is a larger absolute value.
    pub open spec fn magnitude(self) -> u32 {
        if self.bits >= SIGN_BIT {
            (self.bits - SIGN_BIT) as u32
        } else {
            self.bits
        }
    }

    /// Whether the pattern is that of a number: finite or infinite.
    pub open spec fn is_number(self) -> bool {
        self.magnitude() <= INFINITY_BITS
    }

    /// The pattern with the other sign: the pattern of the negated value.
    pub open spec fn negated_spec(self) -> Scalar {
        if self.bits >= SIGN_BIT {
            Scalar { bits: (self.bits - SIGN_BIT) as u32 }
        } else {
            Scalar { bits: (self.bits + SIGN_BIT) as u32 }
        }
    }

    pub fn magnitude_bits(self) -> (m: u32)
        ensures
            m == self.magnitude(),
    {
        if self.bits >= SIGN_BIT {
            self.bits - SIGN_BIT
        } else {
            self.bits
        }
    }

    pub fn negated(self) -> (s: Scalar)
        ensures
            s == self.negated_spec(),
    {
        if self.bits >= SIGN_BIT {
            Scalar { bits: self.bits - SIGN_BIT }
        } else {
            Scalar { bits: self.bits + SIGN_BIT }
        }
    }

    pub fn from_bits(bits: u32) -> (s: Scalar)
        ensures
            s.bits == bits,
    {
        Scalar { bits }
    }

    pub fn to_bits(self) -> (bits: u32)
        ensures
            bits == self.bits,
    {
        self.bits
    }

    /// Positive zero.
    pub fn zero() -> (s: Scalar)
        ensures
            s.bits == 0,
    {
        Scalar { bits: 0 }
    }

    fn position(self) -> (k: i64)
        ensures
            k == self.key(),
    {
        if self.bits < SIGN_BIT {
            self.bits as i64
        } else {
            SIGN_BIT as i64 - self.bits as i64 - 1
        }
    }

    /// The number of representable steps between `self` and `other`.
    pub fn steps_between(self, other: Scalar) -> (d: u32)
        ensures
            d == self.distance(other),
    {
        let a: i64 = self.position();
        let b: i64 = other.position();
        if a >= b {
            (a - b) as u32
        } else {
            (b - a) as u32
        }
    }

    /// Decides `close_to`.
    pub fn is_close(self, other: Scalar, tolerance: u32) -> (r: bool)
        ensures
            r == self.close_to(other, tolerance),
    {
        self.steps_between(other) <= tolerance
    }
}

/// With no tolerance, only a quantity itself is close to it.
pub proof fn lemma_close_without_tolerance(a: Scalar, b: Scalar)
    ensures
        a.close_to(b, 0) == (a == b),
{
}

/// Every quantity is close to itself, whatever the tolerance.
pub proof fn lemma_close_reflexive(a: Scalar, tolerance: u32)
    ensures
        a.close_to(a, tolerance),
{
}

} // verus!
