//! Real quantities carried by their IEEE 754 bit pattern.
//!
//! Arithmetic on doubles stays with the callers; the decisions in this crate
//! only order them, and the order of doubles is an order on their bits.

use vstd::prelude::*;

verus! {

/// A double, by its 64-bit pattern.
#[derive(Clone, Copy, Debug, PartialEq, Eq, Structural)]
pub struct Real {
    pub bits: u64,
}

/// Weight of the sign bit.
pub const SIGN: u64 = 0x8000_0000_0000_0000;

/// Bits of positive infinity; larger magnitudes are not numbers.
pub const INFINITE: u64 = 0x7ff0_0000_0000_0000;

impl Real {
    /// The bits without the sign.
    pub open spec fn magnitude(self) -> int {
        if self.bits >= SIGN {
            self.bits - SIGN
        } else {
            self.bits as int
        }
    }

    /// Not a number: compares false with everything.
    pub open spec fn is_nan(self) -> bool {
        self.magnitude() > INFINITE
    }

    /// Doubles that are numbers are ordered as these keys; both zeros are 0.
    pub open spec fn key(self) -> int {
        if self.bits >= SIGN {
            -self.magnitude()
        } else {
            self.magnitude()
        }
    }

    /// `self < other` on doubles.
    pub open spec fn below(self, other: Real) -> bool {
        !self.is_nan() && !other.is_nan() && self.key() < other.key()
    }

    /// `self <= other` on doubles.
    pub open spec fn at_most(self, other: Real) -> bool {
        !self.is_nan() && !other.is_nan() && self.key() <= other.key()
    }

    /// Total order of all doubles: negative before positive zero, and values
    /// that are not numbers at the ends, by sign.
    pub open spec fn total_key(self) -> int {
        if self.bits >= SIGN {
            -self.magnitude() - 1
        } else {
            self.magnitude()
        }
    }

    /// Whether `self` comes after `other` in the total order.
    pub fn after(&self, other: &Real) -> (r: bool)
        ensures
            r == (self.total_key() > other.total_key()),
    {
        if self.bits >= SIGN {
            other.bits >= SIGN && self.bits < other.bits
        } else {
            other.bits >= SIGN || self.bits > other.bits
        }
    }

    /// Whether the key of `self` is above that of `other`.
    pub fn above(&self, other: &Real) -> (r: bool)
        ensures
            r == (self.key() > other.key()),
    {
        if self.bits >= SIGN {
            other.bits >= SIGN && self.bits < other.bits
        } else if other.bits >= SIGN {
            self.bits > 0 || other.bits > SIGN
        } else {
            self.bits > other.bits
        }
    }

    /// `self < other` on doubles.
    pub fn lt(&self, other: &Real) -> (r: bool)
        ensures
            r == self.below(*other),
    {
        let a: u64 = if self.bits >= SIGN {
            self.bits - SIGN
        } else {
            self.bits
        };
        let b: u64 = if other.bits >= SIGN {
            other.bits - SIGN
        } else {
            other.bits
        };
        if a > INFINITE || b > INFINITE {
            return false;
        }
        if self.bits >= SIGN {
            if other.bits >= SIGN {
                b < a
            } else {
                a != 0 || b != 0
            }
        } else if other.bits >= SIGN {
            false
        } else {
            a < b
        }
    }

    /// `self <= other` on doubles.
    pub fn le(&self, other: &Real) -> (r: bool)
        ensures
            r == self.at_most(*other),
    {
        let a: u64 = if self.bits >= SIGN {
            self.bits - SIGN
        } else {
            self.bits
        };
        let b: u64 = if other.bits >= SIGN {
            other.bits - SIGN
        } else {
            other.bits
        };
        if a > INFINITE || b > INFINITE {
            return false;
        }
        !other.lt(self)
    }
}

impl Real {
    /// The double within a range that is nearest to this one.
    pub open spec fn confined(self, low: Real, high: Real) -> Real {
        if self.below(low) {
            low
        } else if high.below(self) {
            high
        } else {
            self
        }
    }

    /// The double within a range that is nearest to this one. The range is a
    /// proper one.
    pub fn confine(&self, low: Real, high: Real) -> (r: Real)
        requires
            low.at_most(high),
        ensures
            r == self.confined(low, high),
            !self.is_nan() ==> low.at_most(r) && r.at_most(high),
    {
        if self.lt(&low) {
            low
        } else if high.lt(self) {
            high
        } else {
            *self
        }
    }
}

/// Zero.
pub open spec fn zero() -> Real {
    Real { bits: 0 }
}

/// Zero.
pub fn real_zero() -> (r: Real)
    ensures
        r == zero(),
{
    Real { bits: 0 }
}

/// A quantity that a decision compares and a message shows: the double and
/// its printed form.
#[derive(Debug)]
pub struct Quantity {
    pub value: Real,
    pub text: String,
}

impl Clone for Quantity {
    fn clone(&self) -> (r: Self)
        ensures
            r == *self,
    {
        Quantity { value: self.value, text: self.text.clone() }
    }
}

} // verus!
