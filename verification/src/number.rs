//! Numbers of the language: IEEE-754 doubles, held by their bit pattern.
//!
//! What can be read off the bit pattern is decided here: the sign, whether a
//! number is zero or not a number, and how two numbers compare. Arithmetic
//! that rounds is not done here; the evaluator is handed it from outside.
use vstd::prelude::*;

verus! {

/// The bit that holds the sign.
pub const SIGN_BIT: u64 = 0x8000_0000_0000_0000;

/// The bits of positive infinity. A greater magnitude is not a number.
pub const INFINITY_BITS: u64 = 0x7FF0_0000_0000_0000;

/// The bits of `1.0`.
pub const ONE_BITS: u64 = 0x3FF0_0000_0000_0000;

/// A double, by its sixty-four bits.
#[derive(Clone, Copy, PartialEq, Eq, Debug)]
pub struct Number {
    pub bits: u64,
}

/// The arithmetic that is asked of the outside.
#[derive(Clone, Copy, PartialEq, Eq, Debug)]
pub enum Operator {
    Add,
    Subtract,
    Multiply,
    Divide,
}

impl Number {
    /// The bits without the sign.
    pub open spec fn spec_magnitude(self) -> u64 {
        if self.bits >= SIGN_BIT {
            (self.bits - SIGN_BIT) as u64
        } else {
            self.bits
        }
    }

    /// Whether the sign bit is set.
    pub open spec fn spec_is_negative(self) -> bool {
        self.bits >= SIGN_BIT
    }

    /// Not a number: the exponent is all ones and the fraction is not zero.
    pub open spec fn spec_is_nan(self) -> bool {
        self.spec_magnitude() > INFINITY_BITS
    }

    /// Zero, of either sign.
    pub open spec fn spec_is_zero(self) -> bool {
        self.spec_magnitude() == 0
    }

    /// An integer that orders the numbers as their values do: doubles of one
    /// sign are ordered as their magnitudes are, and both zeros are `0`.
    pub open spec fn spec_rank(self) -> int {
        if self.spec_is_negative() {
            -(self.spec_magnitude() as int)
        } else {
            self.spec_magnitude() as int
        }
    }

    /// The same magnitude with the other sign.
    pub open spec fn spec_negated(self) -> Number {
        if self.bits >= SIGN_BIT {
            Number { bits: (self.bits - SIGN_BIT) as u64 }
        } else {
            Number { bits: (self.bits + SIGN_BIT) as u64 }
        }
    }

    /// `1.0` for `true` and `0.0` for `false`.
    pub open spec fn spec_from_bool(b: bool) -> Number {
        if b {
            Number { bits: ONE_BITS }
        } else {
            Number { bits: 0 }
        }
    }

    /// Equal as doubles: neither is not a number, and the values are the
    /// same. The two zeros are equal.
    pub open spec fn spec_equals(self, other: Number) -> bool {
        !self.spec_is_nan() && !other.spec_is_nan() && self.spec_rank() == other.spec_rank()
    }

    /// Less as doubles: neither is not a number, and the value is smaller.
    pub open spec fn spec_less_than(self, other: Number) -> bool {
        !self.spec_is_nan() && !other.spec_is_nan() && self.spec_rank() < other.spec_rank()
    }

    /// The double with the given bits.
    pub fn from_bits(bits: u64) -> (n: Number)
        ensures
            n.bits == bits,
    {
        Number { bits }
    }

    /// `1.0` for `true` and `0.0` for `false`.
    pub fn from_bool(b: bool) -> (n: Number)
        ensures
            n == Number::spec_from_bool(b),
    {
        if b {
            Number { bits: ONE_BITS }
        } else {
            Number { bits: 0 }
        }
    }

    fn magnitude(self) -> (m: u64)
        ensures
            m == self.spec_magnitude(),
    {
        if self.bits >= SIGN_BIT {
            self.bits - SIGN_BIT
        } else {
            self.bits
        }
    }

    /// Whether this is not a number.
    pub fn is_nan(self) -> (r: bool)
        ensures
            r == self.spec_is_nan(),
    {
        self.magnitude() > INFINITY_BITS
    }

    /// Whether this is zero, of either sign.
    pub fn is_zero(self) -> (r: bool)
        ensures
            r == self.spec_is_zero(),
    {
        self.magnitude() == 0
    }

    /// The same magnitude with the other sign.
    pub fn negated(self) -> (n: Number)
        ensures
            n == self.spec_negated(),
    {
        if self.bits >= SIGN_BIT {
            Number { bits: self.bits - SIGN_BIT }
        } else {
            Number { bits: self.bits + SIGN_BIT }
        }
    }

    /// Whether the two are equal as doubles.
    pub fn equals(self, other: Number) -> (r: bool)
        ensures
            r == self.spec_equals(other),
    {
        if self.is_nan() || other.is_nan() {
            false
        } else if self.is_zero() || other.is_zero() {
            self.is_zero() && other.is_zero()
        } else {
            self.bits == other.bits
        }
    }

    /// Whether this is less than `other` as doubles.
    pub fn less_than(self, other: Number) -> (r: bool)
        ensures
            r == self.spec_less_than(other),
    {
        if self.is_nan() || other.is_nan() {
            false
        } else if self.bits >= SIGN_BIT {
            if other.bits >= SIGN_BIT {
                self.magnitude() > other.magnitude()
            } else {
                self.magnitude() > 0 || other.magnitude() > 0
            }
        } else {
            other.bits < SIGN_BIT && self.magnitude() < other.magnitude()
        }
    }
}

/// Negating twice gives the number back, and negation keeps what a number
/// is: zero stays zero and not-a-number stays so.
pub proof fn lemma_negation(n: Number)
    ensures
        n.spec_negated().spec_negated() == n,
        n.spec_negated().spec_is_zero() == n.spec_is_zero(),
        n.spec_negated().spec_is_nan() == n.spec_is_nan(),
        n.spec_negated().spec_rank() == -n.spec_rank(),
{
}

/// Of two numbers exactly one of less, equal and greater holds, unless one
/// of them is not a number; then none holds.
pub proof fn lemma_comparison(a: Number, b: Number)
    ensures
        a.spec_is_nan() || b.spec_is_nan() ==> !a.spec_less_than(b) && !a.spec_equals(b)
            && !b.spec_less_than(a),
        !a.spec_is_nan() && !b.spec_is_nan() ==> (a.spec_less_than(b) || a.spec_equals(b)
            || b.spec_less_than(a)),
        !(a.spec_less_than(b) && a.spec_equals(b)),
        !(a.spec_less_than(b) && b.spec_less_than(a)),
        a.spec_equals(b) == b.spec_equals(a),
{
}

} // verus!
