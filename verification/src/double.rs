//! Binary64 numbers carried by their bit pattern.

use vstd::prelude::*;

verus! {

/// Weight of the lowest exponent bit in the pattern.
pub const FRACTION_SPAN: u64 = 0x10_0000_0000_0000;

/// Number of exponent codes; the last one is reserved for infinities and NaN.
pub const EXPONENT_SPAN: u64 = 2048;

/// Weight of the sign bit in the pattern.
pub const SIGN_WEIGHT: u64 = 0x8000_0000_0000_0000;

/// An IEEE 754 binary64 number, held as its bit pattern.
///
/// Two values are equal when their patterns are: `-0` and `0` differ, and a NaN
/// equals itself. What arithmetic makes of the patterns is up to the caller.
#[derive(Clone, Copy, PartialEq, Eq, Structural, Debug, Hash)]
pub struct Double {
    /// The pattern: sign, 11 exponent bits, 52 fraction bits.
    pub bits: u64,
}

impl Double {
    /// The 52 fraction bits.
    pub open spec fn fraction(self) -> nat {
        (self.bits % FRACTION_SPAN) as nat
    }

    /// The 11 exponent bits.
    pub open spec fn exponent(self) -> nat {
        ((self.bits / FRACTION_SPAN) % EXPONENT_SPAN) as nat
    }

    /// The sign bit.
    pub open spec fn negative(self) -> bool {
        self.bits >= SIGN_WEIGHT
    }

    /// Neither an infinity nor NaN: the exponent is not the reserved code.
    pub open spec fn finite(self) -> bool {
        self.exponent() != EXPONENT_SPAN - 1
    }

    /// How a number that is not finite is written out.
    pub open spec fn non_finite_text(self) -> Seq<char> {
        if self.fraction() != 0 {
            "NaN"@
        } else if self.negative() {
            "-inf"@
        } else {
            "inf"@
        }
    }

    /// Whether the number is neither an infinity nor NaN.
    pub fn is_finite(self) -> (r: bool)
        ensures
            r == self.finite(),
    {
        (self.bits / FRACTION_SPAN) % EXPONENT_SPAN != EXPONENT_SPAN - 1
    }

    /// Writes out a number that is not finite.
    pub fn write_non_finite(self) -> (r: &'static str)
        requires
            !self.finite(),
        ensures
            r@ == self.non_finite_text(),
    {
        if self.bits % FRACTION_SPAN != 0 {
            "NaN"
        } else if self.bits >= SIGN_WEIGHT {
            "-inf"
        } else {
            "inf"
        }
    }
}

} // verus!
