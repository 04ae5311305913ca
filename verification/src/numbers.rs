//! The number domain of the language: IEEE-754 doubles carried by bit
//! pattern, so that the core stays in integer arithmetic.
//!
//! A bit pattern is NaN when the exponent field is all ones and the
//! mantissa field is not zero; `+0.0` and `-0.0` differ only in the sign
//! bit. IEEE-754 equality is equality of everything but the sign of zero,
//! and NaN is equal to nothing, itself included.
//!
//! A runtime number also carries its display text, fixed by the front end
//! when the number is read (the shortest decimal form of the value); the
//! core renders a number by that text and never re-derives it.

use vstd::prelude::*;

verus! {

/// A runtime number: the bit pattern of an IEEE-754 double, plus the text
/// the front end fixed for displaying it.
#[derive(Debug, PartialEq)]
pub struct Num {
    pub bits: u64,
    pub text: String,
}

/// The mathematical value of a number: its bit pattern and display text.
#[verifier::ext_equal]
pub struct NumV {
    pub bits: u64,
    pub text: Seq<char>,
}

impl View for Num {
    type V = NumV;

    open spec fn view(&self) -> NumV {
        NumV { bits: self.bits, text: self.text@ }
    }
}

impl Num {
    /// A copy with the same value.
    pub fn dup(&self) -> (r: Num)
        ensures
            r@ == self@,
    {
        Num { bits: self.bits, text: self.text.clone() }
    }
}

/// The exponent-and-mantissa part of a double's bit pattern (all bits but
/// the sign bit).
pub open spec fn abs_bits(bits: u64) -> u64 {
    bits & 0x7fff_ffff_ffff_ffff
}

/// Whether the bit pattern encodes a NaN.
pub open spec fn is_nan_bits(bits: u64) -> bool {
    abs_bits(bits) > 0x7ff0_0000_0000_0000
}

/// Whether the bit pattern encodes a zero (of either sign).
pub open spec fn is_zero_bits(bits: u64) -> bool {
    abs_bits(bits) == 0
}

/// IEEE-754 equality of two doubles given by bit pattern: a NaN equals
/// nothing, the two zeros equal each other, and any other value equals
/// exactly its own bit pattern.
pub open spec fn num_eq(a: u64, b: u64) -> bool {
    &&& !is_nan_bits(a)
    &&& !is_nan_bits(b)
    &&& (a == b || (is_zero_bits(a) && is_zero_bits(b)))
}

/// Decides IEEE-754 equality on bit patterns.
pub fn number_eq(a: u64, b: u64) -> (r: bool)
    ensures
        r == num_eq(a, b),
{
    let a_abs: u64 = a & 0x7fff_ffff_ffff_ffff;
    let b_abs: u64 = b & 0x7fff_ffff_ffff_ffff;
    if a_abs > 0x7ff0_0000_0000_0000 || b_abs > 0x7ff0_0000_0000_0000 {
        false
    } else {
        a == b || (a_abs == 0 && b_abs == 0)
    }
}

} // verus!
