//! Numbers as IEEE-754 binary64 bit patterns.
//!
//! A number is held as the 64 bits of a double: one sign bit, eleven exponent
//! bits, fifty-two fraction bits. Order, equality and negation are decided
//! here from the bits alone.

use vstd::prelude::*;

verus! {

/// The weight of the sign bit.
pub const SIGN: u64 = 0x8000_0000_0000_0000;

/// The magnitude bits of positive infinity; every larger magnitude is a NaN.
pub const INFINITY: u64 = 0x7ff0_0000_0000_0000;

/// The bits without the sign.
pub open spec fn magnitude(bits: u64) -> int {
    if bits >= SIGN {
        bits - SIGN
    } else {
        bits as int
    }
}

/// Whether the bits are not a number.
pub open spec fn is_nan(bits: u64) -> bool {
    magnitude(bits) > INFINITY
}

/// An integer that orders the numbers as their values do: the magnitude,
/// negated under a sign bit. Both zeros have rank 0.
pub open spec fn rank(bits: u64) -> int {
    if bits >= SIGN {
        -magnitude(bits)
    } else {
        magnitude(bits)
    }
}

/// `a < b` as doubles: false when either is a NaN.
pub open spec fn less(a: u64, b: u64) -> bool {
    !is_nan(a) && !is_nan(b) && rank(a) < rank(b)
}

/// `a == b` as doubles: false when either is a NaN, true of the two zeros.
pub open spec fn equal(a: u64, b: u64) -> bool {
    !is_nan(a) && !is_nan(b) && rank(a) == rank(b)
}

/// `-a` as a double: the sign bit flipped.
pub open spec fn negated(bits: u64) -> u64 {
    if bits >= SIGN {
        (bits - SIGN) as u64
    } else {
        (bits + SIGN) as u64
    }
}

fn magnitude_of(bits: u64) -> (r: u64)
    ensures
        r == magnitude(bits),
{
    if bits >= SIGN {
        bits - SIGN
    } else {
        bits
    }
}

/// Whether the bits are not a number.
pub fn nan(bits: u64) -> (r: bool)
    ensures
        r == is_nan(bits),
{
    magnitude_of(bits) > INFINITY
}

/// Decides `a < b` as doubles.
pub fn is_less(a: u64, b: u64) -> (r: bool)
    ensures
        r == less(a, b),
{
    if nan(a) || nan(b) {
        return false;
    }
    let ma = magnitude_of(a);
    let mb = magnitude_of(b);
    if a >= SIGN {
        if b >= SIGN {
            ma > mb
        } else {
            ma > 0 || mb > 0
        }
    } else {
        if b >= SIGN {
            false
        } else {
            ma < mb
        }
    }
}

/// Decides `a == b` as doubles.
pub fn is_equal(a: u64, b: u64) -> (r: bool)
    ensures
        r == equal(a, b),
{
    if nan(a) || nan(b) {
        return false;
    }
    let ma = magnitude_of(a);
    let mb = magnitude_of(b);
    if (a >= SIGN) == (b >= SIGN) {
        ma == mb
    } else {
        ma == 0 && mb == 0
    }
}

/// Computes `-a` as a double.
pub fn negate(bits: u64) -> (r: u64)
    ensures
        r == negated(bits),
{
    if bits >= SIGN {
        bits - SIGN
    } else {
        bits + SIGN
    }
}

} // verus!
