//! Single-precision numbers by their bits: the few comparisons that decide
//! something, made on integers.
//!
//! The bits of two numbers that are not negative and not NaN are ordered as the
//! numbers are.
use vstd::prelude::*;

verus! {

/// The bits of one half.
pub const HALF: u32 = 0x3f00_0000;

/// The bits of three tenths, rounded.
pub const THREE_TENTHS: u32 = 0x3e99_999a;

/// The bits of two fifths, rounded.
pub const TWO_FIFTHS: u32 = 0x3ecc_cccd;

/// The bits of four fifths, rounded.
pub const FOUR_FIFTHS: u32 = 0x3f4c_cccd;

/// The bits of seventeen twentieths, rounded.
pub const SIMILAR: u32 = 0x3f59_999a;

/// The bits of one.
pub const ONE: u32 = 0x3f80_0000;

/// The bits of infinity. What lies above, but for the sign, is not a number.
pub const INFINITE: u32 = 0x7f80_0000;

/// The bit of the sign.
pub const SIGN: u32 = 0x8000_0000;

/// The bits of a number without its sign.
pub open spec fn magnitude(bits: u32) -> u32 {
    if bits >= SIGN {
        (bits - SIGN) as u32
    } else {
        bits
    }
}

/// Not a number.
pub open spec fn is_nan(bits: u32) -> bool {
    magnitude(bits) > INFINITE
}

/// Whether these are the bits of a number.
pub fn is_number(bits: u32) -> (r: bool)
    ensures
        r == !is_nan(bits),
{
    let m: u32 = if bits >= SIGN {
        bits - SIGN
    } else {
        bits
    };
    m <= INFINITE
}

/// The bits of a number, confined to zero up to one. What is not a number stays
/// as it is, and so does negative zero.
pub open spec fn unit(bits: u32) -> u32 {
    if is_nan(bits) {
        bits
    } else if bits > SIGN {
        0
    } else if ONE < bits < SIGN {
        ONE
    } else {
        bits
    }
}

/// Confines a number to zero up to one.
pub fn clamp_unit(bits: u32) -> (r: u32)
    ensures
        r == unit(bits),
{
    if !is_number(bits) {
        bits
    } else if bits > SIGN {
        0
    } else if bits > ONE && bits < SIGN {
        ONE
    } else {
        bits
    }
}

/// The place of a number in the order of numbers; both zeros have the same.
/// What is not a number has no place that means anything.
pub open spec fn rank(bits: u32) -> int {
    if bits >= SIGN {
        -(magnitude(bits) as int)
    } else {
        bits as int
    }
}

/// The place of a number in the order of numbers.
pub fn rank_of(bits: u32) -> (r: i64)
    ensures
        r == rank(bits),
{
    if bits >= SIGN {
        -((bits - SIGN) as i64)
    } else {
        bits as i64
    }
}

/// The greater of two numbers; what is not a number gives way.
pub open spec fn greater(a: u32, b: u32) -> u32 {
    if is_nan(a) {
        b
    } else if is_nan(b) || rank(b) <= rank(a) {
        a
    } else {
        b
    }
}

/// The greater of two numbers.
pub fn max_bits(a: u32, b: u32) -> (r: u32)
    ensures
        r == greater(a, b),
{
    if !is_number(a) {
        b
    } else if !is_number(b) || rank_of(b) <= rank_of(a) {
        a
    } else {
        b
    }
}

/// A number that may be missing, confined.
pub open spec fn unit_opt(bits: Option<u32>) -> Option<u32> {
    match bits {
        Some(b) => Some(unit(b)),
        None => None,
    }
}

/// Confines a number that may be missing.
pub fn clamp_unit_opt(bits: Option<u32>) -> (r: Option<u32>)
    ensures
        r == unit_opt(bits),
{
    match bits {
        Some(b) => Some(clamp_unit(b)),
        None => None,
    }
}

/// Confining twice is confining once.
pub proof fn law_clamp_twice(bits: u32)
    ensures
        unit(unit(bits)) == unit(bits),
        !is_nan(bits) ==> magnitude(unit(bits)) <= ONE,
{
}

/// Numbers are confined without being changed where they need not be: what is
/// within the unit stays, what is above it becomes one, what is below it zero; and
/// what is not a number stays so.
pub proof fn law_confined_numbers(bits: u32)
    ensures
        bits <= 0x3f80_0000 ==> unit(bits) == bits,
        0x3f80_0000 < bits <= 0x7f80_0000 ==> unit(bits) == 0x3f80_0000,
        0x8000_0000 < bits <= 0xff80_0000 ==> unit(bits) == 0,
        is_nan(bits) ==> unit(bits) == bits,
        is_nan(bits) <==> 0x7f80_0000 < bits < 0x8000_0000 || 0xff80_0000 < bits,
        unit_opt(Some(bits)) == Some(unit(bits)) && unit_opt(None) is None,
{
}

/// Of two numbers the greater one is the greater one, whichever comes first, and
/// what is not a number gives way to what is; the order of numbers is that of
/// their bits for those above zero, turned over for those below, and puts the
/// latter first.
pub proof fn law_greater_is_the_greatest(a: u32, b: u32)
    ensures
        greater(a, b) == a || greater(a, b) == b,
        !is_nan(a) && !is_nan(b) ==> rank(greater(a, b)) >= rank(a) && rank(greater(a, b)) >= rank(
            b,
        ),
        is_nan(a) ==> greater(a, b) == b,
        !is_nan(a) && is_nan(b) ==> greater(a, b) == a,
        a < 0x8000_0000 && b < 0x8000_0000 ==> (rank(a) < rank(b) <==> a < b),
        a >= 0x8000_0000 && b >= 0x8000_0000 ==> (rank(a) < rank(b) <==> b < a),
        a > 0x8000_0000 && b < 0x8000_0000 ==> rank(a) < rank(b),
{
}

} // verus!
