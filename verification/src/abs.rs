//! Absolute value for the signed integer widths, with a wrapping policy at
//! the minimum representable value: negating the minimum would overflow in
//! two's complement, so the minimum is returned unchanged.

use vstd::prelude::*;

verus! {

/// Absolute value over the integers, wrapping at `min`: the minimum
/// representable value of a width maps to itself, every other value to its
/// ordinary absolute value.
pub open spec fn wrapping_abs(n: int, min: int) -> int {
    if n == min {
        min
    } else if n < 0 {
        -n
    } else {
        n
    }
}

pub fn abs_i32(number: i32) -> (r: i32)
    ensures
        r as int == wrapping_abs(number as int, i32::MIN as int),
{
    if number == i32::MIN {
        i32::MIN
    } else if number < 0 {
        -number
    } else {
        number
    }
}

pub fn abs_i64(number: i64) -> (r: i64)
    ensures
        r as int == wrapping_abs(number as int, i64::MIN as int),
{
    if number == i64::MIN {
        i64::MIN
    } else if number < 0 {
        -number
    } else {
        number
    }
}

pub fn abs_i128(number: i128) -> (r: i128)
    ensures
        r as int == wrapping_abs(number as int, i128::MIN as int),
{
    if number == i128::MIN {
        i128::MIN
    } else if number < 0 {
        -number
    } else {
        number
    }
}

/// Away from the minimum value, the 32-bit absolute value is non-negative
/// and agrees on a value and its negation.
pub proof fn lemma_abs_i32_props(x: i32)
    requires
        x != i32::MIN,
    ensures
        wrapping_abs(x as int, i32::MIN as int) >= 0,
        wrapping_abs(x as int, i32::MIN as int) == wrapping_abs(-(x as int), i32::MIN as int),
{
}

/// Away from the minimum value, the 64-bit absolute value is non-negative
/// and agrees on a value and its negation.
pub proof fn lemma_abs_i64_props(x: i64)
    requires
        x != i64::MIN,
    ensures
        wrapping_abs(x as int, i64::MIN as int) >= 0,
        wrapping_abs(x as int, i64::MIN as int) == wrapping_abs(-(x as int), i64::MIN as int),
{
}

/// Away from the minimum value, the 128-bit absolute value is non-negative
/// and agrees on a value and its negation.
pub proof fn lemma_abs_i128_props(x: i128)
    requires
        x != i128::MIN,
    ensures
        wrapping_abs(x as int, i128::MIN as int) >= 0,
        wrapping_abs(x as int, i128::MIN as int) == wrapping_abs(-(x as int), i128::MIN as int),
{
}

} // verus!
