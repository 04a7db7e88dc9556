//! Base-2 formatting of 128-bit signed integers, with an optional `0b`
//! prefix and a leading `-` for negative values. The magnitude of the
//! minimum representable value is taken by two's-complement wrapping, so it
//! still renders correctly as `2^127`.

use crate::digits::{bin_chars, bin_seq, push_all};
use crate::text::chars_to_string;
use vstd::prelude::*;

verus! {

/// The magnitude rendered for `n`: its absolute value. For the minimum
/// 128-bit value this is `2^127`, which is exactly what two's-complement
/// wrapping negation produces when read as unsigned.
pub open spec fn bin_magnitude(n: i128) -> nat {
    if n >= 0 {
        n as nat
    } else {
        (-(n as int)) as nat
    }
}

/// The full rendering: a leading `-` for negative values, then `0b` when
/// the prefix is requested, then the binary digits of the magnitude.
pub open spec fn bin_string(n: i128, prefix: bool) -> Seq<char> {
    let digits = if prefix {
        seq!['0', 'b'] + bin_seq(bin_magnitude(n))
    } else {
        bin_seq(bin_magnitude(n))
    };
    if n < 0 {
        seq!['-'] + digits
    } else {
        digits
    }
}

pub fn bin(number: i128, param: bool) -> (r: String)
    ensures
        r@ == bin_string(number, param),
{
    let mut out: Vec<char> = Vec::new();
    if number < 0 {
        out.push('-');
    }
    if param {
        out.push('0');
        out.push('b');
    }
    let mag: u128 = if number == i128::MIN {
        0x8000_0000_0000_0000_0000_0000_0000_0000u128
    } else if number < 0 {
        (-number) as u128
    } else {
        number as u128
    };
    proof {
        assert(mag as nat == bin_magnitude(number));
    }
    let digits = bin_chars(mag);
    push_all(&mut out, &digits);
    proof {
        assert(out@ =~= bin_string(number, param));
    }
    chars_to_string(out)
}

} // verus!
