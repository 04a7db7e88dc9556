//! Rendering of unsigned integers as sequences of digit characters, in
//! base 2, base 10 and base 16, together with the executable functions that
//! produce those sequences.

use vstd::prelude::*;

verus! {

/// The lowercase hexadecimal digit character for a value below sixteen.
pub open spec fn hex_digit(d: nat) -> char
    recommends
        d < 16,
{
    if d == 0 {
        '0'
    } else if d == 1 {
        '1'
    } else if d == 2 {
        '2'
    } else if d == 3 {
        '3'
    } else if d == 4 {
        '4'
    } else if d == 5 {
        '5'
    } else if d == 6 {
        '6'
    } else if d == 7 {
        '7'
    } else if d == 8 {
        '8'
    } else if d == 9 {
        '9'
    } else if d == 10 {
        'a'
    } else if d == 11 {
        'b'
    } else if d == 12 {
        'c'
    } else if d == 13 {
        'd'
    } else if d == 14 {
        'e'
    } else {
        'f'
    }
}

/// The hexadecimal digit characters of `n`, most significant first, with no
/// leading zeros except for `n == 0`, which renders as a single `0`.
pub open spec fn hex_seq(n: nat) -> Seq<char>
    decreases n,
{
    if n < 16 {
        seq![hex_digit(n)]
    } else {
        hex_seq(n / 16).push(hex_digit(n % 16))
    }
}

/// A run of `m` zero characters.
pub open spec fn pad_zeros(m: nat) -> Seq<char> {
    Seq::new(m, |i: int| '0')
}

/// The hexadecimal digits of `n`, zero-padded on the left to at least four
/// characters.
pub open spec fn hex_padded(n: nat) -> Seq<char> {
    if hex_seq(n).len() >= 4 {
        hex_seq(n)
    } else {
        pad_zeros((4 - hex_seq(n).len()) as nat) + hex_seq(n)
    }
}

/// The binary digit characters of `n`, most significant first, with no
/// leading zeros except for `n == 0`, which renders as a single `0`.
pub open spec fn bin_seq(n: nat) -> Seq<char>
    decreases n,
{
    if n < 2 {
        seq![if n == 0 { '0' } else { '1' }]
    } else {
        bin_seq(n / 2).push(if n % 2 == 0 { '0' } else { '1' })
    }
}

/// The decimal digit character for a value below ten; the same character
/// that [`hex_digit`] gives for such a value.
pub open spec fn dec_digit(d: nat) -> char
    recommends
        d < 10,
{
    hex_digit(d)
}

/// The decimal digit characters of `n`, most significant first, with no
/// leading zeros except for `n == 0`, which renders as a single `0`.
pub open spec fn dec_seq(n: nat) -> Seq<char>
    decreases n,
{
    if n < 10 {
        seq![dec_digit(n)]
    } else {
        dec_seq(n / 10).push(dec_digit(n % 10))
    }
}

fn hex_digit_char(d: u32) -> (c: char)
    requires
        d < 16,
    ensures
        c == hex_digit(d as nat),
{
    if d == 0 {
        '0'
    } else if d == 1 {
        '1'
    } else if d == 2 {
        '2'
    } else if d == 3 {
        '3'
    } else if d == 4 {
        '4'
    } else if d == 5 {
        '5'
    } else if d == 6 {
        '6'
    } else if d == 7 {
        '7'
    } else if d == 8 {
        '8'
    } else if d == 9 {
        '9'
    } else if d == 10 {
        'a'
    } else if d == 11 {
        'b'
    } else if d == 12 {
        'c'
    } else if d == 13 {
        'd'
    } else if d == 14 {
        'e'
    } else {
        'f'
    }
}

/// The hexadecimal digit characters of `n`, as [`hex_seq`] describes them.
pub fn hex_chars(n: u32) -> (v: Vec<char>)
    ensures
        v@ == hex_seq(n as nat),
    decreases n,
{
    if n < 16 {
        let mut v: Vec<char> = Vec::new();
        v.push(hex_digit_char(n));
        proof {
            assert(v@ =~= hex_seq(n as nat));
        }
        v
    } else {
        let mut v = hex_chars(n / 16);
        v.push(hex_digit_char(n % 16));
        proof {
            assert(v@ =~= hex_seq(n as nat));
        }
        v
    }
}

/// The binary digit characters of `n`, as [`bin_seq`] describes them.
pub fn bin_chars(n: u128) -> (v: Vec<char>)
    ensures
        v@ == bin_seq(n as nat),
    decreases n,
{
    if n < 2 {
        let mut v: Vec<char> = Vec::new();
        v.push(if n == 0 { '0' } else { '1' });
        proof {
            assert(v@ =~= bin_seq(n as nat));
        }
        v
    } else {
        let mut v = bin_chars(n / 2);
        v.push(if n % 2 == 0 { '0' } else { '1' });
        proof {
            assert(v@ =~= bin_seq(n as nat));
        }
        v
    }
}

/// The decimal digit characters of `n`, as [`dec_seq`] describes them.
pub fn dec_chars(n: u8) -> (v: Vec<char>)
    ensures
        v@ == dec_seq(n as nat),
    decreases n,
{
    if n < 10 {
        let mut v: Vec<char> = Vec::new();
        v.push(hex_digit_char(n as u32));
        proof {
            assert(v@ =~= dec_seq(n as nat));
        }
        v
    } else {
        let mut v = dec_chars(n / 10);
        v.push(hex_digit_char((n % 10) as u32));
        proof {
            assert(v@ =~= dec_seq(n as nat));
        }
        v
    }
}

/// Appends every character of `src` to `out`, in order.
pub fn push_all(out: &mut Vec<char>, src: &Vec<char>)
    ensures
        final(out)@ == old(out)@ + src@,
{
    let mut j: usize = 0;
    while j < src.len()
        invariant
            j <= src@.len(),
            out@ == old(out)@ + src@.take(j as int),
        decreases src@.len() - j,
    {
        out.push(src[j]);
        proof {
            assert(old(out)@ + src@.take(j as int + 1) =~= (old(out)@ + src@.take(
                j as int,
            )).push(src@[j as int]));
        }
        j += 1;
    }
    proof {
        assert(src@.take(src@.len() as int) =~= src@);
    }
}

/// Appends the hexadecimal rendering of `n`, zero-padded on the left to at
/// least four digits, as [`hex_padded`] describes it.
pub fn push_hex_padded(out: &mut Vec<char>, n: u32)
    ensures
        final(out)@ == old(out)@ + hex_padded(n as nat),
{
    let hex = hex_chars(n);
    let hlen = hex.len();
    if hlen < 4 {
        if hlen <= 3 {
            out.push('0');
        }
        if hlen <= 2 {
            out.push('0');
        }
        if hlen <= 1 {
            out.push('0');
        }
        proof {
            assert(out@ =~= old(out)@ + pad_zeros((4 - hlen) as nat));
        }
    }
    let ghost padded: Seq<char> = out@;
    push_all(out, &hex);
    proof {
        assert(out@ == padded + hex_seq(n as nat));
        assert(out@ =~= old(out)@ + hex_padded(n as nat));
    }
}

} // verus!
