//! ASCII escaping of strings: ASCII characters pass through unchanged, every
//! other character becomes a `\u{....}` escape with at least four lowercase
//! hexadecimal digits of its codepoint.

use crate::digits::{hex_padded, push_hex_padded};
use crate::text::chars_to_string;
use vstd::prelude::*;
use vstd::string::StrSliceExecFns;

verus! {

/// One character of the escaped output: an ASCII character stands as itself,
/// anything else becomes `\u{` followed by its zero-padded lowercase
/// hexadecimal codepoint and `}`.
pub open spec fn escape_char(c: char) -> Seq<char> {
    if c as u32 <= 0x7f {
        seq![c]
    } else {
        seq!['\\', 'u', '{'] + hex_padded(c as u32 as nat) + seq!['}']
    }
}

/// The whole escaped form of a character sequence: each character replaced
/// by its [`escape_char`] rendering, in order.
pub open spec fn ascii_escape(s: Seq<char>) -> Seq<char>
    decreases s.len(),
{
    if s.len() == 0 {
        Seq::empty()
    } else {
        ascii_escape(s.drop_last()) + escape_char(s.last())
    }
}

/// Escaping is the identity on sequences made of ASCII characters alone.
pub proof fn lemma_ascii_escape_identity(s: Seq<char>)
    requires
        forall|i: int| 0 <= i < s.len() ==> (#[trigger] s[i]) as u32 <= 0x7f,
    ensures
        ascii_escape(s) == s,
    decreases s.len(),
{
    if s.len() == 0 {
        assert(ascii_escape(s) =~= s);
    } else {
        assert(forall|i: int|
            0 <= i < s.drop_last().len() ==> (#[trigger] s.drop_last()[i]) as u32 <= 0x7f);
        lemma_ascii_escape_identity(s.drop_last());
        assert(s.last() as u32 <= 0x7f);
        assert(ascii_escape(s) =~= s);
    }
}

pub fn ascii(s: &str) -> (r: String)
    ensures
        r@ == ascii_escape(s@),
{
    let n = s.unicode_len();
    let mut out: Vec<char> = Vec::new();
    let mut i: usize = 0;
    while i < n
        invariant
            n == s@.len(),
            i <= n,
            out@ == ascii_escape(s@.take(i as int)),
        decreases n - i,
    {
        let c = s.get_char(i);
        if (c as u32) <= 0x7f {
            out.push(c);
        } else {
            out.push('\\');
            out.push('u');
            out.push('{');
            push_hex_padded(&mut out, c as u32);
            out.push('}');
            proof {
                assert(out@ =~= ascii_escape(s@.take(i as int)) + escape_char(c));
            }
        }
        proof {
            assert(s@.take(i as int + 1).drop_last() =~= s@.take(i as int));
            assert(s@.take(i as int + 1).last() == c);
            assert(out@ =~= ascii_escape(s@.take(i as int + 1)));
        }
        i += 1;
    }
    proof {
        assert(s@.take(n as int) =~= s@);
    }
    chars_to_string(out)
}

} // verus!
