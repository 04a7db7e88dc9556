//! An owned, ordered sequence of bytes with Python-style behaviour:
//! construction from raw bytes, text or another sequence, indexed reads with
//! negative-index wraparound, concatenation, in-place append, slicing with
//! start/stop/step, and a textual representation.

use crate::digits::{dec_chars, dec_seq, push_all};
use crate::text::{bytes_to_string, chars_to_string};
use vstd::prelude::*;
use vstd::string::{StrSliceExecFns, StringExecFns};
use vstd::utf8::{decode_utf8, encode_utf8, valid_utf8};

verus! {

/// The error taxonomy: an unsupported constructor input, an out-of-range
/// index, or a zero slice step.
#[derive(Debug, Clone, Copy, PartialEq, Eq, Structural)]
pub enum ByteArrayError {
    TypeError,
    IndexError,
    ValueError,
}

impl ByteArrayError {
    /// The human-readable message carried by each error.
    pub fn message(&self) -> (r: &'static str)
        ensures
            *self is TypeError ==> r@ == "Unsupported input type. Must be bytes, bytearray or str"@,
            *self is IndexError ==> r@ == "Index out of range"@,
            *self is ValueError ==> r@ == "Slice step cannot be zero"@,
    {
        match self {
            ByteArrayError::TypeError => "Unsupported input type. Must be bytes, bytearray or str",
            ByteArrayError::IndexError => "Index out of range",
            ByteArrayError::ValueError => "Slice step cannot be zero",
        }
    }
}

/// An owned byte sequence.
#[derive(Debug)]
pub struct ByteArray {
    data: Vec<u8>,
}

/// The accepted constructor inputs: raw bytes, text (taken as its UTF-8
/// encoding), or another byte sequence (copied).
pub enum ByteSource {
    Bytes(Vec<u8>),
    Text(String),
    Array(ByteArray),
}

impl View for ByteArray {
    type V = Seq<u8>;

    closed spec fn view(&self) -> Seq<u8> {
        self.data@
    }
}

impl Clone for ByteArray {
    fn clone(&self) -> (r: Self)
        ensures
            r@ == self@,
    {
        ByteArray { data: copy_bytes(&self.data) }
    }
}

fn copy_bytes(v: &Vec<u8>) -> (r: Vec<u8>)
    ensures
        r@ == v@,
{
    let mut r: Vec<u8> = Vec::new();
    let mut j: usize = 0;
    while j < v.len()
        invariant
            j <= v@.len(),
            r@ == v@.take(j as int),
        decreases v@.len() - j,
    {
        r.push(v[j]);
        proof {
            assert(v@.take(j as int + 1) =~= v@.take(j as int).push(v@[j as int]));
        }
        j += 1;
    }
    proof {
        assert(v@.take(v@.len() as int) =~= v@);
    }
    r
}

fn append_bytes(dst: &mut Vec<u8>, src: &Vec<u8>)
    ensures
        final(dst)@ == old(dst)@ + src@,
{
    let mut j: usize = 0;
    while j < src.len()
        invariant
            j <= src@.len(),
            dst@ == old(dst)@ + src@.take(j as int),
        decreases src@.len() - j,
    {
        dst.push(src[j]);
        proof {
            assert(old(dst)@ + src@.take(j as int + 1) =~= (old(dst)@ + src@.take(
                j as int,
            )).push(src@[j as int]));
        }
        j += 1;
    }
    proof {
        assert(src@.take(src@.len() as int) =~= src@);
    }
}

/// `v` forced into the interval `[lo, hi]`.
pub open spec fn clamp_int(v: int, lo: int, hi: int) -> int {
    if v < lo {
        lo
    } else if v > hi {
        hi
    } else {
        v
    }
}

/// A possibly negative index resolved against a length: negative values
/// count from the end.
pub open spec fn resolve_index(i: int, len: int) -> int {
    if i < 0 {
        i + len
    } else {
        i
    }
}

/// The step actually used by a slice: `1` when none is given.
pub open spec fn step_value(step: Option<isize>) -> int {
    match step {
        Option::None => 1,
        Option::Some(s) => s as int,
    }
}

/// The first index a slice visits. For a positive step an absent start means
/// `0` and a given one is resolved and clamped into `[0, len]`; for a
/// negative step an absent start means `len - 1` and a given one is resolved
/// and clamped into `[-1, len - 1]`.
pub open spec fn slice_start_index(start: Option<isize>, step: int, len: int) -> int {
    if step > 0 {
        match start {
            Option::None => 0,
            Option::Some(s) => clamp_int(resolve_index(s as int, len), 0, len),
        }
    } else {
        match start {
            Option::None => len - 1,
            Option::Some(s) => clamp_int(resolve_index(s as int, len), -1, len - 1),
        }
    }
}

/// The index a slice stops before. For a positive step an absent stop means
/// `len`; for a negative step it means the sentinel `-1`, one position
/// before the start of the sequence. A given stop is resolved and clamped
/// like the start.
pub open spec fn slice_stop_index(stop: Option<isize>, step: int, len: int) -> int {
    if step > 0 {
        match stop {
            Option::None => len,
            Option::Some(s) => clamp_int(resolve_index(s as int, len), 0, len),
        }
    } else {
        match stop {
            Option::None => -1,
            Option::Some(s) => clamp_int(resolve_index(s as int, len), -1, len - 1),
        }
    }
}

/// The bytes a slice collects: every element visited walking from `i`
/// toward `stop` in increments of `step`, while the index stays strictly on
/// the near side of `stop` and inside the sequence.
pub open spec fn sliced(data: Seq<u8>, i: int, stop: int, step: int) -> Seq<u8>
    recommends
        step != 0,
    decreases (if step > 0 {
        if stop - i > 0 {
            stop - i
        } else {
            0
        }
    } else {
        if i - stop > 0 {
            i - stop
        } else {
            0
        }
    }),
{
    if step > 0 && i < stop && 0 <= i < data.len() {
        seq![data[i]] + sliced(data, i + step, stop, step)
    } else if step < 0 && i > stop && 0 <= i < data.len() {
        seq![data[i]] + sliced(data, i + step, stop, step)
    } else {
        Seq::empty()
    }
}

fn clamp_isize(v: isize, lo: isize, hi: isize) -> (r: isize)
    requires
        lo <= hi,
    ensures
        r as int == clamp_int(v as int, lo as int, hi as int),
{
    if v < lo {
        lo
    } else if v > hi {
        hi
    } else {
        v
    }
}

fn py_slice_indices(start: Option<isize>, end: Option<isize>, step: isize, len: isize) -> (r: (
    isize,
    isize,
))
    requires
        step != 0,
        len >= 0,
    ensures
        r.0 as int == slice_start_index(start, step as int, len as int),
        r.1 as int == slice_stop_index(end, step as int, len as int),
        step > 0 ==> 0 <= r.0 as int <= len as int && 0 <= r.1 as int <= len as int,
        step < 0 ==> -1 <= r.0 as int <= len as int - 1 && -1 <= r.1 as int <= len as int - 1,
{
    let s: isize = match start {
        None => if step > 0 {
            0
        } else {
            len - 1
        },
        Some(v) => {
            let rv: isize = if v < 0 {
                v + len
            } else {
                v
            };
            if step > 0 {
                clamp_isize(rv, 0, len)
            } else {
                clamp_isize(rv, -1, len - 1)
            }
        },
    };
    let e: isize = match end {
        None => if step > 0 {
            len
        } else {
            -1
        },
        Some(v) => {
            let rv: isize = if v < 0 {
                v + len
            } else {
                v
            };
            if step > 0 {
                clamp_isize(rv, 0, len)
            } else {
                clamp_isize(rv, -1, len - 1)
            }
        },
    };
    (s, e)
}

/// The decimal byte-list form used when the bytes are not valid UTF-8:
/// the bytes' decimal renderings joined by `, `.
pub open spec fn byte_list_chars(data: Seq<u8>) -> Seq<char>
    decreases data.len(),
{
    if data.len() == 0 {
        Seq::empty()
    } else if data.len() == 1 {
        dec_seq(data[0] as nat)
    } else {
        byte_list_chars(data.drop_last()) + seq![',', ' '] + dec_seq(data.last() as nat)
    }
}

/// What the textual representation prints: a quoted-string form when the
/// bytes are valid UTF-8, a bracketed decimal byte list otherwise.
pub open spec fn repr_chars(data: Seq<u8>) -> Seq<char> {
    if valid_utf8(data) {
        "ByteArray('"@ + decode_utf8(data) + "')"@
    } else {
        "ByteArray(["@ + byte_list_chars(data) + "])"@
    }
}

/// Building a byte sequence from text and rendering it round-trips: the
/// UTF-8 encoding of any character sequence is valid UTF-8 and decodes back
/// to the original characters, so the representation is the quoted form of
/// exactly that text.
pub proof fn lemma_repr_of_text(s: Seq<char>)
    ensures
        repr_chars(encode_utf8(s)) == "ByteArray('"@ + s + "')"@,
{
    broadcast use vstd::utf8::encode_utf8_valid_utf8;
    broadcast use vstd::utf8::encode_utf8_decode_utf8;

}

fn byte_list_string(data: &Vec<u8>) -> (r: String)
    ensures
        r@ == byte_list_chars(data@),
{
    let mut out: Vec<char> = Vec::new();
    let mut i: usize = 0;
    while i < data.len()
        invariant
            i <= data@.len(),
            out@ == byte_list_chars(data@.take(i as int)),
        decreases data@.len() - i,
    {
        if i > 0 {
            out.push(',');
            out.push(' ');
        }
        let d = dec_chars(data[i]);
        push_all(&mut out, &d);
        proof {
            assert(data@.take(i as int + 1).drop_last() =~= data@.take(i as int));
            assert(data@.take(i as int + 1).last() == data@[i as int]);
            assert(out@ =~= byte_list_chars(data@.take(i as int + 1)));
        }
        i += 1;
    }
    proof {
        assert(data@.take(data@.len() as int) =~= data@);
    }
    chars_to_string(out)
}

impl ByteArray {
    /// Builds a byte sequence from one of the accepted inputs: raw bytes are
    /// taken as they are, text contributes its UTF-8 encoding, and another
    /// byte sequence is copied.
    pub fn new(source: ByteSource) -> (r: ByteArray)
        ensures
            source matches ByteSource::Bytes(b) ==> r@ == b@,
            source matches ByteSource::Text(s) ==> r@ == encode_utf8(s@),
            source matches ByteSource::Array(a) ==> r@ == a@,
    {
        match source {
            ByteSource::Bytes(b) => ByteArray { data: b },
            ByteSource::Text(s) => ByteArray { data: s.as_str().as_bytes_vec() },
            ByteSource::Array(a) => ByteArray { data: copy_bytes(&a.data) },
        }
    }

    /// The bytes, as an owned vector.
    pub fn to_bytes(&self) -> (r: Vec<u8>)
        ensures
            r@ == self@,
    {
        copy_bytes(&self.data)
    }

    /// A copy of this byte sequence.
    pub fn to_bytearray(&self) -> (r: ByteArray)
        ensures
            r@ == self@,
    {
        ByteArray { data: copy_bytes(&self.data) }
    }

    /// The quoted-string or byte-list representation, as [`repr_chars`]
    /// describes it.
    pub fn __repr__(&self) -> (r: String)
        ensures
            r@ == repr_chars(self@),
    {
        match bytes_to_string(&self.data) {
            Some(s) => {
                let mut out = String::from_str("ByteArray('");
                out.append(s.as_str());
                out.append("')");
                out
            },
            None => {
                let mut out = String::from_str("ByteArray([");
                let list = byte_list_string(&self.data);
                out.append(list.as_str());
                out.append("])");
                out
            },
        }
    }

    /// The display form, identical to the representation.
    pub fn __str__(&self) -> (r: String)
        ensures
            r@ == repr_chars(self@),
    {
        self.__repr__()
    }

    /// The number of bytes held.
    pub fn __len__(&self) -> (r: usize)
        ensures
            r == self@.len(),
    {
        self.data.len()
    }

    /// Indexed read with negative-index wraparound: `-1` is the last byte.
    /// Fails with an index error exactly when the index falls outside
    /// `[-len, len)`.
    pub fn __getitem__(&self, idx: isize) -> (r: Result<u8, ByteArrayError>)
        requires
            self@.len() <= isize::MAX as int,
        ensures
            ((idx as int) < -(self@.len() as int) || (idx as int) >= self@.len() as int) ==> r == Err::<
                u8,
                ByteArrayError,
            >(ByteArrayError::IndexError),
            (-(self@.len() as int) <= (idx as int) && (idx as int) < self@.len() as int) ==> r == Ok::<
                u8,
                ByteArrayError,
            >(
                self@[
                    if idx < 0 {
                        idx + self@.len()
                    } else {
                        idx as int
                    }
                ],
            ),
    {
        let len: isize = self.data.len() as isize;
        if idx < -len || idx >= len {
            return Err(ByteArrayError::IndexError);
        }
        let u: usize = if idx < 0 {
            (idx + len) as usize
        } else {
            idx as usize
        };
        Ok(self.data[u])
    }

    /// Concatenation: a new sequence holding this one's bytes followed by
    /// the other's. Neither operand changes.
    pub fn __add__(&self, other: &ByteArray) -> (r: ByteArray)
        ensures
            r@ == self@ + other@,
    {
        let mut data = copy_bytes(&self.data);
        append_bytes(&mut data, &other.data);
        ByteArray { data }
    }

    /// Python-style slicing: a new sequence of the bytes visited from
    /// `start` toward `end` in increments of `step`. A zero step fails with
    /// a value error, and with nothing else; an empty range is an empty
    /// result, not an error.
    pub fn slice(&self, start: Option<isize>, end: Option<isize>, step: Option<isize>) -> (r:
        Result<ByteArray, ByteArrayError>)
        requires
            self@.len() <= isize::MAX as int,
        ensures
            step == Some(0isize) <==> r == Err::<ByteArray, ByteArrayError>(
                ByteArrayError::ValueError,
            ),
            step != Some(0isize) ==> (r matches Ok(b) && b@ == sliced(
                self@,
                slice_start_index(start, step_value(step), self@.len() as int),
                slice_stop_index(end, step_value(step), self@.len() as int),
                step_value(step),
            )),
    {
        let st: isize = match step {
            None => 1,
            Some(v) => v,
        };
        if st == 0 {
            return Err(ByteArrayError::ValueError);
        }
        let len: isize = self.data.len() as isize;
        let (b, e) = py_slice_indices(start, end, st, len);
        let mut result: Vec<u8> = Vec::new();
        let mut i: i128 = b as i128;
        let stop: i128 = e as i128;
        let stw: i128 = st as i128;
        while (stw > 0 && i < stop) || (stw < 0 && i > stop)
            invariant
                stw == st as int,
                stw != 0,
                stop == e as int,
                self@.len() <= isize::MAX as int,
                stw > 0 ==> 0 <= i as int && stop as int <= self@.len() as int,
                stw < 0 ==> i as int <= self@.len() as int - 1 && stop as int >= -1,
                result@ + sliced(self@, i as int, stop as int, stw as int) == sliced(
                    self@,
                    b as int,
                    stop as int,
                    stw as int,
                ),
            decreases (if stw > 0 {
                if stop - i > 0 {
                    stop - i
                } else {
                    0
                }
            } else {
                if i - stop > 0 {
                    i - stop
                } else {
                    0
                }
            }),
        {
            proof {
                assert(0 <= i as int && (i as int) < self@.len());
            }
            result.push(self.data[i as usize]);
            proof {
                assert(sliced(self@, i as int, stop as int, stw as int) == seq![
                    self@[i as int],
                ] + sliced(self@, i as int + stw as int, stop as int, stw as int));
                assert(result@ + sliced(self@, i as int + stw as int, stop as int, stw as int)
                    =~= sliced(self@, b as int, stop as int, stw as int));
            }
            i = i + stw;
        }
        proof {
            assert(sliced(self@, i as int, stop as int, stw as int) =~= Seq::<u8>::empty());
            assert(result@ =~= sliced(self@, b as int, stop as int, stw as int));
        }
        Ok(ByteArray { data: result })
    }

    /// In-place append: extends this sequence with the other's bytes.
    pub fn append(&mut self, other: &ByteArray)
        ensures
            final(self)@ == old(self)@ + other@,
    {
        append_bytes(&mut self.data, &other.data);
    }
}

} // verus!
