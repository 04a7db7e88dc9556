//! Python-flavoured utility functions: absolute values with an explicit
//! wrapping policy at the minimum representable value, ASCII escaping of
//! strings, base-2 integer formatting, and a byte-sequence type with
//! Python-style indexing, concatenation and slicing.

pub mod abs;
pub mod ascii;
pub mod bytearray;
pub mod digits;
pub mod number_system;
pub mod text;
