//! Selection of a contiguous byte range out of an input of known size.
//!
//! The caller may supply up to three constraints — an inclusive start
//! offset, a byte count, and an exclusive end offset — and [`range::resolve`]
//! validates them against the input's total size and computes the exact
//! `(start, length)` pair to read, or reports which quantity exceeded which
//! ceiling. [`extract`] gives the byte-level meaning of reading such a pair
//! out of an input, and [`numeral`] parses the unsigned integer literals
//! (with optional `0x`/`0o`/`0b` prefix and `_` separators) in which the
//! constraints are written.

pub mod extract;
pub mod numeral;
pub mod range;
