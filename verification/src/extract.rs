//! The byte-level meaning of reading a resolved `(start, length)` range out
//! of an input held in memory: the sub-sequence from `start` to
//! `start + length`, cut short at the end of the input when the range runs
//! past it — reading past the end yields fewer bytes, never an error.

use vstd::prelude::*;

use crate::range::constraints_ok;
use crate::range::effective_ceiling;
use crate::range::resolved_length;
use crate::range::resolved_start;

verus! {

/// The bytes that reading `length` bytes at offset `start` out of `content`
/// yields. The window `[start, start + length)` is clipped to the content:
/// a start at or past the end yields nothing, and a window reaching past
/// the end yields only the bytes that exist.
pub open spec fn extracted(content: Seq<u8>, start: u64, length: u64) -> Seq<u8> {
    let lo = if start <= content.len() {
        start as int
    } else {
        content.len() as int
    };
    let hi = if start + length <= content.len() {
        start + length
    } else {
        content.len() as int
    };
    content.subrange(lo, hi)
}

/// Reads `length` bytes at offset `start` out of `content`, clipped to the
/// bytes that exist, and returns them in order.
pub fn extract_range(content: &[u8], start: u64, length: u64) -> (r: Vec<u8>)
    ensures
        r@ == extracted(content@, start, length),
{
    let n: usize = content.len();
    let lo: usize = if start <= n as u64 {
        start as usize
    } else {
        n
    };
    let avail: usize = n - lo;
    let count: usize = if length <= avail as u64 {
        length as usize
    } else {
        avail
    };
    let mut out: Vec<u8> = Vec::new();
    let mut i: usize = 0;
    while i < count
        invariant
            content@.len() <= usize::MAX,
            lo + count <= content@.len(),
            i <= count,
            out@ == content@.subrange(lo as int, lo + i),
        decreases count - i,
    {
        out.push(content[lo + i]);
        proof {
            assert(content@.subrange(lo as int, lo + i + 1) =~= content@.subrange(
                lo as int,
                lo + i,
            ).push(content@[lo + i]));
        }
        i = i + 1;
    }
    proof {
        assert(out@ =~= extracted(content@, start, length));
    }
    out
}

/// Round trip: when the window `[start, start + length)` lies entirely
/// within the content, the extracted bytes are exactly the substring
/// `content[start .. start + length]`, nothing clipped.
pub proof fn lemma_extract_round_trip(content: Seq<u8>, start: u64, length: u64)
    requires
        start + length <= content.len(),
    ensures
        extracted(content, start, length) == content.subrange(start as int, start + length),
{
}

/// A range the resolver accepted never needs clipping: extracted from
/// content of exactly the promised input size, it yields exactly
/// `resolved_length` bytes — the substring beginning at `resolved_start`.
pub proof fn lemma_resolved_range_extracts_fully(
    content: Seq<u8>,
    input_size: u64,
    start: Option<u64>,
    bytes: Option<u64>,
    end: Option<u64>,
)
    requires
        content.len() == input_size,
        constraints_ok(input_size, start, bytes, end),
    ensures
        ({
            let s = resolved_start(input_size, start, bytes, end);
            let l = resolved_length(input_size, start, bytes, end);
            &&& 0 <= s <= s + l <= effective_ceiling(input_size, end) <= input_size
            &&& extracted(content, s as u64, l as u64) == content.subrange(s, s + l)
            &&& extracted(content, s as u64, l as u64).len() == l
        }),
{
}

} // verus!
