//! The range resolver: turns up to three optional constraints (start offset,
//! byte count, exclusive end offset) plus the input's total size into one
//! validated `(start, length)` pair, or an error naming the quantity that
//! exceeded its ceiling.

use vstd::prelude::*;

verus! {

/// A quantity supplied by the caller, or derived from two supplied ones,
/// that validation holds against a ceiling.
#[derive(Clone, Copy, Debug, PartialEq, Eq, Structural)]
pub enum Quantity {
    /// The inclusive offset at which reading begins.
    Start,
    /// The count of bytes to read.
    Bytes,
    /// The sum of a supplied start offset and a supplied byte count.
    StartPlusBytes,
    /// The exclusive offset at which reading stops.
    End,
}

/// The ceiling that a quantity was found to exceed.
#[derive(Clone, Copy, Debug, PartialEq, Eq, Structural)]
pub enum BoundKind {
    /// The total size of the input.
    InputSize,
    /// The supplied exclusive end offset.
    End,
}

/// Why a set of constraints was rejected.
#[derive(Clone, Copy, Debug, PartialEq, Eq, Structural)]
pub enum RangeError {
    /// `quantity` was supplied (or derived) with a value strictly greater
    /// than the `bound` it must stay within.
    ExceedsBound { quantity: Quantity, bound: BoundKind },
}

/// The effective ceiling for the resolved range: the end offset when one is
/// supplied, else the input's total size.
pub open spec fn effective_ceiling(input_size: u64, end: Option<u64>) -> int {
    match end {
        Some(e) => e as int,
        None => input_size as int,
    }
}

/// When a set of constraints is consistent: every supplied quantity — and,
/// when both start and bytes are supplied, their sum — stays within the
/// input size, and, when an end offset is supplied, within that end as well.
pub open spec fn constraints_ok(
    input_size: u64,
    start: Option<u64>,
    bytes: Option<u64>,
    end: Option<u64>,
) -> bool {
    &&& (start is Some ==> start->0 <= input_size)
    &&& (bytes is Some ==> bytes->0 <= input_size)
    &&& (end is Some ==> end->0 <= input_size)
    &&& (start is Some && bytes is Some ==> start->0 + bytes->0 <= input_size)
    &&& (end is Some ==> {
        &&& (start is Some ==> start->0 <= end->0)
        &&& (bytes is Some ==> bytes->0 <= end->0)
        &&& (start is Some && bytes is Some ==> start->0 + bytes->0 <= end->0)
    })
}

/// The start offset of the resolved range: the supplied one, else zero.
pub open spec fn resolved_start(
    input_size: u64,
    start: Option<u64>,
    bytes: Option<u64>,
    end: Option<u64>,
) -> int {
    if start is Some {
        start->0 as int
    } else {
        0
    }
}

/// The length of the resolved range: the supplied byte count when one is
/// given, else whatever remains between the resolved start and the
/// effective ceiling.
pub open spec fn resolved_length(
    input_size: u64,
    start: Option<u64>,
    bytes: Option<u64>,
    end: Option<u64>,
) -> int {
    if bytes is Some {
        bytes->0 as int
    } else if start is Some {
        effective_ceiling(input_size, end) - start->0
    } else {
        effective_ceiling(input_size, end)
    }
}

/// The error reported for an inconsistent set of constraints: the checks run
/// in a fixed order — each supplied value against the input size (start,
/// bytes, end), then the start-plus-bytes sum against the input size, then
/// each of those against the end offset when one is supplied — and the first
/// failing check names its quantity and ceiling.
pub open spec fn first_violation(
    input_size: u64,
    start: Option<u64>,
    bytes: Option<u64>,
    end: Option<u64>,
) -> RangeError
    recommends
        !constraints_ok(input_size, start, bytes, end),
{
    if start is Some && start->0 > input_size {
        RangeError::ExceedsBound { quantity: Quantity::Start, bound: BoundKind::InputSize }
    } else if bytes is Some && bytes->0 > input_size {
        RangeError::ExceedsBound { quantity: Quantity::Bytes, bound: BoundKind::InputSize }
    } else if end is Some && end->0 > input_size {
        RangeError::ExceedsBound { quantity: Quantity::End, bound: BoundKind::InputSize }
    } else if start is Some && bytes is Some && start->0 + bytes->0 > input_size {
        RangeError::ExceedsBound {
            quantity: Quantity::StartPlusBytes,
            bound: BoundKind::InputSize,
        }
    } else if end is Some && start is Some && start->0 > end->0 {
        RangeError::ExceedsBound { quantity: Quantity::Start, bound: BoundKind::End }
    } else if end is Some && bytes is Some && bytes->0 > end->0 {
        RangeError::ExceedsBound { quantity: Quantity::Bytes, bound: BoundKind::End }
    } else {
        RangeError::ExceedsBound { quantity: Quantity::StartPlusBytes, bound: BoundKind::End }
    }
}

/// Resolves the supplied constraints against the input's total size.
///
/// Succeeds exactly when the constraints are consistent, and then returns
/// the resolved `(start, length)` pair: the supplied start (else zero) and
/// the supplied byte count (else the distance from the resolved start to the
/// effective ceiling). Fails with the first violation otherwise.
pub fn resolve(
    input_size: u64,
    start: Option<u64>,
    bytes: Option<u64>,
    end: Option<u64>,
) -> (r: Result<(u64, u64), RangeError>)
    ensures
        r is Ok <==> constraints_ok(input_size, start, bytes, end),
        r is Ok ==> r->Ok_0.0 == resolved_start(input_size, start, bytes, end),
        r is Ok ==> r->Ok_0.1 == resolved_length(input_size, start, bytes, end),
        r is Err ==> r->Err_0 == first_violation(input_size, start, bytes, end),
{
    if let Some(s) = start {
        if s > input_size {
            return Err(RangeError::ExceedsBound {
                quantity: Quantity::Start,
                bound: BoundKind::InputSize,
            });
        }
    }
    if let Some(n) = bytes {
        if n > input_size {
            return Err(RangeError::ExceedsBound {
                quantity: Quantity::Bytes,
                bound: BoundKind::InputSize,
            });
        }
    }
    if let Some(e) = end {
        if e > input_size {
            return Err(RangeError::ExceedsBound {
                quantity: Quantity::End,
                bound: BoundKind::InputSize,
            });
        }
    }
    if let (Some(s), Some(n)) = (start, bytes) {
        // `s <= input_size <= u64::MAX`, so `u64::MAX - s` cannot underflow,
        // and `s + n` overflows exactly when `n > u64::MAX - s`; an
        // overflowing sum certainly exceeds the input size.
        if n > u64::MAX - s || s + n > input_size {
            return Err(RangeError::ExceedsBound {
                quantity: Quantity::StartPlusBytes,
                bound: BoundKind::InputSize,
            });
        }
    }
    if let Some(e) = end {
        if let Some(s) = start {
            if s > e {
                return Err(RangeError::ExceedsBound {
                    quantity: Quantity::Start,
                    bound: BoundKind::End,
                });
            }
        }
        if let Some(n) = bytes {
            if n > e {
                return Err(RangeError::ExceedsBound {
                    quantity: Quantity::Bytes,
                    bound: BoundKind::End,
                });
            }
        }
        if let (Some(s), Some(n)) = (start, bytes) {
            if s + n > e {
                return Err(RangeError::ExceedsBound {
                    quantity: Quantity::StartPlusBytes,
                    bound: BoundKind::End,
                });
            }
        }
    }
    let ceiling: u64 = if let Some(e) = end {
        e
    } else {
        input_size
    };
    match (start, bytes) {
        (Some(s), Some(n)) => Ok((s, n)),
        (Some(s), None) => Ok((s, ceiling - s)),
        (None, Some(n)) => Ok((0, n)),
        (None, None) => Ok((0, ceiling)),
    }
}

/// With no constraints at all, resolution succeeds and selects the whole
/// input: the range `(0, input_size)`.
pub proof fn lemma_resolve_unconstrained(input_size: u64)
    ensures
        constraints_ok(input_size, None, None, None),
        resolved_start(input_size, None, None, None) == 0,
        resolved_length(input_size, None, None, None) == input_size,
{
}

/// With only a start offset no greater than the input size, resolution
/// succeeds and selects everything from that offset to the end of the
/// input: the range `(start, input_size - start)`.
pub proof fn lemma_resolve_start_only(input_size: u64, s: u64)
    requires
        s <= input_size,
    ensures
        constraints_ok(input_size, Some(s), None, None),
        resolved_start(input_size, Some(s), None, None) == s,
        resolved_length(input_size, Some(s), None, None) == input_size - s,
{
}

/// With only a byte count no greater than the input size, resolution
/// succeeds and selects that many bytes from the beginning: the range
/// `(0, bytes)`.
pub proof fn lemma_resolve_bytes_only(input_size: u64, n: u64)
    requires
        n <= input_size,
    ensures
        constraints_ok(input_size, None, Some(n), None),
        resolved_start(input_size, None, Some(n), None) == 0,
        resolved_length(input_size, None, Some(n), None) == n,
{
}

/// With a start offset and a byte count whose sum stays within the input
/// size, resolution succeeds and returns exactly the supplied pair,
/// unchanged.
pub proof fn lemma_resolve_start_and_bytes(input_size: u64, s: u64, n: u64)
    requires
        s + n <= input_size,
    ensures
        constraints_ok(input_size, Some(s), Some(n), None),
        resolved_start(input_size, Some(s), Some(n), None) == s,
        resolved_length(input_size, Some(s), Some(n), None) == n,
{
}

/// With only an end offset no greater than the input size, resolution
/// succeeds and selects everything before it: the range `(0, end)`.
pub proof fn lemma_resolve_end_only(input_size: u64, e: u64)
    requires
        e <= input_size,
    ensures
        constraints_ok(input_size, None, None, Some(e)),
        resolved_start(input_size, None, None, Some(e)) == 0,
        resolved_length(input_size, None, None, Some(e)) == e,
{
}

/// With a start offset and an end offset satisfying
/// `start <= end <= input_size`, resolution succeeds and selects the bytes
/// between them: the range `(start, end - start)`.
pub proof fn lemma_resolve_start_and_end(input_size: u64, s: u64, e: u64)
    requires
        s <= e <= input_size,
    ensures
        constraints_ok(input_size, Some(s), None, Some(e)),
        resolved_start(input_size, Some(s), None, Some(e)) == s,
        resolved_length(input_size, Some(s), None, Some(e)) == e - s,
{
}

/// A start offset equal to the input size, with no other constraint, is not
/// an error: it resolves to an empty range at the very end of the input.
pub proof fn lemma_resolve_start_at_size(input_size: u64)
    ensures
        constraints_ok(input_size, Some(input_size), None, None),
        resolved_start(input_size, Some(input_size), None, None) == input_size,
        resolved_length(input_size, Some(input_size), None, None) == 0,
{
}

/// A supplied start offset strictly greater than the effective ceiling
/// (the end offset when present, else the input size) makes the
/// constraints inconsistent, whatever else is supplied.
pub proof fn lemma_excess_start_rejected(
    input_size: u64,
    s: u64,
    bytes: Option<u64>,
    end: Option<u64>,
)
    requires
        s > effective_ceiling(input_size, end),
    ensures
        !constraints_ok(input_size, Some(s), bytes, end),
{
}

/// A supplied byte count strictly greater than the effective ceiling
/// (the end offset when present, else the input size) makes the
/// constraints inconsistent, whatever else is supplied.
pub proof fn lemma_excess_bytes_rejected(
    input_size: u64,
    n: u64,
    start: Option<u64>,
    end: Option<u64>,
)
    requires
        n > effective_ceiling(input_size, end),
    ensures
        !constraints_ok(input_size, start, Some(n), end),
{
}

/// A supplied end offset strictly greater than the input size makes the
/// constraints inconsistent, whatever else is supplied.
pub proof fn lemma_excess_end_rejected(
    input_size: u64,
    e: u64,
    start: Option<u64>,
    bytes: Option<u64>,
)
    requires
        e > input_size,
    ensures
        !constraints_ok(input_size, start, bytes, Some(e)),
{
}

/// What an `ExceedsBound` error asserts of the constraints it was raised
/// for: the named bound is present, the named quantity was supplied (or
/// both of its parts were), and its value strictly exceeds that bound.
pub open spec fn violation_holds(
    err: RangeError,
    input_size: u64,
    start: Option<u64>,
    bytes: Option<u64>,
    end: Option<u64>,
) -> bool {
    match err {
        RangeError::ExceedsBound { quantity, bound } => {
            let limit = match bound {
                BoundKind::InputSize => input_size as int,
                BoundKind::End => end->0 as int,
            };
            &&& (bound is End ==> end is Some)
            &&& match quantity {
                Quantity::Start => start is Some && start->0 > limit,
                Quantity::Bytes => bytes is Some && bytes->0 > limit,
                Quantity::StartPlusBytes => start is Some && bytes is Some && start->0 + bytes->0
                    > limit,
                Quantity::End => end is Some && end->0 > limit,
            }
        },
    }
}

/// A rejection never mislabels its cause: the error reported for an
/// inconsistent set of constraints names a quantity that was indeed
/// supplied and indeed exceeds the bound it is reported against.
pub proof fn lemma_violation_names_offender(
    input_size: u64,
    start: Option<u64>,
    bytes: Option<u64>,
    end: Option<u64>,
)
    requires
        !constraints_ok(input_size, start, bytes, end),
    ensures
        violation_holds(
            first_violation(input_size, start, bytes, end),
            input_size,
            start,
            bytes,
            end,
        ),
{
}

} // verus!
