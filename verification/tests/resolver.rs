use byteslice::range::{resolve, BoundKind, Quantity, RangeError};

fn exceeds(quantity: Quantity, bound: BoundKind) -> RangeError {
    RangeError::ExceedsBound { quantity, bound }
}

#[test]
fn no_constraints_selects_everything() {
    assert_eq!(resolve(10, None, None, None), Ok((0, 10)));
    assert_eq!(resolve(0, None, None, None), Ok((0, 0)));
    assert_eq!(resolve(u64::MAX, None, None, None), Ok((0, u64::MAX)));
}

#[test]
fn start_only_selects_the_rest() {
    assert_eq!(resolve(10, Some(2), None, None), Ok((2, 8)));
    assert_eq!(resolve(10, Some(0), None, None), Ok((0, 10)));
    assert_eq!(resolve(10, Some(8), None, None), Ok((8, 2)));
}

#[test]
fn start_at_input_size_is_empty_not_an_error() {
    assert_eq!(resolve(10, Some(10), None, None), Ok((10, 0)));
    assert_eq!(resolve(0, Some(0), None, None), Ok((0, 0)));
}

#[test]
fn bytes_only_selects_a_prefix() {
    assert_eq!(resolve(10, None, Some(3), None), Ok((0, 3)));
    assert_eq!(resolve(10, None, Some(0), None), Ok((0, 0)));
    assert_eq!(resolve(10, None, Some(10), None), Ok((0, 10)));
}

#[test]
fn start_and_bytes_pass_through_unchanged() {
    assert_eq!(resolve(10, Some(2), Some(3), None), Ok((2, 3)));
    assert_eq!(resolve(10, Some(0), Some(10), None), Ok((0, 10)));
    assert_eq!(resolve(10, Some(10), Some(0), None), Ok((10, 0)));
}

#[test]
fn end_only_selects_a_prefix() {
    assert_eq!(resolve(10, None, None, Some(5)), Ok((0, 5)));
    assert_eq!(resolve(10, None, None, Some(0)), Ok((0, 0)));
    assert_eq!(resolve(10, None, None, Some(10)), Ok((0, 10)));
}

#[test]
fn start_and_end_select_the_bytes_between() {
    assert_eq!(resolve(10, Some(2), None, Some(5)), Ok((2, 3)));
    assert_eq!(resolve(10, Some(3), None, Some(3)), Ok((3, 0)));
    assert_eq!(resolve(10, Some(0), None, Some(10)), Ok((0, 10)));
}

#[test]
fn all_three_consistent_or_underfilled_succeed() {
    // exactly consistent: start + bytes == end
    assert_eq!(resolve(10, Some(2), Some(3), Some(5)), Ok((2, 3)));
    // under-filled relative to end: accepted, end only serves as a ceiling
    assert_eq!(resolve(10, Some(2), Some(2), Some(5)), Ok((2, 2)));
}

#[test]
fn excess_start_is_rejected() {
    assert_eq!(
        resolve(10, Some(11), None, None),
        Err(exceeds(Quantity::Start, BoundKind::InputSize))
    );
    assert_eq!(
        resolve(10, Some(6), None, Some(5)),
        Err(exceeds(Quantity::Start, BoundKind::End))
    );
}

#[test]
fn excess_bytes_is_rejected() {
    assert_eq!(
        resolve(10, None, Some(20), None),
        Err(exceeds(Quantity::Bytes, BoundKind::InputSize))
    );
    assert_eq!(
        resolve(10, None, Some(6), Some(5)),
        Err(exceeds(Quantity::Bytes, BoundKind::End))
    );
}

#[test]
fn excess_end_is_rejected() {
    assert_eq!(
        resolve(10, None, None, Some(11)),
        Err(exceeds(Quantity::End, BoundKind::InputSize))
    );
}

#[test]
fn excess_sum_is_rejected() {
    assert_eq!(
        resolve(10, Some(6), Some(6), None),
        Err(exceeds(Quantity::StartPlusBytes, BoundKind::InputSize))
    );
    // each part fits under end, their sum does not
    assert_eq!(
        resolve(10, Some(4), Some(4), Some(5)),
        Err(exceeds(Quantity::StartPlusBytes, BoundKind::End))
    );
}

#[test]
fn overflowing_sum_is_rejected_not_wrapped() {
    // start + bytes overflows u64; wrapping would make the sum look tiny
    assert_eq!(
        resolve(u64::MAX, Some(u64::MAX), Some(2), None),
        Err(exceeds(Quantity::StartPlusBytes, BoundKind::InputSize))
    );
    assert_eq!(
        resolve(u64::MAX, Some(2), Some(u64::MAX), None),
        Err(exceeds(Quantity::StartPlusBytes, BoundKind::InputSize))
    );
}

#[test]
fn empty_input_rejects_any_positive_quantity() {
    assert_eq!(
        resolve(0, Some(1), None, None),
        Err(exceeds(Quantity::Start, BoundKind::InputSize))
    );
    assert_eq!(
        resolve(0, None, Some(1), None),
        Err(exceeds(Quantity::Bytes, BoundKind::InputSize))
    );
    assert_eq!(
        resolve(0, None, None, Some(1)),
        Err(exceeds(Quantity::End, BoundKind::InputSize))
    );
}
