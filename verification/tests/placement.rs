use mystd::placement::is_power_of_two;
use mystd::placement::next;
use mystd::placement::place;
use mystd::placement::AllocError;

#[test]
fn powers_of_two_are_recognised() {
    assert!(!is_power_of_two(0));
    assert!(is_power_of_two(1));
    assert!(is_power_of_two(2));
    assert!(!is_power_of_two(3));
    assert!(is_power_of_two(4096));
    assert!(!is_power_of_two(4097));
    assert!(!is_power_of_two(12));
    assert!(is_power_of_two(1 << (usize::BITS - 1)));
    assert!(!is_power_of_two(usize::MAX));
}

#[test]
fn block_starts_at_next_multiple_of_alignment() {
    assert_eq!(place(0, 4, 8, 64), Ok(0));
    assert_eq!(place(1, 4, 8, 64), Ok(8));
    assert_eq!(place(8, 4, 8, 64), Ok(8));
    assert_eq!(place(9, 4, 8, 64), Ok(16));
    assert_eq!(place(13, 3, 1, 64), Ok(13));
    assert_eq!(place(33, 1, 32, 65), Ok(64));
}

#[test]
fn block_may_end_at_the_last_byte_but_not_beyond() {
    assert_eq!(place(12, 4, 1, 16), Ok(12));
    assert_eq!(place(12, 5, 1, 16), Err(AllocError::Exhausted));
    assert_eq!(place(9, 8, 8, 16), Err(AllocError::Exhausted));
    assert_eq!(place(9, 0, 8, 16), Ok(16));
    assert_eq!(place(17, 0, 1, 16), Err(AllocError::Exhausted));
}

#[test]
fn placement_near_the_largest_offset_does_not_wrap() {
    let max = usize::MAX;
    assert_eq!(place(max, 1, 1, max), Err(AllocError::Exhausted));
    assert_eq!(place(max, 0, 1, max), Ok(max));
    assert_eq!(place(max, 0, 2, max), Err(AllocError::Exhausted));
    assert_eq!(place(max - 1, 0, 2, max), Ok(max - 1));
    assert_eq!(place(max - 1, 1, 2, max), Ok(max - 1));
    assert_eq!(place(max - 1, 2, 2, max), Err(AllocError::Exhausted));
    assert_eq!(place(1, max, 1, max), Err(AllocError::Exhausted));
    assert_eq!(place(0, max, 1, max), Ok(0));
}

#[test]
fn invalid_alignment_comes_before_exhaustion() {
    assert_eq!(place(0, 100, 3, 16), Err(AllocError::InvalidAlignment));
    assert_eq!(place(0, 100, 0, 16), Err(AllocError::InvalidAlignment));
    assert_eq!(place(0, 100, 4, 16), Err(AllocError::Exhausted));
}

#[test]
fn next_cursor_is_the_end_of_the_block() {
    assert_eq!(next(0, 10, 1, 16), Some(10));
    assert_eq!(next(10, 10, 1, 16), None);
    assert_eq!(next(4, 4, 8, 16), Some(12));
    assert_eq!(next(12, 4, 1, 16), Some(16));
    assert_eq!(next(16, 0, 1, 16), Some(16));
    assert_eq!(next(0, 4, 3, 16), None);
}
