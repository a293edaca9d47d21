use mystd::allocator::MyAlloc;
use mystd::allocator::ALLOC_MEM_SIZE;
use mystd::placement::AllocError;

#[test]
fn second_request_of_ten_bytes_does_not_fit_in_sixteen() {
    let arena = MyAlloc::with_capacity(16);
    assert_eq!(arena.allocate(10, 1), Ok(0));
    assert_eq!(arena.allocate(10, 1), Err(AllocError::Exhausted));
    assert_eq!(arena.used(), 10);
}

#[test]
fn aligned_requests_fill_sixteen_bytes_exactly() {
    let arena = MyAlloc::with_capacity(16);
    assert_eq!(arena.allocate(4, 8), Ok(0));
    assert_eq!(arena.allocate(4, 8), Ok(8));
    assert_eq!(arena.used(), 12);
    assert_eq!(arena.allocate(4, 1), Ok(12));
    assert_eq!(arena.used(), 16);
    assert_eq!(arena.allocate(1, 1), Err(AllocError::Exhausted));
    assert_eq!(arena.allocate(7, 2), Err(AllocError::Exhausted));
    assert_eq!(arena.allocate(usize::MAX, 1), Err(AllocError::Exhausted));
    assert_eq!(arena.used(), 16);
}

#[test]
fn default_arena_has_four_mebibytes() {
    let arena = MyAlloc::new();
    assert_eq!(arena.capacity(), 4 * 1024 * 1024);
    assert_eq!(ALLOC_MEM_SIZE, 4 * 1024 * 1024);
    assert_eq!(arena.used(), 0);
}

#[test]
fn boxed_integer_fits_in_default_arena() {
    let arena = MyAlloc::new();
    let value: i32 = 42;
    let size = std::mem::size_of_val(&value);
    let align = std::mem::align_of_val(&value);
    assert_eq!(arena.allocate(size, align), Ok(0));
    assert_eq!(arena.used(), 4);
}

#[test]
fn two_mebibytes_fit_in_default_arena() {
    let arena = MyAlloc::new();
    assert_eq!(arena.allocate(2 * 1024 * 1024, 1), Ok(0));
    assert_eq!(arena.allocate(2 * 1024 * 1024, 1), Ok(2 * 1024 * 1024));
    assert_eq!(arena.allocate(1, 1), Err(AllocError::Exhausted));
}

#[test]
fn alignment_that_is_no_power_of_two_is_turned_down() {
    let arena = MyAlloc::with_capacity(64);
    assert_eq!(arena.allocate(4, 0), Err(AllocError::InvalidAlignment));
    assert_eq!(arena.allocate(4, 3), Err(AllocError::InvalidAlignment));
    assert_eq!(arena.allocate(4, 6), Err(AllocError::InvalidAlignment));
    assert_eq!(arena.allocate(4, usize::MAX), Err(AllocError::InvalidAlignment));
    assert_eq!(arena.used(), 0);
    assert_eq!(arena.allocate(4, 4), Ok(0));
}

#[test]
fn request_that_is_turned_down_leaves_the_cursor() {
    let arena = MyAlloc::with_capacity(16);
    assert_eq!(arena.allocate(3, 1), Ok(0));
    assert_eq!(arena.allocate(14, 1), Err(AllocError::Exhausted));
    assert_eq!(arena.used(), 3);
    assert_eq!(arena.allocate(13, 1), Ok(3));
    assert_eq!(arena.used(), 16);
}

#[test]
fn padding_counts_against_the_capacity() {
    let arena = MyAlloc::with_capacity(16);
    assert_eq!(arena.allocate(1, 1), Ok(0));
    // the next multiple of 16 is the end of the arena
    assert_eq!(arena.allocate(1, 16), Err(AllocError::Exhausted));
    assert_eq!(arena.allocate(8, 8), Ok(8));
    assert_eq!(arena.used(), 16);
}

#[test]
fn empty_request_is_granted_even_at_the_end() {
    let arena = MyAlloc::with_capacity(8);
    assert_eq!(arena.allocate(8, 8), Ok(0));
    assert_eq!(arena.allocate(0, 1), Ok(8));
    assert_eq!(arena.allocate(0, 8), Ok(8));
    assert_eq!(arena.allocate(0, 16), Err(AllocError::Exhausted));
    assert_eq!(arena.used(), 8);
}

#[test]
fn empty_arena_grants_only_empty_requests() {
    let arena = MyAlloc::with_capacity(0);
    assert_eq!(arena.allocate(1, 1), Err(AllocError::Exhausted));
    assert_eq!(arena.allocate(0, 4), Ok(0));
}

#[test]
fn blocks_are_aligned_disjoint_and_inside_the_arena() {
    let capacity = 1000;
    let arena = MyAlloc::with_capacity(capacity);
    let requests = [(3, 1), (5, 4), (0, 8), (17, 16), (1, 2), (64, 64), (9, 1), (400, 128), (500, 1)];
    let mut blocks: Vec<(usize, usize)> = Vec::new();
    let mut sizes = 0;
    for (size, align) in requests {
        if let Ok(offset) = arena.allocate(size, align) {
            assert_eq!(offset % align, 0);
            assert!(offset + size <= capacity);
            for &(start, len) in &blocks {
                assert!(start + len <= offset);
            }
            blocks.push((offset, size));
            sizes += size;
        }
    }
    assert_eq!(blocks, vec![(0, 3), (4, 5), (16, 0), (16, 17), (34, 1), (64, 64), (128, 9), (256, 400)]);
    assert!(sizes <= arena.used());
    assert_eq!(arena.used(), 656);
    assert!(arena.used() <= capacity);
}

#[test]
fn exhaustion_is_final_for_requests_no_smaller() {
    let arena = MyAlloc::with_capacity(32);
    assert_eq!(arena.allocate(20, 1), Ok(0));
    assert_eq!(arena.allocate(13, 1), Err(AllocError::Exhausted));
    assert_eq!(arena.allocate(13, 1), Err(AllocError::Exhausted));
    assert_eq!(arena.allocate(14, 1), Err(AllocError::Exhausted));
    // a smaller request still fits
    assert_eq!(arena.allocate(4, 4), Ok(20));
    assert_eq!(arena.allocate(13, 1), Err(AllocError::Exhausted));
    assert_eq!(arena.allocate(8, 1), Ok(24));
    assert_eq!(arena.allocate(1, 1), Err(AllocError::Exhausted));
}

#[test]
fn release_changes_nothing() {
    let with = MyAlloc::with_capacity(64);
    let without = MyAlloc::with_capacity(64);
    let requests = [(10, 1), (4, 8), (30, 2), (30, 2), (7, 4), (1, 1)];
    for (size, align) in requests {
        let a = with.allocate(size, align);
        let b = without.allocate(size, align);
        assert_eq!(a, b);
        if let Ok(offset) = a {
            with.release(offset, size, align);
            with.release(offset, size, align);
        }
        with.release(12345, 7, 3);
        assert_eq!(with.used(), without.used());
    }
    assert_eq!(with.used(), 60);
}

#[test]
fn two_callers_fill_the_arena_byte_by_byte() {
    let arena = MyAlloc::with_capacity(200_000);
    let first = &arena;
    let second = &arena;
    let mut seen = vec![false; 200_000];
    for _ in 0..100_000 {
        for caller in [first, second] {
            let offset = caller.allocate(1, 1).unwrap();
            assert!(!seen[offset]);
            seen[offset] = true;
        }
    }
    assert!(seen.iter().all(|&taken| taken));
    assert_eq!(arena.used(), 200_000);
    assert_eq!(arena.allocate(1, 1), Err(AllocError::Exhausted));
}
