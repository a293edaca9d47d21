//! Where a request lands in the arena.
//!
//! The arena is a range of `capacity` bytes addressed by offsets, and the
//! cursor is the offset of the first byte that nobody owns yet. A request
//! of `size` bytes aligned to `align` is placed at the first multiple of
//! `align` that is not below the cursor, provided its last byte still lies
//! inside the arena. A request may fill the arena exactly to its last byte.

use vstd::arithmetic::div_mod::lemma_fundamental_div_mod;
use vstd::arithmetic::div_mod::lemma_fundamental_div_mod_converse;
use vstd::arithmetic::div_mod::lemma_mod_multiples_basic;
use vstd::arithmetic::power2::is_pow2;
use vstd::prelude::*;

verus! {

/// Why a request was turned down.
#[derive(Clone, Copy, Debug, PartialEq, Eq, Structural)]
pub enum AllocError {
    /// The alignment is not a power of two.
    InvalidAlignment,
    /// The aligned request does not fit between the cursor and the end of
    /// the arena.
    Exhausted,
}

/// Whether `n` is a multiple of `align`.
pub open spec fn is_aligned(n: int, align: int) -> bool {
    n % align == 0
}

/// The smallest multiple of `align` that is not below `n`, for `align > 0`.
pub open spec fn round_up(n: int, align: int) -> int {
    if n % align == 0 {
        n
    } else {
        n - n % align + align
    }
}

/// `round_up(n, align)` is a multiple of `align`, lies in `[n, n + align)`,
/// and no multiple of `align` lies between `n` and it.
pub proof fn lemma_round_up_is_least_multiple(n: int, align: int)
    requires
        0 < align,
    ensures
        is_aligned(round_up(n, align), align),
        n <= round_up(n, align) < n + align,
        forall|m: int| n <= m && #[trigger] is_aligned(m, align) ==> round_up(n, align) <= m,
{
    let q = n / align;
    let r = n % align;
    lemma_fundamental_div_mod(n, align);
    assert(n == align * q + r);
    if r != 0 {
        assert(round_up(n, align) == align * (q + 1)) by (nonlinear_arith)
            requires
                round_up(n, align) == n - r + align,
                n == align * q + r,
        ;
        lemma_mod_multiples_basic(q + 1, align);
        assert((q + 1) * align == align * (q + 1)) by (nonlinear_arith);
    }
    assert forall|m: int| n <= m && #[trigger] is_aligned(m, align) implies round_up(n, align)
        <= m by {
        let k = m / align;
        lemma_fundamental_div_mod(m, align);
        assert(m == align * k);
        if r != 0 {
            // align * k >= align * q + r with 0 < r forces k > q
            assert(k >= q + 1) by (nonlinear_arith)
                requires
                    align * k >= align * q + r,
                    0 < r,
                    0 < align,
            ;
            assert(align * k >= align * (q + 1)) by (nonlinear_arith)
                requires
                    k >= q + 1,
                    0 < align,
            ;
            assert(round_up(n, align) == align * (q + 1)) by (nonlinear_arith)
                requires
                    round_up(n, align) == n - r + align,
                    n == align * q + r,
            ;
        }
    }
}

/// `round_up` never moves backwards when the cursor moves forwards.
pub proof fn lemma_round_up_is_monotonic(a: int, b: int, align: int)
    requires
        0 < align,
        a <= b,
    ensures
        round_up(a, align) <= round_up(b, align),
{
    lemma_round_up_is_least_multiple(a, align);
    lemma_round_up_is_least_multiple(b, align);
}

/// What a request of `size` bytes aligned to `align` gets when it meets the
/// cursor at `cursor` in an arena of `capacity` bytes: the offset of its
/// block, or the reason why it gets none.
pub open spec fn outcome(cursor: usize, size: usize, align: usize, capacity: usize) -> Result<
    usize,
    AllocError,
> {
    if !is_pow2(align as int) {
        Err(AllocError::InvalidAlignment)
    } else if round_up(cursor as int, align as int) + size <= capacity {
        Ok(round_up(cursor as int, align as int) as usize)
    } else {
        Err(AllocError::Exhausted)
    }
}

/// The cursor that the request leaves behind: the end of its block where it
/// got one, the cursor it met where it got none.
pub open spec fn next_cursor(cursor: usize, size: usize, align: usize, capacity: usize) -> usize {
    match outcome(cursor, size, align, capacity) {
        Ok(offset) => (offset + size) as usize,
        Err(_) => cursor,
    }
}

/// A block that is granted starts at the first aligned offset at or after
/// the cursor and ends inside the arena.
pub proof fn lemma_outcome_ok(cursor: usize, size: usize, align: usize, capacity: usize)
    requires
        outcome(cursor, size, align, capacity) is Ok,
    ensures
        is_pow2(align as int),
        outcome(cursor, size, align, capacity)->Ok_0 == round_up(cursor as int, align as int),
        cursor <= outcome(cursor, size, align, capacity)->Ok_0 < cursor + align,
        outcome(cursor, size, align, capacity)->Ok_0 + size <= capacity,
        is_aligned(outcome(cursor, size, align, capacity)->Ok_0 as int, align as int),
        next_cursor(cursor, size, align, capacity) == outcome(cursor, size, align, capacity)->Ok_0
            + size,
{
    lemma_power_of_two_is_positive(align as int);
    lemma_round_up_is_least_multiple(cursor as int, align as int);
}

/// A power of two is at least one.
pub proof fn lemma_power_of_two_is_positive(n: int)
    requires
        is_pow2(n),
    ensures
        0 < n,
{
    reveal(is_pow2);
}

/// A number is a power of two exactly when it is not zero and shares no bit
/// with its predecessor.
proof fn lemma_power_of_two_bit_test(n: usize)
    ensures
        is_pow2(n as int) <==> (n != 0 && n & ((n - 1) as usize) == 0),
    decreases n,
{
    reveal(is_pow2);
    if n == 1 {
        assert(1usize & ((1usize - 1) as usize) == 0) by (bit_vector);
    } else if n >= 2 {
        let half: usize = n / 2;
        lemma_power_of_two_bit_test(half);
        assert((n & ((n - 1) as usize) == 0) <==> (n % 2 == 0 && half != 0 && half & ((half - 1) as usize)
            == 0)) by (bit_vector)
            requires
                n >= 2,
                half == n / 2,
        ;
    }
}

/// Whether `align` is a power of two.
pub fn is_power_of_two(align: usize) -> (r: bool)
    ensures
        r == is_pow2(align as int),
{
    proof {
        lemma_power_of_two_bit_test(align);
    }
    align != 0 && align & (align - 1) == 0
}

/// Places a request that meets the cursor at `cursor`: the offset of its
/// block, or the reason why it gets none. Nothing is changed; the caller
/// moves the cursor to `next(..)` to make the block its own.
pub fn place(cursor: usize, size: usize, align: usize, capacity: usize) -> (r: Result<
    usize,
    AllocError,
>)
    ensures
        r == outcome(cursor, size, align, capacity),
{
    if !is_power_of_two(align) {
        return Err(AllocError::InvalidAlignment);
    }
    proof {
        lemma_power_of_two_is_positive(align as int);
    }
    let rest: usize = cursor % align;
    let padding: usize = if rest == 0 {
        0
    } else {
        align - rest
    };
    let offset: usize = match cursor.checked_add(padding) {
        Some(offset) => offset,
        None => { return Err(AllocError::Exhausted); },
    };
    match offset.checked_add(size) {
        Some(end) => {
            if end <= capacity {
                Ok(offset)
            } else {
                Err(AllocError::Exhausted)
            }
        },
        None => Err(AllocError::Exhausted),
    }
}

/// The cursor that a request leaves behind when it meets the cursor at
/// `cursor`, or `None` where it gets no block and the cursor stays.
pub fn next(cursor: usize, size: usize, align: usize, capacity: usize) -> (r: Option<usize>)
    ensures
        r is Some == outcome(cursor, size, align, capacity) is Ok,
        r matches Some(end) ==> end == next_cursor(cursor, size, align, capacity),
{
    match place(cursor, size, align, capacity) {
        Ok(offset) => {
            proof {
                lemma_outcome_ok(cursor, size, align, capacity);
            }
            Some(offset + size)
        },
        Err(_) => None,
    }
}

} // verus!
