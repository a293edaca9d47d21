//! What holds of every sequence of calls.
//!
//! Each call on an allocator takes effect at one instant, so the calls of
//! any execution, however many threads make them, form a sequence: the
//! order of those instants. This module describes an arena by the sequence
//! of calls made on it since it was fresh, and proves what every such
//! sequence obeys.

use crate::placement::is_aligned;
use crate::placement::lemma_outcome_ok;
use crate::placement::lemma_power_of_two_is_positive;
use crate::placement::lemma_round_up_is_least_multiple;
use crate::placement::lemma_round_up_is_monotonic;
use crate::placement::next_cursor;
use crate::placement::outcome;
use crate::placement::round_up;
use crate::placement::AllocError;
use vstd::arithmetic::div_mod::lemma_add_mod_noop;
use vstd::arithmetic::power2::is_pow2;
use vstd::prelude::*;

verus! {

/// One call on the allocator.
pub enum Event {
    /// A call of `allocate`.
    Allocate { size: usize, align: usize },
    /// A call of `release`.
    Release { offset: usize, size: usize, align: usize },
}

/// The cursor that a call leaves behind when it meets the cursor at
/// `cursor`.
pub open spec fn step(capacity: usize, cursor: usize, event: Event) -> usize {
    match event {
        Event::Allocate { size, align } => next_cursor(cursor, size, align, capacity),
        Event::Release { .. } => cursor,
    }
}

/// The cursor of an arena of `capacity` bytes after the calls `events`, made
/// in this order on the fresh arena.
pub open spec fn cursor_after(capacity: usize, events: Seq<Event>) -> usize
    decreases events.len(),
{
    if events.len() == 0 {
        0
    } else {
        step(capacity, cursor_after(capacity, events.drop_last()), events.last())
    }
}

/// What the call at position `i` is answered: for a call of `allocate`, the
/// offset of its block or the reason for none; for a call of `release`,
/// nothing.
pub open spec fn answer(capacity: usize, events: Seq<Event>, i: int) -> Option<
    Result<usize, AllocError>,
> {
    match events[i] {
        Event::Allocate { size, align } => Some(
            outcome(cursor_after(capacity, events.take(i)), size, align, capacity),
        ),
        Event::Release { .. } => None,
    }
}

/// Whether the call at position `i` is a call of `allocate` that is given a
/// block.
pub open spec fn is_granted(capacity: usize, events: Seq<Event>, i: int) -> bool {
    &&& 0 <= i < events.len()
    &&& answer(capacity, events, i) matches Some(Ok(_))
}

/// The cursor that the call at position `i` meets.
pub open spec fn cursor_before(capacity: usize, events: Seq<Event>, i: int) -> int {
    cursor_after(capacity, events.take(i)) as int
}

/// The offset of the first byte of the block granted at position `i`.
pub open spec fn block_start(capacity: usize, events: Seq<Event>, i: int) -> int {
    match answer(capacity, events, i) {
        Some(Ok(offset)) => offset as int,
        _ => 0,
    }
}

/// The number of bytes asked for at position `i`.
pub open spec fn block_size(events: Seq<Event>, i: int) -> int {
    match events[i] {
        Event::Allocate { size, align } => size as int,
        Event::Release { .. } => 0,
    }
}

/// The alignment asked for at position `i`.
pub open spec fn block_align(events: Seq<Event>, i: int) -> int {
    match events[i] {
        Event::Allocate { size, align } => align as int,
        Event::Release { .. } => 1,
    }
}

/// The offset just past the last byte of the block granted at position `i`.
pub open spec fn block_end(capacity: usize, events: Seq<Event>, i: int) -> int {
    block_start(capacity, events, i) + block_size(events, i)
}

/// The cursor after the first `i + 1` calls is the cursor that call `i`
/// leaves behind.
pub proof fn lemma_cursor_unfolds(capacity: usize, events: Seq<Event>, i: int)
    requires
        0 <= i < events.len(),
    ensures
        cursor_after(capacity, events.take(i + 1)) == step(
            capacity,
            cursor_after(capacity, events.take(i)),
            events[i],
        ),
{
    assert(events.take(i + 1).drop_last() =~= events.take(i));
    assert(events.take(i + 1).last() == events[i]);
}

/// No call moves the cursor back, and none moves it past the end of the
/// arena.
pub proof fn lemma_step_advances(capacity: usize, cursor: usize, event: Event)
    requires
        cursor <= capacity,
    ensures
        cursor <= step(capacity, cursor, event) <= capacity,
{
    match event {
        Event::Allocate { size, align } => {
            if outcome(cursor, size, align, capacity) is Ok {
                lemma_outcome_ok(cursor, size, align, capacity);
            }
        },
        Event::Release { .. } => {},
    }
}

/// The cursor always lies inside the arena: `0 <= cursor <= capacity`.
pub proof fn law_cursor_stays_in_arena(capacity: usize, events: Seq<Event>)
    ensures
        cursor_after(capacity, events) <= capacity,
    decreases events.len(),
{
    if events.len() > 0 {
        law_cursor_stays_in_arena(capacity, events.drop_last());
        lemma_step_advances(capacity, cursor_after(capacity, events.drop_last()), events.last());
    }
}

/// The cursor never decreases: after more calls it is no smaller.
pub proof fn law_cursor_never_decreases(capacity: usize, events: Seq<Event>, i: int, j: int)
    requires
        0 <= i <= j <= events.len(),
    ensures
        cursor_after(capacity, events.take(i)) <= cursor_after(capacity, events.take(j)),
    decreases j - i,
{
    if i < j {
        law_cursor_never_decreases(capacity, events, i, j - 1);
        lemma_cursor_unfolds(capacity, events, j - 1);
        law_cursor_stays_in_arena(capacity, events.take(j - 1));
        lemma_step_advances(capacity, cursor_after(capacity, events.take(j - 1)), events[j - 1]);
    }
}

/// A block that is granted starts at the first aligned offset at or after
/// the cursor that its call met, ends inside the arena, and the cursor moves
/// to its end.
pub proof fn lemma_granted_block(capacity: usize, events: Seq<Event>, i: int)
    requires
        is_granted(capacity, events, i),
    ensures
        is_pow2(block_align(events, i)),
        block_start(capacity, events, i) == round_up(
            cursor_before(capacity, events, i),
            block_align(events, i),
        ),
        cursor_before(capacity, events, i) <= block_start(capacity, events, i),
        block_end(capacity, events, i) <= capacity,
        cursor_before(capacity, events, i + 1) == block_end(capacity, events, i),
{
    lemma_cursor_unfolds(capacity, events, i);
    match events[i] {
        Event::Allocate { size, align } => {
            lemma_outcome_ok(cursor_after(capacity, events.take(i)), size, align, capacity);
        },
        Event::Release { .. } => {},
    }
}

/// Blocks never overlap and never leave the arena: of two blocks that were
/// granted, one ends at or before the offset at which the other starts,
/// and each lies within `[0, capacity)`.
pub proof fn law_blocks_are_disjoint(capacity: usize, events: Seq<Event>, i: int, j: int)
    requires
        i != j,
        is_granted(capacity, events, i),
        is_granted(capacity, events, j),
    ensures
        block_end(capacity, events, i) <= block_start(capacity, events, j) || block_end(
            capacity,
            events,
            j,
        ) <= block_start(capacity, events, i),
        0 <= block_start(capacity, events, i) <= block_end(capacity, events, i) <= capacity,
        0 <= block_start(capacity, events, j) <= block_end(capacity, events, j) <= capacity,
{
    lemma_granted_block(capacity, events, i);
    lemma_granted_block(capacity, events, j);
    if i < j {
        law_cursor_never_decreases(capacity, events, i + 1, j);
    } else {
        law_cursor_never_decreases(capacity, events, j + 1, i);
    }
}

/// Every block that is granted starts at a multiple of the alignment that
/// was asked for, and so does its address in an arena whose first byte lies
/// at a multiple of that alignment.
pub proof fn law_blocks_are_aligned(capacity: usize, events: Seq<Event>, i: int, base: int)
    requires
        is_granted(capacity, events, i),
    ensures
        is_aligned(block_start(capacity, events, i), block_align(events, i)),
        is_aligned(base, block_align(events, i)) ==> is_aligned(
            base + block_start(capacity, events, i),
            block_align(events, i),
        ),
{
    lemma_granted_block(capacity, events, i);
    let align = block_align(events, i);
    lemma_power_of_two_is_positive(align);
    lemma_round_up_is_least_multiple(cursor_before(capacity, events, i), align);
    if is_aligned(base, align) {
        lemma_add_mod_noop(base, block_start(capacity, events, i), align);
        assert(0int % align == 0) by (nonlinear_arith)
            requires
                0 < align,
        ;
    }
}

/// The bytes that the call at position `i` takes from the arena: the
/// padding in front of its block and the block itself, or nothing where no
/// block is granted.
pub open spec fn extent_at(capacity: usize, events: Seq<Event>, i: int) -> int {
    if is_granted(capacity, events, i) {
        block_end(capacity, events, i) - cursor_before(capacity, events, i)
    } else {
        0
    }
}

/// The sum of the extents of the first `n` calls.
pub open spec fn total_extent(capacity: usize, events: Seq<Event>, n: int) -> int
    decreases n,
{
    if n <= 0 {
        0
    } else {
        total_extent(capacity, events, n - 1) + extent_at(capacity, events, n - 1)
    }
}

/// The sum of the sizes of the blocks granted among the first `n` calls.
pub open spec fn total_size(capacity: usize, events: Seq<Event>, n: int) -> int
    decreases n,
{
    if n <= 0 {
        0
    } else {
        total_size(capacity, events, n - 1) + if is_granted(capacity, events, n - 1) {
            block_size(events, n - 1)
        } else {
            0
        }
    }
}

/// The extents of the first `n` calls add up to the cursor that the next
/// call meets, and the sizes of their blocks to no more.
pub proof fn lemma_extents_sum_to_cursor(capacity: usize, events: Seq<Event>, n: int)
    requires
        0 <= n <= events.len(),
    ensures
        total_size(capacity, events, n) <= total_extent(capacity, events, n),
        total_extent(capacity, events, n) == cursor_before(capacity, events, n),
    decreases n,
{
    if n == 0 {
        assert(events.take(0).len() == 0);
    } else {
        lemma_extents_sum_to_cursor(capacity, events, n - 1);
        lemma_cursor_unfolds(capacity, events, n - 1);
        if is_granted(capacity, events, n - 1) {
            lemma_granted_block(capacity, events, n - 1);
        } else {
            match events[n - 1] {
                Event::Allocate { size, align } => {},
                Event::Release { .. } => {},
            }
        }
    }
}

/// The extents of all blocks granted, padding included, add up to the
/// cursor and so never to more than `capacity`; the sizes of the blocks
/// add up to no more than the extents.
pub proof fn law_extents_fit_in_arena(capacity: usize, events: Seq<Event>)
    ensures
        total_size(capacity, events, events.len() as int) <= total_extent(
            capacity,
            events,
            events.len() as int,
        ),
        total_extent(capacity, events, events.len() as int) == cursor_after(capacity, events),
        cursor_after(capacity, events) <= capacity,
{
    lemma_extents_sum_to_cursor(capacity, events, events.len() as int);
    assert(events.take(events.len() as int) =~= events);
    law_cursor_stays_in_arena(capacity, events);
}

/// The bytes that a request needs at a cursor: the padding up to the next
/// multiple of its alignment, and its size.
pub open spec fn padded_size(cursor: int, size: int, align: int) -> int {
    round_up(cursor, align) - cursor + size
}

/// Exhaustion is final. Once a request was turned down for want of room, a
/// later request with a valid alignment is turned down too if it asks for
/// the same alignment and no fewer bytes, or if it needs, padding
/// included, no fewer bytes at the cursor it meets than the first needed
/// at the cursor it met.
pub proof fn law_exhaustion_is_final(capacity: usize, events: Seq<Event>, i: int, j: int)
    requires
        0 <= i < j < events.len(),
        answer(capacity, events, i) == Some(Err::<usize, AllocError>(AllocError::Exhausted)),
        events[j] is Allocate,
        is_pow2(block_align(events, j)),
        (block_align(events, j) == block_align(events, i) && block_size(events, j) >= block_size(
            events,
            i,
        )) || padded_size(
            cursor_before(capacity, events, j),
            block_size(events, j),
            block_align(events, j),
        ) >= padded_size(
            cursor_before(capacity, events, i),
            block_size(events, i),
            block_align(events, i),
        ),
    ensures
        answer(capacity, events, j) == Some(Err::<usize, AllocError>(AllocError::Exhausted)),
{
    law_cursor_never_decreases(capacity, events, i, j);
    match events[i] {
        Event::Allocate { size, align } => {
            lemma_power_of_two_is_positive(align as int);
            lemma_round_up_is_monotonic(
                cursor_before(capacity, events, i),
                cursor_before(capacity, events, j),
                align as int,
            );
        },
        Event::Release { .. } => {},
    }
    match events[j] {
        Event::Allocate { size, align } => {},
        Event::Release { .. } => {},
    }
}

/// `release` changes nothing: with a call of `release` put anywhere into a
/// sequence of calls, on any offset, every later call meets the cursor
/// that it meets without it and is answered as it is without it.
pub proof fn law_release_changes_nothing(
    capacity: usize,
    before: Seq<Event>,
    release: Event,
    after: Seq<Event>,
    k: int,
)
    requires
        release is Release,
        0 <= k < after.len(),
    ensures
        cursor_after(capacity, before.push(release) + after) == cursor_after(
            capacity,
            before + after,
        ),
        answer(capacity, before.push(release) + after, before.len() + 1 + k) == answer(
            capacity,
            before + after,
            before.len() + k,
        ),
{
    lemma_release_is_skipped(capacity, before, release, after);
    let with = before.push(release) + after;
    let without = before + after;
    assert(with.take(before.len() + 1 + k) =~= before.push(release) + after.take(k));
    assert(without.take(before.len() + k) =~= before + after.take(k));
    lemma_release_is_skipped(capacity, before, release, after.take(k));
}

/// The cursor after a sequence of calls is the cursor after the same
/// sequence with one call of `release` left out.
pub proof fn lemma_release_is_skipped(
    capacity: usize,
    before: Seq<Event>,
    release: Event,
    after: Seq<Event>,
)
    requires
        release is Release,
    ensures
        cursor_after(capacity, before.push(release) + after) == cursor_after(
            capacity,
            before + after,
        ),
    decreases after.len(),
{
    let with = before.push(release) + after;
    let without = before + after;
    if after.len() == 0 {
        assert(with =~= before.push(release));
        assert(without =~= before);
        assert(with.drop_last() =~= before);
    } else {
        lemma_release_is_skipped(capacity, before, release, after.drop_last());
        assert(with.drop_last() =~= before.push(release) + after.drop_last());
        assert(without.drop_last() =~= before + after.drop_last());
        assert(with.last() == after.last());
        assert(without.last() == after.last());
    }
}

/// `n` calls for one byte each, aligned to one.
pub open spec fn unit_requests(n: nat) -> Seq<Event> {
    Seq::new(n, |i: int| Event::Allocate { size: 1, align: 1 })
}

/// One-byte requests fill the arena byte by byte: of `n` such calls on a
/// fresh arena of at least `n` bytes, whatever threads make them, the call
/// at position `i` is given the byte at offset `i`, so that the offsets
/// granted are exactly `0, 1, .., n - 1`, each once, and the cursor ends at
/// `n`.
pub proof fn law_unit_requests_fill_in_order(capacity: usize, n: nat, i: int)
    requires
        n <= capacity,
        0 <= i < n,
    ensures
        answer(capacity, unit_requests(n), i) == Some(Ok::<usize, AllocError>(i as usize)),
        cursor_after(capacity, unit_requests(n)) == n,
{
    lemma_unit_requests_cursor(capacity, n, i as nat);
    lemma_unit_requests_cursor(capacity, n, n);
    assert(unit_requests(n).take(n as int) =~= unit_requests(n));
    lemma_one_is_power_of_two();
}

/// One is a power of two.
pub proof fn lemma_one_is_power_of_two()
    ensures
        is_pow2(1),
{
    reveal(is_pow2);
}

/// After the first `k` of `n` one-byte requests the cursor is at `k`.
pub proof fn lemma_unit_requests_cursor(capacity: usize, n: nat, k: nat)
    requires
        n <= capacity,
        k <= n,
    ensures
        cursor_after(capacity, unit_requests(n).take(k as int)) == k,
    decreases k,
{
    if k > 0 {
        lemma_unit_requests_cursor(capacity, n, (k - 1) as nat);
        lemma_cursor_unfolds(capacity, unit_requests(n), k - 1);
        lemma_one_is_power_of_two();
    }
}

} // verus!
