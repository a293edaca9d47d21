//! The allocator: one cursor shared by every caller.
//!
//! `MyAlloc` hands out blocks of an arena as offsets from its first byte.
//! The only shared state is the cursor, an atomic integer that each
//! successful call moves past the block it takes, in one atomic step, and
//! that nothing ever moves back. No call blocks, and none allocates.
//!
//! Every call takes effect at one instant: the instant at which its update
//! of the cursor is applied. The calls of any execution, however
//! interleaved, therefore form a sequence, and `crate::history` states what
//! holds of every such sequence.

use crate::placement::is_aligned;
use crate::placement::is_power_of_two;
use crate::placement::lemma_outcome_ok;
use crate::placement::next;
use crate::placement::outcome;
use crate::placement::place;
use crate::placement::AllocError;
use std::sync::atomic::AtomicUsize;
use std::sync::atomic::Ordering;
use vstd::arithmetic::power2::is_pow2;
use vstd::prelude::*;

verus! {

/// The number of bytes in the arena of an allocator made by `MyAlloc::new`:
/// 4 MiB.
pub const ALLOC_MEM_SIZE: usize = 4194304;

/// A bump allocator over an arena of fixed capacity.
pub struct MyAlloc {
    capacity: usize,
    ptr: AtomicUsize,
}

/// Calls `AtomicUsize::fetch_update` on the cursor with the function that
/// maps a cursor to the cursor that the request leaves behind, `next`.
///
/// The standard library applies that function to the stored value and, if
/// it yields a new value, stores it in the same atomic step; it answers
/// `Ok` with the value it met if the function yielded one, and `Err` with
/// the value it met if not. The contract claims only that pairing of the
/// answer with what the request gets at the value met.
#[verifier::external_body]
fn fetch_update(cursor: &AtomicUsize, size: usize, align: usize, capacity: usize) -> (r: Result<
    usize,
    usize,
>)
    ensures
        r matches Ok(met) ==> outcome(met, size, align, capacity) is Ok,
        r matches Err(met) ==> outcome(met, size, align, capacity) is Err,
{
    cursor.fetch_update(Ordering::Relaxed, Ordering::Relaxed, |met| next(met, size, align, capacity))
}

impl MyAlloc {
    /// The number of bytes in the arena.
    pub closed spec fn spec_capacity(&self) -> usize {
        self.capacity
    }

    /// An allocator over an arena of `ALLOC_MEM_SIZE` bytes, none of them
    /// taken.
    pub fn new() -> (r: Self)
        ensures
            r.spec_capacity() == ALLOC_MEM_SIZE,
    {
        MyAlloc { capacity: ALLOC_MEM_SIZE, ptr: AtomicUsize::new(0) }
    }

    /// An allocator over an arena of `capacity` bytes, none of them taken.
    pub fn with_capacity(capacity: usize) -> (r: Self)
        ensures
            r.spec_capacity() == capacity,
    {
        MyAlloc { capacity, ptr: AtomicUsize::new(0) }
    }

    /// The number of bytes in the arena.
    #[verifier::when_used_as_spec(spec_capacity)]
    pub fn capacity(&self) -> (r: usize)
        ensures
            r == self.spec_capacity(),
    {
        self.capacity
    }

    /// The cursor at some instant during the call: the number of bytes,
    /// padding included, taken so far.
    pub fn used(&self) -> usize {
        self.ptr.load(Ordering::Relaxed)
    }

    /// Takes a block of `size` bytes whose offset is a multiple of `align`.
    ///
    /// The result is what the request gets at the cursor that it met
    /// (`outcome`): the offset of a block that no other call is given, or
    /// the reason for none. An alignment that is not a power of two is
    /// turned down whatever the cursor; so is a request larger than the
    /// arena. Otherwise the cursor decides, and a request that is turned
    /// down leaves it where it was.
    pub fn allocate(&self, size: usize, align: usize) -> (r: Result<usize, AllocError>)
        ensures
            exists|met: usize| r == #[trigger] outcome(met, size, align, self.capacity()),
            r == Err::<usize, AllocError>(AllocError::InvalidAlignment) <==> !is_pow2(align as int),
            is_pow2(align as int) && size > self.capacity() ==> r == Err::<usize, AllocError>(
                AllocError::Exhausted,
            ),
            r matches Ok(offset) ==> is_aligned(offset as int, align as int) && offset + size
                <= self.capacity(),
    {
        if !is_power_of_two(align) {
            assert(outcome(0, size, align, self.capacity()) == Err::<usize, AllocError>(
                AllocError::InvalidAlignment,
            ));
            return Err(AllocError::InvalidAlignment);
        }
        match fetch_update(&self.ptr, size, align, self.capacity) {
            Ok(met) => {
                proof {
                    lemma_outcome_ok(met, size, align, self.capacity);
                }
                place(met, size, align, self.capacity)
            },
            Err(met) => {
                assert(outcome(met, size, align, self.capacity()) == Err::<usize, AllocError>(
                    AllocError::Exhausted,
                ));
                Err(AllocError::Exhausted)
            },
        }
    }

    /// Gives a block back. The arena never takes a block back: nothing is
    /// read and nothing is changed, so no later `allocate` can tell that the
    /// call was made.
    pub fn release(&self, offset: usize, size: usize, align: usize) {
    }
}

} // verus!
