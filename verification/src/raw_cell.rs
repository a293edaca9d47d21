//! The standard library's `Cell`, for the counters that are changed through
//! shared references.
//!
//! Verus sees nothing inside a `Cell`, so nothing is claimed of what a read
//! returns: the callers decide on whatever value they find.

use std::cell::Cell;
use vstd::prelude::*;

verus! {

#[verifier::external_type_specification]
#[verifier::external_body]
#[verifier::reject_recursive_types(T)]
pub struct ExCell<T: ?Sized>(Cell<T>);

/// Calls `Cell::new`: a cell that holds `value`. Nothing is claimed of the
/// result.
#[verifier::external_body]
pub(crate) fn cell_new<T: Copy>(value: T) -> Cell<T> {
    Cell::new(value)
}

/// Calls `Cell::get`: a copy of the value in the cell. Nothing is claimed of
/// the result. The call cannot panic.
#[verifier::external_body]
pub(crate) fn cell_get<T: Copy>(cell: &Cell<T>) -> T
    opens_invariants none
    no_unwind
{
    cell.get()
}

/// Calls `Cell::set`: replaces the value in the cell. The old value is a
/// `Copy` value, which has no destructor to run, so the call cannot panic.
#[verifier::external_body]
pub(crate) fn cell_set<T: Copy>(cell: &Cell<T>, value: T)
    opens_invariants none
    no_unwind
{
    cell.set(value)
}

} // verus!
