//! The shared part of a reference-counted owner: the value and the count of
//! its owners.
//!
//! A `MyInner` is made for one owner. Each further owner is counted with
//! `retain`, and each owner that goes away with `release`, which tells the
//! last one that the value is now its to free. The handle that points at a
//! `MyInner` and frees it is built on these calls.

use crate::raw_cell::cell_get;
use crate::raw_cell::cell_new;
use crate::raw_cell::cell_set;
use std::cell::Cell;
use vstd::prelude::*;

verus! {

/// The count after one more owner, or `None` where the count cannot grow.
pub open spec fn with_owner(references: usize) -> Option<usize> {
    if references < usize::MAX {
        Some((references + 1) as usize)
    } else {
        None
    }
}

/// The count after one owner is gone, or `None` where no owner is counted.
pub open spec fn without_owner(references: usize) -> Option<usize> {
    if references > 0 {
        Some((references - 1) as usize)
    } else {
        None
    }
}

/// Whether the owner that leaves a count of `references` owners is the last
/// one.
pub open spec fn is_last_owner(references: usize) -> bool {
    without_owner(references) == Some(0usize)
}

/// Decides whether one more owner can be counted.
pub fn count_owner(references: usize) -> (r: Option<usize>)
    ensures
        r == with_owner(references),
{
    references.checked_add(1)
}

/// Decides what an owner that goes away leaves behind.
pub fn discount_owner(references: usize) -> (r: Option<usize>)
    ensures
        r == without_owner(references),
{
    references.checked_sub(1)
}

/// A value and the count of its owners.
pub struct MyInner<T> {
    inner: T,
    references: Cell<usize>,
}

impl<T> MyInner<T> {
    /// The value that is owned.
    pub closed spec fn value(&self) -> T {
        self.inner
    }

    /// A value with one owner.
    pub fn new(value: T) -> (r: Self)
        ensures
            r.value() == value,
    {
        MyInner { inner: value, references: cell_new(1usize) }
    }

    /// The value, for reading.
    pub fn get(&self) -> (r: &T)
        ensures
            *r == self.value(),
    {
        &self.inner
    }

    /// The number of owners at the time of the call.
    pub fn owners(&self) -> usize {
        cell_get(&self.references)
    }

    /// Counts one more owner. The answer is `false`, and nothing is
    /// counted, where the count cannot grow (`with_owner`).
    pub fn retain(&self) -> bool {
        match count_owner(cell_get(&self.references)) {
            Some(counted) => {
                cell_set(&self.references, counted);
                true
            },
            None => false,
        }
    }

    /// Counts one owner less. The answer is `true` where that owner was the
    /// last one (`is_last_owner`): the caller then frees the value. Where
    /// no owner was counted, nothing changes.
    pub fn release(&self) -> bool {
        match discount_owner(cell_get(&self.references)) {
            Some(counted) => {
                cell_set(&self.references, counted);
                counted == 0
            },
            None => false,
        }
    }
}

} // verus!
