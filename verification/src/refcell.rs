//! A cell that checks borrows when the program runs.
//!
//! A `MyRefCell` counts the guards that are alive for it: a positive count
//! is the number of shared guards, `-1` stands for one exclusive guard, and
//! `0` for none. A borrow that the count does not admit is turned down with
//! `None`; it never waits and never panics. A guard gives its borrow back
//! when it is dropped.

use crate::cell::AnyValue;
use crate::cell::MyCell;
use crate::raw_cell::cell_get;
use crate::raw_cell::cell_new;
use crate::raw_cell::cell_set;
use std::cell::Cell;
use vstd::predicate::Predicate;
use vstd::prelude::*;

verus! {

/// The count after one more shared borrow, or `None` where the count admits
/// none: while an exclusive guard is alive, and where the count cannot grow.
pub open spec fn with_shared(references: i32) -> Option<i32> {
    if 0 <= references < i32::MAX {
        Some((references + 1) as i32)
    } else {
        None
    }
}

/// The count after an exclusive borrow, or `None` where the count admits
/// none: while any guard is alive.
pub open spec fn with_exclusive(references: i32) -> Option<i32> {
    if references == 0 {
        Some(-1i32)
    } else {
        None
    }
}

/// The count after a shared guard is gone. A count without shared guards
/// stays as it is.
pub open spec fn without_shared(references: i32) -> i32 {
    if references > 0 {
        (references - 1) as i32
    } else {
        references
    }
}

/// The count after the exclusive guard is gone. A count without an
/// exclusive guard stays as it is.
pub open spec fn without_exclusive(references: i32) -> i32 {
    if references == -1 {
        0
    } else {
        references
    }
}

/// Decides a shared borrow on the count found.
pub fn admit_shared(references: i32) -> (r: Option<i32>)
    ensures
        r == with_shared(references),
{
    if references < 0 || references == i32::MAX {
        None
    } else {
        Some(references + 1)
    }
}

/// Decides an exclusive borrow on the count found.
pub fn admit_exclusive(references: i32) -> (r: Option<i32>)
    ensures
        r == with_exclusive(references),
{
    if references > 0 {
        return None;
    }
    if references < 0 {
        return None;
    }
    Some(-1)
}

/// The count to store when a shared guard is dropped.
pub fn end_shared(references: i32) -> (r: i32)
    ensures
        r == without_shared(references),
    opens_invariants none
    no_unwind
{
    if references > 0 {
        references - 1
    } else {
        references
    }
}

/// The count to store when the exclusive guard is dropped.
pub fn end_exclusive(references: i32) -> (r: i32)
    ensures
        r == without_exclusive(references),
    opens_invariants none
    no_unwind
{
    if references == -1 {
        0
    } else {
        references
    }
}

/// A value with borrows that are checked when the program runs.
///
/// Like a `MyCell`, it is made with a rule that every value written into it
/// must satisfy and that every value read from it is promised.
/// `MyRefCell::new` makes one that accepts every value.
pub struct MyRefCell<T, P = AnyValue> {
    value: MyCell<T, P>,
    references: Cell<i32>,
}

/// A shared guard: while it is alive, no exclusive guard is handed out.
pub struct MyRef<'a, T, P = AnyValue> {
    refcell: &'a MyRefCell<T, P>,
}

/// The exclusive guard: while it is alive, no other guard is handed out.
pub struct MyRefMut<'a, T, P = AnyValue> {
    refcell: &'a MyRefCell<T, P>,
}

impl<'a, T, P: Predicate<T>> MyRef<'a, T, P> {
    /// The cell that the guard borrows from.
    pub closed spec fn source(&self) -> &'a MyRefCell<T, P> {
        self.refcell
    }

    /// A copy of the value in the cell: one that the cell accepts.
    pub fn get(&self) -> (r: T) where T: Copy
        ensures
            self.source().accepts(r),
    {
        self.refcell.value.get()
    }
}

impl<'a, T, P> Drop for MyRef<'a, T, P> {
    /// Gives the shared borrow back.
    fn drop(&mut self)
        opens_invariants none
        no_unwind
    {
        let references: i32 = cell_get(&self.refcell.references);
        cell_set(&self.refcell.references, end_shared(references));
    }
}

impl<'a, T, P: Predicate<T>> MyRefMut<'a, T, P> {
    /// The cell that the guard borrows from.
    pub closed spec fn source(&self) -> &'a MyRefCell<T, P> {
        self.refcell
    }

    /// A copy of the value in the cell: one that the cell accepts.
    pub fn get(&self) -> (r: T) where T: Copy
        ensures
            self.source().accepts(r),
    {
        self.refcell.value.get()
    }

    /// Replaces the value in the cell by one that the cell accepts. The
    /// guard stays the guard of the same cell.
    pub fn set(&mut self, value: T)
        requires
            old(self).source().accepts(value),
        ensures
            final(self).source() == old(self).source(),
    {
        self.refcell.value.set(value);
    }
}

impl<'a, T, P> Drop for MyRefMut<'a, T, P> {
    /// Gives the exclusive borrow back.
    fn drop(&mut self)
        opens_invariants none
        no_unwind
    {
        let references: i32 = cell_get(&self.refcell.references);
        cell_set(&self.refcell.references, end_exclusive(references));
    }
}

impl<T> MyRefCell<T, AnyValue> {
    /// A cell that holds `value`, with no guard alive, and that accepts
    /// every value.
    pub fn new(value: T) -> Self {
        MyRefCell { value: MyCell::new(value), references: cell_new(0i32) }
    }
}

impl<T, P: Predicate<T>> MyRefCell<T, P> {
    /// The rule that the cell was made with.
    pub closed spec fn rule(&self) -> P {
        self.value.rule()
    }

    /// Whether the cell may hold `value`.
    pub open spec fn accepts(&self, value: T) -> bool {
        self.rule().predicate(value)
    }

    /// A cell that holds `value`, with no guard alive, and that accepts the
    /// values that satisfy `rule`.
    pub fn with_rule(value: T, Ghost(rule): Ghost<P>) -> (r: Self)
        requires
            rule.predicate(value),
        ensures
            r.rule() == rule,
    {
        MyRefCell { value: MyCell::with_rule(value, Ghost(rule)), references: cell_new(0i32) }
    }

    /// A shared guard, or `None` where the count of guards admits none
    /// (`with_shared`).
    pub fn borrow(&self) -> (r: Option<MyRef<'_, T, P>>)
        ensures
            r matches Some(guard) ==> guard.source() == self,
    {
        let references: i32 = cell_get(&self.references);
        match admit_shared(references) {
            Some(counted) => {
                cell_set(&self.references, counted);
                Some(MyRef { refcell: self })
            },
            None => None,
        }
    }

    /// The exclusive guard, or `None` where the count of guards admits none
    /// (`with_exclusive`).
    pub fn borrow_mut(&self) -> (r: Option<MyRefMut<'_, T, P>>)
        ensures
            r matches Some(guard) ==> guard.source() == self,
    {
        let references: i32 = cell_get(&self.references);
        match admit_exclusive(references) {
            Some(counted) => {
                cell_set(&self.references, counted);
                Some(MyRefMut { refcell: self })
            },
            None => None,
        }
    }
}

} // verus!
