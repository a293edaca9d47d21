//! A cell for one thread: a value that can be replaced through a shared
//! reference.
//!
//! Whoever holds a shared reference may write, so a reader cannot know
//! which value it will find. What it can know is a rule that every write
//! respects: a cell is made with a predicate, each write must satisfy it,
//! and each read is promised it. `MyCell::new` makes a cell that accepts
//! every value.

use vstd::cell::invcell::InvCell;
use vstd::predicate::Predicate;
use vstd::prelude::*;

verus! {

/// The predicate that every value satisfies.
pub struct AnyValue;

impl<T> Predicate<T> for AnyValue {
    open spec fn predicate(&self, value: T) -> bool {
        true
    }
}

/// A value that can be read and replaced through a shared reference.
pub struct MyCell<T, P = AnyValue> {
    inner: InvCell<T, P>,
}

impl<T> MyCell<T, AnyValue> {
    /// A cell that holds `value` and accepts every value.
    pub fn new(value: T) -> (r: Self)
        ensures
            forall|v: T| r.accepts(v),
    {
        MyCell { inner: InvCell::new(value, Ghost(AnyValue)) }
    }
}

impl<T, P: Predicate<T>> MyCell<T, P> {
    /// The predicate that the cell was made with.
    pub closed spec fn rule(&self) -> P {
        self.inner.predicate()
    }

    /// Whether the cell may hold `value`.
    pub open spec fn accepts(&self, value: T) -> bool {
        self.rule().predicate(value)
    }

    /// A cell that holds `value` and accepts the values that satisfy
    /// `rule`.
    pub fn with_rule(value: T, Ghost(rule): Ghost<P>) -> (r: Self)
        requires
            rule.predicate(value),
        ensures
            r.rule() == rule,
    {
        MyCell { inner: InvCell::new(value, Ghost(rule)) }
    }

    /// Replaces the value in the cell.
    pub fn set(&self, value: T)
        requires
            self.accepts(value),
    {
        self.inner.set(value);
    }

    /// A copy of the value in the cell: one that the cell accepts.
    pub fn get(&self) -> (r: T) where T: Copy
        ensures
            self.accepts(r),
    {
        self.inner.get()
    }
}

} // verus!
