//! A clone-on-write wrapper: a value that is borrowed until somebody needs
//! to own it.

use std::borrow::ToOwned;
use std::ops::Deref;
use vstd::prelude::*;

verus! {

/// Either a borrowed value or the owned form of one.
pub enum MyCow<'a, T> where T: ToOwned + ?Sized {
    Borrowed(&'a T),
    Owned(<T as ToOwned>::Owned),
}

impl<T: ToOwned + ?Sized> MyCow<'_, T> {
    /// Whether the value is still borrowed.
    pub fn is_borrowed(&self) -> (r: bool)
        ensures
            r == (*self is Borrowed),
    {
        match *self {
            MyCow::Borrowed(_) => true,
            MyCow::Owned(_) => false,
        }
    }

    /// Whether the value is owned.
    pub fn is_owned(&self) -> (r: bool)
        ensures
            r == (*self is Owned),
    {
        !self.is_borrowed()
    }
}

impl<'a> View for MyCow<'a, str> {
    type V = Seq<char>;

    /// The characters of the text, whoever owns it.
    open spec fn view(&self) -> Seq<char> {
        match *self {
            MyCow::Borrowed(text) => text@,
            MyCow::Owned(text) => text@,
        }
    }
}

impl<'a> MyCow<'a, str> {
    /// Makes the text owned, by copying it if it is still borrowed.
    fn make_owned(&mut self)
        ensures
            *final(self) is Owned,
            final(self)@ == old(self)@,
    {
        match self {
            MyCow::Owned(_) => (),
            MyCow::Borrowed(text) => {
                let owned = text.to_owned();
                *self = MyCow::Owned(owned);
            },
        }
    }

    /// The text for writing. It is copied first if it was still borrowed;
    /// what is written through the reference stays in the wrapper, which is
    /// owned from now on.
    pub fn to_mut(&mut self) -> (r: &mut String)
        ensures
            r@ == old(self)@,
            *final(self) == MyCow::<str>::Owned(*final(r)),
    {
        self.make_owned();
        match self {
            MyCow::Owned(text) => text,
            MyCow::Borrowed(_) => unreached(),
        }
    }

    /// The owned text, copied if it was still borrowed.
    pub fn into_owned(self) -> (r: String)
        ensures
            r@ == self@,
            self matches MyCow::Owned(text) ==> r == text,
    {
        match self {
            MyCow::Owned(text) => text,
            MyCow::Borrowed(text) => text.to_owned(),
        }
    }
}

impl<'a> Deref for MyCow<'a, str> {
    type Target = str;

    /// The text for reading, whoever owns it.
    fn deref(&self) -> (r: &str)
        ensures
            r@ == self@,
    {
        match self {
            MyCow::Borrowed(text) => *text,
            MyCow::Owned(text) => text.as_str(),
        }
    }
}

} // verus!
