//! Wrappers for data whose synchronization is somebody else's business.

use vstd::prelude::*;

verus! {

/// Data that a lock kept elsewhere protects. Whoever holds that lock has the borrow that
/// [`UnsafeMutexCell::get`] and [`UnsafeMutexCell::get_mut`] ask for.
#[derive(Debug)]
pub struct UnsafeMutexCell<T>(T);

impl<T> View for UnsafeMutexCell<T> {
    type V = T;

    closed spec fn view(&self) -> T {
        self.0
    }
}

impl<T> UnsafeMutexCell<T> {
    #[must_use]
    pub fn new(data: T) -> (cell: Self)
        ensures
            cell@ == data,
    {
        Self(data)
    }

    /// Lends the contents for reading.
    #[must_use]
    pub fn get(&self) -> (data: &T)
        ensures
            *data == self@,
    {
        &self.0
    }

    /// Lends the contents for as long as the cell is exclusively borrowed.
    #[must_use]
    pub fn get_mut(&mut self) -> (data: &mut T)
        ensures
            *data == old(self)@,
            final(self)@ == *final(data),
    {
        &mut self.0
    }
}

/// A value that sharing does not give access to: only the owner, or an exclusive borrower, of
/// the wrapper can reach what is inside.
pub struct NotShared<T>(T);

impl<T> View for NotShared<T> {
    type V = T;

    closed spec fn view(&self) -> T {
        self.0
    }
}

impl<T> NotShared<T> {
    #[must_use]
    pub fn new(data: T) -> (wrapper: Self)
        ensures
            wrapper@ == data,
    {
        Self(data)
    }

    /// Lends the contents for as long as the wrapper is exclusively borrowed.
    #[must_use]
    pub fn get_mut(&mut self) -> (data: &mut T)
        ensures
            *data == old(self)@,
            final(self)@ == *final(data),
    {
        &mut self.0
    }
}

} // verus!
