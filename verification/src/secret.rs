//! Values that are kept out of logs and stored as they are.
use vstd::prelude::*;

verus! {

/// A value kept apart so that it is not shown by accident.
#[derive(Clone, Copy, Default)]
pub struct Zeroizable<T>(T);

/// A secret value read from or written to the database.
#[derive(Clone)]
pub struct DbSecret<T> {
    inner: Zeroizable<T>,
}

impl<T> DbSecret<T> {
    /// The value held.
    pub closed spec fn exposed(self) -> T {
        self.inner.0
    }

    /// Holds `value`.
    pub fn new(value: T) -> (result: Self)
        ensures
            result.exposed() == value,
    {
        DbSecret { inner: Zeroizable(value) }
    }

    /// The value held, on purpose.
    pub fn expose_secret(&self) -> (result: &T)
        ensures
            *result == self.exposed(),
    {
        &self.inner.0
    }
}

} // verus!
