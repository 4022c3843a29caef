//! Values that keep to themselves.
use vstd::prelude::*;

verus! {

/// A value set apart from its neighbours.
pub struct CachePadded<T> {
    value: T,
}

impl<T> View for CachePadded<T> {
    type V = T;

    closed spec fn view(&self) -> T {
        self.value
    }
}

impl<T> CachePadded<T> {
    /// Sets a value apart.
    pub fn new(value: T) -> (padded: Self)
        ensures
            padded@ == value,
    {
        Self { value }
    }
}

impl<T> std::ops::Deref for CachePadded<T> {
    type Target = T;

    fn deref(&self) -> (value: &T)
        ensures
            *value == self@,
    {
        &self.value
    }
}

} // verus!
