//! Fallback identifiers for objects that are referenced by their position.
//!
//! A reference to an object kept in a list carries its position and an id; adding or
//! removing items can move the object, and the ids must match when the object is
//! fetched again. Ids come from a counter that the caller keeps.

use vstd::prelude::*;

verus! {

/// A fallback identifier for types that are referenced by index.
#[derive(Debug, Clone, Copy, PartialEq, Eq, Hash, Structural)]
pub struct PyId(pub u64);

impl PyId {
    /// The id that `counter` holds; the counter moves on to the next one, wrapping
    /// around after the largest.
    pub fn next(counter: &mut u64) -> (res: Self)
        ensures
            res == PyId(*old(counter)),
            *final(counter) == (if *old(counter) == u64::MAX { 0 } else { (*old(counter) + 1) as u64 }),
    {
        let id = *counter;
        *counter = counter.wrapping_add(1);
        PyId(id)
    }

    /// An id equal to this one.
    pub fn duplicate(&self) -> (res: Self)
        ensures
            res == *self,
    {
        PyId(self.0)
    }
}

} // verus!
