//! Opaque handles for the entities the toolkit manages.
//!
//! Fields, forms and buttons are roles attached to handles, not a class
//! hierarchy: a handle is a plain index into the world's slot arena.

use vstd::prelude::*;

verus! {

/// An opaque handle naming one entity (a field, a form or a button) in a
/// world's slot arena.
#[derive(Clone, Copy, PartialEq, Eq, Structural, Debug, Hash)]
pub struct Entity(pub usize);

impl Entity {
    /// The index this handle names.
    pub fn index(self) -> (i: usize)
        ensures
            i == self.0,
    {
        self.0
    }
}

} // verus!
