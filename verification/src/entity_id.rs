//! The identifier under which an entity is known to its peers.

use vstd::prelude::*;

use crate::compare::string_eq;

verus! {

/// The identifier of an entity, as presented over a secure channel.
#[derive(Clone, Debug, PartialEq, Eq)]
pub struct EntityIdentifier {
    /// The textual form of the identifier.
    pub inner: String,
}

impl EntityIdentifier {
    /// Wrap the textual form of an identifier.
    pub fn new(inner: String) -> (r: Self)
        ensures
            r.inner == inner,
    {
        EntityIdentifier { inner }
    }

    /// An owned copy of this identifier.
    pub fn duplicate(&self) -> (r: Self)
        ensures
            r.inner == self.inner,
    {
        EntityIdentifier { inner: self.inner.clone() }
    }

    /// Whether two identifiers name the same entity.
    pub fn equals(&self, other: &EntityIdentifier) -> (r: bool)
        ensures
            r == (self.inner@ == other.inner@),
    {
        string_eq(&self.inner, &other.inner)
    }
}

} // verus!
