//! A trait for types that expose a [`NamespacedKey`].

use vstd::prelude::*;
use crate::namespaced_key::NamespacedKey;

verus! {

/// A trait for types that carry a [`NamespacedKey`]. Implementors return a
/// reference to their underlying key.
pub trait Keyed {
    /// The key this value exposes.
    spec fn spec_key(&self) -> NamespacedKey;

    /// Gets the `NamespacedKey`.
    fn key(&self) -> (r: &NamespacedKey)
        ensures
            *r == self.spec_key(),
    ;
}

} // verus!
