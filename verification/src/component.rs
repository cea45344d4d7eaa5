//! The capability every storable value already has.

use vstd::prelude::*;

verus! {

/// Anything may be stored per entity: a component needs no behavioral
/// interface beyond a stable runtime type key, which the caller supplies
/// to the store alongside the value.
pub trait Component {

}

impl<T> Component for T {

}

} // verus!
