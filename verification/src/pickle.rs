//! Pickling traits: a pair of conversions between a value and its pickled
//! byte form, for host bindings that move values across a byte boundary.

use vstd::prelude::*;

verus! {

/// Builds a value of type `T` from pickled bytes.
pub trait PickleImport<T> {
    fn from_pickle(data: &[u8]) -> T;
}

/// Renders a value as pickled bytes.
pub trait PickleExport {
    fn to_pickle(&self) -> Vec<u8>;
}

} // verus!
