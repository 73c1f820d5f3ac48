use vstd::prelude::*;

verus! {

/// Closes the library's extension points: only the types of this crate's choosing
/// can act as strings, units, indices, patterns or searchers.
pub trait Sealed {}

} // verus!
