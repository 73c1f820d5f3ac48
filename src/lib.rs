//! Pattern matching and indexing over native operating-system strings.
//!
//! A native string is held as the sequence of its platform units and is searched
//! and sliced without any re-encoding: units are compared as opaque values.
//! Patterns are lowered to searchers, state machines that report how each part of
//! the searched string was judged; the derived operations (`contains`,
//! `starts_with`, `ends_with`, `strip_prefix`, `strip_suffix`) are stated over that
//! stream of steps.

mod sealed;
pub mod os_string;
pub mod index;
pub mod search;
pub mod substring;
pub mod item_search;
pub mod manip;
pub mod prelude;
