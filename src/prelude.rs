//! The items needed to search and slice native strings.

pub use crate::index::{OsStrIndex, OsStrIndexError};
pub use crate::manip::OsStrManip;
pub use crate::os_string::{OsString, OsStringFromItem, OsStringFromIter};
pub use crate::search::OsStrPattern;
