pub mod dll;
pub mod extract;
pub mod install;
pub mod resolve;
pub mod scan;

use vstd::prelude::*;

verus! {

/// The errors the library's stages can report: a malformed filename
/// argument, a page or pattern that is absent, or a payload that is not
/// a valid archive.
#[derive(Clone, Copy, Debug, PartialEq, Eq, Structural)]
pub enum LibError {
    /// The requested filename does not name a dynamic-link library.
    Argument,
    /// The listing page is missing, or a detail page holds no download url.
    NotFound,
    /// The downloaded payload is not a readable archive.
    Archive,
}

} // verus!
