//! The decisions of preparing the local TeX tree: an existing nonempty tree
//! is kept, otherwise the embedded tree is extracted.
use vstd::prelude::*;

verus! {

/// What listing the TeX tree directory found.
#[derive(Debug, Clone, Copy, PartialEq, Eq, Structural)]
pub enum TreeListing {
    /// The directory does not exist.
    Missing,
    /// The directory exists and holds no entry.
    Empty,
    /// The directory exists and holds at least one entry.
    NonEmpty,
}

/// The next step of preparing the TeX tree.
#[derive(Debug, Clone, Copy, PartialEq, Eq, Structural)]
pub enum InitStep {
    /// Keep the existing tree as it is.
    Keep,
    /// Create the directory and extract the embedded tree into it.
    Extract,
}

/// Decides how to prepare the TeX tree from what listing it found: a
/// nonempty tree is preserved, never refreshed.
pub fn init_step(listing: TreeListing) -> (step: InitStep)
    ensures
        step == match listing {
            TreeListing::NonEmpty => InitStep::Keep,
            TreeListing::Missing => InitStep::Extract,
            TreeListing::Empty => InitStep::Extract,
        },
{
    match listing {
        TreeListing::NonEmpty => InitStep::Keep,
        TreeListing::Missing => InitStep::Extract,
        TreeListing::Empty => InitStep::Extract,
    }
}

} // verus!
