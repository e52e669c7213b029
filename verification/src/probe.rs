//! What the file system holds, as far as the rules need to know.

use vstd::prelude::*;

verus! {

/// What stands at a path.
#[derive(Clone, Copy, Debug, PartialEq, Eq, Structural)]
pub enum PathKind {
    /// Nothing.
    Missing,
    /// A file, or anything else that is no directory.
    File,
    /// A directory.
    Directory,
}

/// What is to be done about the output directory before anything is written
/// into it.
#[derive(Clone, Copy, Debug, PartialEq, Eq, Structural)]
pub enum OutputDirectory {
    /// It exists.
    Ready,
    /// It has to be created first.
    Create,
}

} // verus!
