//! The nodes met while walking a source tree.
use vstd::prelude::*;

verus! {

/// What a filesystem node is.
#[derive(Clone, Copy, Debug, PartialEq, Eq, Structural)]
pub enum EntryKind {
    Directory,
    File,
    Symlink,
}

/// The outcome of the rule chain for one entry.
#[derive(Clone, Copy, Debug, PartialEq, Eq, Structural)]
pub enum Decision {
    Include,
    Exclude,
}

/// One node met while walking a source tree, with what the rules read of it.
pub struct Entry {
    /// The node's path.
    pub path: String,
    /// What the node is.
    pub kind: EntryKind,
    /// Whether the node or one of its ancestors holds a version-control
    /// metadata directory.
    pub under_vcs: bool,
}

/// Whether a separator of either platform flavour.
pub open spec fn is_sep(c: char) -> bool {
    c == '/' || c == '\\'
}

/// Tests a character for being a path separator.
pub fn is_separator(c: char) -> (r: bool)
    ensures
        r == is_sep(c),
{
    c == '/' || c == '\\'
}

} // verus!
