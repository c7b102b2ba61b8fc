//! A change made to the file system, as the history records it.
use vstd::prelude::*;

verus! {

#[derive(Debug, Clone, Copy, PartialEq, Eq, Structural)]
pub enum ManipulationKind {
    Delete,
    Put,
    Rename,
}

#[derive(Debug, Clone)]
pub struct Manipulation {
    pub kind: ManipulationKind,
    pub rename: Option<Renamed>,
}

/// A renaming: the path before and after.
#[derive(Debug, Clone)]
pub struct Renamed {
    pub original_name: String,
    pub new_name: String,
}

} // verus!
