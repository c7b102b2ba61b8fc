//! What is kept from one session to the next: sort key, hidden items, preview, split.
use vstd::prelude::*;
use crate::layout::Split;

verus! {

#[derive(Debug, Clone)]
pub struct Session {
    pub sort_by: SortKey,
    pub show_hidden: bool,
    pub preview: Option<bool>,
    pub split: Option<Split>,
}

#[derive(Debug, Clone, Copy, PartialEq, Eq, Structural)]
pub enum SortKey {
    Name,
    Time,
}

impl Default for Session {
    /// The session used when none can be read.
    fn default() -> (s: Self)
        ensures
            s.sort_by == SortKey::Name,
            s.show_hidden,
            s.preview == Some(false),
            s.split == Some(Split::Vertical),
    {
        Session {
            sort_by: SortKey::Name,
            show_hidden: true,
            preview: Some(false),
            split: Some(Split::Vertical),
        }
    }
}

} // verus!
