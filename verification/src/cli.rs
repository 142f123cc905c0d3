//! What the command line selects.

use vstd::prelude::*;

verus! {

/// The two views of the dashboard.
#[derive(Copy, Clone, Debug, PartialEq, Eq, Structural)]
pub enum ViewKind {
    /// Your own PRs, the merge queue, what merged and what shipped.
    Mine,
    /// The PRs you review, and those of them that merged.
    Reviews,
}

impl ViewKind {
    /// The other view.
    pub fn toggle(self) -> (v: Self)
        ensures
            v == (match self {
                ViewKind::Mine => ViewKind::Reviews,
                ViewKind::Reviews => ViewKind::Mine,
            }),
    {
        match self {
            ViewKind::Mine => ViewKind::Reviews,
            ViewKind::Reviews => ViewKind::Mine,
        }
    }
}

} // verus!
