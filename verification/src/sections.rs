//! A fetched snapshot of the dashboard.

use crate::commits::CommitStats;
use crate::merged::MergedRow;
use crate::prs::PrRow;
use crate::queue::QueueRow;
use crate::reviews::{ReviewRow, ReviewedMergedRow};
use vstd::prelude::*;

verus! {

/// Every section of the dashboard; one that is switched off is `None`.
pub struct Sections {
    pub merged: Option<Vec<MergedRow>>,
    pub queue: Option<Vec<QueueRow>>,
    /// Seconds until a newly added queue entry would merge.
    pub queue_next_eta: Option<i64>,
    pub prs: Option<Vec<PrRow>>,
    pub commits: Option<CommitStats>,
    /// Open PRs awaiting or under your review.
    pub reviews: Option<Vec<ReviewRow>>,
    /// Merged PRs you reviewed.
    pub reviewed_merged: Option<Vec<ReviewedMergedRow>>,
}

impl Sections {
    /// Every section switched off.
    pub fn empty() -> (s: Self)
        ensures
            s == (Sections {
                merged: None,
                queue: None,
                queue_next_eta: None,
                prs: None,
                commits: None,
                reviews: None,
                reviewed_merged: None,
            }),
    {
        Sections {
            merged: None,
            queue: None,
            queue_next_eta: None,
            prs: None,
            commits: None,
            reviews: None,
            reviewed_merged: None,
        }
    }
}

} // verus!
