//! The commits you shipped, release by release.

use crate::model::clone_opt;
use std::collections::HashMap;
use vstd::prelude::*;

verus! {

/// How many commits of yours, and whether that is only a lower bound.
#[derive(Clone, Copy, Debug, PartialEq, Eq, Structural)]
pub struct Count {
    pub mine: usize,
    pub capped: bool,
}

/// A count, and the page that lists what was counted.
#[derive(Debug, PartialEq, Eq)]
pub struct Bucket {
    pub count: Count,
    pub url: String,
}

impl Clone for Bucket {
    fn clone(&self) -> (r: Self)
        ensures
            r == *self,
    {
        Bucket { count: self.count, url: self.url.clone() }
    }
}

/// A published release.
#[derive(Debug, PartialEq, Eq)]
pub struct Release {
    pub tag: String,
    pub bucket: Bucket,
    pub published_at: Option<String>,
}

impl Clone for Release {
    fn clone(&self) -> (r: Self)
        ensures
            r == *self,
    {
        Release {
            tag: self.tag.clone(),
            bucket: self.bucket.clone(),
            published_at: clone_opt(&self.published_at),
        }
    }
}

/// What you shipped: commits that are not released yet, and those of the last
/// releases. `available` is false where the releases could not be read.
#[derive(Debug, PartialEq, Eq)]
pub struct CommitStats {
    pub available: bool,
    pub upcoming: Option<Bucket>,
    pub releases: Vec<Release>,
}

impl CommitStats {
    /// The stats of releases that could not be read.
    pub fn unavailable() -> (r: Self)
        ensures
            !r.available,
            r.upcoming is None,
            r.releases@.len() == 0,
    {
        CommitStats { available: false, upcoming: None, releases: Vec::new() }
    }
}

/// The release that shipped a PR.
#[derive(Debug, PartialEq, Eq)]
pub struct ReleaseRef {
    pub tag: String,
    pub url: String,
}

impl Clone for ReleaseRef {
    fn clone(&self) -> (r: Self)
        ensures
            r == *self,
    {
        ReleaseRef { tag: self.tag.clone(), url: self.url.clone() }
    }
}

/// The release that shipped each PR, by PR number.
pub type ReleaseMap = HashMap<i64, ReleaseRef>;

} // verus!
