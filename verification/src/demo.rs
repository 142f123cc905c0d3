//! Synthetic dashboard data for screenshots: no login, repository or network.
//! Times are relative to a given moment, so that the ages look fresh.

use crate::commits::{Bucket, CommitStats, Count, Release, ReleaseRef};
use crate::merged::MergedRow;
use crate::model::opt_string;
use crate::prs::PrRow;
use crate::queue::QueueRow;
use crate::reviews::{ReviewRow, ReviewedMergedRow};
use crate::sections::Sections;
use crate::status;
use crate::status::{Checks, ReviewState, Status};
use crate::text::{concat, dec_int, decimal_int, is_empty};
use chrono::{DateTime, SecondsFormat, Utc};
use vstd::prelude::*;

verus! {

/// The first second of the year -262143, the first that `chrono` has.
pub const FIRST_SECOND: i64 = -8_334_601_228_800;

/// The last second of the year 262142, the last that `chrono` has.
pub const LAST_SECOND: i64 = 8_210_266_876_799;

/// The longest time that any of the demo data lies in the past.
pub const OLDEST: i64 = 6_048_000;

/// The RFC 3339 spelling of a moment, given in seconds since the epoch.
pub uninterp spec fn rfc3339(secs: int) -> Seq<char>;

/// `chrono::DateTime::to_rfc3339_opts` of `DateTime::from_timestamp`: the RFC
/// 3339 spelling of a moment in UTC, to the second.
#[verifier::external_body]
fn spell(secs: i64) -> (s: String)
    requires
        FIRST_SECOND <= secs <= LAST_SECOND,
    ensures
        s@ == rfc3339(secs as int),
{
    DateTime::<Utc>::from_timestamp(secs, 0)
        .expect("a moment that can be dated")
        .to_rfc3339_opts(SecondsFormat::Secs, true)
}

pub const BASE: &'static str = "https://github.com/caarlos0/prowl";

/// An open PR: number, draft, title, whether it has a status, that status, merge
/// state, failing checks, age.
pub type DemoPr = (i64, bool, &'static str, bool, Status, &'static str, u64, i64);

pub const DEMO_PRS: [DemoPr; 5] = [
    (128, false, "feat(render): truecolor status palette", true, Status::Pass, "CLEAN", 0, 300),
    (127, false, "fix(term): restore cursor on SIGTSTP", true, Status::Fail, "BLOCKED", 2, 1080),
    (
        125,
        false,
        "perf(cache): paint from disk on startup",
        true,
        Status::Pending,
        "UNSTABLE",
        0,
        2400,
    ),
    (124, true, "wip: nix flake + home-manager module", false, Status::Pending, "DRAFT", 0, 7200),
    (120, false, "chore(deps): bump ureq to 3.x", true, Status::Conflicts, "DIRTY", 0, 10800),
];

/// A queue entry: position, number, author, title, mine, waiting for, building
/// for (zero before it builds).
pub type DemoEntry = (i64, i64, &'static str, &'static str, bool, i64, i64);

pub const DEMO_QUEUE: [DemoEntry; 3] = [
    (1, 118, "caarlos0", "feat(queue): inline merge-queue position", true, 720, 480),
    (2, 131, "dependabot[bot]", "build(deps): bump anstyle to 1.1", false, 480, 180),
    (3, 117, "octocat", "docs: clarify the --only flag", false, 300, 0),
];

/// A merged PR: number, title, age, release (empty before there is one).
pub type DemoMerged = (i64, &'static str, i64, &'static str);

pub const DEMO_MERGED: [DemoMerged; 4] = [
    (119, "feat(status): ignore phantom check suites", 720, ""),
    (116, "fix(github): exact-match the remote host", 7200, ""),
    (112, "ci: build a snapshot on pull requests", 86_400, "v0.4.0"),
    (108, "feat(render): OSC-8 hyperlinks for URLs", 259_200, "v0.3.0"),
];

/// A release: tag, commits, lower bound only, age.
pub type DemoRelease = (&'static str, usize, bool, i64);

pub const DEMO_RELEASES: [DemoRelease; 4] = [
    ("v0.4.0", 12, false, 432_000),
    ("v0.3.0", 9, false, 1_728_000),
    ("v0.2.0", 31, true, 3_456_000),
    ("v0.1.0", 18, false, 6_048_000),
];

/// A PR to review: number, author, title, state, age.
pub type DemoReview = (i64, &'static str, &'static str, ReviewState, i64);

pub const DEMO_REVIEWS: [DemoReview; 4] = [
    (142, "octocat", "feat(api): paginate the search endpoint", ReviewState::Awaiting, 420),
    (139, "hubot", "fix(auth): refresh tokens before expiry", ReviewState::ReReview, 1500),
    (133, "dependabot[bot]", "build(deps): bump rustls to 0.24", ReviewState::Updated, 5400),
    (130, "octocat", "docs: expand the troubleshooting guide", ReviewState::Reviewed, 9000),
];

/// A merged PR that was reviewed: number, author, title, age.
pub type DemoReviewed = (i64, &'static str, &'static str, i64);

pub const DEMO_REVIEWED: [DemoReviewed; 2] = [
    (126, "hubot", "refactor(store): drop the legacy cache path", 64_800),
    (122, "octocat", "test(queue): cover the empty queue", 172_800),
];

/// The page of a PR.
pub open spec fn pull_url(number: int) -> Seq<char> {
    BASE@ + "/pull/"@ + decimal_int(number)
}

/// The page of a release.
pub open spec fn release_url(tag: Seq<char>) -> Seq<char> {
    BASE@ + "/releases/tag/"@ + tag
}

/// Whether a row is the `i`-th open PR.
pub open spec fn is_demo_pr(r: PrRow, i: int, now: int) -> bool {
    let d = DEMO_PRS@[i];
    &&& r.number == d.0
    &&& r.is_draft == d.1
    &&& r.title@ == d.2@
    &&& r.branch@.len() == 0
    &&& r.status == (if d.3 {
        Some(d.4)
    } else {
        None
    })
    &&& r.mergeable == status::mergeability(Some(d.5@), None)
    &&& r.checks == Checks { fail: d.6, running: 0, pass: 0 }
    &&& r.unresolved == 0
    &&& !r.unresolved_capped
    &&& r.queue is None
    &&& r.url@ == pull_url(d.0 as int)
    &&& opt_string(r.updated_at) == Some(rfc3339(now - d.7))
}

/// Whether a row is the `i`-th queue entry.
pub open spec fn is_demo_entry(r: QueueRow, i: int, now: int) -> bool {
    let d = DEMO_QUEUE@[i];
    &&& r.position == d.0
    &&& r.number == d.1
    &&& r.author@ == d.2@
    &&& r.title@ == d.3@
    &&& r.branch@.len() == 0
    &&& r.mine == d.4
    &&& r.checks == Checks { fail: 0, running: 0, pass: 0 }
    &&& r.url@ == pull_url(d.1 as int)
    &&& opt_string(r.enqueued_at) == Some(rfc3339(now - d.5))
    &&& opt_string(r.build_started_at) == (if d.6 > 0 {
        Some(rfc3339(now - d.6))
    } else {
        None
    })
}

/// Whether a row is the `i`-th merged PR.
pub open spec fn is_demo_merged(r: MergedRow, i: int, now: int) -> bool {
    let d = DEMO_MERGED@[i];
    &&& r.number == d.0
    &&& r.title@ == d.1@
    &&& r.branch@.len() == 0
    &&& r.url@ == pull_url(d.0 as int)
    &&& r.release is Some <==> d.3@.len() > 0
    &&& r.release matches Some(x) ==> x.tag@ == d.3@ && x.url@ == release_url(d.3@)
    &&& opt_string(r.merged_at) == Some(rfc3339(now - d.2))
}

/// Whether a release is the `i`-th one.
pub open spec fn is_demo_release(r: Release, i: int, now: int) -> bool {
    let d = DEMO_RELEASES@[i];
    &&& r.tag@ == d.0@
    &&& r.bucket.count == Count { mine: d.1, capped: d.2 }
    &&& r.bucket.url@ == release_url(d.0@)
    &&& opt_string(r.published_at) == Some(rfc3339(now - d.3))
}

/// Whether a row is the `i`-th PR to review.
pub open spec fn is_demo_review(r: ReviewRow, i: int, now: int) -> bool {
    let d = DEMO_REVIEWS@[i];
    &&& r.number == d.0
    &&& !r.is_draft
    &&& r.author@ == d.1@
    &&& r.title@ == d.2@
    &&& r.branch@.len() == 0
    &&& r.state == d.3
    &&& r.url@ == pull_url(d.0 as int)
    &&& opt_string(r.updated_at) == Some(rfc3339(now - d.4))
}

/// Whether a row is the `i`-th merged PR that was reviewed.
pub open spec fn is_demo_reviewed(r: ReviewedMergedRow, i: int, now: int) -> bool {
    let d = DEMO_REVIEWED@[i];
    &&& r.number == d.0
    &&& r.author@ == d.1@
    &&& r.title@ == d.2@
    &&& r.branch@.len() == 0
    &&& r.url@ == pull_url(d.0 as int)
    &&& opt_string(r.merged_at) == Some(rfc3339(now - d.3))
}

/// The page of a PR.
fn pull(number: i64) -> (u: String)
    ensures
        u@ == pull_url(number as int),
{
    concat(concat(BASE, "/pull/").as_str(), dec_int(number).as_str())
}

/// The page of a release.
fn release_page(tag: &str) -> (u: String)
    ensures
        u@ == release_url(tag@),
{
    concat(concat(BASE, "/releases/tag/").as_str(), tag)
}

/// Whether a moment is one that the demo data can be relative to.
pub open spec fn is_demo_moment(now: i64) -> bool {
    FIRST_SECOND + OLDEST <= now <= LAST_SECOND
}

/// No age of the demo data is older than the oldest.
proof fn ages_are_in_range()
    ensures
        forall|i: int| 0 <= i < 5 ==> 0 <= (#[trigger] DEMO_PRS@[i]).7 <= OLDEST,
        forall|i: int|
            0 <= i < 3 ==> 0 <= (#[trigger] DEMO_QUEUE@[i]).5 <= OLDEST && 0
                <= DEMO_QUEUE@[i].6 <= OLDEST,
        forall|i: int| 0 <= i < 4 ==> 0 <= (#[trigger] DEMO_MERGED@[i]).2 <= OLDEST,
        forall|i: int| 0 <= i < 4 ==> 0 <= (#[trigger] DEMO_RELEASES@[i]).3 <= OLDEST,
        forall|i: int| 0 <= i < 4 ==> 0 <= (#[trigger] DEMO_REVIEWS@[i]).4 <= OLDEST,
        forall|i: int| 0 <= i < 2 ==> 0 <= (#[trigger] DEMO_REVIEWED@[i]).3 <= OLDEST,
{
}

/// The open PRs.
fn demo_prs(now: i64) -> (rows: Vec<PrRow>)
    requires
        is_demo_moment(now),
    ensures
        rows@.len() == 5,
        forall|i: int| 0 <= i < 5 ==> is_demo_pr(#[trigger] rows@[i], i, now as int),
{
    proof {
        ages_are_in_range();
    }
    let mut rows: Vec<PrRow> = Vec::new();
    let mut i: usize = 0;
    while i < 5
        invariant
            i <= 5,
            rows@.len() == i,
            is_demo_moment(now),
            forall|j: int| 0 <= j < 5 ==> 0 <= (#[trigger] DEMO_PRS@[j]).7 <= OLDEST,
            forall|j: int| 0 <= j < i ==> is_demo_pr(#[trigger] rows@[j], j, now as int),
        decreases 5 - i,
    {
        let d: DemoPr = DEMO_PRS[i];
        assert(d == DEMO_PRS@[i as int]);
        rows.push(
            PrRow {
                number: d.0,
                is_draft: d.1,
                title: d.2.to_owned(),
                branch: String::new(),
                mergeable: status::mergeable_of(Some(d.5), None),
                status: if d.3 {
                    Some(d.4)
                } else {
                    None
                },
                checks: Checks { fail: d.6, running: 0, pass: 0 },
                unresolved: 0,
                unresolved_capped: false,
                queue: None,
                url: pull(d.0),
                updated_at: Some(spell(now - d.7)),
            },
        );
        i += 1;
    }
    rows
}

/// The merge queue.
fn demo_queue(now: i64) -> (rows: Vec<QueueRow>)
    requires
        is_demo_moment(now),
    ensures
        rows@.len() == 3,
        forall|i: int| 0 <= i < 3 ==> is_demo_entry(#[trigger] rows@[i], i, now as int),
{
    proof {
        ages_are_in_range();
    }
    let mut rows: Vec<QueueRow> = Vec::new();
    let mut i: usize = 0;
    while i < 3
        invariant
            i <= 3,
            rows@.len() == i,
            is_demo_moment(now),
            forall|j: int|
                0 <= j < 3 ==> 0 <= (#[trigger] DEMO_QUEUE@[j]).5 <= OLDEST && 0
                    <= DEMO_QUEUE@[j].6 <= OLDEST,
            forall|j: int| 0 <= j < i ==> is_demo_entry(#[trigger] rows@[j], j, now as int),
        decreases 3 - i,
    {
        let d: DemoEntry = DEMO_QUEUE[i];
        assert(d == DEMO_QUEUE@[i as int]);
        rows.push(
            QueueRow {
                position: d.0,
                number: d.1,
                author: d.2.to_owned(),
                title: d.3.to_owned(),
                branch: String::new(),
                url: pull(d.1),
                mine: d.4,
                enqueued_at: Some(spell(now - d.5)),
                build_started_at: if d.6 > 0 {
                    Some(spell(now - d.6))
                } else {
                    None
                },
                checks: Checks { fail: 0, running: 0, pass: 0 },
            },
        );
        i += 1;
    }
    rows
}

/// The merged PRs.
fn demo_merged(now: i64) -> (rows: Vec<MergedRow>)
    requires
        is_demo_moment(now),
    ensures
        rows@.len() == 4,
        forall|i: int| 0 <= i < 4 ==> is_demo_merged(#[trigger] rows@[i], i, now as int),
{
    proof {
        ages_are_in_range();
    }
    let mut rows: Vec<MergedRow> = Vec::new();
    let mut i: usize = 0;
    while i < 4
        invariant
            i <= 4,
            rows@.len() == i,
            is_demo_moment(now),
            forall|j: int| 0 <= j < 4 ==> 0 <= (#[trigger] DEMO_MERGED@[j]).2 <= OLDEST,
            forall|j: int| 0 <= j < i ==> is_demo_merged(#[trigger] rows@[j], j, now as int),
        decreases 4 - i,
    {
        let d: DemoMerged = DEMO_MERGED[i];
        assert(d == DEMO_MERGED@[i as int]);
        let release: Option<ReleaseRef> = if is_empty(d.3) {
            None
        } else {
            Some(ReleaseRef { tag: d.3.to_owned(), url: release_page(d.3) })
        };
        rows.push(
            MergedRow {
                number: d.0,
                title: d.1.to_owned(),
                branch: String::new(),
                url: pull(d.0),
                release,
                merged_at: Some(spell(now - d.2)),
            },
        );
        i += 1;
    }
    rows
}

/// The shipments.
fn demo_commits(now: i64) -> (c: CommitStats)
    requires
        is_demo_moment(now),
    ensures
        is_demo_commits(c, now as int),
{
    proof {
        ages_are_in_range();
    }
    let mut releases: Vec<Release> = Vec::new();
    let mut i: usize = 0;
    while i < 4
        invariant
            i <= 4,
            releases@.len() == i,
            is_demo_moment(now),
            forall|j: int| 0 <= j < 4 ==> 0 <= (#[trigger] DEMO_RELEASES@[j]).3 <= OLDEST,
            forall|j: int| 0 <= j < i ==> is_demo_release(#[trigger] releases@[j], j, now as int),
        decreases 4 - i,
    {
        let d: DemoRelease = DEMO_RELEASES[i];
        assert(d == DEMO_RELEASES@[i as int]);
        releases.push(
            Release {
                tag: d.0.to_owned(),
                bucket: Bucket {
                    count: Count { mine: d.1, capped: d.2 },
                    url: release_page(d.0),
                },
                published_at: Some(spell(now - d.3)),
            },
        );
        i += 1;
    }
    CommitStats {
        available: true,
        upcoming: Some(
            Bucket {
                count: Count { mine: 7, capped: false },
                url: concat(BASE, "/compare/v0.4.0...main"),
            },
        ),
        releases,
    }
}

/// Whether the shipments are the demo's.
pub open spec fn is_demo_commits(c: CommitStats, now: int) -> bool {
    &&& c.available
    &&& c.upcoming is Some
    &&& c.upcoming->0.count == Count { mine: 7, capped: false }
    &&& c.upcoming->0.url@ == BASE@ + "/compare/v0.4.0...main"@
    &&& c.releases@.len() == 4
    &&& forall|i: int| 0 <= i < 4 ==> is_demo_release(#[trigger] c.releases@[i], i, now)
}

/// The PRs to review.
fn demo_reviews(now: i64) -> (rows: Vec<ReviewRow>)
    requires
        is_demo_moment(now),
    ensures
        rows@.len() == 4,
        forall|i: int| 0 <= i < 4 ==> is_demo_review(#[trigger] rows@[i], i, now as int),
{
    proof {
        ages_are_in_range();
    }
    let mut rows: Vec<ReviewRow> = Vec::new();
    let mut i: usize = 0;
    while i < 4
        invariant
            i <= 4,
            rows@.len() == i,
            is_demo_moment(now),
            forall|j: int| 0 <= j < 4 ==> 0 <= (#[trigger] DEMO_REVIEWS@[j]).4 <= OLDEST,
            forall|j: int| 0 <= j < i ==> is_demo_review(#[trigger] rows@[j], j, now as int),
        decreases 4 - i,
    {
        let d: DemoReview = DEMO_REVIEWS[i];
        assert(d == DEMO_REVIEWS@[i as int]);
        rows.push(
            ReviewRow {
                number: d.0,
                is_draft: false,
                title: d.2.to_owned(),
                branch: String::new(),
                author: d.1.to_owned(),
                url: pull(d.0),
                state: d.3,
                updated_at: Some(spell(now - d.4)),
            },
        );
        i += 1;
    }
    rows
}

/// The merged PRs that were reviewed.
fn demo_reviewed(now: i64) -> (rows: Vec<ReviewedMergedRow>)
    requires
        is_demo_moment(now),
    ensures
        rows@.len() == 2,
        forall|i: int| 0 <= i < 2 ==> is_demo_reviewed(#[trigger] rows@[i], i, now as int),
{
    proof {
        ages_are_in_range();
    }
    let mut rows: Vec<ReviewedMergedRow> = Vec::new();
    let mut i: usize = 0;
    while i < 2
        invariant
            i <= 2,
            rows@.len() == i,
            is_demo_moment(now),
            forall|j: int| 0 <= j < 2 ==> 0 <= (#[trigger] DEMO_REVIEWED@[j]).3 <= OLDEST,
            forall|j: int| 0 <= j < i ==> is_demo_reviewed(#[trigger] rows@[j], j, now as int),
        decreases 2 - i,
    {
        let d: DemoReviewed = DEMO_REVIEWED[i];
        assert(d == DEMO_REVIEWED@[i as int]);
        rows.push(
            ReviewedMergedRow {
                number: d.0,
                title: d.2.to_owned(),
                branch: String::new(),
                author: d.1.to_owned(),
                url: pull(d.0),
                merged_at: Some(spell(now - d.3)),
            },
        );
        i += 1;
    }
    rows
}

/// The synthetic dashboard at a moment, given in seconds since the epoch.
pub fn demo_sections(now: i64) -> (s: Sections)
    requires
        is_demo_moment(now),
    ensures
        s.prs is Some,
        s.prs->0@.len() == 5,
        forall|i: int| 0 <= i < 5 ==> is_demo_pr(#[trigger] s.prs->0@[i], i, now as int),
        s.queue is Some,
        s.queue->0@.len() == 3,
        forall|i: int| 0 <= i < 3 ==> is_demo_entry(#[trigger] s.queue->0@[i], i, now as int),
        s.queue_next_eta == Some(660i64),
        s.merged is Some,
        s.merged->0@.len() == 4,
        forall|i: int| 0 <= i < 4 ==> is_demo_merged(#[trigger] s.merged->0@[i], i, now as int),
        s.commits is Some,
        is_demo_commits(s.commits->0, now as int),
        s.reviews is Some,
        s.reviews->0@.len() == 4,
        forall|i: int| 0 <= i < 4 ==> is_demo_review(#[trigger] s.reviews->0@[i], i, now as int),
        s.reviewed_merged is Some,
        s.reviewed_merged->0@.len() == 2,
        forall|i: int|
            0 <= i < 2 ==> is_demo_reviewed(
                #[trigger] s.reviewed_merged->0@[i],
                i,
                now as int,
            ),
{
    Sections {
        merged: Some(demo_merged(now)),
        queue: Some(demo_queue(now)),
        queue_next_eta: Some(11 * 60),
        prs: Some(demo_prs(now)),
        commits: Some(demo_commits(now)),
        reviews: Some(demo_reviews(now)),
        reviewed_merged: Some(demo_reviewed(now)),
    }
}

} // verus!
