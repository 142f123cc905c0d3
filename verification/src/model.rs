//! The GitHub data that the dashboard is built from: the queries, the shapes of
//! their replies, and what is read out of them.

use crate::github::{no_members, JsonView, Repo, Request, Variables};
use crate::model_laws::{
    a_pr_counts_its_checks, a_queue_entry_counts_its_checks, counts_all, is_first_start,
    the_earliest_is_first,
};
use crate::required::RequiredSummary;
use crate::status;
use crate::status::{context_lamp, run_lamp, Approval, Checks, Lamp};
use crate::text::{dec, decimal, sorts_before, text_before};
use vstd::prelude::*;

verus! {

/// The merge-queue query.
pub const QUEUE_QUERY: &'static str = r#"query($owner: String!, $name: String!) {
  repository(owner: $owner, name: $name) {
    mergeQueue {
      nextEntryEstimatedTimeToMerge
      entries(first: 100) {
        nodes {
          position
          enqueuedAt
          headCommit {
            id
            statusCheckRollup {
              contexts(first: 40) {
                checkRunCountsByState { state count }
                statusContextCountsByState { state count }
                nodes { ... on CheckRun { startedAt } }
              }
            }
          }
          pullRequest { number title url headRefName author { login } }
        }
      }
    }
  }
}"#;

/// The reply to the merge-queue query.
pub struct QueueData {
    pub repository: Option<QueueRepo>,
}

/// The repository of a merge-queue reply.
pub struct QueueRepo {
    pub merge_queue: Option<MergeQueue>,
}

/// A merge queue.
pub struct MergeQueue {
    /// Seconds until a newly added entry would merge.
    pub next_entry_estimated_time_to_merge: Option<i64>,
    pub entries: QueueEntries,
}

/// The entries of a merge queue.
pub struct QueueEntries {
    pub nodes: Vec<QueueEntryNode>,
}

/// One entry of the merge queue.
pub struct QueueEntryNode {
    pub position: i64,
    /// When the entry joined the queue.
    pub enqueued_at: Option<String>,
    /// The speculative merge commit that the queue is building, once there is
    /// one.
    pub head_commit: Option<QueueCommit>,
    pub pull_request: QueuePr,
    /// What its required checks say, where only these are asked for.
    pub required: Option<RequiredSummary>,
}

/// The speculative merge commit of a queue entry.
pub struct QueueCommit {
    pub id: String,
    /// `None` when the commit has no checks configured.
    pub status_check_rollup: Option<QueueRollup>,
}

/// The checks of a speculative merge commit.
pub struct QueueRollup {
    pub contexts: QueueContexts,
}

/// Exact counts by state, and a page of single checks.
pub struct QueueContexts {
    pub check_runs: Vec<StateCount>,
    pub status_contexts: Vec<StateCount>,
    pub nodes: Vec<QueueContext>,
}

/// One check. Only a check run has a start; a commit status has none.
pub struct QueueContext {
    pub started_at: Option<String>,
}

/// The PR of a queue entry.
pub struct QueuePr {
    pub number: i64,
    pub title: String,
    pub url: String,
    pub head_ref_name: Option<String>,
    pub author: Option<Login>,
}

/// A GitHub account.
pub struct Login {
    pub login: String,
}

/// How many checks are in a state.
pub struct StateCount {
    pub state: String,
    pub count: u64,
}

/// The lamp that a state lights: that of a check run, or that of a commit
/// status.
pub open spec fn lamp_of(state: Seq<char>, runs: bool) -> Option<Lamp> {
    if runs {
        run_lamp(state)
    } else {
        context_lamp(state)
    }
}

/// The total of the counts whose state lights `lamp`.
pub open spec fn lamp_total(counts: Seq<StateCount>, runs: bool, lamp: Lamp) -> int
    decreases counts.len(),
{
    if counts.len() == 0 {
        0
    } else {
        lamp_total(counts.drop_last(), runs, lamp) + if lamp_of(counts.last().state@, runs) == Some(
            lamp,
        ) {
            counts.last().count as int
        } else {
            0
        }
    }
}

/// How many check runs and commit statuses together light `lamp`.
pub open spec fn tally(
    check_runs: Seq<StateCount>,
    status_contexts: Seq<StateCount>,
    lamp: Lamp,
) -> int {
    lamp_total(check_runs, true, lamp) + lamp_total(status_contexts, false, lamp)
}

/// The three totals.
pub open spec fn tallied(
    check_runs: Seq<StateCount>,
    status_contexts: Seq<StateCount>,
) -> Checks {
    Checks {
        fail: tally(check_runs, status_contexts, Lamp::Fail) as u64,
        running: tally(check_runs, status_contexts, Lamp::Running) as u64,
        pass: tally(check_runs, status_contexts, Lamp::Pass) as u64,
    }
}

/// Whether no total is too large to count.
pub open spec fn countable(check_runs: Seq<StateCount>, status_contexts: Seq<StateCount>) -> bool {
    forall|lamp: Lamp| #[trigger] tally(check_runs, status_contexts, lamp) <= u64::MAX
}

proof fn lamp_total_grows(counts: Seq<StateCount>, runs: bool, lamp: Lamp, n: int)
    requires
        0 <= n <= counts.len(),
    ensures
        0 <= lamp_total(counts.take(n), runs, lamp) <= lamp_total(counts, runs, lamp),
    decreases counts.len(),
{
    if n < counts.len() {
        lamp_total_grows(counts.drop_last(), runs, lamp, n);
        assert(counts.drop_last().take(n) =~= counts.take(n));
    } else {
        assert(counts.take(n) =~= counts);
        if n > 0 {
            lamp_total_grows(counts.drop_last(), runs, lamp, n - 1);
        }
    }
}

/// Adds the counts of one kind of check to a semaphore.
fn add_counts(checks: &mut Checks, counts: &Vec<StateCount>, runs: bool)
    requires
        forall|lamp: Lamp| #[trigger]
            old(checks).count(lamp) + lamp_total(counts@, runs, lamp) <= u64::MAX,
    ensures
        forall|lamp: Lamp| #[trigger]
            final(checks).count(lamp) == old(checks).count(lamp) + lamp_total(
                counts@,
                runs,
                lamp,
            ),
{
    let mut i: usize = 0;
    assert(counts@.take(0) =~= Seq::empty());
    while i < counts.len()
        invariant
            i <= counts@.len(),
            forall|lamp: Lamp| #[trigger]
                old(checks).count(lamp) + lamp_total(counts@, runs, lamp) <= u64::MAX,
            forall|lamp: Lamp| #[trigger]
                checks.count(lamp) == old(checks).count(lamp) + lamp_total(
                    counts@.take(i as int),
                    runs,
                    lamp,
                ),
        decreases counts@.len() - i,
    {
        let c: &StateCount = &counts[i];
        let l: Option<Lamp> = if runs {
            status::check_run_lamp(c.state.as_str())
        } else {
            status::status_context_lamp(c.state.as_str())
        };
        assert(counts@.take(i + 1).drop_last() =~= counts@.take(i as int));
        assert(counts@.take(i + 1).last() == *c);
        proof {
            assert forall|lamp: Lamp|
                lamp_total(counts@.take(i + 1), runs, lamp) <= #[trigger] lamp_total(
                    counts@,
                    runs,
                    lamp,
                ) by {
                lamp_total_grows(counts@, runs, lamp, i + 1);
            }
            match l {
                Some(lamp) => {
                    assert(old(checks).count(lamp) + lamp_total(counts@, runs, lamp) <= u64::MAX);
                },
                None => {},
            }
        }
        checks.add(l, c.count);
        i += 1;
    }
    assert(counts@.take(counts@.len() as int) =~= counts@);
}

/// The semaphore of a rollup: check runs and commit statuses in one.
fn checks_from_counts(check_runs: &Vec<StateCount>, status_contexts: &Vec<StateCount>) -> (c: Checks)
    requires
        countable(check_runs@, status_contexts@),
    ensures
        c == tallied(check_runs@, status_contexts@),
{
    let mut checks: Checks = Checks { fail: 0, running: 0, pass: 0 };
    proof {
        assert forall|lamp: Lamp|
            0 <= #[trigger] lamp_total(check_runs@, true, lamp) && 0 <= lamp_total(
                status_contexts@,
                false,
                lamp,
            ) by {
            lamp_total_grows(check_runs@, true, lamp, 0);
            lamp_total_grows(status_contexts@, false, lamp, 0);
            assert(check_runs@.take(0) =~= Seq::empty());
            assert(status_contexts@.take(0) =~= Seq::empty());
        }
        assert forall|lamp: Lamp| #[trigger]
            checks.count(lamp) + lamp_total(check_runs@, true, lamp) <= u64::MAX by {
            assert(tally(check_runs@, status_contexts@, lamp) <= u64::MAX);
        }
    }
    add_counts(&mut checks, check_runs, true);
    proof {
        assert forall|lamp: Lamp| #[trigger]
            checks.count(lamp) + lamp_total(status_contexts@, false, lamp) <= u64::MAX by {
            assert(tally(check_runs@, status_contexts@, lamp) <= u64::MAX);
        }
    }
    let ghost mid = checks;
    add_counts(&mut checks, status_contexts, false);
    proof {
        assert forall|lamp: Lamp|
            #![trigger checks.count(lamp)]
            checks.count(lamp) == tally(check_runs@, status_contexts@, lamp) by {
            assert(mid.count(lamp) == lamp_total(check_runs@, true, lamp));
        }
        assert(checks.fail == checks.count(Lamp::Fail));
        assert(checks.running == checks.count(Lamp::Running));
        assert(checks.pass == checks.count(Lamp::Pass));
    }
    checks
}

/// The earliest of the starts.
pub open spec fn earliest(nodes: Seq<QueueContext>) -> Option<Seq<char>>
    decreases nodes.len(),
{
    if nodes.len() == 0 {
        None
    } else {
        earlier(earliest(nodes.drop_last()), opt_string(nodes.last().started_at))
    }
}

/// The earlier of two moments, either of which may be missing.
pub open spec fn earlier(a: Option<Seq<char>>, b: Option<Seq<char>>) -> Option<Seq<char>> {
    match (a, b) {
        (Some(x), Some(y)) => if text_before(y, x) {
            b
        } else {
            a
        },
        (Some(_), None) => a,
        (None, _) => b,
    }
}

/// The characters of an optional string.
pub open spec fn opt_string(s: Option<String>) -> Option<Seq<char>> {
    match s {
        Some(s) => Some(s@),
        None => None,
    }
}

/// A copy of an optional string.
pub fn clone_opt(s: &Option<String>) -> (r: Option<String>)
    ensures
        r == *s,
{
    match s {
        Some(s) => Some(s.clone()),
        None => None,
    }
}

/// The earliest of the starts, as a string.
fn earliest_start(nodes: &Vec<QueueContext>) -> (r: Option<String>)
    ensures
        opt_string(r) == earliest(nodes@),
{
    let mut best: Option<String> = None;
    let mut i: usize = 0;
    assert(nodes@.take(0) =~= Seq::empty());
    while i < nodes.len()
        invariant
            i <= nodes@.len(),
            opt_string(best) == earliest(nodes@.take(i as int)),
        decreases nodes@.len() - i,
    {
        assert(nodes@.take(i + 1).drop_last() =~= nodes@.take(i as int));
        match &nodes[i].started_at {
            Some(t) => {
                let sooner: bool = match &best {
                    Some(b) => sorts_before(t.as_str(), b.as_str()),
                    None => true,
                };
                if sooner {
                    best = Some(t.clone());
                }
            },
            None => {},
        }
        i += 1;
    }
    assert(nodes@.take(nodes@.len() as int) =~= nodes@);
    best
}

impl QueueEntryNode {
    /// The checks of the speculative merge commit, where there is one that has
    /// any.
    pub open spec fn rollup(self) -> Option<QueueContexts> {
        match self.head_commit {
            Some(h) => match h.status_check_rollup {
                Some(r) => Some(r.contexts),
                None => None,
            },
            None => None,
        }
    }

    /// Whether the counts of this entry can be totalled.
    pub open spec fn countable(self) -> bool {
        self.required is None ==> (self.rollup() matches Some(c) ==> countable(
            c.check_runs@,
            c.status_contexts@,
        ))
    }

    /// Failing, running and passing checks on the speculative merge commit.
    pub open spec fn semaphore(self) -> Checks {
        match self.required {
            Some(r) => r.checks,
            None => match self.rollup() {
                Some(c) => tallied(c.check_runs@, c.status_contexts@),
                None => Checks { fail: 0, running: 0, pass: 0 },
            },
        }
    }

    /// Failing, running and passing checks on the speculative merge commit.
    /// None when the entry has no speculative commit or no checks yet.
    pub fn checks(&self) -> (c: Checks)
        requires
            self.countable(),
        ensures
            c == self.semaphore(),
            self.required is None ==> (self.head_commit matches Some(h)
                ==> (h.status_check_rollup matches Some(r) ==> counts_all(
                c,
                r.contexts.check_runs@,
                r.contexts.status_contexts@,
            ))),
    {
        proof {
            if self.required is None && self.head_commit is Some
                && self.head_commit->0.status_check_rollup is Some {
                a_queue_entry_counts_its_checks(*self);
            }
        }
        match &self.required {
            Some(summary) => {
                return summary.checks;
            },
            None => {},
        }
        match &self.head_commit {
            Some(h) => match &h.status_check_rollup {
                Some(r) => checks_from_counts(
                    &r.contexts.check_runs,
                    &r.contexts.status_contexts,
                ),
                None => Checks { fail: 0, running: 0, pass: 0 },
            },
            None => Checks { fail: 0, running: 0, pass: 0 },
        }
    }

    /// The earliest moment any check on the speculative merge commit began
    /// running. `None` when nothing has started yet.
    pub fn build_started_at(&self) -> (r: Option<String>)
        ensures
            opt_string(r) == (match self.required {
                Some(s) => opt_string(s.build_started_at),
                None => match self.rollup() {
                    Some(c) => earliest(c.nodes@),
                    None => None,
                },
            }),
            self.required is None ==> (self.head_commit matches Some(h)
                ==> (h.status_check_rollup matches Some(c) ==> is_first_start(
                opt_string(r),
                c.contexts.nodes@,
            ))),
    {
        proof {
            if self.head_commit is Some && self.head_commit->0.status_check_rollup is Some {
                the_earliest_is_first(
                    self.head_commit->0.status_check_rollup->0.contexts.nodes@,
                );
            }
        }
        match &self.required {
            Some(summary) => {
                return clone_opt(&summary.build_started_at);
            },
            None => {},
        }
        match &self.head_commit {
            Some(h) => match &h.status_check_rollup {
                Some(r) => earliest_start(&r.contexts.nodes),
                None => None,
            },
            None => None,
        }
    }
}

/// The entry nodes of a queue reply. A missing queue and an empty one both have
/// none.
pub fn queue_nodes(data: QueueData) -> (nodes: Vec<QueueEntryNode>)
    ensures
        nodes@ == (match data.repository {
            Some(r) => match r.merge_queue {
                Some(q) => q.entries.nodes@,
                None => Seq::empty(),
            },
            None => Seq::empty(),
        }),
{
    match data.repository {
        Some(r) => match r.merge_queue {
            Some(q) => q.entries.nodes,
            None => Vec::new(),
        },
        None => Vec::new(),
    }
}

/// The queue-level estimate: seconds until a newly added entry would merge.
/// `None` when there is no queue or the reply omits it.
pub fn queue_next_eta(data: &QueueData) -> (eta: Option<i64>)
    ensures
        eta == (match data.repository {
            Some(r) => match r.merge_queue {
                Some(q) => q.next_entry_estimated_time_to_merge,
                None => None,
            },
            None => None,
        }),
{
    match &data.repository {
        Some(r) => match &r.merge_queue {
            Some(q) => q.next_entry_estimated_time_to_merge,
            None => None,
        },
        None => None,
    }
}

/// The entries of a queue reply and the queue-level estimate. A missing queue and
/// an empty one have no entries and no estimate.
pub fn queue_reply(data: QueueData) -> (r: (Vec<QueueEntryNode>, Option<i64>))
    ensures
        match data.repository {
            Some(repo) => match repo.merge_queue {
                Some(q) => r.0@ == q.entries.nodes@ && r.1 == (if q.entries.nodes@.len() > 0 {
                    q.next_entry_estimated_time_to_merge
                } else {
                    None
                }),
                None => r.0@.len() == 0 && r.1 is None,
            },
            None => r.0@.len() == 0 && r.1 is None,
        },
{
    let eta: Option<i64> = queue_next_eta(&data);
    let nodes: Vec<QueueEntryNode> = queue_nodes(data);
    if nodes.len() == 0 {
        (nodes, None)
    } else {
        (nodes, eta)
    }
}

/// The query for the open PRs of a user.
pub const MINE_QUERY: &'static str = r#"query($q: String!) {
  search(type: ISSUE, first: 50, query: $q) {
    nodes {
      ... on PullRequest {
        number title url mergeable mergeStateStatus isDraft updatedAt headRefName
        latestOpinionatedReviews(first: 100) { nodes { state } }
        mergeQueueEntry { position state }
        reviewThreads(first: 100) { totalCount nodes { isResolved } }
        commits(last: 1) { nodes { commit { id statusCheckRollup { contexts(first: 1) {
          checkRunCountsByState { state count }
          statusContextCountsByState { state count }
        } } } } }
      }
    }
  }
}"#;

/// The reply to the open PRs query.
pub struct MineData {
    pub search: MineNodes,
}

/// The PRs of an open PRs reply.
pub struct MineNodes {
    pub nodes: Vec<PrNode>,
}

/// One open PR.
pub struct PrNode {
    pub number: i64,
    pub title: String,
    pub url: String,
    pub mergeable: Option<String>,
    pub merge_state_status: Option<String>,
    pub is_draft: bool,
    pub updated_at: Option<String>,
    /// The PR's head branch.
    pub head_ref_name: Option<String>,
    /// The latest approving or change-requesting review of each person.
    pub latest_opinionated_reviews: OpinionatedReviews,
    pub merge_queue_entry: Option<QueueEntry>,
    pub review_threads: ReviewThreads,
    pub commits: Commits,
    /// What its required checks say, where only these are asked for.
    pub required_checks: Option<Checks>,
}

/// Where a PR stands in the merge queue.
pub struct QueueEntry {
    pub position: i64,
    pub state: String,
}

/// The latest opinionated review of a PR by each person.
pub struct OpinionatedReviews {
    pub nodes: Vec<OpinionatedReview>,
}

impl Default for OpinionatedReviews {
    fn default() -> (r: Self)
        ensures
            r.nodes@ == Seq::<OpinionatedReview>::empty(),
    {
        OpinionatedReviews { nodes: Vec::new() }
    }
}

/// An approving or change-requesting review.
pub struct OpinionatedReview {
    pub state: String,
}

/// The first page of the PR's review threads, and how many there are in all.
pub struct ReviewThreads {
    pub total_count: u64,
    pub nodes: Vec<ReviewThread>,
}

/// One review thread.
pub struct ReviewThread {
    pub is_resolved: bool,
}

/// How many of the threads are not resolved.
pub open spec fn unresolved_count(nodes: Seq<ReviewThread>) -> int {
    nodes.filter(|t: ReviewThread| !t.is_resolved).len() as int
}

impl ReviewThreads {
    /// The unresolved threads on the fetched page, and whether there are more
    /// threads than the page holds.
    pub fn unresolved(&self) -> (r: (usize, bool))
        ensures
            r.0 == unresolved_count(self.nodes@),
            r.1 == (self.total_count > self.nodes@.len()),
    {
        let mut n: usize = 0;
        let mut i: usize = 0;
        let ghost open = |t: ReviewThread| !t.is_resolved;
        assert(self.nodes@.take(0).filter(open) =~= Seq::empty()) by {
            reveal(Seq::filter);
        }
        while i < self.nodes.len()
            invariant
                i <= self.nodes@.len(),
                n <= i,
                open == (|t: ReviewThread| !t.is_resolved),
                n == self.nodes@.take(i as int).filter(open).len(),
            decreases self.nodes@.len() - i,
        {
            assert(self.nodes@.take(i + 1) =~= self.nodes@.take(i as int).push(
                self.nodes@[i as int],
            ));
            assert(self.nodes@.take(i + 1).drop_last() =~= self.nodes@.take(i as int));
            proof {
                reveal(Seq::filter);
            }
            if !self.nodes[i].is_resolved {
                n += 1;
            }
            i += 1;
        }
        assert(self.nodes@.take(self.nodes@.len() as int) =~= self.nodes@);
        (n, self.total_count > self.nodes.len() as u64)
    }
}

/// The last commits of a PR.
pub struct Commits {
    pub nodes: Vec<CommitNode>,
}

/// One commit of a PR.
pub struct CommitNode {
    pub commit: Commit,
}

/// A commit and its checks.
pub struct Commit {
    pub id: String,
    /// `None` when the commit has no checks or statuses at all.
    pub status_check_rollup: Option<Rollup>,
}

/// The checks of a commit.
pub struct Rollup {
    pub contexts: RollupCounts,
}

/// GitHub's own per-state tallies of the checks of a commit.
pub struct RollupCounts {
    pub check_runs: Vec<StateCount>,
    pub status_contexts: Vec<StateCount>,
}

impl PrNode {
    /// The check counts of the PR's first listed commit, where it has any.
    pub open spec fn rollup(self) -> Option<RollupCounts> {
        if self.commits.nodes@.len() == 0 {
            None
        } else {
            match self.commits.nodes@[0].commit.status_check_rollup {
                Some(r) => Some(r.contexts),
                None => None,
            }
        }
    }

    /// Whether the counts of this PR can be totalled.
    pub open spec fn countable(self) -> bool {
        self.required_checks is None ==> (self.rollup() matches Some(c) ==> countable(
            c.check_runs@,
            c.status_contexts@,
        ))
    }

    /// The failing, running and passing checks of the PR's last commit.
    pub open spec fn semaphore(self) -> Checks {
        match self.required_checks {
            Some(c) => c,
            None => match self.rollup() {
                Some(c) => tallied(c.check_runs@, c.status_contexts@),
                None => Checks { fail: 0, running: 0, pass: 0 },
            },
        }
    }

    /// The failing, running and passing check counts for the PR's last commit.
    /// Check runs and legacy commit statuses are folded into one semaphore.
    pub fn checks(&self) -> (c: Checks)
        requires
            self.countable(),
        ensures
            c == self.semaphore(),
            self.required_checks is None && self.commits.nodes@.len() > 0 ==> (
            self.commits.nodes@[0].commit.status_check_rollup matches Some(r) ==> counts_all(
                c,
                r.contexts.check_runs@,
                r.contexts.status_contexts@,
            )),
    {
        proof {
            if self.required_checks is None && self.commits.nodes@.len() > 0
                && self.commits.nodes@[0].commit.status_check_rollup is Some {
                a_pr_counts_its_checks(*self);
            }
        }
        match self.required_checks {
            Some(c) => {
                return c;
            },
            None => {},
        }
        if self.commits.nodes.len() == 0 {
            return Checks { fail: 0, running: 0, pass: 0 };
        }
        match &self.commits.nodes[0].commit.status_check_rollup {
            Some(r) => checks_from_counts(&r.contexts.check_runs, &r.contexts.status_contexts),
            None => Checks { fail: 0, running: 0, pass: 0 },
        }
    }

    /// Whether somebody approved the PR.
    pub fn approval(&self) -> (a: Approval)
        ensures
            a == (if exists|i: int|
                0 <= i < self.latest_opinionated_reviews.nodes@.len()
                    && #[trigger] self.latest_opinionated_reviews.nodes@[i].state@
                    == "APPROVED"@ {
                Approval::Approved
            } else {
                Approval::Pending
            }),
    {
        let nodes: &Vec<OpinionatedReview> = &self.latest_opinionated_reviews.nodes;
        let mut states: Vec<&str> = Vec::new();
        let mut i: usize = 0;
        while i < nodes.len()
            invariant
                i <= nodes@.len(),
                states@.len() == i,
                forall|j: int| 0 <= j < i ==> (#[trigger] states@[j])@ == nodes@[j].state@,
            decreases nodes@.len() - i,
        {
            states.push(nodes[i].state.as_str());
            i += 1;
        }
        let a: Approval = status::approval_of(states.as_slice());
        proof {
            if exists|j: int| 0 <= j < nodes@.len() && #[trigger] nodes@[j].state@ == "APPROVED"@ {
                let j = choose|j: int|
                    0 <= j < nodes@.len() && #[trigger] nodes@[j].state@ == "APPROVED"@;
                assert(states@[j]@ == "APPROVED"@);
            }
        }
        a
    }
}

/// The reply to a query for merged PRs.
pub struct MergedData {
    pub search: MergedNodes,
}

/// The PRs of a merged PRs reply.
pub struct MergedNodes {
    pub nodes: Vec<MergedNode>,
}

/// One merged PR.
pub struct MergedNode {
    pub number: i64,
    pub title: String,
    pub url: String,
    pub head_ref_name: Option<String>,
    /// PR author; the reviewed-and-merged section shows it.
    pub author: Option<Login>,
    pub merged_at: Option<String>,
}

/// What a merged PRs query says before its page size.
pub const MERGED_HEAD: &'static str = "query($q: String!) {\n  search(type: ISSUE, first: ";

/// What a merged PRs query says after its page size.
pub const MERGED_TAIL: &'static str = r#", query: $q) {
    nodes {
      ... on PullRequest {
        number title url headRefName mergedAt author { login }
      }
    }
  }
}"#;

/// The page size of a merged PRs query: the limit, but at least one and at most
/// a hundred.
pub open spec fn page_size(limit: int) -> int {
    if limit < 1 {
        1
    } else if limit > 100 {
        100
    } else {
        limit
    }
}

/// The recently-merged query; the page size is the limit clamped to 1..=100.
pub fn merged_query(limit: usize) -> (q: String)
    ensures
        q@ == MERGED_HEAD@ + decimal(page_size(limit as int) as nat) + MERGED_TAIL@,
{
    let first: u64 = if limit < 1 {
        1
    } else if limit > 100 {
        100
    } else {
        limit as u64
    };
    let mut q: String = MERGED_HEAD.to_owned();
    let digits: String = dec(first);
    q.append(digits.as_str());
    q.append(MERGED_TAIL);
    q
}

/// `repo:<owner>/<name>`.
pub open spec fn repo_qualifier(repo: Repo) -> Seq<char> {
    "repo:"@ + repo.owner@ + "/"@ + repo.name@
}

/// `repo:<owner>/<name>`, the head of every search.
fn search_head(repo: &Repo) -> (q: String)
    ensures
        q@ == repo_qualifier(*repo),
{
    let mut q: String = "repo:".to_owned();
    q.append(repo.owner.as_str());
    q.append("/");
    q.append(repo.name.as_str());
    q
}

/// The search for the open PRs of `me`.
pub fn mine_search(repo: &Repo, me: &str) -> (q: String)
    ensures
        q@ == repo_qualifier(*repo) + " is:pr is:open author:"@ + me@
            + " archived:false sort:updated-desc"@,
{
    let mut q: String = search_head(repo);
    q.append(" is:pr is:open author:");
    q.append(me);
    q.append(" archived:false sort:updated-desc");
    q
}

/// The search for the PRs of `me` that merged since a day. A search cannot be
/// sorted by merge time, but a merge bumps the update time, so the most recently
/// merged PRs come first when the result is capped.
pub fn merged_search(repo: &Repo, me: &str, since: &str) -> (q: String)
    ensures
        q@ == repo_qualifier(*repo) + " is:pr is:merged author:"@ + me@ + " merged:>="@ + since@
            + " sort:updated-desc"@,
{
    let mut q: String = search_head(repo);
    q.append(" is:pr is:merged author:");
    q.append(me);
    q.append(" merged:>=");
    q.append(since);
    q.append(" sort:updated-desc");
    q
}

/// The search for the merged PRs that `me` reviewed, without their own.
pub fn reviewed_merged_search(repo: &Repo, me: &str, since: &str) -> (q: String)
    ensures
        q@ == repo_qualifier(*repo) + " is:pr is:merged reviewed-by:"@ + me@ + " -author:"@ + me@
            + " merged:>="@ + since@ + " sort:updated-desc"@,
{
    let mut q: String = search_head(repo);
    q.append(" is:pr is:merged reviewed-by:");
    q.append(me);
    q.append(" -author:");
    q.append(me);
    q.append(" merged:>=");
    q.append(since);
    q.append(" sort:updated-desc");
    q
}

/// The query for the PRs under review: two aliased searches in one request. A PR
/// can be in both.
pub const REVIEWS_QUERY: &'static str = r#"query($me: String!, $requested: String!, $reviewed: String!) {
  requested: search(type: ISSUE, first: 50, query: $requested) { nodes { ...rev } }
  reviewed: search(type: ISSUE, first: 50, query: $reviewed) { nodes { ...rev } }
}
fragment rev on PullRequest {
  number title url headRefName isDraft updatedAt
  author { login }
  commits(last: 1) { nodes { commit { committedDate } } }
  reviews(author: $me, first: 20, states: [APPROVED, CHANGES_REQUESTED, COMMENTED, DISMISSED]) { nodes { submittedAt } }
}"#;

/// The reply to the reviews query.
pub struct ReviewsData {
    /// PRs requesting my review.
    pub requested: ReviewSearch,
    /// PRs I have already reviewed.
    pub reviewed: ReviewSearch,
}

/// The PRs of one of the two searches.
pub struct ReviewSearch {
    pub nodes: Vec<ReviewPrNode>,
}

/// One PR under review.
pub struct ReviewPrNode {
    pub number: i64,
    pub title: String,
    pub url: String,
    pub head_ref_name: Option<String>,
    pub is_draft: bool,
    pub updated_at: Option<String>,
    pub author: Option<Login>,
    pub commits: ReviewCommits,
    /// My submitted reviews of this PR.
    pub reviews: MyReviews,
}

/// The last commits of a PR under review.
pub struct ReviewCommits {
    pub nodes: Vec<ReviewCommitNode>,
}

/// One commit of a PR under review.
pub struct ReviewCommitNode {
    pub commit: ReviewCommit,
}

/// When a commit was made.
pub struct ReviewCommit {
    pub committed_date: Option<String>,
}

/// My reviews of a PR.
pub struct MyReviews {
    pub nodes: Vec<MyReview>,
}

/// When I submitted a review.
pub struct MyReview {
    pub submitted_at: Option<String>,
}

/// The two review searches: PRs requesting my review and PRs I have reviewed,
/// both open, in this repo, without my own. `requested_qualifier` is
/// `review-requested` (me and my teams) or `user-review-requested` (only me).
pub fn reviews_searches(repo: &Repo, me: &str, requested_qualifier: &str) -> (r: (String, String))
    ensures
        r.0@ == repo_qualifier(*repo) + " is:pr is:open "@ + requested_qualifier@ + ":"@ + me@
            + " -author:"@ + me@ + " archived:false sort:updated-desc"@,
        r.1@ == repo_qualifier(*repo) + " is:pr is:open reviewed-by:"@ + me@ + " -author:"@ + me@
            + " archived:false sort:updated-desc"@,
{
    let mut requested: String = search_head(repo);
    requested.append(" is:pr is:open ");
    requested.append(requested_qualifier);
    requested.append(":");
    requested.append(me);
    requested.append(" -author:");
    requested.append(me);
    requested.append(" archived:false sort:updated-desc");
    let mut reviewed: String = search_head(repo);
    reviewed.append(" is:pr is:open reviewed-by:");
    reviewed.append(me);
    reviewed.append(" -author:");
    reviewed.append(me);
    reviewed.append(" archived:false sort:updated-desc");
    (requested, reviewed)
}

/// The request for the merge queue.
pub fn queue_request(repo: &Repo) -> (r: Request)
    ensures
        r.query@ == QUEUE_QUERY@,
        r.variables@ == no_members().insert("owner"@, JsonView::Text(repo.owner@)).insert(
            "name"@,
            JsonView::Text(repo.name@),
        ),
{
    let mut variables: Variables = Variables::new();
    variables.set_text("owner", repo.owner.as_str());
    variables.set_text("name", repo.name.as_str());
    Request { query: QUEUE_QUERY.to_owned(), variables }
}

/// A request whose one variable is a search.
fn search_request(query: &str, q: &str) -> (r: Request)
    ensures
        r.query@ == query@,
        r.variables@ == no_members().insert("q"@, JsonView::Text(q@)),
{
    let mut variables: Variables = Variables::new();
    variables.set_text("q", q);
    Request { query: query.to_owned(), variables }
}

/// The request for the open PRs of `me`.
pub fn mine_request(repo: &Repo, me: &str) -> (r: Request)
    ensures
        r.query@ == MINE_QUERY@,
        r.variables@ == no_members().insert(
            "q"@,
            JsonView::Text(
                repo_qualifier(*repo) + " is:pr is:open author:"@ + me@
                    + " archived:false sort:updated-desc"@,
            ),
        ),
{
    search_request(MINE_QUERY, mine_search(repo, me).as_str())
}

/// The request for the PRs of `me` that merged since a day.
pub fn merged_request(repo: &Repo, me: &str, since: &str, limit: usize) -> (r: Request)
    ensures
        r.query@ == MERGED_HEAD@ + decimal(page_size(limit as int) as nat) + MERGED_TAIL@,
        r.variables@ == no_members().insert(
            "q"@,
            JsonView::Text(
                repo_qualifier(*repo) + " is:pr is:merged author:"@ + me@ + " merged:>="@ + since@
                    + " sort:updated-desc"@,
            ),
        ),
{
    search_request(merged_query(limit).as_str(), merged_search(repo, me, since).as_str())
}

/// The request for the merged PRs that `me` reviewed.
pub fn reviewed_merged_request(repo: &Repo, me: &str, since: &str, limit: usize) -> (r: Request)
    ensures
        r.query@ == MERGED_HEAD@ + decimal(page_size(limit as int) as nat) + MERGED_TAIL@,
        r.variables@ == no_members().insert(
            "q"@,
            JsonView::Text(
                repo_qualifier(*repo) + " is:pr is:merged reviewed-by:"@ + me@ + " -author:"@ + me@
                    + " merged:>="@ + since@ + " sort:updated-desc"@,
            ),
        ),
{
    search_request(merged_query(limit).as_str(), reviewed_merged_search(repo, me, since).as_str())
}

/// The request for the PRs under review by `me`.
pub fn reviews_request(repo: &Repo, me: &str, requested_qualifier: &str) -> (r: Request)
    ensures
        r.query@ == REVIEWS_QUERY@,
        r.variables@ == no_members().insert("me"@, JsonView::Text(me@)).insert(
            "requested"@,
            JsonView::Text(
                repo_qualifier(*repo) + " is:pr is:open "@ + requested_qualifier@ + ":"@ + me@
                    + " -author:"@ + me@ + " archived:false sort:updated-desc"@,
            ),
        ).insert(
            "reviewed"@,
            JsonView::Text(
                repo_qualifier(*repo) + " is:pr is:open reviewed-by:"@ + me@ + " -author:"@ + me@
                    + " archived:false sort:updated-desc"@,
            ),
        ),
{
    let (requested, reviewed): (String, String) = reviews_searches(repo, me, requested_qualifier);
    let mut variables: Variables = Variables::new();
    variables.set_text("me", me);
    variables.set_text("requested", requested.as_str());
    variables.set_text("reviewed", reviewed.as_str());
    Request { query: REVIEWS_QUERY.to_owned(), variables }
}

} // verus!
