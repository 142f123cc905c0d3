//! What the semaphore and the build start of a node say of the checks that
//! GitHub reported.

use crate::github::Repo;
use crate::model::{
    earlier, earliest, lamp_of, lamp_total, merged_query, merged_search, mine_search, opt_string,
    queue_reply, reviewed_merged_search, reviews_searches, tallied, tally, OpinionatedReview,
    PrNode, QueueContext, QueueData, QueueEntryNode, ReviewThread, ReviewThreads, StateCount,
    MERGED_HEAD, MERGED_TAIL,
};
use crate::queue::build_start;
use crate::status::{
    a_check_run_lights_its_lamp, a_commit_status_lights_its_lamp, failing_runs, failing_statuses,
    passing_runs, passing_statuses, running_runs, running_statuses, Approval, Checks,
    Lamp,
};
use crate::text::{
    decimal, text_before, text_before_irreflexive, text_before_total, text_before_transitive,
};
use vstd::prelude::*;

verus! {

/// The sum of the counts.
pub open spec fn total(counts: Seq<StateCount>) -> int
    decreases counts.len(),
{
    if counts.len() == 0 {
        0
    } else {
        total(counts.drop_last()) + counts.last().count
    }
}

/// How many checks are in one of the states.
pub open spec fn amount(counts: Seq<StateCount>, states: Set<Seq<char>>) -> int {
    total(counts.filter(|c: StateCount| states.contains(c.state@)))
}

/// How many checks failed, of both kinds.
pub open spec fn failing(runs: Seq<StateCount>, statuses: Seq<StateCount>) -> int {
    amount(runs, failing_runs()) + amount(statuses, failing_statuses())
}

/// How many checks are not done, of both kinds.
pub open spec fn running(runs: Seq<StateCount>, statuses: Seq<StateCount>) -> int {
    amount(runs, running_runs()) + amount(statuses, running_statuses())
}

/// How many checks passed, of both kinds.
pub open spec fn passing(runs: Seq<StateCount>, statuses: Seq<StateCount>) -> int {
    amount(runs, passing_runs()) + amount(statuses, passing_statuses())
}

/// Whether a semaphore counts each check run and each commit status once, under
/// the lamp of its state.
pub open spec fn counts_all(c: Checks, runs: Seq<StateCount>, statuses: Seq<StateCount>) -> bool {
    &&& c.fail == failing(runs, statuses)
    &&& c.running == running(runs, statuses)
    &&& c.pass == passing(runs, statuses)
}

/// Whether each of the three sums can be counted.
pub open spec fn sums_fit(runs: Seq<StateCount>, statuses: Seq<StateCount>) -> bool {
    &&& failing(runs, statuses) <= u64::MAX
    &&& running(runs, statuses) <= u64::MAX
    &&& passing(runs, statuses) <= u64::MAX
}

/// The states of a lamp make up its total.
proof fn a_lamp_has_its_states(
    counts: Seq<StateCount>,
    states: Set<Seq<char>>,
    runs: bool,
    lamp: Lamp,
)
    requires
        forall|s: Seq<char>| #[trigger] states.contains(s) <==> lamp_of(s, runs) == Some(lamp),
    ensures
        amount(counts, states) == lamp_total(counts, runs, lamp),
        amount(counts, states) >= 0,
    decreases counts.len(),
{
    reveal(Seq::filter);
    if counts.len() > 0 {
        let picked = |c: StateCount| states.contains(c.state@);
        a_lamp_has_its_states(counts.drop_last(), states, runs, lamp);
        let less = counts.drop_last().filter(picked);
        let all = counts.filter(picked);
        if states.contains(counts.last().state@) {
            assert(all == less.push(counts.last()));
            assert(all.drop_last() =~= less);
        } else {
            assert(all == less);
        }
    }
}

/// The three totals are the three sums.
proof fn the_sums_are_the_tallies(runs: Seq<StateCount>, statuses: Seq<StateCount>)
    ensures
        failing(runs, statuses) == tally(runs, statuses, Lamp::Fail) >= 0,
        running(runs, statuses) == tally(runs, statuses, Lamp::Running) >= 0,
        passing(runs, statuses) == tally(runs, statuses, Lamp::Pass) >= 0,
        sums_fit(runs, statuses) ==> counts_all(tallied(runs, statuses), runs, statuses),
{
    assert forall|s: Seq<char>|
        #![trigger failing_runs().contains(s)]
        #![trigger running_runs().contains(s)]
        #![trigger passing_runs().contains(s)]
        {
            &&& failing_runs().contains(s) <==> lamp_of(s, true) == Some(Lamp::Fail)
            &&& running_runs().contains(s) <==> lamp_of(s, true) == Some(Lamp::Running)
            &&& passing_runs().contains(s) <==> lamp_of(s, true) == Some(Lamp::Pass)
        } by {
        a_check_run_lights_its_lamp(s);
    }
    assert forall|s: Seq<char>|
        #![trigger failing_statuses().contains(s)]
        #![trigger running_statuses().contains(s)]
        #![trigger passing_statuses().contains(s)]
        {
            &&& failing_statuses().contains(s) <==> lamp_of(s, false) == Some(Lamp::Fail)
            &&& running_statuses().contains(s) <==> lamp_of(s, false) == Some(Lamp::Running)
            &&& passing_statuses().contains(s) <==> lamp_of(s, false) == Some(Lamp::Pass)
        } by {
        a_commit_status_lights_its_lamp(s);
    }
    a_lamp_has_its_states(runs, failing_runs(), true, Lamp::Fail);
    a_lamp_has_its_states(runs, running_runs(), true, Lamp::Running);
    a_lamp_has_its_states(runs, passing_runs(), true, Lamp::Pass);
    a_lamp_has_its_states(statuses, failing_statuses(), false, Lamp::Fail);
    a_lamp_has_its_states(statuses, running_statuses(), false, Lamp::Running);
    a_lamp_has_its_states(statuses, passing_statuses(), false, Lamp::Pass);
}

/// The counts of a rollup can be totalled just where the three sums can be
/// counted.
proof fn countable_where_the_sums_fit(runs: Seq<StateCount>, statuses: Seq<StateCount>)
    ensures
        crate::model::countable(runs, statuses) <==> sums_fit(runs, statuses),
{
    the_sums_are_the_tallies(runs, statuses);
    if crate::model::countable(runs, statuses) {
        assert(tally(runs, statuses, Lamp::Fail) <= u64::MAX);
        assert(tally(runs, statuses, Lamp::Running) <= u64::MAX);
        assert(tally(runs, statuses, Lamp::Pass) <= u64::MAX);
    }
    if sums_fit(runs, statuses) {
        assert forall|lamp: Lamp| #[trigger] tally(runs, statuses, lamp) <= u64::MAX by {
            match lamp {
                Lamp::Fail => {},
                Lamp::Running => {},
                Lamp::Pass => {},
            }
        }
    }
}

/// The semaphore of an open PR without required-only checks counts each check run
/// and each commit status of the PR's first listed commit once, under the lamp of
/// its state. It can be read wherever the three sums can be counted.
pub proof fn a_pr_counts_its_checks(node: PrNode)
    requires
        node.required_checks is None,
        node.commits.nodes@.len() > 0,
        node.commits.nodes@[0].commit.status_check_rollup is Some,
    ensures
        ({
            let c = node.commits.nodes@[0].commit.status_check_rollup->0.contexts;
            &&& node.countable() <==> sums_fit(c.check_runs@, c.status_contexts@)
            &&& sums_fit(c.check_runs@, c.status_contexts@) ==> counts_all(
                node.semaphore(),
                c.check_runs@,
                c.status_contexts@,
            )
        }),
{
    let c = node.commits.nodes@[0].commit.status_check_rollup->0.contexts;
    countable_where_the_sums_fit(c.check_runs@, c.status_contexts@);
    the_sums_are_the_tallies(c.check_runs@, c.status_contexts@);
}

/// The semaphore of a queue entry without required-only checks counts each check
/// run and each commit status of its speculative merge commit once, under the
/// lamp of its state. It can be read wherever the three sums can be counted.
pub proof fn a_queue_entry_counts_its_checks(node: QueueEntryNode)
    requires
        node.required is None,
        node.head_commit is Some,
        node.head_commit->0.status_check_rollup is Some,
    ensures
        ({
            let c = node.head_commit->0.status_check_rollup->0.contexts;
            &&& node.countable() <==> sums_fit(c.check_runs@, c.status_contexts@)
            &&& sums_fit(c.check_runs@, c.status_contexts@) ==> counts_all(
                node.semaphore(),
                c.check_runs@,
                c.status_contexts@,
            )
        }),
{
    let c = node.head_commit->0.status_check_rollup->0.contexts;
    countable_where_the_sums_fit(c.check_runs@, c.status_contexts@);
    the_sums_are_the_tallies(c.check_runs@, c.status_contexts@);
}

/// Without any check no lamp is lit, and where only required checks are asked
/// for, the semaphore is theirs, whatever the commit says.
pub proof fn a_semaphore_without_a_rollup(pr: PrNode, entry: QueueEntryNode)
    ensures
        pr.required_checks matches Some(c) ==> pr.countable() && pr.semaphore() == c,
        pr.required_checks is None && (pr.commits.nodes@.len() == 0
            || pr.commits.nodes@[0].commit.status_check_rollup is None) ==> pr.countable()
            && pr.semaphore() == (Checks { fail: 0, running: 0, pass: 0 }),
        entry.required matches Some(s) ==> entry.countable() && entry.semaphore() == s.checks,
        entry.required is None && (entry.head_commit is None
            || entry.head_commit->0.status_check_rollup is None) ==> entry.countable()
            && entry.semaphore() == (Checks { fail: 0, running: 0, pass: 0 }),
{
}

/// One more count adds to the sum of its own states alone.
proof fn one_more_count(counts: Seq<StateCount>, x: StateCount, states: Set<Seq<char>>)
    ensures
        amount(counts.push(x), states) == amount(counts, states) + (if states.contains(x.state@) {
            x.count as int
        } else {
            0
        }),
{
    reveal(Seq::filter);
    let picked = |c: StateCount| states.contains(c.state@);
    assert(counts.push(x).drop_last() =~= counts);
    let less = counts.filter(picked);
    if states.contains(x.state@) {
        assert(counts.push(x).filter(picked) == less.push(x));
        assert(less.push(x).drop_last() =~= less);
    }
}

/// What a commit status adds: `b` is the PR `a` with one more commit status on
/// its commit. A failed one raises the failing count by as many as it stands for
/// and leaves the other two as they are; one that is not done raises the running
/// count alone, one that passed the passing count alone, and any other none.
pub proof fn a_commit_status_is_counted(a: PrNode, b: PrNode, x: StateCount)
    requires
        a.required_checks is None,
        b.required_checks is None,
        a.commits.nodes@.len() > 0,
        b.commits.nodes@.len() > 0,
        a.commits.nodes@[0].commit.status_check_rollup is Some,
        b.commits.nodes@[0].commit.status_check_rollup is Some,
        ({
            let c = a.commits.nodes@[0].commit.status_check_rollup->0.contexts;
            let d = b.commits.nodes@[0].commit.status_check_rollup->0.contexts;
            &&& d.check_runs@ == c.check_runs@
            &&& d.status_contexts@ == c.status_contexts@.push(x)
        }),
        a.countable(),
        b.countable(),
    ensures
        b.semaphore().fail == a.semaphore().fail + (if x.state@ == "FAILURE"@ || x.state@
            == "ERROR"@ {
            x.count as int
        } else {
            0
        }),
        b.semaphore().running == a.semaphore().running + (if x.state@ == "PENDING"@ || x.state@
            == "EXPECTED"@ {
            x.count as int
        } else {
            0
        }),
        b.semaphore().pass == a.semaphore().pass + (if x.state@ == "SUCCESS"@ {
            x.count as int
        } else {
            0
        }),
{
    let c = a.commits.nodes@[0].commit.status_check_rollup->0.contexts;
    a_pr_counts_its_checks(a);
    a_pr_counts_its_checks(b);
    one_more_count(c.status_contexts@, x, failing_statuses());
    one_more_count(c.status_contexts@, x, running_statuses());
    one_more_count(c.status_contexts@, x, passing_statuses());
}

/// What a check run adds: `b` is the PR `a` with one more count of check runs on
/// its commit, which raises the count of the lamp of its state alone.
pub proof fn a_check_run_is_counted(a: PrNode, b: PrNode, x: StateCount)
    requires
        a.required_checks is None,
        b.required_checks is None,
        a.commits.nodes@.len() > 0,
        b.commits.nodes@.len() > 0,
        a.commits.nodes@[0].commit.status_check_rollup is Some,
        b.commits.nodes@[0].commit.status_check_rollup is Some,
        ({
            let c = a.commits.nodes@[0].commit.status_check_rollup->0.contexts;
            let d = b.commits.nodes@[0].commit.status_check_rollup->0.contexts;
            &&& d.check_runs@ == c.check_runs@.push(x)
            &&& d.status_contexts@ == c.status_contexts@
        }),
        a.countable(),
        b.countable(),
    ensures
        b.semaphore().fail == a.semaphore().fail + (if failing_runs().contains(x.state@) {
            x.count as int
        } else {
            0
        }),
        b.semaphore().running == a.semaphore().running + (if running_runs().contains(x.state@) {
            x.count as int
        } else {
            0
        }),
        b.semaphore().pass == a.semaphore().pass + (if passing_runs().contains(x.state@) {
            x.count as int
        } else {
            0
        }),
{
    let c = a.commits.nodes@[0].commit.status_check_rollup->0.contexts;
    a_pr_counts_its_checks(a);
    a_pr_counts_its_checks(b);
    one_more_count(c.check_runs@, x, failing_runs());
    one_more_count(c.check_runs@, x, running_runs());
    one_more_count(c.check_runs@, x, passing_runs());
}

/// Whether `t` is the first of the starts: one check began just then and none
/// before, or none began at all.
pub open spec fn is_first_start(t: Option<Seq<char>>, nodes: Seq<QueueContext>) -> bool {
    match t {
        Some(t) => {
            &&& exists|i: int|
                0 <= i < nodes.len() && (#[trigger] nodes[i]).started_at is Some
                    && nodes[i].started_at->0@ == t
            &&& forall|i: int|
                0 <= i < nodes.len() && (#[trigger] nodes[i]).started_at is Some ==> !text_before(
                    nodes[i].started_at->0@,
                    t,
                )
        },
        None => forall|i: int| 0 <= i < nodes.len() ==> (#[trigger] nodes[i]).started_at is None,
    }
}

/// The earliest start is the first of the starts.
pub(crate) proof fn the_earliest_is_first(nodes: Seq<QueueContext>)
    ensures
        is_first_start(earliest(nodes), nodes),
    decreases nodes.len(),
{
    if nodes.len() > 0 {
        let less = nodes.drop_last();
        let n = nodes.len() - 1;
        the_earliest_is_first(less);
        let before = earliest(less);
        let after = earliest(nodes);
        let last = opt_string(nodes[n].started_at);
        assert(after == earlier(before, last));
        match after {
            Some(t) => {
                if after == before {
                    let i = choose|i: int|
                        0 <= i < less.len() && (#[trigger] less[i]).started_at is Some
                            && less[i].started_at->0@ == t;
                    assert(nodes[i] == less[i]);
                } else {
                    assert(nodes[n].started_at->0@ == t);
                }
                assert forall|i: int|
                    0 <= i < nodes.len() && (#[trigger] nodes[i]).started_at is Some implies !text_before(
                    nodes[i].started_at->0@,
                    t,
                ) by {
                    let u = nodes[i].started_at->0@;
                    if i < n {
                        assert(less[i] == nodes[i]);
                        if after != before && text_before(u, t) {
                            text_before_transitive(u, t, before->0);
                        }
                    } else {
                        text_before_irreflexive(t);
                    }
                }
            },
            None => {
                assert forall|i: int| 0 <= i < nodes.len() implies (
                #[trigger] nodes[i]).started_at is None by {
                    if i < n {
                        assert(less[i] == nodes[i]);
                    }
                }
            },
        }
    }
}

/// The build of a queue entry without required-only checks begins with the first
/// of the checks of its speculative merge commit: the start that is reported is
/// that of one of them and none started before, and none is reported just where
/// none has started.
pub proof fn a_queue_build_begins_with_its_first_check(node: QueueEntryNode)
    requires
        node.required is None,
        node.head_commit is Some,
        node.head_commit->0.status_check_rollup is Some,
    ensures
        is_first_start(
            build_start(node),
            node.head_commit->0.status_check_rollup->0.contexts.nodes@,
        ),
{
    the_earliest_is_first(node.head_commit->0.status_check_rollup->0.contexts.nodes@);
}

/// Without a speculative merge commit that has checks no build start is reported,
/// and where only required checks are asked for, it is theirs.
pub proof fn a_build_without_a_rollup(node: QueueEntryNode)
    ensures
        node.required matches Some(s) ==> match s.build_started_at {
            Some(t) => build_start(node) == Some(t@),
            None => build_start(node) is None,
        },
        node.required is None && (node.head_commit is None
            || node.head_commit->0.status_check_rollup is None) ==> build_start(node) is None,
{
}

/// The order in which the checks of an entry are listed does not matter to its
/// build start: two entries whose checks have the same starts report the same.
pub proof fn the_same_starts_begin_the_same_build(a: QueueEntryNode, b: QueueEntryNode)
    requires
        a.required is None,
        b.required is None,
        a.head_commit is Some,
        b.head_commit is Some,
        a.head_commit->0.status_check_rollup is Some,
        b.head_commit->0.status_check_rollup is Some,
        forall|t: Seq<char>| #[trigger]
            starts_at(a.head_commit->0.status_check_rollup->0.contexts.nodes@, t) <==> starts_at(
                b.head_commit->0.status_check_rollup->0.contexts.nodes@,
                t,
            ),
    ensures
        build_start(a) == build_start(b),
{
    let x = a.head_commit->0.status_check_rollup->0.contexts.nodes@;
    let y = b.head_commit->0.status_check_rollup->0.contexts.nodes@;
    a_queue_build_begins_with_its_first_check(a);
    a_queue_build_begins_with_its_first_check(b);
    match (build_start(a), build_start(b)) {
        (Some(s), Some(t)) => {
            assert(starts_at(x, s));
            assert(starts_at(y, t));
            assert(starts_at(y, s));
            assert(starts_at(x, t));
            text_before_total(s, t);
        },
        (Some(s), None) => {
            assert(starts_at(x, s));
            assert(starts_at(y, s));
        },
        (None, Some(t)) => {
            assert(starts_at(y, t));
            assert(starts_at(x, t));
        },
        (None, None) => {},
    }
}

/// Whether one of the checks started at `t`.
pub open spec fn starts_at(nodes: Seq<QueueContext>, t: Seq<char>) -> bool {
    exists|i: int|
        0 <= i < nodes.len() && (#[trigger] nodes[i]).started_at is Some
            && nodes[i].started_at->0@ == t
}

/// An approval stands, whatever later reviews say: one more review makes a PR
/// approved if and only if it was before or that review approves it, and a PR
/// without reviews is not approved.
pub proof fn an_approval_stands(
    a: PrNode,
    b: PrNode,
    review: OpinionatedReview,
    x: Approval,
    y: Approval,
)
    requires
        b.latest_opinionated_reviews.nodes@ == a.latest_opinionated_reviews.nodes@.push(review),
        call_ensures(PrNode::approval, (&a,), x),
        call_ensures(PrNode::approval, (&b,), y),
    ensures
        y == Approval::Approved <==> x == Approval::Approved || review.state@ == "APPROVED"@,
        a.latest_opinionated_reviews.nodes@.len() == 0 ==> x == Approval::Pending,
{
    let before = a.latest_opinionated_reviews.nodes@;
    let after = b.latest_opinionated_reviews.nodes@;
    assert(after[before.len() as int] == review);
    if x == Approval::Approved {
        let i = choose|i: int| 0 <= i < before.len() && #[trigger] before[i].state@ == "APPROVED"@;
        assert(after[i].state@ == "APPROVED"@);
    }
    if y == Approval::Approved {
        let i = choose|i: int| 0 <= i < after.len() && #[trigger] after[i].state@ == "APPROVED"@;
        if i < before.len() {
            assert(before[i].state@ == "APPROVED"@);
        }
    }
}

/// One more review thread counts if and only if it is not resolved, and a page
/// that holds every thread is not capped.
pub proof fn an_open_thread_is_counted(
    a: ReviewThreads,
    b: ReviewThreads,
    thread: ReviewThread,
    x: (usize, bool),
    y: (usize, bool),
)
    requires
        b.nodes@ == a.nodes@.push(thread),
        call_ensures(ReviewThreads::unresolved, (&a,), x),
        call_ensures(ReviewThreads::unresolved, (&b,), y),
    ensures
        y.0 == x.0 + (if thread.is_resolved {
            0int
        } else {
            1
        }),
        a.nodes@.len() == 0 ==> x.0 == 0,
        x.1 <==> a.total_count > a.nodes@.len(),
{
    reveal(Seq::filter);
    assert(b.nodes@.drop_last() =~= a.nodes@);
}

/// Whether a search has a word among its others, parted from them by blanks.
pub open spec fn has_word(search: Seq<char>, word: Seq<char>) -> bool {
    exists|before: Seq<char>, after: Seq<char>|
        #![trigger before + word + after]
        {
            &&& search == before + word + after
            &&& before.len() == 0 || before.last() == ' '
            &&& after.len() == 0 || after[0] == ' '
        }
}

/// A word that stands between two parts of a search is one of its words.
proof fn a_word_stands_apart(before: Seq<char>, word: Seq<char>, after: Seq<char>)
    requires
        before.len() == 0 || before.last() == ' ',
        after.len() == 0 || after[0] == ' ',
    ensures
        has_word(before + word + after, word),
{
}

/// The qualifier of a repository.
pub open spec fn of_repo(repo: Repo) -> Seq<char> {
    "repo:"@ + repo.owner@ + "/"@ + repo.name@
}

/// The search for your open PRs asks for PRs of the repository that are open,
/// yours and not archived, the last updated first.
pub proof fn your_open_prs_are_searched(repo: Repo, me: &str, q: String)
    requires
        call_ensures(mine_search, (&repo, me), q),
    ensures
        has_word(q@, of_repo(repo)),
        has_word(q@, "is:pr"@),
        has_word(q@, "is:open"@),
        has_word(q@, "author:"@ + me@),
        has_word(q@, "archived:false"@),
        has_word(q@, "sort:updated-desc"@),
{
    let r = of_repo(repo);
    let b = seq![' '];
    reveal_strlit(" is:pr is:open author:");
    reveal_strlit(" archived:false sort:updated-desc");
    reveal_strlit("is:pr");
    reveal_strlit("is:open");
    reveal_strlit("author:");
    reveal_strlit("archived:false");
    reveal_strlit("sort:updated-desc");
    assert(" is:pr is:open author:"@ =~= b + "is:pr"@ + b + "is:open"@ + b + "author:"@);
    assert(" archived:false sort:updated-desc"@ =~= b + "archived:false"@ + b
        + "sort:updated-desc"@);
    six_words(
        q@,
        r,
        "is:pr"@,
        "is:open"@,
        "author:"@ + me@,
        "archived:false"@,
        "sort:updated-desc"@,
    );
}

/// Six words parted by blanks are words of the search.
proof fn six_words(
    q: Seq<char>,
    w0: Seq<char>,
    w1: Seq<char>,
    w2: Seq<char>,
    w3: Seq<char>,
    w4: Seq<char>,
    w5: Seq<char>,
)
    requires
        q =~= w0 + seq![' '] + w1 + seq![' '] + w2 + seq![' '] + w3 + seq![' '] + w4 + seq![' ']
            + w5,
    ensures
        has_word(q, w0),
        has_word(q, w1),
        has_word(q, w2),
        has_word(q, w3),
        has_word(q, w4),
        has_word(q, w5),
{
    let b = seq![' '];
    let none = Seq::<char>::empty();
    let a5 = none;
    let a4 = b + w5;
    let a3 = b + w4 + a4;
    let a2 = b + w3 + a3;
    let a1 = b + w2 + a2;
    let a0 = b + w1 + a1;
    let b1 = w0 + b;
    let b2 = b1 + w1 + b;
    let b3 = b2 + w2 + b;
    let b4 = b3 + w3 + b;
    let b5 = b4 + w4 + b;
    assert(q =~= none + w0 + a0);
    assert(q =~= b1 + w1 + a1);
    assert(q =~= b2 + w2 + a2);
    assert(q =~= b3 + w3 + a3);
    assert(q =~= b4 + w4 + a4);
    assert(q =~= b5 + w5 + a5);
    a_word_stands_apart(none, w0, a0);
    a_word_stands_apart(b1, w1, a1);
    a_word_stands_apart(b2, w2, a2);
    a_word_stands_apart(b3, w3, a3);
    a_word_stands_apart(b4, w4, a4);
    a_word_stands_apart(b5, w5, a5);
}

/// The search for your merged PRs asks for PRs of the repository that are merged,
/// yours and merged since the day, the last updated first.
pub proof fn your_merged_prs_are_searched(repo: Repo, me: &str, since: &str, q: String)
    requires
        call_ensures(merged_search, (&repo, me, since), q),
    ensures
        has_word(q@, of_repo(repo)),
        has_word(q@, "is:pr"@),
        has_word(q@, "is:merged"@),
        has_word(q@, "author:"@ + me@),
        has_word(q@, "merged:>="@ + since@),
        has_word(q@, "sort:updated-desc"@),
{
    let r = of_repo(repo);
    let b = seq![' '];
    reveal_strlit(" is:pr is:merged author:");
    reveal_strlit(" merged:>=");
    reveal_strlit(" sort:updated-desc");
    reveal_strlit("is:pr");
    reveal_strlit("is:merged");
    reveal_strlit("author:");
    reveal_strlit("merged:>=");
    reveal_strlit("sort:updated-desc");
    assert(" is:pr is:merged author:"@ =~= b + "is:pr"@ + b + "is:merged"@ + b + "author:"@);
    assert(" merged:>="@ =~= b + "merged:>="@);
    assert(" sort:updated-desc"@ =~= b + "sort:updated-desc"@);
    six_words(
        q@,
        r,
        "is:pr"@,
        "is:merged"@,
        "author:"@ + me@,
        "merged:>="@ + since@,
        "sort:updated-desc"@,
    );
}

/// The search for the merged PRs that you reviewed asks for PRs of the repository
/// that are merged, reviewed by you, not yours and merged since the day, the last
/// updated first.
pub proof fn reviewed_prs_are_searched(repo: Repo, me: &str, since: &str, q: String)
    requires
        call_ensures(reviewed_merged_search, (&repo, me, since), q),
    ensures
        has_word(q@, "is:merged"@),
        has_word(q@, "reviewed-by:"@ + me@),
        has_word(q@, "-author:"@ + me@),
        has_word(q@, "merged:>="@ + since@),
        has_word(q@, "sort:updated-desc"@),
{
    let r = of_repo(repo);
    let b = seq![' '];
    reveal_strlit(" is:pr is:merged reviewed-by:");
    reveal_strlit(" -author:");
    reveal_strlit(" merged:>=");
    reveal_strlit(" sort:updated-desc");
    reveal_strlit("is:pr");
    reveal_strlit("is:merged");
    reveal_strlit("reviewed-by:");
    reveal_strlit("-author:");
    reveal_strlit("merged:>=");
    reveal_strlit("sort:updated-desc");
    assert(" is:pr is:merged reviewed-by:"@ =~= b + "is:pr"@ + b + "is:merged"@ + b
        + "reviewed-by:"@);
    assert(" -author:"@ =~= b + "-author:"@);
    assert(" merged:>="@ =~= b + "merged:>="@);
    assert(" sort:updated-desc"@ =~= b + "sort:updated-desc"@);
    six_words(
        q@,
        r + b + "is:pr"@,
        "is:merged"@,
        "reviewed-by:"@ + me@,
        "-author:"@ + me@,
        "merged:>="@ + since@,
        "sort:updated-desc"@,
    );
}

/// The two searches for PRs under review ask for PRs of the repository that are
/// open, not yours and not archived, the last updated first: one for those that
/// request your review, the other for those that you reviewed.
pub proof fn prs_under_review_are_searched(
    repo: Repo,
    me: &str,
    qualifier: &str,
    q: (String, String),
)
    requires
        call_ensures(reviews_searches, (&repo, me, qualifier), q),
    ensures
        has_word(q.0@, "is:open"@),
        has_word(q.0@, qualifier@ + ":"@ + me@),
        has_word(q.0@, "-author:"@ + me@),
        has_word(q.0@, "archived:false"@),
        has_word(q.1@, "is:open"@),
        has_word(q.1@, "reviewed-by:"@ + me@),
        has_word(q.1@, "-author:"@ + me@),
        has_word(q.1@, "archived:false"@),
{
    let r = of_repo(repo);
    let b = seq![' '];
    reveal_strlit(" is:pr is:open ");
    reveal_strlit(" is:pr is:open reviewed-by:");
    reveal_strlit(" -author:");
    reveal_strlit(" archived:false sort:updated-desc");
    reveal_strlit("is:pr");
    reveal_strlit("is:open");
    reveal_strlit("reviewed-by:");
    reveal_strlit("-author:");
    reveal_strlit("archived:false");
    reveal_strlit("sort:updated-desc");
    assert(" is:pr is:open "@ =~= b + "is:pr"@ + b + "is:open"@ + b);
    assert(" is:pr is:open reviewed-by:"@ =~= b + "is:pr"@ + b + "is:open"@ + b + "reviewed-by:"@);
    assert(" -author:"@ =~= b + "-author:"@);
    assert(" archived:false sort:updated-desc"@ =~= b + "archived:false"@ + b
        + "sort:updated-desc"@);
    six_words(
        q.0@,
        r + b + "is:pr"@,
        "is:open"@,
        qualifier@ + ":"@ + me@,
        "-author:"@ + me@,
        "archived:false"@,
        "sort:updated-desc"@,
    );
    six_words(
        q.1@,
        r + b + "is:pr"@,
        "is:open"@,
        "reviewed-by:"@ + me@,
        "-author:"@ + me@,
        "archived:false"@,
        "sort:updated-desc"@,
    );
}

/// The page of a merged PRs query is as large as the limit, but holds one PR at
/// least and a hundred at most; two limits of one page size ask the same.
pub proof fn a_page_is_as_large_as_the_limit(limit: usize, q: String, least: String, most: String)
    requires
        call_ensures(merged_query, (limit,), q),
        call_ensures(merged_query, (1usize,), least),
        call_ensures(merged_query, (100usize,), most),
    ensures
        1 <= limit <= 100 ==> q@ == MERGED_HEAD@ + decimal(limit as nat) + MERGED_TAIL@,
        limit == 0 ==> q@ == least@,
        limit > 100 ==> q@ == most@,
{
}

/// A queue that is missing or empty has no entries and no estimate; any other has
/// its entries in order and the estimate that was reported.
pub proof fn an_empty_queue_has_no_estimate(
    data: QueueData,
    r: (Vec<QueueEntryNode>, Option<i64>),
)
    requires
        call_ensures(queue_reply, (data,), r),
    ensures
        data.repository is None || data.repository->0.merge_queue is None ==> r.0@.len() == 0,
        r.0@.len() == 0 ==> r.1 is None,
        r.0@.len() > 0 ==> data.repository is Some && data.repository->0.merge_queue is Some && r.1
            == data.repository->0.merge_queue->0.next_entry_estimated_time_to_merge,
        data.repository is Some && data.repository->0.merge_queue is Some ==> r.0@
            == data.repository->0.merge_queue->0.entries.nodes@,
{
}

} // verus!
