//! What the lists of the dashboard say of the PRs that GitHub reported: which
//! are listed, in which order, and what a row tells of its PR.

use crate::commits::ReleaseMap;
use crate::merged;
use crate::merged::MergedRow;
use crate::model::{
    opt_string, unresolved_count, MergedNode, PrNode, QueueEntryNode, ReviewPrNode, ReviewThread,
    ReviewsData,
};
use crate::order::{above, order_keeps_the_number, ordered, Dated};
use crate::prs;
use crate::prs::PrRow;
use crate::queue;
use crate::queue::{build_start, QueueRow};
use crate::reviews;
use crate::reviews::{
    later_than_every_review, new_commits_are_later, ReviewRow, ReviewedMergedRow,
};
use crate::status::{Mergeable, ReviewState, Status};
use crate::text::text_before;
use vstd::prelude::*;

verus! {

/// Whether a moment is not before another; a missing one is before every other.
pub open spec fn not_older(a: Option<String>, b: Option<String>) -> bool {
    match (a, b) {
        (Some(x), Some(y)) => !text_before(x@, y@),
        (None, Some(_)) => false,
        (_, None) => true,
    }
}

/// Whether two moments are the same, or both are missing.
pub open spec fn as_old(a: Option<String>, b: Option<String>) -> bool {
    match (a, b) {
        (Some(x), Some(y)) => x@ == y@,
        (None, None) => true,
        _ => false,
    }
}

/// Whether a row of moment `a` and number `m` may stand above one of moment `b`
/// and number `n`: it is no older, and where both are as old its number is no
/// smaller.
pub open spec fn in_order(a: Option<String>, m: i64, b: Option<String>, n: i64) -> bool {
    &&& not_older(a, b)
    &&& as_old(a, b) ==> m >= n
}

/// Putting rows in order keeps each of them.
pub(crate) proof fn order_keeps_the_rows<T: Dated>(rows: Seq<T>, out: Seq<T>)
    requires
        ordered(rows, out),
    ensures
        out.len() == rows.len(),
        forall|k: int| 0 <= k < rows.len() ==> out.contains(#[trigger] rows[k]),
        forall|i: int| 0 <= i < out.len() ==> rows.contains(#[trigger] out[i]),
{
    broadcast use vstd::seq_lib::group_to_multiset_ensures;

    order_keeps_the_number(rows, out);
    assert forall|k: int| 0 <= k < rows.len() implies out.contains(#[trigger] rows[k]) by {
        assert(rows.contains(rows[k]));
        assert(rows.to_multiset().count(rows[k]) > 0);
        assert(out.to_multiset().count(rows[k]) > 0);
    }
    assert forall|i: int| 0 <= i < out.len() implies rows.contains(#[trigger] out[i]) by {
        assert(out.contains(out[i]));
        assert(out.to_multiset().count(out[i]) > 0);
        assert(rows.to_multiset().count(out[i]) > 0);
    }
}

/// Whether an optional text is there and reads `text`.
pub open spec fn reads(t: Option<String>, text: Seq<char>) -> bool {
    t is Some && t->0@ == text
}

/// Whether a PR conflicts with its base branch: either of its merge fields says
/// so.
pub open spec fn has_conflicts(node: PrNode) -> bool {
    reads(node.mergeable, "CONFLICTING"@) || reads(node.merge_state_status, "DIRTY"@)
}

/// Whether a branch is the head branch that was reported, or empty where none
/// was.
pub open spec fn is_branch(branch: Seq<char>, head: Option<String>) -> bool {
    match head {
        Some(b) => branch == b@,
        None => branch.len() == 0,
    }
}

/// What the row of an open PR tells of it.
pub open spec fn tells_pr(row: PrRow, node: PrNode) -> bool {
    &&& row.number == node.number
    &&& row.is_draft == node.is_draft
    &&& row.title@ == node.title@
    &&& row.url@ == node.url@
    &&& is_branch(row.branch@, node.head_ref_name)
    &&& as_old(row.updated_at, node.updated_at)
    &&& match (row.queue, node.merge_queue_entry) {
        (Some(q), Some(e)) => q.0 == e.position && q.1@ == e.state@,
        (None, None) => true,
        _ => false,
    }
    &&& row.checks == node.semaphore()
    &&& row.unresolved + node.review_threads.nodes@.filter(
        |t: ReviewThread| t.is_resolved,
    ).len() == node.review_threads.nodes@.len()
    &&& row.unresolved_capped <==> node.review_threads.total_count
        > node.review_threads.nodes@.len()
    &&& row.mergeable == Mergeable::Conflicts <==> has_conflicts(node)
    &&& row.mergeable == Mergeable::Ready <==> !has_conflicts(node) && (reads(
        node.merge_state_status,
        "CLEAN"@,
    ) || reads(node.merge_state_status, "HAS_HOOKS"@) || reads(
        node.merge_state_status,
        "UNSTABLE"@,
    ))
    &&& row.mergeable == Mergeable::Blocked <==> !has_conflicts(node) && (reads(
        node.merge_state_status,
        "BLOCKED"@,
    ) || reads(node.merge_state_status, "BEHIND"@) || reads(node.merge_state_status, "DRAFT"@))
    &&& row.status == Some(Status::Conflicts) <==> has_conflicts(node)
    &&& row.status == Some(Status::Fail) <==> !has_conflicts(node) && row.checks.fail > 0
    &&& row.status == Some(Status::Pending) <==> !has_conflicts(node) && row.checks.fail == 0
        && row.checks.running > 0
    &&& row.status == Some(Status::Pass) <==> !has_conflicts(node) && row.checks.fail == 0
        && row.checks.running == 0 && row.checks.pass > 0
}

/// Every thread is resolved or not.
proof fn threads_are_resolved_or_not(nodes: Seq<ReviewThread>)
    ensures
        unresolved_count(nodes) + nodes.filter(|t: ReviewThread| t.is_resolved).len()
            == nodes.len(),
    decreases nodes.len(),
{
    reveal(Seq::filter);
    if nodes.len() > 0 {
        threads_are_resolved_or_not(nodes.drop_last());
    }
}

/// The merge states of a PR that is ready and of one that is held are distinct.
proof fn merge_states_are_distinct(t: Option<String>)
    ensures
        reads(t, "CLEAN"@) || reads(t, "HAS_HOOKS"@) || reads(t, "UNSTABLE"@) ==> !(reads(
            t,
            "BLOCKED"@,
        ) || reads(t, "BEHIND"@) || reads(t, "DRAFT"@)),
{
    reveal_strlit("CLEAN");
    reveal_strlit("HAS_HOOKS");
    reveal_strlit("UNSTABLE");
    reveal_strlit("BLOCKED");
    reveal_strlit("BEHIND");
    reveal_strlit("DRAFT");
    assert("CLEAN"@[0] == 'C' && "DRAFT"@[0] == 'D');
    assert("CLEAN"@.len() == 5 && "HAS_HOOKS"@.len() == 9 && "UNSTABLE"@.len() == 8);
    assert("BLOCKED"@.len() == 7 && "BEHIND"@.len() == 6 && "DRAFT"@.len() == 5);
}

/// Whether one of the rows tells of the open PR.
pub open spec fn has_pr_row(rows: Seq<PrRow>, node: PrNode) -> bool {
    exists|i: int| 0 <= i < rows.len() && tells_pr(#[trigger] rows[i], node)
}

/// Whether a row tells of one of the nodes.
pub open spec fn is_pr_row(row: PrRow, nodes: Seq<PrNode>) -> bool {
    exists|k: int| 0 <= k < nodes.len() && tells_pr(row, #[trigger] nodes[k])
}

/// A row that shows what a PR node says tells of that PR.
pub(crate) proof fn a_row_tells_of_its_pr(row: PrRow, node: PrNode)
    requires
        prs::is_row_of(row, node),
    ensures
        tells_pr(row, node),
{
    threads_are_resolved_or_not(node.review_threads.nodes@);
    merge_states_are_distinct(node.merge_state_status);
}

/// Every open PR has its row, and every row its PR: there are as many rows as
/// PRs, and each tells of one.
pub proof fn every_open_pr_is_listed(nodes: Vec<PrNode>, out: Vec<PrRow>)
    requires
        call_ensures(prs::build_rows, (nodes,), out),
    ensures
        out@.len() == nodes@.len(),
        forall|k: int|
            0 <= k < nodes@.len() ==> has_pr_row(out@, #[trigger] nodes@[k]),
        forall|i: int|
            0 <= i < out@.len() ==> is_pr_row(#[trigger] out@[i], nodes@),
{
    let rows = choose|rows: Seq<PrRow>| #[trigger]
        prs::are_rows_of(rows, nodes@) && ordered(rows, out@);
    order_keeps_the_rows(rows, out@);
    assert forall|k: int| 0 <= k < nodes@.len() implies has_pr_row(out@, #[trigger] nodes@[k]) by {
        assert(out@.contains(rows[k]));
        let i = choose|i: int| 0 <= i < out@.len() && out@[i] == rows[k];
        a_row_tells_of_its_pr(rows[k], nodes@[k]);
        assert(tells_pr(out@[i], nodes@[k]));
    }
    assert forall|i: int| 0 <= i < out@.len() implies is_pr_row(#[trigger] out@[i], nodes@) by {
        assert(rows.contains(out@[i]));
        let k = choose|k: int| 0 <= k < rows.len() && rows[k] == out@[i];
        a_row_tells_of_its_pr(rows[k], nodes@[k]);
        assert(tells_pr(out@[i], nodes@[k]));
    }
}

/// The open PR that was updated last comes first; of PRs updated at one moment
/// the one with the higher number does, and those without a moment come last.
pub proof fn open_prs_are_newest_first(nodes: Vec<PrNode>, out: Vec<PrRow>, i: int, j: int)
    requires
        call_ensures(prs::build_rows, (nodes,), out),
        0 <= i < j < out@.len(),
    ensures
        in_order(out@[i].updated_at, out@[i].number, out@[j].updated_at, out@[j].number),
{
    assert(!above(out@[j].key(), out@[i].key()));
}

/// Whether a name is that of the account, or that of a ghost where the account is
/// gone.
pub open spec fn names_author(name: Seq<char>, author: Option<crate::model::Login>) -> bool {
    match author {
        Some(a) => name == a.login@,
        None => name == "ghost"@,
    }
}

/// What the row of a queue entry tells of it, to a viewer of the name `me`.
pub open spec fn tells_entry(row: QueueRow, node: QueueEntryNode, me: Seq<char>) -> bool {
    let pr = node.pull_request;
    &&& row.position == node.position
    &&& row.number == pr.number
    &&& row.title@ == pr.title@
    &&& row.url@ == pr.url@
    &&& is_branch(row.branch@, pr.head_ref_name)
    &&& names_author(row.author@, pr.author)
    &&& row.mine <==> pr.author is Some && pr.author->0.login@ == me
    &&& as_old(row.enqueued_at, node.enqueued_at)
    &&& opt_string(row.build_started_at) == build_start(node)
    &&& row.checks == node.semaphore()
}

/// Whether one of the rows tells of the queue entry.
pub open spec fn has_entry_row(rows: Seq<QueueRow>, node: QueueEntryNode, me: Seq<char>) -> bool {
    exists|i: int| 0 <= i < rows.len() && tells_entry(#[trigger] rows[i], node, me)
}

/// Whether a row tells of one of the nodes.
pub open spec fn is_entry_row(row: QueueRow, nodes: Seq<QueueEntryNode>, me: Seq<char>) -> bool {
    exists|k: int| 0 <= k < nodes.len() && tells_entry(row, #[trigger] nodes[k], me)
}

/// Every queue entry has its row, and every row its entry: there are as many rows
/// as entries, and each tells of one.
pub proof fn every_queue_entry_is_listed(
    nodes: Vec<QueueEntryNode>,
    me: &str,
    out: Vec<QueueRow>,
)
    requires
        call_ensures(queue::build_rows, (nodes, me), out),
    ensures
        out@.len() == nodes@.len(),
        forall|k: int|
            0 <= k < nodes@.len() ==> has_entry_row(out@, #[trigger] nodes@[k], me@),
        forall|i: int|
            0 <= i < out@.len() ==> is_entry_row(#[trigger] out@[i], nodes@, me@),
{
    let rows = choose|rows: Seq<QueueRow>| #[trigger]
        queue::are_rows_of(rows, nodes@, me@) && ordered(rows, out@);
    order_keeps_the_rows(rows, out@);
    assert forall|k: int| 0 <= k < nodes@.len() implies has_entry_row(out@, #[trigger] nodes@[k], me@) by {
        assert(out@.contains(rows[k]));
        let i = choose|i: int| 0 <= i < out@.len() && out@[i] == rows[k];
        assert(queue::is_row_of(rows[k], nodes@[k], me@));
        assert(tells_entry(out@[i], nodes@[k], me@));
    }
    assert forall|i: int| 0 <= i < out@.len() implies is_entry_row(#[trigger] out@[i], nodes@, me@) by {
        assert(rows.contains(out@[i]));
        let k = choose|k: int| 0 <= k < rows.len() && rows[k] == out@[i];
        assert(queue::is_row_of(rows[k], nodes@[k], me@));
        assert(tells_entry(out@[i], nodes@[k], me@));
    }
}

/// The entry at the front of the queue comes first.
pub proof fn the_queue_is_in_order(
    nodes: Vec<QueueEntryNode>,
    me: &str,
    out: Vec<QueueRow>,
    i: int,
    j: int,
)
    requires
        call_ensures(queue::build_rows, (nodes, me), out),
        0 <= i < j < out@.len(),
    ensures
        out@[i].position <= out@[j].position,
{
    let rows = choose|rows: Seq<QueueRow>| #[trigger]
        queue::are_rows_of(rows, nodes@, me@) && ordered(rows, out@);
    queue::the_front_comes_first(rows, out@, i, j);
}

/// What the row of a merged PR tells of it, where `releases` says which release
/// shipped a PR.
pub open spec fn tells_merged(row: MergedRow, node: MergedNode, releases: ReleaseMap) -> bool {
    &&& row.number == node.number
    &&& row.title@ == node.title@
    &&& row.url@ == node.url@
    &&& is_branch(row.branch@, node.head_ref_name)
    &&& as_old(row.merged_at, node.merged_at)
    &&& row.release is Some <==> releases@.contains_key(node.number)
    &&& row.release matches Some(r) ==> r.tag@ == releases@[node.number].tag@ && r.url@
        == releases@[node.number].url@
}

/// Whether one of the rows tells of the merged PR.
pub open spec fn has_merged_row(rows: Seq<MergedRow>, node: MergedNode, releases: ReleaseMap) -> bool {
    exists|i: int| 0 <= i < rows.len() && tells_merged(#[trigger] rows[i], node, releases)
}

/// Whether a row tells of one of the nodes.
pub open spec fn is_merged_row(row: MergedRow, nodes: Seq<MergedNode>, releases: ReleaseMap) -> bool {
    exists|k: int| 0 <= k < nodes.len() && tells_merged(row, #[trigger] nodes[k], releases)
}

/// The merged PRs that are listed are the newest: each row tells of a PR, there
/// are as many as the limit allows, they are newest first, and a PR without a row
/// is no newer than any that has one.
pub proof fn the_newest_merged_prs_are_listed(
    nodes: Vec<MergedNode>,
    limit: usize,
    releases: ReleaseMap,
    out: Vec<MergedRow>,
)
    requires
        call_ensures(merged::build_rows, (nodes, limit, &releases), out),
    ensures
        out@.len() == (if limit < nodes@.len() {
            limit as int
        } else {
            nodes@.len() as int
        }),
        forall|i: int|
            0 <= i < out@.len() ==> is_merged_row(#[trigger] out@[i], nodes@, releases),
        forall|i: int, j: int|
            0 <= i < j < out@.len() ==> in_order(
                (#[trigger] out@[i]).merged_at,
                out@[i].number,
                (#[trigger] out@[j]).merged_at,
                out@[j].number,
            ),
        forall|k: int|
            0 <= k < nodes@.len() ==> (has_merged_row(out@, #[trigger] nodes@[k], releases)) || (forall|i: int|
                0 <= i < out@.len() ==> not_older(
                    (#[trigger] out@[i]).merged_at,
                    nodes@[k].merged_at,
                )),
{
    let rows = choose|rows: Seq<MergedRow>| #[trigger]
        merged::are_rows_of(rows, nodes@, releases@) && merged::newest_of(rows, limit as int, out@);
    let all = choose|all: Seq<MergedRow>| #[trigger]
        ordered(rows, all) && out@ == all.take(crate::table::min(limit as int, all.len() as int));
    order_keeps_the_rows(rows, all);
    assert forall|i: int| 0 <= i < out@.len() implies is_merged_row(#[trigger] out@[i], nodes@, releases) by {
        assert(out@[i] == all[i]);
        assert(rows.contains(all[i]));
        let k = choose|k: int| 0 <= k < rows.len() && rows[k] == all[i];
        assert(merged::is_row_of(rows[k], nodes@[k], releases@));
        assert(tells_merged(out@[i], nodes@[k], releases));
    }
    assert forall|i: int, j: int| 0 <= i < j < out@.len() implies in_order(
        (#[trigger] out@[i]).merged_at,
        out@[i].number,
        (#[trigger] out@[j]).merged_at,
        out@[j].number,
    ) by {
        assert(out@[i] == all[i] && out@[j] == all[j]);
        assert(!above(all[j].key(), all[i].key()));
    }
    assert forall|k: int| 0 <= k < nodes@.len() implies (has_merged_row(out@, #[trigger] nodes@[k], releases)) || (
    forall|i: int|
        0 <= i < out@.len() ==> not_older(
            (#[trigger] out@[i]).merged_at,
            nodes@[k].merged_at,
        )) by {
        assert(merged::is_row_of(rows[k], nodes@[k], releases@));
        assert(all.contains(rows[k]));
        let j = choose|j: int| 0 <= j < all.len() && all[j] == rows[k];
        if j < out@.len() {
            assert(out@[j] == all[j]);
            assert(tells_merged(out@[j], nodes@[k], releases));
        } else {
            assert forall|i: int| 0 <= i < out@.len() implies not_older(
                (#[trigger] out@[i]).merged_at,
                nodes@[k].merged_at,
            ) by {
                assert(out@[i] == all[i]);
                assert(!above(all[j].key(), all[i].key()));
            }
        }
    }
}

/// What the row of a merged PR that you reviewed tells of it.
pub open spec fn tells_reviewed(row: ReviewedMergedRow, node: MergedNode) -> bool {
    &&& row.number == node.number
    &&& row.title@ == node.title@
    &&& row.url@ == node.url@
    &&& is_branch(row.branch@, node.head_ref_name)
    &&& names_author(row.author@, node.author)
    &&& as_old(row.merged_at, node.merged_at)
}

/// Whether one of the rows tells of the merged PR.
pub open spec fn has_reviewed_row(rows: Seq<ReviewedMergedRow>, node: MergedNode) -> bool {
    exists|i: int| 0 <= i < rows.len() && tells_reviewed(#[trigger] rows[i], node)
}

/// Whether a row tells of one of the nodes.
pub open spec fn is_reviewed_row(row: ReviewedMergedRow, nodes: Seq<MergedNode>) -> bool {
    exists|k: int| 0 <= k < nodes.len() && tells_reviewed(row, #[trigger] nodes[k])
}

/// The merged PRs that you reviewed are listed as the merged PRs are: the newest
/// of them, newest first, as many as the limit allows.
pub proof fn the_newest_reviewed_prs_are_listed(
    nodes: Vec<MergedNode>,
    limit: usize,
    out: Vec<ReviewedMergedRow>,
)
    requires
        call_ensures(reviews::build_merged_rows, (nodes, limit), out),
    ensures
        out@.len() == (if limit < nodes@.len() {
            limit as int
        } else {
            nodes@.len() as int
        }),
        forall|i: int|
            0 <= i < out@.len() ==> is_reviewed_row(#[trigger] out@[i], nodes@),
        forall|i: int, j: int|
            0 <= i < j < out@.len() ==> in_order(
                (#[trigger] out@[i]).merged_at,
                out@[i].number,
                (#[trigger] out@[j]).merged_at,
                out@[j].number,
            ),
        forall|k: int|
            0 <= k < nodes@.len() ==> (has_reviewed_row(out@, #[trigger] nodes@[k]))
                || (forall|i: int|
                0 <= i < out@.len() ==> not_older(
                    (#[trigger] out@[i]).merged_at,
                    nodes@[k].merged_at,
                )),
{
    let rows = choose|rows: Seq<ReviewedMergedRow>| #[trigger]
        reviews::are_merged_rows_of(rows, nodes@) && reviews::newest_of(rows, limit as int, out@);
    let all = choose|all: Seq<ReviewedMergedRow>| #[trigger]
        ordered(rows, all) && out@ == all.take(crate::table::min(limit as int, all.len() as int));
    order_keeps_the_rows(rows, all);
    assert forall|i: int| 0 <= i < out@.len() implies is_reviewed_row(#[trigger] out@[i], nodes@) by {
        assert(out@[i] == all[i]);
        assert(rows.contains(all[i]));
        let k = choose|k: int| 0 <= k < rows.len() && rows[k] == all[i];
        assert(reviews::is_merged_row_of(rows[k], nodes@[k]));
        assert(tells_reviewed(out@[i], nodes@[k]));
    }
    assert forall|i: int, j: int| 0 <= i < j < out@.len() implies in_order(
        (#[trigger] out@[i]).merged_at,
        out@[i].number,
        (#[trigger] out@[j]).merged_at,
        out@[j].number,
    ) by {
        assert(out@[i] == all[i] && out@[j] == all[j]);
        assert(!above(all[j].key(), all[i].key()));
    }
    assert forall|k: int| 0 <= k < nodes@.len() implies (has_reviewed_row(out@, #[trigger] nodes@[k])) || (forall|
        i: int,
    |
        0 <= i < out@.len() ==> not_older(
            (#[trigger] out@[i]).merged_at,
            nodes@[k].merged_at,
        )) by {
        assert(reviews::is_merged_row_of(rows[k], nodes@[k]));
        assert(all.contains(rows[k]));
        let j = choose|j: int| 0 <= j < all.len() && all[j] == rows[k];
        if j < out@.len() {
            assert(out@[j] == all[j]);
            assert(tells_reviewed(out@[j], nodes@[k]));
        } else {
            assert forall|i: int| 0 <= i < out@.len() implies not_older(
                (#[trigger] out@[i]).merged_at,
                nodes@[k].merged_at,
            ) by {
                assert(out@[i] == all[i]);
                assert(!above(all[j].key(), all[i].key()));
            }
        }
    }
}

/// What the row of a PR under review tells of it.
pub open spec fn tells_review(row: ReviewRow, node: ReviewPrNode) -> bool {
    &&& row.number == node.number
    &&& row.is_draft == node.is_draft
    &&& row.title@ == node.title@
    &&& row.url@ == node.url@
    &&& is_branch(row.branch@, node.head_ref_name)
    &&& names_author(row.author@, node.author)
    &&& as_old(row.updated_at, node.updated_at)
}

/// What the row of a PR that asks for your review tells of it: whether this would
/// be your first review.
pub open spec fn tells_request(row: ReviewRow, node: ReviewPrNode) -> bool {
    &&& tells_review(row, node)
    &&& row.state == (if node.reviews.nodes@.len() == 0 {
        ReviewState::Awaiting
    } else {
        ReviewState::ReReview
    })
}

/// What the row of a PR that you reviewed and that asks for nothing tells of it:
/// whether there are commits later than every one of your reviews.
pub open spec fn tells_settled(row: ReviewRow, node: ReviewPrNode) -> bool {
    &&& tells_review(row, node)
    &&& row.state == (if later_than_every_review(node) {
        ReviewState::Updated
    } else {
        ReviewState::Reviewed
    })
}

/// Whether one of the nodes is of PR `n`.
pub open spec fn asks(nodes: Seq<ReviewPrNode>, n: i64) -> bool {
    exists|k: int| 0 <= k < nodes.len() && (#[trigger] nodes[k]).number == n
}

/// Whether one of the rows tells of a PR that asks for your review.
pub open spec fn has_request_row(rows: Seq<ReviewRow>, node: ReviewPrNode) -> bool {
    exists|i: int| 0 <= i < rows.len() && tells_request(#[trigger] rows[i], node)
}

/// Whether one of the rows tells of a PR that you reviewed.
pub open spec fn has_settled_row(rows: Seq<ReviewRow>, node: ReviewPrNode) -> bool {
    exists|i: int| 0 <= i < rows.len() && tells_settled(#[trigger] rows[i], node)
}

/// Whether a row tells of a PR that asks for your review, or of one that you
/// reviewed and that asks for none.
pub open spec fn is_review_row(row: ReviewRow, data: ReviewsData) -> bool {
    ||| exists|k: int|
        0 <= k < data.requested.nodes@.len() && tells_request(
            row,
            #[trigger] data.requested.nodes@[k],
        )
    ||| exists|k: int|
        0 <= k < data.reviewed.nodes@.len() && !asks(data.requested.nodes@, row.number)
            && tells_settled(row, #[trigger] data.reviewed.nodes@[k])
}

/// The rows of one state keep their place among all.
proof fn a_row_is_put_under_its_state(rows: Seq<ReviewRow>, out: Seq<ReviewRow>)
    requires
        reviews::by_state(rows, out),
    ensures
        forall|k: int| 0 <= k < rows.len() ==> out.contains(#[trigger] rows[k]),
        forall|i: int| 0 <= i < out.len() ==> rows.contains(#[trigger] out[i]),
{
    let (a, b, c, d) = choose|
        a: Seq<ReviewRow>,
        b: Seq<ReviewRow>,
        c: Seq<ReviewRow>,
        d: Seq<ReviewRow>,
    |
        {
            &&& #[trigger] ordered(reviews::in_state(rows, ReviewState::Awaiting), a)
            &&& #[trigger] ordered(reviews::in_state(rows, ReviewState::ReReview), b)
            &&& #[trigger] ordered(reviews::in_state(rows, ReviewState::Updated), c)
            &&& #[trigger] ordered(reviews::in_state(rows, ReviewState::Reviewed), d)
            &&& out == a + b + c + d
        };
    rows_of_a_state(rows, ReviewState::Awaiting, a);
    rows_of_a_state(rows, ReviewState::ReReview, b);
    rows_of_a_state(rows, ReviewState::Updated, c);
    rows_of_a_state(rows, ReviewState::Reviewed, d);
    assert forall|k: int| 0 <= k < rows.len() implies out.contains(#[trigger] rows[k]) by {
        let (part, at) = match rows[k].state {
            ReviewState::Awaiting => (a, 0int),
            ReviewState::ReReview => (b, a.len() as int),
            ReviewState::Updated => (c, (a.len() + b.len()) as int),
            ReviewState::Reviewed => (d, (a.len() + b.len() + c.len()) as int),
        };
        assert(part.contains(rows[k]));
        let i = choose|i: int| 0 <= i < part.len() && part[i] == rows[k];
        assert(out[at + i] == rows[k]);
    }
    assert forall|i: int| 0 <= i < out.len() implies rows.contains(#[trigger] out[i]) by {
        if i < a.len() {
            assert(out[i] == a[i]);
        } else if i < a.len() + b.len() {
            assert(out[i] == b[i - a.len()]);
        } else if i < a.len() + b.len() + c.len() {
            assert(out[i] == c[i - a.len() - b.len()]);
        } else {
            assert(out[i] == d[i - a.len() - b.len() - c.len()]);
        }
    }
}

/// The rows put in order from those of one state are the rows of that state.
proof fn rows_of_a_state(rows: Seq<ReviewRow>, state: ReviewState, part: Seq<ReviewRow>)
    requires
        ordered(reviews::in_state(rows, state), part),
    ensures
        forall|k: int|
            0 <= k < rows.len() && (#[trigger] rows[k]).state == state ==> part.contains(rows[k]),
        forall|i: int|
            0 <= i < part.len() ==> rows.contains(#[trigger] part[i]) && part[i].state == state,
{
    let of_state = |r: ReviewRow| r.state == state;
    let some = reviews::in_state(rows, state);
    order_keeps_the_rows(some, part);
    assert forall|k: int|
        0 <= k < rows.len() && (#[trigger] rows[k]).state == state implies part.contains(
        rows[k],
    ) by {
        rows.lemma_filter_contains(of_state, k);
        let j = choose|j: int| 0 <= j < some.len() && some[j] == rows[k];
        assert(part.contains(some[j]));
    }
    assert forall|i: int| 0 <= i < part.len() implies rows.contains(#[trigger] part[i])
        && part[i].state == state by {
        assert(some.contains(part[i]));
        let j = choose|j: int| 0 <= j < some.len() && some[j] == part[i];
        rows.lemma_filter_pred(of_state, j);
        rows.lemma_filter_contains_rev(of_state, part[i]);
    }
}

/// Each row is in one of the four states.
proof fn the_states_share_the_rows(rows: Seq<ReviewRow>)
    ensures
        rows.len() == reviews::in_state(rows, ReviewState::Awaiting).len() + reviews::in_state(
            rows,
            ReviewState::ReReview,
        ).len() + reviews::in_state(rows, ReviewState::Updated).len() + reviews::in_state(
            rows,
            ReviewState::Reviewed,
        ).len(),
    decreases rows.len(),
{
    reveal(Seq::filter);
    if rows.len() > 0 {
        the_states_share_the_rows(rows.drop_last());
    }
}

/// A PR under review is listed as often as it was found, but one that asks for
/// your review not once more for having been reviewed.
pub proof fn no_pr_under_review_is_listed_twice(data: ReviewsData, out: Vec<ReviewRow>)
    requires
        call_ensures(reviews::build_open_rows, (data,), out),
    ensures
        out@.len() == data.requested.nodes@.len() + data.reviewed.nodes@.filter(
            |n: ReviewPrNode| !asks(data.requested.nodes@, n.number),
        ).len(),
{
    let rows = choose|rows: Seq<ReviewRow>| #[trigger]
        reviews::are_rows_of(rows, data) && reviews::by_state(rows, out@);
    let (a, b, c, d) = choose|
        a: Seq<ReviewRow>,
        b: Seq<ReviewRow>,
        c: Seq<ReviewRow>,
        d: Seq<ReviewRow>,
    |
        {
            &&& #[trigger] ordered(reviews::in_state(rows, ReviewState::Awaiting), a)
            &&& #[trigger] ordered(reviews::in_state(rows, ReviewState::ReReview), b)
            &&& #[trigger] ordered(reviews::in_state(rows, ReviewState::Updated), c)
            &&& #[trigger] ordered(reviews::in_state(rows, ReviewState::Reviewed), d)
            &&& out@ == a + b + c + d
        };
    order_keeps_the_number(reviews::in_state(rows, ReviewState::Awaiting), a);
    order_keeps_the_number(reviews::in_state(rows, ReviewState::ReReview), b);
    order_keeps_the_number(reviews::in_state(rows, ReviewState::Updated), c);
    order_keeps_the_number(reviews::in_state(rows, ReviewState::Reviewed), d);
    the_states_share_the_rows(rows);
    let asked = data.requested.nodes@;
    let x = |n: ReviewPrNode| !asks(asked, n.number);
    let y = |n: ReviewPrNode| !reviews::names(asked, n.number);
    assert forall|n: ReviewPrNode| #[trigger] x(n) == y(n) by {
        if asks(asked, n.number) {
            let k = choose|k: int| 0 <= k < asked.len() && (#[trigger] asked[k]).number == n.number;
            assert(reviews::names(asked, n.number));
        }
        if reviews::names(asked, n.number) {
            let k = choose|k: int| 0 <= k < asked.len() && (#[trigger] asked[k]).number == n.number;
            assert(asks(asked, n.number));
        }
    }
    assert(x =~= y);
}

/// Every PR under review is listed, with how far your review is: one that asks
/// for your review by whether it would be the first, each other one that you
/// reviewed by whether it has later commits. No other PR is listed, and one that
/// both searches found is listed as asking alone.
pub proof fn every_pr_under_review_is_listed(data: ReviewsData, out: Vec<ReviewRow>)
    requires
        call_ensures(reviews::build_open_rows, (data,), out),
    ensures
        forall|k: int|
            0 <= k < data.requested.nodes@.len() ==> has_request_row(
                out@,
                #[trigger] data.requested.nodes@[k],
            ),
        forall|k: int|
            0 <= k < data.reviewed.nodes@.len() && !asks(
                data.requested.nodes@,
                (#[trigger] data.reviewed.nodes@[k]).number,
            ) ==> has_settled_row(out@, data.reviewed.nodes@[k]),
        forall|i: int| 0 <= i < out@.len() ==> is_review_row(#[trigger] out@[i], data),
{
    let rows = choose|rows: Seq<ReviewRow>| #[trigger]
        reviews::are_rows_of(rows, data) && reviews::by_state(rows, out@);
    let asked = data.requested.nodes@;
    let known = data.reviewed.nodes@;
    let apart = |n: ReviewPrNode| !reviews::names(asked, n.number);
    let others = reviews::settled(known, asked);
    a_row_is_put_under_its_state(rows, out@);
    assert forall|k: int| 0 <= k < asked.len() implies has_request_row(
        out@,
        #[trigger] asked[k],
    ) by {
        assert(reviews::is_row_of(rows[k], asked[k], true));
        assert(out@.contains(rows[k]));
        let i = choose|i: int| 0 <= i < out@.len() && out@[i] == rows[k];
        assert(tells_request(out@[i], asked[k]));
    }
    assert forall|k: int|
        0 <= k < known.len() && !asks(asked, (#[trigger] known[k]).number) implies has_settled_row(
        out@,
        known[k],
    ) by {
        assert(apart(known[k])) by {
            if reviews::names(asked, known[k].number) {
                let m = choose|m: int|
                    0 <= m < asked.len() && (#[trigger] asked[m]).number == known[k].number;
                assert(asks(asked, known[k].number));
            }
        }
        known.lemma_filter_contains(apart, k);
        let m = choose|m: int| 0 <= m < others.len() && others[m] == known[k];
        let r = asked.len() + m;
        assert(reviews::is_row_of(rows[r], others[r - asked.len()], false));
        new_commits_are_later(known[k]);
        assert(out@.contains(rows[r]));
        let i = choose|i: int| 0 <= i < out@.len() && out@[i] == rows[r];
        assert(tells_settled(out@[i], known[k]));
    }
    assert forall|i: int| 0 <= i < out@.len() implies is_review_row(#[trigger] out@[i], data) by {
        assert(rows.contains(out@[i]));
        let r = choose|r: int| 0 <= r < rows.len() && rows[r] == out@[i];
        if r < asked.len() {
            assert(reviews::is_row_of(rows[r], asked[r], true));
            assert(tells_request(out@[i], data.requested.nodes@[r]));
        } else {
            let m = r - asked.len();
            assert(reviews::is_row_of(rows[r], others[r - asked.len()], false));
            new_commits_are_later(others[m]);
            known.lemma_filter_pred(apart, m);
            assert(others.contains(others[m]));
            known.lemma_filter_contains_rev(apart, others[m]);
            let k = choose|k: int| 0 <= k < known.len() && known[k] == others[m];
            if asks(asked, out@[i].number) {
                assert(reviews::names(asked, others[m].number));
            }
            assert(tells_settled(out@[i], data.reviewed.nodes@[k]));
        }
    }
}

/// How urgent a state is: a first review, another one, an update, nothing.
pub open spec fn urgency(s: ReviewState) -> int {
    match s {
        ReviewState::Awaiting => 4,
        ReviewState::ReReview => 3,
        ReviewState::Updated => 2,
        ReviewState::Reviewed => 1,
    }
}

/// The most urgent PR under review comes first, and of those in one state the one
/// that was updated last.
pub proof fn prs_under_review_are_in_order(data: ReviewsData, out: Vec<ReviewRow>, i: int, j: int)
    requires
        call_ensures(reviews::build_open_rows, (data,), out),
        0 <= i < j < out@.len(),
    ensures
        urgency(out@[i].state) >= urgency(out@[j].state),
        out@[i].state == out@[j].state ==> in_order(
            out@[i].updated_at,
            out@[i].number,
            out@[j].updated_at,
            out@[j].number,
        ),
{
    let rows = choose|rows: Seq<ReviewRow>| #[trigger]
        reviews::are_rows_of(rows, data) && reviews::by_state(rows, out@);
    reviews::the_most_actionable_comes_first(rows, out@, i, j);
    let (a, b, c, d) = choose|
        a: Seq<ReviewRow>,
        b: Seq<ReviewRow>,
        c: Seq<ReviewRow>,
        d: Seq<ReviewRow>,
    |
        {
            &&& #[trigger] ordered(reviews::in_state(rows, ReviewState::Awaiting), a)
            &&& #[trigger] ordered(reviews::in_state(rows, ReviewState::ReReview), b)
            &&& #[trigger] ordered(reviews::in_state(rows, ReviewState::Updated), c)
            &&& #[trigger] ordered(reviews::in_state(rows, ReviewState::Reviewed), d)
            &&& out@ == a + b + c + d
        };
    rows_of_a_state(rows, ReviewState::Awaiting, a);
    rows_of_a_state(rows, ReviewState::ReReview, b);
    rows_of_a_state(rows, ReviewState::Updated, c);
    rows_of_a_state(rows, ReviewState::Reviewed, d);
    if out@[i].state == out@[j].state {
        let (part, at) = match out@[i].state {
            ReviewState::Awaiting => (a, 0int),
            ReviewState::ReReview => (b, a.len() as int),
            ReviewState::Updated => (c, (a.len() + b.len()) as int),
            ReviewState::Reviewed => (d, (a.len() + b.len() + c.len()) as int),
        };
        a_row_stands_in_its_part(a, b, c, d, out@, i);
        a_row_stands_in_its_part(a, b, c, d, out@, j);
        assert(part[i - at] == out@[i] && part[j - at] == out@[j]);
        assert(!above(part[j - at].key(), part[i - at].key()));
    }
}

/// A row stands in the part of its state.
proof fn a_row_stands_in_its_part(
    a: Seq<ReviewRow>,
    b: Seq<ReviewRow>,
    c: Seq<ReviewRow>,
    d: Seq<ReviewRow>,
    out: Seq<ReviewRow>,
    i: int,
)
    requires
        out == a + b + c + d,
        0 <= i < out.len(),
        forall|k: int| 0 <= k < a.len() ==> (#[trigger] a[k]).state == ReviewState::Awaiting,
        forall|k: int| 0 <= k < b.len() ==> (#[trigger] b[k]).state == ReviewState::ReReview,
        forall|k: int| 0 <= k < c.len() ==> (#[trigger] c[k]).state == ReviewState::Updated,
        forall|k: int| 0 <= k < d.len() ==> (#[trigger] d[k]).state == ReviewState::Reviewed,
    ensures
        ({
            let (part, at) = match out[i].state {
                ReviewState::Awaiting => (a, 0int),
                ReviewState::ReReview => (b, a.len() as int),
                ReviewState::Updated => (c, (a.len() + b.len()) as int),
                ReviewState::Reviewed => (d, (a.len() + b.len() + c.len()) as int),
            };
            at <= i < at + part.len() && part[i - at] == out[i]
        }),
{
    if i < a.len() {
        assert(out[i] == a[i]);
    } else if i < a.len() + b.len() {
        assert(out[i] == b[i - a.len()]);
    } else if i < a.len() + b.len() + c.len() {
        assert(out[i] == c[i - a.len() - b.len()]);
    } else {
        assert(out[i] == d[i - a.len() - b.len() - c.len()]);
    }
}

/// A list without drafts holds each row that is no draft, in order, and no other;
/// one without queued PRs holds each that is not in the merge queue.
pub proof fn dropped_rows_leave_the_others(
    rows: Vec<PrRow>,
    undrafted: Vec<PrRow>,
    unqueued: Vec<PrRow>,
    under_review: Vec<ReviewRow>,
    without: Vec<ReviewRow>,
)
    requires
        call_ensures(prs::without_drafts, (rows,), undrafted),
        call_ensures(prs::without_queued, (rows,), unqueued),
        call_ensures(reviews::without_drafts, (under_review,), without),
    ensures
        undrafted@ == rows@.filter(|r: PrRow| !r.is_draft),
        unqueued@ == rows@.filter(|r: PrRow| r.queue is None),
        without@ == under_review@.filter(|r: ReviewRow| !r.is_draft),
{
}

} // verus!
