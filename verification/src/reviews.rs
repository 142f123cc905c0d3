//! The reviews view: the PRs awaiting or under your review, each with how far
//! your review is, and the merged PRs that you reviewed.

use crate::model::{clone_opt, opt_string, MergedNode, MyReview, ReviewPrNode, ReviewsData};
use crate::order::{
    moment_before, order_keeps_the_number, order_shows_the_same, ordered, shown, sort_newest_first,
    DateKey, Dated,
};
use crate::queue::{author_name, author_of};
use crate::render::{plain_cell, pr_cell, Cell, Table};
use crate::status;
use crate::status::ReviewState;
use crate::surface::{colored, dimmed, Style};
use crate::table::{header_view, min, row_view, rows_view, CellText, TableView};
use crate::text::{
    char_text, sorts_before, text_before, text_before_irreflexive, text_before_total,
    text_before_transitive,
};
use std::collections::HashSet;
use vstd::prelude::*;

verus! {

broadcast use vstd::std_specs::hash::group_hash_axioms;

/// An open PR awaiting or under your review.
#[derive(Debug, PartialEq, Eq)]
pub struct ReviewRow {
    pub number: i64,
    pub is_draft: bool,
    pub title: String,
    pub branch: String,
    pub author: String,
    pub url: String,
    pub state: ReviewState,
    pub updated_at: Option<String>,
}

impl Clone for ReviewRow {
    fn clone(&self) -> (r: Self)
        ensures
            r == *self,
    {
        ReviewRow {
            number: self.number,
            is_draft: self.is_draft,
            title: self.title.clone(),
            branch: self.branch.clone(),
            author: self.author.clone(),
            url: self.url.clone(),
            state: self.state,
            updated_at: clone_opt(&self.updated_at),
        }
    }
}

/// A merged PR that you reviewed.
#[derive(Debug, PartialEq, Eq)]
pub struct ReviewedMergedRow {
    pub number: i64,
    pub title: String,
    pub branch: String,
    pub author: String,
    pub url: String,
    pub merged_at: Option<String>,
}

impl Clone for ReviewedMergedRow {
    fn clone(&self) -> (r: Self)
        ensures
            r == *self,
    {
        ReviewedMergedRow {
            number: self.number,
            title: self.title.clone(),
            branch: self.branch.clone(),
            author: self.author.clone(),
            url: self.url.clone(),
            merged_at: clone_opt(&self.merged_at),
        }
    }
}

impl Dated for ReviewRow {
    open spec fn key(&self) -> DateKey {
        (opt_string(self.updated_at), self.number as int)
    }

    fn moment(&self) -> (m: Option<&str>) {
        match &self.updated_at {
            Some(t) => Some(t.as_str()),
            None => None,
        }
    }

    fn id(&self) -> (n: i64) {
        self.number
    }
}

/// What the row of a merged PR that was reviewed holds.
#[verifier::ext_equal]
pub struct ReviewedMergedView {
    pub number: i64,
    pub title: Seq<char>,
    pub branch: Seq<char>,
    pub author: Seq<char>,
    pub url: Seq<char>,
    pub merged_at: Option<Seq<char>>,
}

impl View for ReviewedMergedRow {
    type V = ReviewedMergedView;

    open spec fn view(&self) -> ReviewedMergedView {
        ReviewedMergedView {
            number: self.number,
            title: self.title@,
            branch: self.branch@,
            author: self.author@,
            url: self.url@,
            merged_at: opt_string(self.merged_at),
        }
    }
}

/// What the rows of merged PRs that were reviewed hold, in order.
pub open spec fn held(rows: Seq<ReviewedMergedRow>) -> Seq<ReviewedMergedView> {
    Seq::new(rows.len(), |i: int| rows[i]@)
}

impl Dated for ReviewedMergedRow {
    open spec fn key(&self) -> DateKey {
        (opt_string(self.merged_at), self.number as int)
    }

    fn moment(&self) -> (m: Option<&str>) {
        match &self.merged_at {
            Some(t) => Some(t.as_str()),
            None => None,
        }
    }

    fn id(&self) -> (n: i64) {
        self.number
    }
}

/// The moment of the latest of your reviews.
pub open spec fn latest(reviews: Seq<MyReview>) -> Option<Seq<char>>
    decreases reviews.len(),
{
    if reviews.len() == 0 {
        None
    } else {
        let before = latest(reviews.drop_last());
        let this = opt_string(reviews.last().submitted_at);
        if moment_before(before, this) {
            this
        } else {
            before
        }
    }
}

/// When the last commit of a PR was made.
pub open spec fn committed(node: ReviewPrNode) -> Option<Seq<char>> {
    if node.commits.nodes@.len() == 0 {
        None
    } else {
        opt_string(node.commits.nodes@[0].commit.committed_date)
    }
}

/// Whether a PR has commits that are newer than your last review.
pub open spec fn has_new_commits(node: ReviewPrNode) -> bool {
    latest(node.reviews.nodes@) is Some && moment_before(
        latest(node.reviews.nodes@),
        committed(node),
    )
}

/// How far your review of a PR is. A pending request counts before anything that
/// happened since your review.
pub open spec fn review_state(node: ReviewPrNode, requested: bool) -> ReviewState {
    if requested {
        if node.reviews.nodes@.len() == 0 {
            ReviewState::Awaiting
        } else {
            ReviewState::ReReview
        }
    } else if has_new_commits(node) {
        ReviewState::Updated
    } else {
        ReviewState::Reviewed
    }
}

/// How far your review of a PR is. `requested` says whether a review of yours is
/// pending.
pub fn state_of(node: &ReviewPrNode, requested: bool) -> (s: ReviewState)
    ensures
        s == review_state(*node, requested),
{
    let reviews: &Vec<MyReview> = &node.reviews.nodes;
    if requested {
        return if reviews.len() == 0 {
            ReviewState::Awaiting
        } else {
            ReviewState::ReReview
        };
    }
    let mut last: Option<&str> = None;
    let mut i: usize = 0;
    assert(reviews@.take(0) =~= Seq::empty());
    while i < reviews.len()
        invariant
            i <= reviews@.len(),
            status::opt_text(last) == latest(reviews@.take(i as int)),
        decreases reviews@.len() - i,
    {
        assert(reviews@.take(i + 1).drop_last() =~= reviews@.take(i as int));
        assert(reviews@.take(i + 1).last() == reviews@[i as int]);
        match &reviews[i].submitted_at {
            Some(t) => {
                let newer: bool = match last {
                    Some(l) => sorts_before(l, t.as_str()),
                    None => true,
                };
                if newer {
                    last = Some(t.as_str());
                }
            },
            None => {},
        }
        i += 1;
    }
    assert(reviews@.take(reviews@.len() as int) =~= reviews@);
    if node.commits.nodes.len() > 0 {
        match (&node.commits.nodes[0].commit.committed_date, last) {
            (Some(c), Some(l)) => {
                if sorts_before(l, c.as_str()) {
                    return ReviewState::Updated;
                }
            },
            _ => {},
        }
    }
    ReviewState::Reviewed
}

/// Whether one of the reviews was submitted at `t`.
pub open spec fn submitted(reviews: Seq<MyReview>, t: Seq<char>) -> bool {
    exists|i: int|
        0 <= i < reviews.len() && (#[trigger] reviews[i]).submitted_at is Some
            && reviews[i].submitted_at->0@ == t
}

/// The latest of your reviews is one of them, and none was submitted later; there
/// is none just where none was submitted.
pub proof fn no_review_is_later_than_the_latest(reviews: Seq<MyReview>)
    ensures
        match latest(reviews) {
            Some(t) => submitted(reviews, t) && forall|u: Seq<char>| #[trigger]
                submitted(reviews, u) ==> !text_before(t, u),
            None => forall|u: Seq<char>| !#[trigger] submitted(reviews, u),
        },
    decreases reviews.len(),
{
    if reviews.len() > 0 {
        let less = reviews.drop_last();
        let n = reviews.len() - 1;
        no_review_is_later_than_the_latest(less);
        assert forall|u: Seq<char>| #[trigger] submitted(reviews, u) implies submitted(less, u)
            || opt_string(reviews[n].submitted_at) == Some(u) by {
            let i = choose|i: int|
                0 <= i < reviews.len() && (#[trigger] reviews[i]).submitted_at is Some
                    && reviews[i].submitted_at->0@ == u;
            if i < n {
                assert(less[i] == reviews[i]);
            }
        }
        match latest(reviews) {
            Some(t) => {
                if latest(reviews) == latest(less) {
                    let i = choose|i: int|
                        0 <= i < less.len() && (#[trigger] less[i]).submitted_at is Some
                            && less[i].submitted_at->0@ == t;
                    assert(reviews[i] == less[i]);
                } else {
                    assert(reviews[n].submitted_at->0@ == t);
                }
                assert forall|u: Seq<char>| #[trigger] submitted(reviews, u) implies !text_before(
                    t,
                    u,
                ) by {
                    text_before_irreflexive(t);
                    if submitted(less, u) && latest(reviews) != latest(less) && text_before(t, u) {
                        match latest(less) {
                            Some(b) => {
                                text_before_transitive(b, t, u);
                            },
                            None => {},
                        }
                    }
                }
            },
            None => {},
        }
    }
}

/// Whether you submitted a review of a PR and its last commit is later than every
/// one of your reviews.
pub open spec fn later_than_every_review(node: ReviewPrNode) -> bool {
    &&& node.commits.nodes@.len() > 0
    &&& node.commits.nodes@[0].commit.committed_date is Some
    &&& exists|t: Seq<char>| #[trigger] submitted(node.reviews.nodes@, t)
    &&& forall|t: Seq<char>| #[trigger]
        submitted(node.reviews.nodes@, t) ==> text_before(
            t,
            node.commits.nodes@[0].commit.committed_date->0@,
        )
}

/// New commits are those after every review.
pub(crate) proof fn new_commits_are_later(node: ReviewPrNode)
    ensures
        has_new_commits(node) <==> later_than_every_review(node),
{
    let reviews = node.reviews.nodes@;
    no_review_is_later_than_the_latest(reviews);
    match (latest(reviews), committed(node)) {
        (Some(l), Some(d)) => {
            assert forall|t: Seq<char>| #[trigger] submitted(reviews, t) && text_before(
                l,
                d,
            ) implies text_before(t, d) by {
                if text_before(t, l) {
                    text_before_transitive(t, l, d);
                } else {
                    text_before_total(l, t);
                }
            }
        },
        _ => {},
    }
}

/// Without a pending request a PR counts as updated if and only if you submitted
/// a review and its last commit is later than every one of your reviews; else it
/// counts as reviewed.
pub proof fn an_update_is_later_than_every_review(node: ReviewPrNode, s: ReviewState)
    requires
        call_ensures(state_of, (&node, false), s),
    ensures
        s == ReviewState::Updated <==> later_than_every_review(node),
        s == ReviewState::Updated || s == ReviewState::Reviewed,
{
    new_commits_are_later(node);
}

/// With a pending request a PR awaits your first review if and only if you gave
/// none; else it asks for another one.
pub proof fn a_request_asks_for_the_next_review(node: ReviewPrNode, s: ReviewState)
    requires
        call_ensures(state_of, (&node, true), s),
    ensures
        s == ReviewState::Awaiting <==> node.reviews.nodes@.len() == 0,
        s == ReviewState::ReReview <==> node.reviews.nodes@.len() > 0,
{
}

/// The order of your reviews does not matter: two PRs with the same last commit
/// that you reviewed at the same moments are in the same state.
pub proof fn the_order_of_reviews_does_not_matter(
    a: ReviewPrNode,
    b: ReviewPrNode,
    x: ReviewState,
    y: ReviewState,
)
    requires
        call_ensures(state_of, (&a, false), x),
        call_ensures(state_of, (&b, false), y),
        a.commits == b.commits,
        forall|t: Seq<char>| #[trigger]
            submitted(a.reviews.nodes@, t) <==> submitted(b.reviews.nodes@, t),
    ensures
        x == y,
{
    an_update_is_later_than_every_review(a, x);
    an_update_is_later_than_every_review(b, y);
    if x == ReviewState::Updated {
        let t = choose|t: Seq<char>| #[trigger] submitted(a.reviews.nodes@, t);
        assert(submitted(b.reviews.nodes@, t));
        assert forall|u: Seq<char>| #[trigger] submitted(b.reviews.nodes@, u) implies text_before(
            u,
            b.commits.nodes@[0].commit.committed_date->0@,
        ) by {
            assert(submitted(a.reviews.nodes@, u));
        }
        assert(y == ReviewState::Updated);
    }
    if y == ReviewState::Updated {
        let t = choose|t: Seq<char>| #[trigger] submitted(b.reviews.nodes@, t);
        assert(submitted(a.reviews.nodes@, t));
        assert forall|u: Seq<char>| #[trigger] submitted(a.reviews.nodes@, u) implies text_before(
            u,
            a.commits.nodes@[0].commit.committed_date->0@,
        ) by {
            assert(submitted(b.reviews.nodes@, u));
        }
        assert(x == ReviewState::Updated);
    }
}

/// Whether a row shows what a PR node says.
pub open spec fn is_row_of(row: ReviewRow, node: ReviewPrNode, requested: bool) -> bool {
    &&& row.number == node.number
    &&& row.is_draft == node.is_draft
    &&& row.title == node.title
    &&& row.branch@ == (match node.head_ref_name {
        Some(b) => b@,
        None => Seq::empty(),
    })
    &&& row.author@ == author_name(node.author)
    &&& row.url == node.url
    &&& row.state == review_state(node, requested)
    &&& row.updated_at == node.updated_at
}

/// The row of a PR node.
fn build_row(node: ReviewPrNode, requested: bool) -> (row: ReviewRow)
    ensures
        is_row_of(row, node, requested),
{
    let state: ReviewState = state_of(&node, requested);
    let branch: String = match node.head_ref_name {
        Some(b) => b,
        None => String::new(),
    };
    assert(node.head_ref_name is None ==> branch@ =~= Seq::empty());
    ReviewRow {
        number: node.number,
        is_draft: node.is_draft,
        title: node.title,
        branch,
        author: author_of(node.author),
        url: node.url,
        state,
        updated_at: node.updated_at,
    }
}

/// Whether one of the nodes is of PR `n`.
pub open spec fn names(nodes: Seq<ReviewPrNode>, n: i64) -> bool {
    exists|i: int| 0 <= i < nodes.len() && (#[trigger] nodes[i]).number == n
}

/// The PRs you reviewed that do not ask for another review.
pub open spec fn settled(reviewed: Seq<ReviewPrNode>, requested: Seq<ReviewPrNode>) -> Seq<
    ReviewPrNode,
> {
    reviewed.filter(|n: ReviewPrNode| !names(requested, n.number))
}

/// Whether the rows are those of both searches, each PR once: first those that
/// ask for a review, then the others that you reviewed.
pub open spec fn are_rows_of(rows: Seq<ReviewRow>, data: ReviewsData) -> bool {
    let requested = data.requested.nodes@;
    let others = settled(data.reviewed.nodes@, requested);
    &&& rows.len() == requested.len() + others.len()
    &&& forall|i: int|
        0 <= i < requested.len() ==> is_row_of(#[trigger] rows[i], requested[i], true)
    &&& forall|i: int|
        requested.len() <= i < rows.len() ==> is_row_of(
            #[trigger] rows[i],
            others[i - requested.len()],
            false,
        )
}

/// The rows in one state, in order.
pub open spec fn in_state(rows: Seq<ReviewRow>, state: ReviewState) -> Seq<ReviewRow> {
    rows.filter(|r: ReviewRow| r.state == state)
}

/// Whether `out` lists the rows by state, the most actionable first, and those of
/// one state newest first.
pub open spec fn by_state(rows: Seq<ReviewRow>, out: Seq<ReviewRow>) -> bool {
    exists|a: Seq<ReviewRow>, b: Seq<ReviewRow>, c: Seq<ReviewRow>, d: Seq<ReviewRow>|
        {
            &&& #[trigger] ordered(in_state(rows, ReviewState::Awaiting), a)
            &&& #[trigger] ordered(in_state(rows, ReviewState::ReReview), b)
            &&& #[trigger] ordered(in_state(rows, ReviewState::Updated), c)
            &&& #[trigger] ordered(in_state(rows, ReviewState::Reviewed), d)
            &&& out == a + b + c + d
        }
}

/// The rows of both searches, each PR once.
fn rows_of(data: ReviewsData) -> (rows: Vec<ReviewRow>)
    ensures
        are_rows_of(rows@, data),
{
    let ghost asked = data.requested.nodes@;
    let ghost known = data.reviewed.nodes@;
    let mut rest: Vec<ReviewPrNode> = data.requested.nodes;
    let mut rows: Vec<ReviewRow> = Vec::new();
    let mut numbers: HashSet<i64> = HashSet::new();
    assert(asked.skip(0) =~= asked);
    while rest.len() > 0
        invariant
            rows@.len() + rest@.len() == asked.len(),
            rest@ == asked.skip(rows@.len() as int),
            forall|i: int| 0 <= i < rows@.len() ==> is_row_of(#[trigger] rows@[i], asked[i], true),
            forall|n: i64| #[trigger]
                numbers@.contains(n) <==> names(asked.take(rows@.len() as int), n),
        decreases rest@.len(),
    {
        let ghost k = rows@.len() as int;
        let ghost before = numbers@;
        let node: ReviewPrNode = rest.remove(0);
        assert(node == asked[k]);
        assert(rest@ =~= asked.skip(k + 1));
        numbers.insert(node.number);
        assert forall|n: i64| #[trigger] numbers@.contains(n) <==> names(asked.take(k + 1), n) by {
            let small = asked.take(k);
            let large = asked.take(k + 1);
            assert(large[k] == node);
            if names(small, n) {
                let j = choose|j: int| 0 <= j < small.len() && (#[trigger] small[j]).number == n;
                assert(large[j].number == n);
            }
            if names(large, n) && n != node.number {
                let j = choose|j: int| 0 <= j < large.len() && (#[trigger] large[j]).number == n;
                assert(small[j].number == n);
            }
            if n != node.number {
                assert(numbers@.contains(n) <==> before.contains(n));
            }
        }
        rows.push(build_row(node, true));
    }
    assert(asked.take(asked.len() as int) =~= asked);
    let ghost head = rows@;
    let mut others: Vec<ReviewPrNode> = data.reviewed.nodes;
    let ghost mut n: int = 0;
    proof {
        assert(known.skip(0) =~= known);
        assert(known.take(0) =~= Seq::empty());
        reveal(Seq::filter);
    }
    while others.len() > 0
        invariant
            0 <= n <= known.len(),
            others@ == known.skip(n),
            forall|m: i64| #[trigger] numbers@.contains(m) <==> names(asked, m),
            head.len() == asked.len(),
            forall|i: int| 0 <= i < head.len() ==> is_row_of(#[trigger] head[i], asked[i], true),
            rows@.len() == asked.len() + settled(known.take(n), asked).len(),
            forall|i: int| 0 <= i < head.len() ==> #[trigger] rows@[i] == head[i],
            forall|i: int|
                asked.len() <= i < rows@.len() ==> is_row_of(
                    #[trigger] rows@[i],
                    settled(known.take(n), asked)[i - asked.len()],
                    false,
                ),
        decreases others@.len(),
    {
        let node: ReviewPrNode = others.remove(0);
        assert(node == known[n]);
        assert(others@ =~= known.skip(n + 1));
        proof {
            assert(known.take(n + 1).drop_last() =~= known.take(n));
            assert(known.take(n + 1).last() == node);
            reveal(Seq::filter);
        }
        if !numbers.contains(&node.number) {
            rows.push(build_row(node, false));
        }
        proof {
            n = n + 1;
        }
    }
    assert(known.take(known.len() as int) =~= known);
    rows
}

/// The rows in one state, newest first.
fn pick(rows: &Vec<ReviewRow>, state: ReviewState) -> (out: Vec<ReviewRow>)
    ensures
        ordered(in_state(rows@, state), out@),
{
    let mut out: Vec<ReviewRow> = Vec::new();
    let mut i: usize = 0;
    proof {
        assert(rows@.take(0) =~= Seq::empty());
        reveal(Seq::filter);
    }
    while i < rows.len()
        invariant
            i <= rows@.len(),
            out@ == in_state(rows@.take(i as int), state),
        decreases rows@.len() - i,
    {
        proof {
            assert(rows@.take(i + 1).drop_last() =~= rows@.take(i as int));
            assert(rows@.take(i + 1).last() == rows@[i as int]);
            reveal(Seq::filter);
        }
        if rows[i].state == state {
            out.push(rows[i].clone());
        }
        i += 1;
    }
    assert(rows@.take(rows@.len() as int) =~= rows@);
    sort_newest_first(out)
}

/// Builds the rows of the PRs to review: a PR that both searches found is listed
/// once, and the most actionable state comes first.
pub fn build_open_rows(data: ReviewsData) -> (out: Vec<ReviewRow>)
    ensures
        exists|rows: Seq<ReviewRow>| #[trigger] are_rows_of(rows, data) && by_state(rows, out@),
{
    let rows: Vec<ReviewRow> = rows_of(data);
    let a: Vec<ReviewRow> = pick(&rows, ReviewState::Awaiting);
    let mut b: Vec<ReviewRow> = pick(&rows, ReviewState::ReReview);
    let mut c: Vec<ReviewRow> = pick(&rows, ReviewState::Updated);
    let mut d: Vec<ReviewRow> = pick(&rows, ReviewState::Reviewed);
    let ghost (x, y, z) = (b@, c@, d@);
    let mut out: Vec<ReviewRow> = a;
    let ghost w = out@;
    out.append(&mut b);
    out.append(&mut c);
    out.append(&mut d);
    proof {
        assert(ordered(in_state(rows@, ReviewState::Awaiting), w));
        assert(ordered(in_state(rows@, ReviewState::ReReview), x));
        assert(ordered(in_state(rows@, ReviewState::Updated), y));
        assert(ordered(in_state(rows@, ReviewState::Reviewed), z));
        assert(out@ =~= w + x + y + z);
    }
    out
}

/// The place of a state in the order of the view.
pub open spec fn rank(s: ReviewState) -> int {
    match s {
        ReviewState::Awaiting => 0,
        ReviewState::ReReview => 1,
        ReviewState::Updated => 2,
        ReviewState::Reviewed => 3,
    }
}

/// The rows of a list put in order from those of one state are of that state.
proof fn sorting_keeps_the_state(rows: Seq<ReviewRow>, state: ReviewState, out: Seq<ReviewRow>)
    requires
        ordered(in_state(rows, state), out),
    ensures
        forall|i: int| 0 <= i < out.len() ==> (#[trigger] out[i]).state == state,
{
    broadcast use vstd::seq_lib::group_to_multiset_ensures;

    let kept = in_state(rows, state);
    assert forall|i: int| 0 <= i < out.len() implies (#[trigger] out[i]).state == state by {
        assert(out.contains(out[i]));
        assert(out.to_multiset().count(out[i]) > 0);
        assert(kept.to_multiset().count(out[i]) > 0);
        assert(kept.contains(out[i]));
        let j = choose|j: int| 0 <= j < kept.len() && kept[j] == out[i];
        rows.lemma_filter_pred(|r: ReviewRow| r.state == state, j);
    }
}

/// The most actionable comes first: no PR stands above one of an earlier state.
pub proof fn the_most_actionable_comes_first(
    rows: Seq<ReviewRow>,
    out: Seq<ReviewRow>,
    i: int,
    j: int,
)
    requires
        by_state(rows, out),
        0 <= i < j < out.len(),
    ensures
        rank(out[i].state) <= rank(out[j].state),
{
    let (a, b, c, d) = choose|
        a: Seq<ReviewRow>,
        b: Seq<ReviewRow>,
        c: Seq<ReviewRow>,
        d: Seq<ReviewRow>,
    |
        {
            &&& #[trigger] ordered(in_state(rows, ReviewState::Awaiting), a)
            &&& #[trigger] ordered(in_state(rows, ReviewState::ReReview), b)
            &&& #[trigger] ordered(in_state(rows, ReviewState::Updated), c)
            &&& #[trigger] ordered(in_state(rows, ReviewState::Reviewed), d)
            &&& out == a + b + c + d
        };
    sorting_keeps_the_state(rows, ReviewState::Awaiting, a);
    sorting_keeps_the_state(rows, ReviewState::ReReview, b);
    sorting_keeps_the_state(rows, ReviewState::Updated, c);
    sorting_keeps_the_state(rows, ReviewState::Reviewed, d);
}

/// A PR that asks for your review is never shown as reviewed, though you reviewed
/// it before: of the other PRs none is one that asks.
pub proof fn a_request_is_never_settled(
    reviewed: Seq<ReviewPrNode>,
    requested: Seq<ReviewPrNode>,
    n: i64,
)
    requires
        names(requested, n),
    ensures
        !names(settled(reviewed, requested), n),
{
    let others = settled(reviewed, requested);
    if names(others, n) {
        let i = choose|i: int| 0 <= i < others.len() && (#[trigger] others[i]).number == n;
        reviewed.lemma_filter_pred(|m: ReviewPrNode| !names(requested, m.number), i);
    }
}

/// The rows that are no drafts, in order.
pub open spec fn undrafted(rows: Seq<ReviewRow>) -> Seq<ReviewRow> {
    rows.filter(|r: ReviewRow| !r.is_draft)
}

/// Drops drafts.
pub fn without_drafts(rows: Vec<ReviewRow>) -> (out: Vec<ReviewRow>)
    ensures
        out@ == undrafted(rows@),
{
    let ghost given = rows@;
    let mut rest: Vec<ReviewRow> = rows;
    let mut out: Vec<ReviewRow> = Vec::new();
    let ghost mut n: int = 0;
    proof {
        assert(given.skip(0) =~= given);
        assert(given.take(0) =~= Seq::empty());
        reveal(Seq::filter);
    }
    while rest.len() > 0
        invariant
            0 <= n <= given.len(),
            rest@ == given.skip(n),
            out@ == undrafted(given.take(n)),
        decreases rest@.len(),
    {
        let row: ReviewRow = rest.remove(0);
        assert(row == given[n]);
        assert(rest@ =~= given.skip(n + 1));
        proof {
            assert(given.take(n + 1).drop_last() =~= given.take(n));
            assert(given.take(n + 1).last() == row);
            reveal(Seq::filter);
        }
        if !row.is_draft {
            out.push(row);
        }
        proof {
            n = n + 1;
        }
    }
    assert(given.take(given.len() as int) =~= given);
    out
}

/// Whether a row shows what a merged PR node says.
pub open spec fn is_merged_row_of(row: ReviewedMergedRow, node: MergedNode) -> bool {
    &&& row.number == node.number
    &&& row.title == node.title
    &&& row.branch@ == (match node.head_ref_name {
        Some(b) => b@,
        None => Seq::empty(),
    })
    &&& row.author@ == author_name(node.author)
    &&& row.url == node.url
    &&& row.merged_at == node.merged_at
}

/// Whether the rows are those of the merged PR nodes, one for one.
pub open spec fn are_merged_rows_of(rows: Seq<ReviewedMergedRow>, nodes: Seq<MergedNode>) -> bool {
    &&& rows.len() == nodes.len()
    &&& forall|i: int| 0 <= i < rows.len() ==> is_merged_row_of(#[trigger] rows[i], nodes[i])
}

/// Whether `out` is the newest `limit` of the rows.
pub open spec fn newest_of(
    rows: Seq<ReviewedMergedRow>,
    limit: int,
    out: Seq<ReviewedMergedRow>,
) -> bool {
    exists|all: Seq<ReviewedMergedRow>| #[trigger]
        ordered(rows, all) && out == all.take(min(limit, all.len() as int))
}

/// Whether `out` lists the newest `limit` of the nodes.
pub open spec fn is_listing(
    nodes: Seq<MergedNode>,
    limit: int,
    out: Seq<ReviewedMergedRow>,
) -> bool {
    exists|rows: Seq<ReviewedMergedRow>| #[trigger]
        are_merged_rows_of(rows, nodes) && newest_of(rows, limit, out)
}

/// A larger limit only adds older rows at the end: the rows for a limit are the
/// first ones for any larger limit. A limit of none lists none.
pub proof fn a_smaller_limit_lists_the_first_rows(
    nodes: Seq<MergedNode>,
    few: int,
    many: int,
    a: Seq<ReviewedMergedRow>,
    b: Seq<ReviewedMergedRow>,
)
    requires
        0 <= few <= many,
        is_listing(nodes, few, a),
        is_listing(nodes, many, b),
    ensures
        a.len() == min(few, nodes.len() as int),
        b.len() == min(many, nodes.len() as int),
        held(a) == held(b).take(a.len() as int),
{
    let ra = choose|rows: Seq<ReviewedMergedRow>| #[trigger]
        are_merged_rows_of(rows, nodes) && newest_of(rows, few, a);
    let rb = choose|rows: Seq<ReviewedMergedRow>| #[trigger]
        are_merged_rows_of(rows, nodes) && newest_of(rows, many, b);
    let all_a = choose|all: Seq<ReviewedMergedRow>| #[trigger]
        ordered(ra, all) && a == all.take(min(few, all.len() as int));
    let all_b = choose|all: Seq<ReviewedMergedRow>| #[trigger]
        ordered(rb, all) && b == all.take(min(many, all.len() as int));
    let show = |r: ReviewedMergedRow| r@;
    let key_of = |v: ReviewedMergedView| (v.merged_at, v.number as int);
    assert forall|i: int| 0 <= i < ra.len() implies show(#[trigger] ra[i]) == show(rb[i]) by {
        assert(is_merged_row_of(ra[i], nodes[i]));
        assert(is_merged_row_of(rb[i], nodes[i]));
    }
    assert(shown(ra, show) =~= shown(rb, show));
    order_shows_the_same(ra, rb, all_a, all_b, show, key_of);
    order_keeps_the_number(ra, all_a);
    order_keeps_the_number(rb, all_b);
    assert forall|i: int| 0 <= i < a.len() implies #[trigger] held(a)[i] == held(b)[i] by {
        assert(shown(all_a, show)[i] == show(all_a[i]));
        assert(shown(all_b, show)[i] == show(all_b[i]));
    }
    assert(held(a) =~= held(b).take(a.len() as int));
}

/// Builds the rows of the merged PRs that you reviewed, most recent first, capped
/// at `limit`.
pub fn build_merged_rows(nodes: Vec<MergedNode>, limit: usize) -> (out: Vec<ReviewedMergedRow>)
    ensures
        is_listing(nodes@, limit as int, out@),
{
    let ghost given = nodes@;
    let mut rest: Vec<MergedNode> = nodes;
    let mut rows: Vec<ReviewedMergedRow> = Vec::new();
    assert(given.skip(0) =~= given);
    while rest.len() > 0
        invariant
            rows@.len() + rest@.len() == given.len(),
            rest@ == given.skip(rows@.len() as int),
            forall|i: int|
                0 <= i < rows@.len() ==> is_merged_row_of(#[trigger] rows@[i], given[i]),
        decreases rest@.len(),
    {
        let ghost n = rows@.len() as int;
        let node: MergedNode = rest.remove(0);
        assert(node == given[n]);
        assert(rest@ =~= given.skip(n + 1));
        let branch: String = match node.head_ref_name {
            Some(b) => b,
            None => String::new(),
        };
        assert(node.head_ref_name is None ==> branch@ =~= Seq::empty());
        rows.push(
            ReviewedMergedRow {
                number: node.number,
                title: node.title,
                branch,
                author: author_of(node.author),
                url: node.url,
                merged_at: node.merged_at,
            },
        );
    }
    let ghost built = rows@;
    assert(are_merged_rows_of(built, given));
    let mut out: Vec<ReviewedMergedRow> = sort_newest_first(rows);
    let ghost all = out@;
    if limit < out.len() {
        out.truncate(limit);
        assert(out@ =~= all.take(limit as int));
    } else {
        assert(out@ =~= all.take(all.len() as int));
    }
    assert(ordered(built, all));
    assert(newest_of(built, limit as int, out@));
    out
}

/// The cells of a PR to review.
pub open spec fn open_cells(r: ReviewRow, ascii: bool, show_branch: bool, age: Seq<char>) -> Seq<
    CellText,
> {
    seq![
        plain_cell(" "@),
        CellText {
            text: seq![status::review_glyph(r.state, ascii)],
            style: colored(status::review_style(r.state).1),
        },
        pr_cell(
            r.number as int,
            r.url@,
            if r.is_draft {
                dimmed()
            } else {
                colored(status::BLUE)
            },
        ),
        plain_cell(r.title@),
    ] + (if show_branch {
        seq![CellText { text: r.branch@, style: dimmed() }]
    } else {
        Seq::empty()
    }) + seq![
        CellText { text: r.author@, style: dimmed() },
        CellText { text: age, style: dimmed() },
    ]
}

/// The cells of a merged PR that was reviewed.
pub open spec fn merged_cells(r: ReviewedMergedRow, show_branch: bool, age: Seq<char>) -> Seq<
    CellText,
> {
    seq![
        plain_cell(" "@),
        plain_cell(" "@),
        pr_cell(r.number as int, r.url@, colored(status::BLUE)),
        plain_cell(r.title@),
    ] + (if show_branch {
        seq![CellText { text: r.branch@, style: dimmed() }]
    } else {
        Seq::empty()
    }) + seq![
        CellText { text: r.author@, style: dimmed() },
        CellText { text: age, style: dimmed() },
    ]
}

/// The header of a table of the view, up to the age of its rows.
pub open spec fn header(show_branch: bool, age: Seq<char>) -> Seq<Seq<char>> {
    seq![""@, ""@, "PR"@, "TITLE"@] + (if show_branch {
        seq!["BRANCH"@]
    } else {
        Seq::empty()
    }) + seq!["AUTHOR"@, age]
}

/// The header of a table of the view.
fn build_header(show_branch: bool, age: &'static str) -> (head: Vec<&'static str>)
    ensures
        header_view(head@) == header(show_branch, age@),
        head@.len() <= 7,
{
    let mut head: Vec<&'static str> = Vec::new();
    head.push("");
    head.push("");
    head.push("PR");
    head.push("TITLE");
    if show_branch {
        head.push("BRANCH");
    }
    head.push("AUTHOR");
    head.push(age);
    assert(header_view(head@) =~= header(show_branch, age@));
    head
}

/// The table of the PRs to review.
pub open spec fn open_table(
    rows: Seq<ReviewRow>,
    ascii: bool,
    show_branch: bool,
    ages: Seq<String>,
) -> TableView {
    TableView {
        header: header(show_branch, "UPDATED"@),
        rows: Seq::new(rows.len(), |i: int| open_cells(rows[i], ascii, show_branch, ages[i]@)),
    }
}

/// The table of the merged PRs that were reviewed.
pub open spec fn merged_table(
    rows: Seq<ReviewedMergedRow>,
    show_branch: bool,
    ages: Seq<String>,
) -> TableView {
    TableView {
        header: header(show_branch, "MERGED"@),
        rows: Seq::new(rows.len(), |i: int| merged_cells(rows[i], show_branch, ages[i]@)),
    }
}

/// The cells of one PR to review.
fn build_open_cells(r: &ReviewRow, ascii: bool, show_branch: bool, age: &str) -> (row: Vec<Cell>)
    ensures
        row_view(row@) == open_cells(*r, ascii, show_branch, age@),
{
    let glyph: String = char_text(status::review_glyph(r.state, ascii));
    // A draft's number is dimmed.
    let pr_style: Style = if r.is_draft {
        Style::new().faint()
    } else {
        status::fg(status::BLUE)
    };
    let mut row: Vec<Cell> = Vec::new();
    row.push(Cell::plain(" "));
    row.push(Cell::styled(glyph.as_str(), status::fg(status::review_style(r.state).1)));
    row.push(Cell::pr(r.number, r.url.as_str(), pr_style));
    row.push(Cell::plain(r.title.as_str()));
    if show_branch {
        row.push(Cell::styled(r.branch.as_str(), Style::new().faint()));
    }
    row.push(Cell::styled(r.author.as_str(), Style::new().faint()));
    row.push(Cell::styled(age, Style::new().faint()));
    assert(row_view(row@) =~= open_cells(*r, ascii, show_branch, age@));
    row
}

/// The cells of one merged PR that was reviewed.
fn build_merged_cells(r: &ReviewedMergedRow, show_branch: bool, age: &str) -> (row: Vec<Cell>)
    ensures
        row_view(row@) == merged_cells(*r, show_branch, age@),
{
    let mut row: Vec<Cell> = Vec::new();
    row.push(Cell::plain(" "));
    row.push(Cell::plain(" "));
    row.push(Cell::pr(r.number, r.url.as_str(), status::fg(status::BLUE)));
    row.push(Cell::plain(r.title.as_str()));
    if show_branch {
        row.push(Cell::styled(r.branch.as_str(), Style::new().faint()));
    }
    row.push(Cell::styled(r.author.as_str(), Style::new().faint()));
    row.push(Cell::styled(age, Style::new().faint()));
    assert(row_view(row@) =~= merged_cells(*r, show_branch, age@));
    row
}

/// The table of the PRs to review, the branch shown on request. `ages` says how
/// long ago each was updated.
pub fn open_to_table(rows: &[ReviewRow], ascii: bool, show_branch: bool, ages: &[String]) -> (table:
    Table)
    requires
        ages@.len() == rows@.len(),
    ensures
        table@ == open_table(rows@, ascii, show_branch, ages@),
        table.header@.len() <= 7,
        table.rows@.len() == rows@.len(),
{
    let mut out: Vec<Vec<Cell>> = Vec::new();
    let mut i: usize = 0;
    while i < rows.len()
        invariant
            i <= rows@.len() == ages@.len(),
            out@.len() == i,
            forall|j: int|
                0 <= j < i ==> row_view((#[trigger] out@[j])@) == open_cells(
                    rows@[j],
                    ascii,
                    show_branch,
                    ages@[j]@,
                ),
        decreases rows@.len() - i,
    {
        out.push(build_open_cells(&rows[i], ascii, show_branch, ages[i].as_str()));
        i += 1;
    }
    let head: Vec<&'static str> = build_header(show_branch, "UPDATED");
    assert(rows_view(out@) =~= open_table(rows@, ascii, show_branch, ages@).rows);
    Table { header: head, rows: out }
}

/// The table of the merged PRs that were reviewed, the branch shown on request.
/// `ages` says how long ago each merged.
pub fn merged_to_table(rows: &[ReviewedMergedRow], show_branch: bool, ages: &[String]) -> (table:
    Table)
    requires
        ages@.len() == rows@.len(),
    ensures
        table@ == merged_table(rows@, show_branch, ages@),
        table.header@.len() <= 7,
        table.rows@.len() == rows@.len(),
{
    let mut out: Vec<Vec<Cell>> = Vec::new();
    let mut i: usize = 0;
    while i < rows.len()
        invariant
            i <= rows@.len() == ages@.len(),
            out@.len() == i,
            forall|j: int|
                0 <= j < i ==> row_view((#[trigger] out@[j])@) == merged_cells(
                    rows@[j],
                    show_branch,
                    ages@[j]@,
                ),
        decreases rows@.len() - i,
    {
        out.push(build_merged_cells(&rows[i], show_branch, ages[i].as_str()));
        i += 1;
    }
    let head: Vec<&'static str> = build_header(show_branch, "MERGED");
    assert(rows_view(out@) =~= merged_table(rows@, show_branch, ages@).rows);
    Table { header: head, rows: out }
}

} // verus!
