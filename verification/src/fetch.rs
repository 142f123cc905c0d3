//! A refresh: what has to be fetched for the views that are wanted, and how the
//! sections are made of what came back.

use crate::cli::ViewKind;
use crate::commits::{CommitStats, ReleaseMap, ReleaseRef};
use crate::list_laws::{a_row_tells_of_its_pr, has_pr_row, order_keeps_the_rows, tells_pr};
use crate::merged;
use crate::model::{MergedNode, PrNode, QueueEntryNode, ReviewsData};
use crate::order::ordered;
use crate::prs;
use crate::queue;
use crate::queue::QueueRow;
use crate::reviews;
use crate::reviews::{ReviewRow, ReviewedMergedRow};
use crate::sections::Sections;
use std::collections::HashMap;
use vstd::prelude::*;

verus! {

broadcast use vstd::std_specs::hash::group_hash_axioms;

/// Which sections of the view of your own PRs are switched on.
#[derive(Copy, Clone, Debug, PartialEq, Eq, Structural)]
pub struct Shows {
    pub mine: bool,
    pub queue: bool,
    pub merged: bool,
    pub shipments: bool,
}

/// What a refresh has to fetch.
#[derive(Copy, Clone, Debug, PartialEq, Eq, Structural)]
pub struct FetchPlan {
    /// The releases: the shipments count their commits, and the merged PRs say
    /// which of them shipped them.
    pub releases: bool,
    pub merged: bool,
    pub queue: bool,
    pub mine: bool,
    pub shipments: bool,
    pub reviews: bool,
}

/// Which views are wanted: both while watching, so that switching is instant; a
/// single frame shows one.
#[verifier::allow_in_spec]
pub fn wanted(watching: bool, view: ViewKind) -> (bool, bool)
    returns
        (watching || view == ViewKind::Mine, watching || view == ViewKind::Reviews),
{
    (watching || view == ViewKind::Mine, watching || view == ViewKind::Reviews)
}

/// What has to be fetched for the views that are wanted.
#[verifier::allow_in_spec]
pub fn fetch_plan(shows: Shows, want_mine: bool, want_reviews: bool) -> FetchPlan
    returns
        (FetchPlan {
            releases: want_mine && (shows.shipments || shows.merged),
            merged: want_mine && shows.merged,
            queue: want_mine && shows.queue,
            mine: want_mine && shows.mine,
            shipments: want_mine && shows.shipments,
            reviews: want_reviews,
        }),
{
    FetchPlan {
        releases: want_mine && (shows.shipments || shows.merged),
        merged: want_mine && shows.merged,
        queue: want_mine && shows.queue,
        mine: want_mine && shows.mine,
        shipments: want_mine && shows.shipments,
        reviews: want_reviews,
    }
}

/// What came back. The releases are `None` where they could not be read, which
/// is no failure of the refresh; what was not asked for is empty.
pub struct Fetched {
    /// The login of the viewer.
    pub me: String,
    pub releases: Option<(CommitStats, ReleaseMap)>,
    pub merged: Vec<MergedNode>,
    pub queue: Vec<QueueEntryNode>,
    pub queue_next_eta: Option<i64>,
    pub mine: Vec<PrNode>,
    pub reviews: ReviewsData,
    pub reviewed_merged: Vec<MergedNode>,
}

impl Fetched {
    /// Whether the checks of every PR and queue entry can be totalled.
    pub open spec fn countable(self) -> bool {
        &&& forall|i: int| 0 <= i < self.mine@.len() ==> (#[trigger] self.mine@[i]).countable()
        &&& forall|i: int| 0 <= i < self.queue@.len() ==> (#[trigger] self.queue@[i]).countable()
    }
}

/// How a refresh is shown: whether the merge queue has a section of its own,
/// whether drafts are hidden, and how many merged PRs are listed.
#[derive(Copy, Clone, Debug, PartialEq, Eq, Structural)]
pub struct Taste {
    pub show_queue: bool,
    pub no_draft: bool,
    pub merged_limit: usize,
}

/// The release that shipped each PR, as far as it is known.
pub open spec fn known_releases(releases: Option<(CommitStats, ReleaseMap)>) -> Map<
    i64,
    ReleaseRef,
> {
    match releases {
        Some(r) => r.1@,
        None => Map::empty(),
    }
}

/// The open PRs that are listed: without those that the merge-queue section
/// lists, where it is shown, and without drafts, where they are hidden.
pub open spec fn listed_prs(rows: Seq<prs::PrRow>, taste: Taste) -> Seq<prs::PrRow> {
    let open = if taste.show_queue {
        prs::unqueued(rows)
    } else {
        rows
    };
    if taste.no_draft {
        prs::undrafted(open)
    } else {
        open
    }
}

/// Whether the open PRs section is made of the fetched PRs, newest first.
pub open spec fn is_prs_section(
    out: Option<Vec<prs::PrRow>>,
    nodes: Seq<PrNode>,
    plan: FetchPlan,
    taste: Taste,
) -> bool {
    if plan.mine {
        out matches Some(rows) && exists|built: Seq<prs::PrRow>, sorted: Seq<prs::PrRow>| #[trigger]
            prs::are_rows_of(built, nodes) && #[trigger] ordered(built, sorted) && rows@
                == listed_prs(sorted, taste)
    } else {
        out is None
    }
}

/// Whether the merge-queue section is made of the fetched entries, in the order
/// of the queue.
pub open spec fn is_queue_section(
    out: Option<Vec<QueueRow>>,
    nodes: Seq<QueueEntryNode>,
    me: Seq<char>,
    plan: FetchPlan,
) -> bool {
    if plan.queue {
        out matches Some(rows) && exists|built: Seq<QueueRow>| #[trigger]
            queue::are_rows_of(built, nodes, me) && ordered(built, rows@)
    } else {
        out is None
    }
}

/// Whether the reviews section is made of the fetched PRs, by state.
pub open spec fn is_reviews_section(
    out: Option<Vec<ReviewRow>>,
    data: ReviewsData,
    plan: FetchPlan,
    taste: Taste,
) -> bool {
    if plan.reviews {
        out matches Some(rows) && exists|built: Seq<ReviewRow>, sorted: Seq<ReviewRow>| #[trigger]
            reviews::are_rows_of(built, data) && #[trigger] reviews::by_state(built, sorted)
                && rows@ == (if taste.no_draft {
                reviews::undrafted(sorted)
            } else {
                sorted
            })
    } else {
        out is None
    }
}

/// Whether the section of merged PRs that were reviewed is made of the newest of
/// the fetched PRs.
pub open spec fn is_reviewed_section(
    out: Option<Vec<ReviewedMergedRow>>,
    nodes: Seq<MergedNode>,
    plan: FetchPlan,
    limit: int,
) -> bool {
    if plan.reviews {
        out matches Some(rows) && reviews::is_listing(nodes, limit, rows@)
    } else {
        out is None
    }
}

/// Whether the merged PRs section is made of the newest of the fetched PRs.
pub open spec fn is_merged_section(
    out: Option<Vec<merged::MergedRow>>,
    nodes: Seq<MergedNode>,
    releases: Map<i64, ReleaseRef>,
    plan: FetchPlan,
    limit: int,
) -> bool {
    if plan.merged {
        out matches Some(rows) && merged::is_listing(nodes, releases, limit, rows@)
    } else {
        out is None
    }
}

/// Whether the shipments section is made of the releases, or says that they are
/// unavailable.
pub open spec fn is_shipments_section(
    out: Option<CommitStats>,
    releases: Option<(CommitStats, ReleaseMap)>,
    plan: FetchPlan,
) -> bool {
    if !plan.shipments {
        out is None
    } else {
        match releases {
            Some(r) => out == Some(r.0),
            None => out matches Some(stats) && !stats.available && stats.upcoming is None
                && stats.releases@.len() == 0,
        }
    }
}

/// Makes the sections of what came back. A queued PR is shown in the
/// merge-queue section and dropped from the open PRs, unless that section is
/// switched off. An empty queue has no estimate.
pub fn assemble(plan: FetchPlan, taste: Taste, got: Fetched) -> (s: Sections)
    requires
        got.countable(),
    ensures
        is_prs_section(s.prs, got.mine@, plan, taste),
        is_merged_section(
            s.merged,
            got.merged@,
            known_releases(got.releases),
            plan,
            taste.merged_limit as int,
        ),
        is_queue_section(s.queue, got.queue@, got.me@, plan),
        s.queue_next_eta == (if plan.queue && got.queue@.len() > 0 {
            got.queue_next_eta
        } else {
            None
        }),
        is_shipments_section(s.commits, got.releases, plan),
        is_reviews_section(s.reviews, got.reviews, plan, taste),
        is_reviewed_section(
            s.reviewed_merged,
            got.reviewed_merged@,
            plan,
            taste.merged_limit as int,
        ),
{
    let Fetched {
        me,
        releases,
        merged: merged_nodes,
        queue: entries,
        queue_next_eta: eta,
        mine: nodes,
        reviews: data,
        reviewed_merged: reviewed_nodes,
    } = got;
    let (stats, map): (CommitStats, ReleaseMap) = match releases {
        Some(r) => (r.0, r.1),
        None => (CommitStats::unavailable(), HashMap::new()),
    };
    assert(map@ =~= known_releases(got.releases));
    let merged_rows: Option<Vec<merged::MergedRow>> = if plan.merged {
        Some(merged::build_rows(merged_nodes, taste.merged_limit, &map))
    } else {
        None
    };
    let (queue, queue_next_eta): (Option<Vec<QueueRow>>, Option<i64>) = if plan.queue {
        let next: Option<i64> = if entries.len() > 0 {
            eta
        } else {
            None
        };
        (Some(queue::build_rows(entries, me.as_str())), next)
    } else {
        (None, None)
    };
    let pr_rows: Option<Vec<prs::PrRow>> = if plan.mine {
        Some(list_prs(nodes, taste))
    } else {
        None
    };
    let commits: Option<CommitStats> = if plan.shipments {
        Some(stats)
    } else {
        None
    };
    let (reviews, reviewed_merged): (
        Option<Vec<ReviewRow>>,
        Option<Vec<ReviewedMergedRow>>,
    ) = if plan.reviews {
        (
            Some(list_reviews(data, taste)),
            Some(reviews::build_merged_rows(reviewed_nodes, taste.merged_limit)),
        )
    } else {
        (None, None)
    };
    Sections {
        merged: merged_rows,
        queue,
        queue_next_eta,
        prs: pr_rows,
        commits,
        reviews,
        reviewed_merged,
    }
}

/// The open PRs that are listed, newest first.
fn list_prs(nodes: Vec<PrNode>, taste: Taste) -> (rows: Vec<prs::PrRow>)
    requires
        forall|i: int| 0 <= i < nodes@.len() ==> (#[trigger] nodes@[i]).countable(),
    ensures
        exists|built: Seq<prs::PrRow>, sorted: Seq<prs::PrRow>| #[trigger]
            prs::are_rows_of(built, nodes@) && #[trigger] ordered(built, sorted) && rows@
                == listed_prs(sorted, taste),
{
    let mut rows: Vec<prs::PrRow> = prs::build_rows(nodes);
    let ghost sorted = rows@;
    let ghost built = choose|built: Seq<prs::PrRow>| #[trigger]
        prs::are_rows_of(built, nodes@) && ordered(built, sorted);
    assert(prs::are_rows_of(built, nodes@) && ordered(built, sorted));
    if taste.show_queue {
        rows = prs::without_queued(rows);
    }
    if taste.no_draft {
        rows = prs::without_drafts(rows);
    }
    rows
}

/// The PRs to review that are listed, by state.
fn list_reviews(data: ReviewsData, taste: Taste) -> (rows: Vec<ReviewRow>)
    ensures
        exists|built: Seq<ReviewRow>, sorted: Seq<ReviewRow>| #[trigger]
            reviews::are_rows_of(built, data) && #[trigger] reviews::by_state(built, sorted)
                && rows@ == (if taste.no_draft {
                reviews::undrafted(sorted)
            } else {
                sorted
            }),
{
    let mut rows: Vec<ReviewRow> = reviews::build_open_rows(data);
    let ghost sorted = rows@;
    let ghost built = choose|built: Seq<ReviewRow>| #[trigger]
        reviews::are_rows_of(built, data) && reviews::by_state(built, sorted);
    assert(reviews::are_rows_of(built, data) && reviews::by_state(built, sorted));
    if taste.no_draft {
        rows = reviews::without_drafts(rows);
    }
    rows
}

/// No PR is listed twice: where the merge queue is shown, an open PR is listed
/// among the open ones only if it is not queued; where it is not, queued PRs stay
/// listed. A draft is listed unless drafts are hidden.
pub proof fn a_pr_is_listed_in_one_place(rows: Seq<prs::PrRow>, row: prs::PrRow, taste: Taste)
    requires
        rows.contains(row),
    ensures
        listed_prs(rows, taste).contains(row) <==> !(taste.show_queue && row.queue is Some) && !(
        taste.no_draft && row.is_draft),
{
    let open = if taste.show_queue {
        prs::unqueued(rows)
    } else {
        rows
    };
    prs::a_pr_is_listed_once(rows, row);
    let keep = |r: prs::PrRow| !r.is_draft;
    if taste.no_draft {
        if open.contains(row) && !row.is_draft {
            let i = choose|i: int| 0 <= i < open.len() && open[i] == row;
            open.lemma_filter_contains(keep, i);
        }
        if prs::undrafted(open).contains(row) {
            let j = choose|j: int|
                0 <= j < prs::undrafted(open).len() && prs::undrafted(open)[j] == row;
            open.lemma_filter_pred(keep, j);
            open.lemma_filter_contains_rev(keep, row);
        }
    }
}

/// A refresh that wants no view fetches nothing, and one that fetches the
/// releases shows them somewhere.
pub proof fn only_what_is_shown_is_fetched(shows: Shows, want_mine: bool, want_reviews: bool)
    ensures
        ({
            let plan = fetch_plan(shows, want_mine, want_reviews);
            plan.releases <==> plan.merged || plan.shipments
        }),
        ({
            let plan = fetch_plan(shows, false, false);
            !plan.releases && !plan.merged && !plan.queue && !plan.mine && !plan.shipments
                && !plan.reviews
        }),
{
}

/// Whether an open PR has a place among the open PRs: it is not shown in the
/// merge-queue section instead, and it is no hidden draft.
pub open spec fn has_a_place(node: PrNode, taste: Taste) -> bool {
    &&& !(taste.show_queue && node.merge_queue_entry is Some)
    &&& !(taste.no_draft && node.is_draft)
}

/// Every open PR that has a place is listed, newest first, and no other is.
pub proof fn every_pr_with_a_place_is_listed(
    plan: FetchPlan,
    taste: Taste,
    got: Fetched,
    s: Sections,
)
    requires
        plan.mine,
        call_ensures(assemble, (plan, taste, got), s),
    ensures
        s.prs is Some,
        forall|k: int|
            0 <= k < got.mine@.len() && has_a_place(#[trigger] got.mine@[k], taste) ==> has_pr_row(
                s.prs->0@,
                got.mine@[k],
            ),
        forall|i: int|
            0 <= i < s.prs->0@.len() ==> is_placed_row(#[trigger] s.prs->0@[i], got.mine@, taste),
{
    let rows = s.prs->0@;
    let (built, sorted) = choose|built: Seq<prs::PrRow>, sorted: Seq<prs::PrRow>| #[trigger]
        prs::are_rows_of(built, got.mine@) && #[trigger] ordered(built, sorted) && rows
            == listed_prs(sorted, taste);
    order_keeps_the_rows(built, sorted);
    assert forall|k: int|
        0 <= k < got.mine@.len() && has_a_place(#[trigger] got.mine@[k], taste) implies has_pr_row(
        rows,
        got.mine@[k],
    ) by {
        a_row_tells_of_its_pr(built[k], got.mine@[k]);
        assert(sorted.contains(built[k]));
        a_pr_is_listed_in_one_place(sorted, built[k], taste);
        let i = choose|i: int| 0 <= i < rows.len() && rows[i] == built[k];
        assert(tells_pr(rows[i], got.mine@[k]));
    }
    assert forall|i: int| 0 <= i < rows.len() implies is_placed_row(
        #[trigger] rows[i],
        got.mine@,
        taste,
    ) by {
        listed_rows_were_sorted(sorted, taste, i);
        let m = choose|m: int| 0 <= m < sorted.len() && sorted[m] == rows[i];
        assert(built.contains(sorted[m]));
        let k = choose|k: int| 0 <= k < built.len() && built[k] == sorted[m];
        a_row_tells_of_its_pr(built[k], got.mine@[k]);
        assert(rows.contains(rows[i]));
        a_pr_is_listed_in_one_place(sorted, rows[i], taste);
        assert(tells_pr(rows[i], got.mine@[k]) && has_a_place(got.mine@[k], taste));
    }
}

/// Whether a row tells of one of the PRs that have a place.
pub open spec fn is_placed_row(row: prs::PrRow, nodes: Seq<PrNode>, taste: Taste) -> bool {
    exists|k: int|
        0 <= k < nodes.len() && tells_pr(row, #[trigger] nodes[k]) && has_a_place(nodes[k], taste)
}

/// A row that is listed is one of those that were sorted.
proof fn listed_rows_were_sorted(rows: Seq<prs::PrRow>, taste: Taste, i: int)
    requires
        0 <= i < listed_prs(rows, taste).len(),
    ensures
        rows.contains(listed_prs(rows, taste)[i]),
{
    let open = if taste.show_queue {
        prs::unqueued(rows)
    } else {
        rows
    };
    let out = listed_prs(rows, taste);
    assert(out.contains(out[i]));
    if taste.no_draft {
        open.lemma_filter_contains_rev(|r: prs::PrRow| !r.is_draft, out[i]);
    }
    if taste.show_queue {
        rows.lemma_filter_contains_rev(|r: prs::PrRow| r.queue is None, out[i]);
    }
}

/// Each section is there just where it was asked for, and only a queue that holds
/// something has an estimate.
pub proof fn sections_follow_the_plan(plan: FetchPlan, taste: Taste, got: Fetched, s: Sections)
    requires
        call_ensures(assemble, (plan, taste, got), s),
    ensures
        s.prs is Some <==> plan.mine,
        s.queue is Some <==> plan.queue,
        s.merged is Some <==> plan.merged,
        s.commits is Some <==> plan.shipments,
        s.reviews is Some <==> plan.reviews,
        s.reviewed_merged is Some <==> plan.reviews,
        plan.queue && got.queue@.len() > 0 ==> s.queue_next_eta == got.queue_next_eta,
        !plan.queue || got.queue@.len() == 0 ==> s.queue_next_eta is None,
        plan.shipments && got.releases is None ==> !s.commits->0.available,
        plan.shipments ==> match got.releases {
            Some(r) => s.commits == Some(r.0),
            None => s.commits->0.releases@.len() == 0 && s.commits->0.upcoming is None,
        },
{
}

/// While watching both views are wanted, so that switching is instant; a single
/// frame wants the view it shows alone. What is fetched for a view is what it
/// shows.
pub proof fn a_view_fetches_what_it_shows(
    watching: bool,
    view: ViewKind,
    want: (bool, bool),
    shows: Shows,
    plan: FetchPlan,
)
    requires
        call_ensures(wanted, (watching, view), want),
        call_ensures(fetch_plan, (shows, want.0, want.1), plan),
    ensures
        watching ==> want == (true, true),
        !watching && view is Mine ==> want == (true, false),
        !watching && view is Reviews ==> want == (false, true),
        plan.reviews <==> watching || view is Reviews,
        plan.mine <==> (watching || view is Mine) && shows.mine,
        plan.queue <==> (watching || view is Mine) && shows.queue,
        plan.merged <==> (watching || view is Mine) && shows.merged,
        plan.shipments <==> (watching || view is Mine) && shows.shipments,
        plan.releases <==> plan.merged || plan.shipments,
{
}

} // verus!
