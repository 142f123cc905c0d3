//! What the two views show: which sections, in which order, and what in each.

use crate::cell_laws::{is_marked, marks_are_no_blanks};
use crate::cli::ViewKind;
use crate::dashboard::{view_commits, view_sections, Look, SectionView, Times};
use crate::screen::hide_sections;
use crate::sections::Sections;
use vstd::prelude::*;

verus! {

/// Whether a section has a title and lists so many rows, or says that it has
/// none.
pub open spec fn lists(v: SectionView, title: Seq<char>, n: int) -> bool {
    &&& v.title == title
    &&& v.count == n
    &&& n == 0 ==> v.table is None && v.empty.len() > 0
    &&& n > 0 ==> (v.table matches Some(t) && t.rows.len() == n)
}

/// The view of your own PRs lists the open PRs, then the merge queue, then the
/// merged PRs, each with how many there are; the queue says when a new entry would
/// merge. Below them stand the shipments.
pub proof fn your_own_prs_are_shown(s: Sections, times: Times, look: Look)
    requires
        s.prs is Some,
        s.queue is Some,
        s.merged is Some,
    ensures
        ({
            let vs = view_sections(ViewKind::Mine, s, times, look);
            &&& vs.len() == 3
            &&& lists(vs[0], "My open PRs"@, s.prs->0@.len() as int)
            &&& lists(vs[1], "Merge Queue"@, s.queue->0@.len() as int)
            &&& lists(vs[2], "My merged PRs"@, s.merged->0@.len() as int)
            &&& vs[0].note is None && vs[2].note is None
            &&& times.queue_eta is Some <==> vs[1].note is Some
        }),
        view_commits(ViewKind::Mine, s) == s.commits,
{
    texts_are_not_empty();
}

/// The reviews view lists the PRs under review, then the merged ones that you
/// reviewed, each with how many there are, and no shipments.
pub proof fn reviews_are_shown(s: Sections, times: Times, look: Look)
    requires
        s.reviews is Some,
        s.reviewed_merged is Some,
    ensures
        ({
            let vs = view_sections(ViewKind::Reviews, s, times, look);
            &&& vs.len() == 2
            &&& lists(vs[0], "Reviews"@, s.reviews->0@.len() as int)
            &&& lists(vs[1], "Reviewed & merged"@, s.reviewed_merged->0@.len() as int)
        }),
        view_commits(ViewKind::Reviews, s) is None,
{
    texts_are_not_empty();
}

proof fn texts_are_not_empty()
    ensures
        "No open PRs."@.len() > 0,
        "No merge queue."@.len() > 0,
        "No recent merged PRs."@.len() > 0,
        "No PRs to review."@.len() > 0,
        "No reviewed PRs merged recently."@.len() > 0,
{
    reveal_strlit("No open PRs.");
    reveal_strlit("No merge queue.");
    reveal_strlit("No recent merged PRs.");
    reveal_strlit("No PRs to review.");
    reveal_strlit("No reviewed PRs merged recently.");
}

/// A section that is switched off is not shown, and the others close up: there
/// are as many sections as are switched on.
pub proof fn a_section_switched_off_is_not_shown(s: Sections, times: Times, look: Look)
    ensures
        view_sections(ViewKind::Mine, s, times, look).len() == one_if(s.prs is Some) + one_if(
            s.queue is Some,
        ) + one_if(s.merged is Some),
        view_sections(ViewKind::Reviews, s, times, look).len() == one_if(s.reviews is Some)
            + one_if(s.reviewed_merged is Some),
{
}

/// One where a thing is so, else none.
pub open spec fn one_if(b: bool) -> int {
    if b {
        1
    } else {
        0
    }
}

/// What changed is marked: an open PR where its status changed, a merged PR where
/// it just merged, and no other row. The cursor is not shown here.
pub proof fn what_changed_is_marked(s: Sections, times: Times, look: Look, i: int, j: int)
    requires
        s.prs is Some,
        s.queue is Some,
        s.merged is Some,
        look.selected is None,
        0 <= i < s.prs->0@.len(),
        0 <= j < s.merged->0@.len(),
    ensures
        ({
            let vs = view_sections(ViewKind::Mine, s, times, look);
            &&& is_marked(vs[0].table->0, i) <==> look.status_changed.contains(
                s.prs->0@[i].number,
            )
            &&& is_marked(vs[2].table->0, j) <==> look.newly_merged.contains(
                s.merged->0@[j].number,
            )
        }),
{
    marks_are_no_blanks();
    let vs = view_sections(ViewKind::Mine, s, times, look);
    assert(vs[0].table->0.rows[i] == crate::prs::row_cells(
        s.prs->0@[i],
        look.ascii,
        look.status_changed,
        look.show_branch,
    ));
    assert(vs[2].table->0.rows[j] == crate::merged::row_cells(
        s.merged->0@[j],
        look.ascii,
        look.newly_merged,
        look.show_branch,
        times.merged_ages@[j]@,
    ));
}

/// Sections are hidden from the least needed on: of your own PRs first the
/// shipments, then the merge queue, then the merged PRs, of the reviews the merged
/// ones. The open PRs and those under review stay, and nothing is changed but
/// hidden.
pub proof fn the_least_needed_is_hidden_first(s: Sections, view: ViewKind, k: usize, r: Sections)
    requires
        call_ensures(hide_sections, (s, view, k), r),
    ensures
        r.prs == s.prs,
        r.reviews == s.reviews,
        r.commits == s.commits || r.commits is None,
        r.queue == s.queue || r.queue is None,
        r.merged == s.merged || r.merged is None,
        r.reviewed_merged == s.reviewed_merged || r.reviewed_merged is None,
        r.queue != s.queue ==> r.commits is None,
        r.merged != s.merged ==> r.queue is None && r.commits is None,
        k <= 1 ==> r == s,
        view is Mine ==> r.reviewed_merged == s.reviewed_merged,
        view is Mine && k >= 2 ==> r.commits is None,
        view is Mine && k >= 3 ==> r.queue is None,
        view is Mine && k >= 4 ==> r.merged is None,
        view is Mine && k == 2 ==> r.queue == s.queue && r.merged == s.merged,
        view is Mine && k == 3 ==> r.merged == s.merged,
        view is Reviews && k >= 2 ==> r.reviewed_merged is None,
        view is Reviews ==> r.commits == s.commits && r.queue == s.queue && r.merged == s.merged,
{
}

} // verus!
