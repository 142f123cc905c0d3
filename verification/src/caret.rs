//! Which row of a view carries the navigation caret.

use crate::cli::ViewKind;
use crate::commits::CommitStats;
use crate::dashboard::{
    local_row, merged_section, prs_section, queue_section, row_count, shipment_sel, view_sections,
    with_caret, Look, SectionView, Times,
};
use crate::nav;
use crate::nav::{all_targets, links, row_links};
use crate::render::caret_cell;
use crate::sections::Sections;
use crate::shipments::is_selected;
use crate::status;
use crate::table::TableView;
use vstd::prelude::*;

verus! {

/// Whether row `r` of a table carries the caret.
pub open spec fn is_marked(t: TableView, r: int, ascii: bool) -> bool {
    t.rows[r].len() > 0 && t.rows[r][0] == caret_cell(ascii)
}

/// For each row of a table, whether it carries the caret.
pub open spec fn table_marks(t: Option<TableView>, ascii: bool) -> Seq<bool> {
    match t {
        Some(t) => Seq::new(t.rows.len(), |r: int| is_marked(t, r, ascii)),
        None => Seq::empty(),
    }
}

/// For each row of the tables of sections, from top to bottom, whether it carries
/// the caret.
pub open spec fn section_marks(vs: Seq<SectionView>, ascii: bool) -> Seq<bool>
    decreases vs.len(),
{
    if vs.len() == 0 {
        Seq::empty()
    } else {
        section_marks(vs.drop_last(), ascii) + table_marks(vs.last().table, ascii)
    }
}

/// For each row of the shipments, whether it carries the caret.
pub open spec fn shipment_marks(s: Sections, selected: Option<usize>) -> Seq<bool> {
    match s.commits {
        Some(stats) => if stats.available {
            Seq::new(
                1 + stats.releases@.len(),
                |i: int| is_selected(stats, shipment_sel(s, selected), i),
            )
        } else {
            Seq::empty()
        },
        None => Seq::empty(),
    }
}

/// For each row that a view paints, from top to bottom, whether it carries the
/// caret.
pub open spec fn marks(view: ViewKind, s: Sections, times: Times, look: Look) -> Seq<bool> {
    section_marks(view_sections(view, s, times, look), look.ascii) + (match view {
        ViewKind::Mine => shipment_marks(s, look.selected),
        ViewKind::Reviews => Seq::empty(),
    })
}

/// Rows that all lead somewhere.
pub open spec fn leading(links: Seq<Seq<char>>) -> Seq<Option<Seq<char>>> {
    Seq::new(links.len(), |i: int| Some(links[i]))
}

/// Where each row of the shipments leads; nowhere for what is not released yet,
/// where that has no commits.
pub open spec fn shipment_leads(commits: Option<CommitStats>) -> Seq<Option<Seq<char>>> {
    match commits {
        Some(stats) => if stats.available {
            seq![
                match stats.upcoming {
                    Some(b) => Some(b.url@),
                    None => None,
                },
            ] + leading(links(stats.releases@))
        } else {
            Seq::empty()
        },
        None => Seq::empty(),
    }
}

/// Where each row that a view paints leads, from top to bottom.
pub open spec fn row_leads(view: ViewKind, s: Sections) -> Seq<Option<Seq<char>>> {
    match view {
        ViewKind::Mine => leading(row_links(s.prs) + row_links(s.queue) + row_links(s.merged))
            + shipment_leads(s.commits),
        ViewKind::Reviews => leading(row_links(s.reviews) + row_links(s.reviewed_merged)),
    }
}

/// How many of the first `i` rows lead somewhere.
pub open spec fn leading_before(leads: Seq<Option<Seq<char>>>, i: int) -> int
    decreases i,
{
    if i <= 0 {
        0
    } else {
        leading_before(leads, i - 1) + (if leads[i - 1] is Some {
            1int
        } else {
            0
        })
    }
}

/// `n` rows, of which the one that the cursor is on is marked; `before` rows
/// stand above them.
spec fn run(selected: Option<usize>, before: int, n: int) -> Seq<bool> {
    Seq::new(n as nat, |r: int| local_row(selected, before, n) == Some(r))
}

/// No row is marked by the caret on its own: blank and changed rows show another
/// cell.
proof fn other_cells_are_no_caret(ascii: bool)
    ensures
        caret_cell(ascii) != crate::render::plain_cell(" "@),
        forall|highlighted: bool|
            caret_cell(ascii) != #[trigger] crate::render::marker_cell(highlighted, ascii),
{
    assert(crate::surface::rgb(status::PINK) != crate::surface::rgb(status::LAVENDER));
    assert(caret_cell(ascii).style.fg == Some(crate::surface::rgb(status::LAVENDER)));
}

/// A table with the caret on one row, where no other row shows it, is marked on
/// just that row.
proof fn one_mark(t: TableView, selected: Option<usize>, before: int, ascii: bool)
    requires
        0 <= before,
        forall|r: int| 0 <= r < t.rows.len() ==> (#[trigger] t.rows[r]).len() > 0,
        forall|r: int| 0 <= r < t.rows.len() ==> (#[trigger] t.rows[r])[0] != caret_cell(ascii),
    ensures
        ({
            let n = t.rows.len() as int;
            table_marks(
                Some(with_caret(t, local_row(selected, before, n), ascii)),
                ascii,
            ) == run(selected, before, n)
        }),
{
    let n = t.rows.len() as int;
    let row = local_row(selected, before, n);
    let c = with_caret(t, row, ascii);
    assert(c.rows.len() == n);
    assert forall|r: int| 0 <= r < n implies is_marked(c, r, ascii) == (row == Some(r)) by {
        assert(t.rows[r].len() > 0);
        assert(t.rows[r][0] != caret_cell(ascii));
        if row == Some(r) {
            assert(c.rows[r] == t.rows[r].update(0, caret_cell(ascii)));
        } else {
            assert(c.rows[r] == t.rows[r]);
        }
    }
    assert(table_marks(Some(c), ascii) =~= run(selected, before, n));
}

/// The marks of at most one section.
proof fn marks_of_one(vs: Seq<SectionView>, ascii: bool)
    requires
        vs.len() <= 1,
    ensures
        section_marks(vs, ascii) == (if vs.len() == 0 {
            Seq::empty()
        } else {
            table_marks(vs[0].table, ascii)
        }),
{
    if vs.len() == 1 {
        assert(vs.drop_last() =~= Seq::empty());
        assert(section_marks(vs.drop_last(), ascii) =~= Seq::empty());
        assert(section_marks(vs, ascii) =~= table_marks(vs[0].table, ascii));
    }
}

/// The marks of two lists of sections, of which the second has at most one.
proof fn marks_add_up(a: Seq<SectionView>, b: Seq<SectionView>, ascii: bool)
    requires
        b.len() <= 1,
    ensures
        section_marks(a + b, ascii) == section_marks(a, ascii) + section_marks(b, ascii),
{
    marks_of_one(b, ascii);
    if b.len() == 0 {
        assert(a + b =~= a);
        assert(section_marks(a, ascii) + Seq::<bool>::empty() =~= section_marks(a, ascii));
    } else {
        assert((a + b).drop_last() =~= a);
    }
}

/// The marks of the open PRs.
proof fn prs_are_marked(s: Sections, look: Look)
    ensures
        section_marks(
            prs_section(
                s,
                look.status_changed,
                look.selected,
                look.ascii,
                look.show_branch,
            ),
            look.ascii,
        ) == run(look.selected, 0, row_count(s.prs)),
{
    let vs = prs_section(s, look.status_changed, look.selected, look.ascii, look.show_branch);
    marks_of_one(vs, look.ascii);
    other_cells_are_no_caret(look.ascii);
    let r = run(look.selected, 0, row_count(s.prs));
    match s.prs {
        Some(rows) => {
            if rows@.len() > 0 {
                let t = crate::prs::pr_table(
                    rows@,
                    look.ascii,
                    look.status_changed,
                    look.show_branch,
                );
                one_mark(t, look.selected, 0, look.ascii);
            } else {
                assert(r =~= Seq::empty());
            }
        },
        None => {
            assert(r =~= Seq::empty());
        },
    }
}

/// The marks of the merge queue.
proof fn the_queue_is_marked(s: Sections, times: Times, look: Look)
    ensures
        section_marks(
            queue_section(s, times, look.selected, look.ascii, look.show_branch),
            look.ascii,
        ) == run(look.selected, row_count(s.prs), row_count(s.queue)),
{
    let vs = queue_section(s, times, look.selected, look.ascii, look.show_branch);
    marks_of_one(vs, look.ascii);
    other_cells_are_no_caret(look.ascii);
    let r = run(look.selected, row_count(s.prs), row_count(s.queue));
    match s.queue {
        Some(rows) => {
            if rows@.len() > 0 {
                let t = crate::queue::queue_table(
                    rows@,
                    look.show_branch,
                    times.queue_waits@,
                    times.queue_builds@,
                );
                one_mark(t, look.selected, row_count(s.prs), look.ascii);
            } else {
                assert(r =~= Seq::empty());
            }
        },
        None => {
            assert(r =~= Seq::empty());
        },
    }
}

/// The marks of the merged PRs.
proof fn merged_prs_are_marked(s: Sections, times: Times, look: Look)
    ensures
        section_marks(
            merged_section(
                s,
                times,
                look.newly_merged,
                look.selected,
                look.ascii,
                look.show_branch,
            ),
            look.ascii,
        ) == run(
            look.selected,
            row_count(s.prs) + row_count(s.queue),
            row_count(s.merged),
        ),
{
    let vs = merged_section(
        s,
        times,
        look.newly_merged,
        look.selected,
        look.ascii,
        look.show_branch,
    );
    marks_of_one(vs, look.ascii);
    other_cells_are_no_caret(look.ascii);
    let before = row_count(s.prs) + row_count(s.queue);
    let r = run(look.selected, before, row_count(s.merged));
    match s.merged {
        Some(rows) => {
            if rows@.len() > 0 {
                let t = crate::merged::merged_table(
                    rows@,
                    look.ascii,
                    look.newly_merged,
                    look.show_branch,
                    times.merged_ages@,
                );
                one_mark(t, look.selected, before, look.ascii);
            } else {
                assert(r =~= Seq::empty());
            }
        },
        None => {
            assert(r =~= Seq::empty());
        },
    }
}

/// The marks of the reviews view.
proof fn reviews_are_marked(s: Sections, times: Times, look: Look)
    ensures
        section_marks(view_sections(ViewKind::Reviews, s, times, look), look.ascii) == run(
            look.selected,
            0,
            row_count(s.reviews),
        ) + run(look.selected, row_count(s.reviews), row_count(s.reviewed_merged)),
{
    let only_open = Sections { reviewed_merged: None, ..s };
    let vs = view_sections(ViewKind::Reviews, s, times, look);
    let first = view_sections(ViewKind::Reviews, only_open, times, look);
    assert(first.len() <= 1);
    let second = vs.skip(first.len() as int);
    assert(vs =~= first + second);
    assert(second.len() <= 1);
    marks_add_up(first, second, look.ascii);
    marks_of_one(first, look.ascii);
    marks_of_one(second, look.ascii);
    other_cells_are_no_caret(look.ascii);
    let a = run(look.selected, 0, row_count(s.reviews));
    let before = row_count(s.reviews);
    let b = run(look.selected, before, row_count(s.reviewed_merged));
    if row_count(s.reviews) > 0 {
        let t = crate::reviews::open_table(
            s.reviews->0@,
            look.ascii,
            look.show_branch,
            times.review_ages@,
        );
        one_mark(t, look.selected, 0, look.ascii);
    } else {
        assert(a =~= Seq::empty());
    }
    assert(section_marks(first, look.ascii) == a);
    if row_count(s.reviewed_merged) > 0 {
        let t = crate::reviews::merged_table(
            s.reviewed_merged->0@,
            look.show_branch,
            times.reviewed_ages@,
        );
        one_mark(t, look.selected, before, look.ascii);
    } else {
        assert(b =~= Seq::empty());
    }
    assert(section_marks(second, look.ascii) == b);
}

/// Where all of the first rows lead somewhere, all count.
proof fn all_lead(leads: Seq<Option<Seq<char>>>, i: int)
    requires
        0 <= i <= leads.len(),
        forall|j: int| 0 <= j < i ==> (#[trigger] leads[j]) is Some,
    ensures
        leading_before(leads, i) == i,
    decreases i,
{
    if i > 0 {
        all_lead(leads, i - 1);
    }
}

/// Where all of the first rows but one lead somewhere, all but that one count.
proof fn all_but_one_lead(leads: Seq<Option<Seq<char>>>, gap: int, i: int)
    requires
        0 <= gap < i <= leads.len(),
        leads[gap] is None,
        forall|j: int| 0 <= j < i && j != gap ==> (#[trigger] leads[j]) is Some,
    ensures
        leading_before(leads, i) == i - 1,
    decreases i,
{
    if i == gap + 1 {
        all_lead(leads, gap);
    } else {
        all_but_one_lead(leads, gap, i - 1);
    }
}

/// Whether row `i` is the only one that carries the caret, and is the `k`-th of
/// those that lead somewhere.
pub open spec fn only_mark(
    marks: Seq<bool>,
    leads: Seq<Option<Seq<char>>>,
    i: int,
    k: int,
) -> bool {
    &&& 0 <= i < marks.len()
    &&& marks[i]
    &&& leads[i] is Some
    &&& leading_before(leads, i) == k
    &&& forall|j: int| 0 <= j < marks.len() && #[trigger] marks[j] ==> j == i
}

/// Exactly one row carries the caret: with a selection it is the row of that
/// number among the rows that lead somewhere, counted from the top, and leads
/// where the selected link does; without a selection no row carries it.
pub proof fn one_row_carries_the_caret(view: ViewKind, s: Sections, times: Times, look: Look)
    requires
        look.selected matches Some(k) ==> k < all_targets(view, s, Seq::empty()).len(),
    ensures
        ({
            let m = marks(view, s, times, look);
            let leads = row_leads(view, s);
            &&& m.len() == leads.len()
            &&& look.selected is None ==> forall|i: int| 0 <= i < m.len() ==> !#[trigger] m[i]
            &&& look.selected matches Some(k) ==> exists|i: int| #[trigger]
                only_mark(m, leads, i, k as int) && leads[i] == Some(
                    all_targets(view, s, Seq::empty())[k as int],
                )
        }),
{
    match view {
        ViewKind::Mine => {
            one_of_mine_carries_it(s, times, look);
        },
        ViewKind::Reviews => {
            one_review_carries_it(s, times, look);
        },
    }
}

/// The same of the reviews view.
proof fn one_review_carries_it(s: Sections, times: Times, look: Look)
    requires
        look.selected matches Some(k) ==> k < all_targets(
            ViewKind::Reviews,
            s,
            Seq::empty(),
        ).len(),
    ensures
        ({
            let m = marks(ViewKind::Reviews, s, times, look);
            let leads = row_leads(ViewKind::Reviews, s);
            &&& m.len() == leads.len()
            &&& look.selected is None ==> forall|i: int| 0 <= i < m.len() ==> !#[trigger] m[i]
            &&& look.selected matches Some(k) ==> exists|i: int| #[trigger]
                only_mark(m, leads, i, k as int) && leads[i] == Some(
                    all_targets(ViewKind::Reviews, s, Seq::empty())[k as int],
                )
        }),
{
    let q = Seq::<char>::empty();
    let m = marks(ViewKind::Reviews, s, times, look);
    let leads = row_leads(ViewKind::Reviews, s);
    let all = all_targets(ViewKind::Reviews, s, q);
    nav::all_links(s.reviews);
    nav::all_links(s.reviewed_merged);
    nav::two_groups(nav::section_links(s.reviews, q), nav::section_links(s.reviewed_merged, q));
    assert(all == row_links(s.reviews) + row_links(s.reviewed_merged));
    reviews_are_marked(s, times, look);
    let a = row_count(s.reviews);
    let b = row_count(s.reviewed_merged);
    assert(m =~= run(look.selected, 0, a) + run(look.selected, a, b));
    assert(m.len() == a + b == leads.len());
    assert forall|i: int| 0 <= i < m.len() implies (#[trigger] m[i] <==> look.selected == Some(
        i as usize,
    ) && i <= usize::MAX) by {
        if i < a {
            assert(m[i] == run(look.selected, 0, a)[i]);
        } else {
            assert(m[i] == run(look.selected, a, b)[i - a]);
        }
    }
    match look.selected {
        Some(k) => {
            all_lead(leads, k as int);
            assert(only_mark(m, leads, k as int, k as int));
        },
        None => {},
    }
}

/// The same of the view of your own PRs.
proof fn one_of_mine_carries_it(s: Sections, times: Times, look: Look)
    requires
        look.selected matches Some(k) ==> k < all_targets(ViewKind::Mine, s, Seq::empty()).len(),
    ensures
        ({
            let m = marks(ViewKind::Mine, s, times, look);
            let leads = row_leads(ViewKind::Mine, s);
            &&& m.len() == leads.len()
            &&& look.selected is None ==> forall|i: int| 0 <= i < m.len() ==> !#[trigger] m[i]
            &&& look.selected matches Some(k) ==> exists|i: int| #[trigger]
                only_mark(m, leads, i, k as int) && leads[i] == Some(
                    all_targets(ViewKind::Mine, s, Seq::empty())[k as int],
                )
        }),
{
    let m = marks(ViewKind::Mine, s, times, look);
    let leads = row_leads(ViewKind::Mine, s);
    let all = all_targets(ViewKind::Mine, s, Seq::empty());
    let np = row_count(s.prs);
    let nq = row_count(s.queue);
    let nm = row_count(s.merged);
    let n = np + nq + nm;
    let ships = shipment_marks(s, look.selected);
    tables_of_mine_are_marked(s, times, look);
    let tables = section_marks(view_sections(ViewKind::Mine, s, times, look), look.ascii);
    assert(m == tables + ships);
    targets_of_mine(s);
    let upper = row_links(s.prs) + row_links(s.queue) + row_links(s.merged);
    let lower = nav::shipment_links(s.commits, Seq::empty());
    assert(all == upper + lower);
    assert(leads == leading(upper) + shipment_leads(s.commits));
    assert(upper.len() == n);
    if s.commits is Some {
        nav::the_empty_query_keeps_all(s.commits->0.releases@);
    }
    assert(ships.len() == shipment_leads(s.commits).len());
    match look.selected {
        Some(k) => {
            if k < n {
                assert forall|j: int| 0 <= j < m.len() && #[trigger] m[j] implies j == k by {
                    if j >= n {
                        assert(m[j] == ships[j - n]);
                    } else {
                        assert(m[j] == tables[j]);
                    }
                }
                assert(m[k as int] == tables[k as int]);
                all_lead(leads, k as int);
                assert(leads[k as int] == Some(upper[k as int]));
                assert(only_mark(m, leads, k as int, k as int));
            } else {
                let stats = s.commits->0;
                let d = k - n;
                let i: int = if stats.upcoming is Some {
                    k as int
                } else {
                    k + 1
                };
                assert(lower[d] == all[k as int]);
                assert(shipment_sel(s, Some(k)) == Some(d as usize));
                assert(m[i] == ships[i - n]);
                assert forall|j: int| 0 <= j < m.len() && #[trigger] m[j] implies j == i by {
                    if j < n {
                        assert(m[j] == tables[j]);
                    } else {
                        assert(m[j] == ships[j - n]);
                    }
                }
                assert(leads[i] == shipment_leads(s.commits)[i - n]);
                assert forall|j: int| n < j < leads.len() implies (#[trigger] leads[j]) is Some by {
                    assert(leads[j] == shipment_leads(s.commits)[j - n]);
                }
                assert(leads[n] == shipment_leads(s.commits)[0]);
                if stats.upcoming is Some {
                    all_lead(leads, i);
                } else {
                    all_but_one_lead(leads, n, i);
                }
                assert(only_mark(m, leads, i, k as int));
            }
        },
        None => {
            assert forall|i: int| 0 <= i < m.len() implies !#[trigger] m[i] by {
                if i < n {
                    assert(m[i] == tables[i]);
                } else {
                    assert(m[i] == ships[i - n]);
                }
            }
        },
    }
}

/// A row of the tables of the view of your own PRs is marked exactly where the
/// cursor is on it.
proof fn tables_of_mine_are_marked(s: Sections, times: Times, look: Look)
    ensures
        ({
            let tables = section_marks(
                view_sections(ViewKind::Mine, s, times, look),
                look.ascii,
            );
            let n = row_count(s.prs) + row_count(s.queue) + row_count(s.merged);
            &&& tables.len() == n
            &&& forall|i: int|
                0 <= i < n ==> (#[trigger] tables[i] <==> look.selected is Some
                    && look.selected->0 == i)
        }),
{
    let one = prs_section(s, look.status_changed, look.selected, look.ascii, look.show_branch);
    let two = queue_section(s, times, look.selected, look.ascii, look.show_branch);
    let three = merged_section(
        s,
        times,
        look.newly_merged,
        look.selected,
        look.ascii,
        look.show_branch,
    );
    marks_add_up(one, two, look.ascii);
    marks_add_up(one + two, three, look.ascii);
    prs_are_marked(s, look);
    the_queue_is_marked(s, times, look);
    merged_prs_are_marked(s, times, look);
    let np = row_count(s.prs);
    let nq = row_count(s.queue);
    let nm = row_count(s.merged);
    let tables = section_marks(view_sections(ViewKind::Mine, s, times, look), look.ascii);
    let a = run(look.selected, 0, np);
    let b = run(look.selected, np, nq);
    let c = run(look.selected, np + nq, nm);
    assert(tables == a + b + c);
    assert forall|i: int| 0 <= i < np + nq + nm implies (#[trigger] tables[i]
        <==> look.selected is Some && look.selected->0 == i) by {
        if i < np {
            assert(tables[i] == a[i]);
        } else if i < np + nq {
            assert(tables[i] == b[i - np]);
        } else {
            assert(tables[i] == c[i - np - nq]);
        }
    }
}

/// The links that the cursor visits in the view of your own PRs.
proof fn targets_of_mine(s: Sections)
    ensures
        all_targets(ViewKind::Mine, s, Seq::empty()) == row_links(s.prs) + row_links(s.queue)
            + row_links(s.merged) + nav::shipment_links(s.commits, Seq::empty()),
{
    let q = Seq::<char>::empty();
    nav::all_links(s.prs);
    nav::all_links(s.queue);
    nav::all_links(s.merged);
    let a = row_links(s.prs);
    let b = row_links(s.queue);
    let c = row_links(s.merged);
    let d = nav::shipment_links(s.commits, q);
    nav::four_groups(a, b, c, d);
    assert(a + (b + (c + d)) =~= a + b + c + d);
}

} // verus!
