//! What holds of every laid-out table.

use crate::render::column_start;
use crate::surface::{text_width, Frame};
use crate::table::{
    alignment_of, column_in_header, compact, flexes, indices, indices_are_the_shown, is_lamp,
    layout, loses_branch, narrowest_is_least, narrowest_title, natural_width, natural_width_bound,
    own_title_width, plan, plan_is_valid, prefix_alignment, prefix_len, required_width,
    shared_width, shows, widest, AlignmentView, CellText, Plan, TableView, BRANCH_MIN, SEP,
    TITLE_MIN,
};
use vstd::prelude::*;

verus! {

/// The total of widths.
pub open spec fn total(widths: Seq<int>) -> int
    decreases widths.len(),
{
    if widths.len() == 0 {
        0
    } else {
        total(widths.drop_last()) + widths.last()
    }
}

/// The columns of a table that no layout hides: `TITLE` and what stands left of
/// it, where that is neither a lamp nor `BRANCH`.
pub open spec fn plain_prefix(t: TableView, title: int) -> bool {
    forall|c: int|
        0 <= c < title ==> !is_lamp(#[trigger] t.header[c]) && Some(c) != t.column("BRANCH"@)
}

/// The names that decide a layout are different.
proof fn names_differ()
    ensures
        !is_lamp("TITLE"@),
        !is_lamp("BRANCH"@),
        "TITLE"@ != "BRANCH"@,
{
    reveal_strlit("TITLE");
    reveal_strlit("BRANCH");
    reveal_strlit("FAIL");
    reveal_strlit("RUN");
    reveal_strlit("PASS");
    assert("TITLE"@.len() == 5);
    assert("BRANCH"@.len() == 6);
}

/// Whether the lamps are all shown or all hidden.
pub open spec fn lamps_together(t: TableView, shown: Seq<bool>) -> bool {
    forall|i: int, j: int|
        0 <= i < shown.len() && 0 <= j < shown.len() && is_lamp(t.header[i]) && is_lamp(
            t.header[j],
        ) ==> #[trigger] shown[i] == #[trigger] shown[j]
}

/// Whether `BRANCH` is shown, or no other column right of `TITLE` is.
pub open spec fn branch_goes_last(p: Plan, shown: Seq<bool>) -> bool {
    p.branch_shown(shown) || forall|i: int|
        p.title < i < shown.len() && Some(i) != p.branch ==> !#[trigger] shown[i]
}

/// Whether no detail column is shown right of a hidden one, lamps aside.
pub open spec fn hidden_from_the_right(p: Plan, shown: Seq<bool>) -> bool {
    forall|c: int, d: int|
        p.title < c < d < shown.len() && Some(c) != p.branch && Some(d) != p.branch && !is_lamp(
            p.t.header[c],
        ) && !is_lamp(p.t.header[d]) && #[trigger] shown[d] ==> #[trigger] shown[c]
}

/// Hiding the next column keeps all three.
proof fn hiding_keeps_the_order(p: Plan, shown: Seq<bool>)
    requires
        p.valid(shown),
        p.branch is Some ==> p.t.header[p.branch->0] == "BRANCH"@,
        lamps_together(p.t, shown),
        hidden_from_the_right(p, shown),
    ensures
        p.hide_next(shown) matches Some(less) ==> lamps_together(p.t, less)
            && hidden_from_the_right(p, less) && (p.branch_shown(shown) ==> branch_goes_last(
            p,
            less,
        )),
{
    names_differ();
    p.rightmost_is_shown(shown, shown.len() as int);
}

/// What settling arrives at keeps all three.
proof fn settling_keeps_the_order(p: Plan, shown: Seq<bool>)
    requires
        p.valid(shown),
        p.branch is Some ==> p.t.header[p.branch->0] == "BRANCH"@,
        lamps_together(p.t, shown),
        hidden_from_the_right(p, shown),
        p.branch_shown(shown) || p.branch is None || branch_goes_last(p, shown),
    ensures
        p.settle(shown) matches Some(less) ==> lamps_together(p.t, less) && hidden_from_the_right(
            p,
            less,
        ) && (p.branch is Some ==> branch_goes_last(p, less)),
    decreases indices(shown).len(),
{
    if !p.fits(shown) {
        p.hide_next_hides(shown);
        p.rightmost_is_shown(shown, shown.len() as int);
        hiding_keeps_the_order(p, shown);
        match p.hide_next(shown) {
            Some(less) => {
                settling_keeps_the_order(p, less);
            },
            None => {},
        }
    }
}

/// The three lamps of the check semaphore are hidden as one group: whatever the
/// width, a layout shows all of a table's lamps or none.
pub proof fn the_semaphore_is_shown_whole(
    f: Frame,
    t: TableView,
    a: Option<AlignmentView>,
    c: int,
    d: int,
)
    requires
        0 <= c < t.header.len(),
        0 <= d < t.header.len(),
        is_lamp(t.header[c]),
        is_lamp(t.header[d]),
    ensures
        layout(f, t, a) matches Some(l) ==> (l.columns.contains(c) <==> l.columns.contains(d)),
{
    match t.column("TITLE"@) {
        Some(title) => {
            let p = plan(f, t, a, title);
            ordered_start(f, t, a, title);
            settling_of_the_start(f, t, a, title);
            match p.settle(p.start()) {
                Some(shown) => {
                    p.settle_fits(p.start());
                    indices_are_the_shown(shown);
                    assert(shown[c] == shown[d]);
                    shown_iff_listed(shown, c);
                    shown_iff_listed(shown, d);
                },
                None => {},
            }
        },
        None => {
            let l = layout(f, t, a)->0;
            assert(l.columns[c] == c);
            assert(l.columns[d] == d);
        },
    }
}

/// A column is listed exactly where its flag is set.
proof fn shown_iff_listed(shown: Seq<bool>, c: int)
    requires
        0 <= c < shown.len(),
    ensures
        indices(shown).contains(c) <==> shown[c],
{
    indices_are_the_shown(shown);
    if indices(shown).contains(c) {
        let k = choose|k: int| 0 <= k < indices(shown).len() && indices(shown)[k] == c;
        assert(shown[indices(shown)[k]]);
    }
}

proof fn ordered_start(f: Frame, t: TableView, a: Option<AlignmentView>, title: int)
    requires
        t.column("TITLE"@) == Some(title),
    ensures
        ({
            let p = plan(f, t, a, title);
            &&& p.valid(p.start())
            &&& p.branch is Some ==> p.t.header[p.branch->0] == "BRANCH"@
            &&& lamps_together(t, p.start())
            &&& hidden_from_the_right(p, p.start())
        }),
{
    plan_is_valid(f, t, a, title);
    column_in_header(t, "BRANCH"@);
    names_differ();
}

/// The order in which columns are hidden holds of what is left of the start.
proof fn settling_of_the_start(f: Frame, t: TableView, a: Option<AlignmentView>, title: int)
    requires
        t.column("TITLE"@) == Some(title),
    ensures
        ({
            let p = plan(f, t, a, title);
            p.settle(p.start()) matches Some(shown) ==> lamps_together(t, shown)
                && hidden_from_the_right(p, shown) && (p.branch is Some && !(a is Some
                && a->0.hide_branch) ==> branch_goes_last(p, shown))
        }),
{
    let p = plan(f, t, a, title);
    ordered_start(f, t, a, title);
    if p.branch is None || p.branch_shown(p.start()) {
        settling_keeps_the_order(p, p.start());
    } else {
        without_branch_keeps_the_order(p, p.start());
    }
}

/// The same where `BRANCH` is hidden from the start.
proof fn without_branch_keeps_the_order(p: Plan, shown: Seq<bool>)
    requires
        p.valid(shown),
        p.branch is Some ==> p.t.header[p.branch->0] == "BRANCH"@,
        lamps_together(p.t, shown),
        hidden_from_the_right(p, shown),
    ensures
        p.settle(shown) matches Some(less) ==> lamps_together(p.t, less) && hidden_from_the_right(
            p,
            less,
        ),
    decreases indices(shown).len(),
{
    if !p.fits(shown) {
        p.hide_next_hides(shown);
        hiding_keeps_the_order(p, shown);
        match p.hide_next(shown) {
            Some(less) => {
                without_branch_keeps_the_order(p, less);
            },
            None => {},
        }
    }
}

/// Detail columns disappear from the right: where a layout shows a column right
/// of `TITLE`, it shows all between them, but for lamps and `BRANCH`.
pub proof fn details_disappear_from_the_right(
    f: Frame,
    t: TableView,
    a: Option<AlignmentView>,
    title: int,
    c: int,
    d: int,
)
    requires
        t.column("TITLE"@) == Some(title),
        title < c < d < t.header.len(),
        Some(c) != t.column("BRANCH"@),
        Some(d) != t.column("BRANCH"@),
        !is_lamp(t.header[c]),
        !is_lamp(t.header[d]),
    ensures
        layout(f, t, a) matches Some(l) ==> (l.columns.contains(d) ==> l.columns.contains(c)),
{
    let p = plan(f, t, a, title);
    ordered_start(f, t, a, title);
    settling_of_the_start(f, t, a, title);
    match p.settle(p.start()) {
        Some(shown) => {
            p.settle_fits(p.start());
            shown_iff_listed(shown, c);
            shown_iff_listed(shown, d);
        },
        None => {},
    }
}

/// `BRANCH` survives all other optional columns: where a layout shows any column
/// right of `TITLE`, it shows `BRANCH`, unless the alignment hides it.
pub proof fn branch_survives_the_details(
    f: Frame,
    t: TableView,
    a: Option<AlignmentView>,
    title: int,
    c: int,
)
    requires
        t.column("TITLE"@) == Some(title),
        title < c < t.header.len(),
        t.column("BRANCH"@) is Some,
        !(a is Some && a->0.hide_branch),
    ensures
        layout(f, t, a) matches Some(l) ==> (l.columns.contains(c) ==> l.columns.contains(
            t.column("BRANCH"@)->0,
        )),
{
    let p = plan(f, t, a, title);
    ordered_start(f, t, a, title);
    settling_of_the_start(f, t, a, title);
    match p.settle(p.start()) {
        Some(shown) => {
            p.settle_fits(p.start());
            shown_iff_listed(shown, c);
            shown_iff_listed(shown, p.branch->0);
        },
        None => {},
    }
}

/// `TITLE` and what stands left of it are never hidden, lamps and `BRANCH`
/// aside.
pub proof fn the_prefix_is_never_hidden(
    f: Frame,
    t: TableView,
    a: Option<AlignmentView>,
    title: int,
    c: int,
)
    requires
        t.column("TITLE"@) == Some(title),
        0 <= c <= title,
        !is_lamp(t.header[c]),
        Some(c) != t.column("BRANCH"@),
    ensures
        layout(f, t, a) matches Some(l) ==> l.columns.contains(c),
{
    let p = plan(f, t, a, title);
    plan_is_valid(f, t, a, title);
    p.settle_keeps(p.start(), c);
    match p.settle(p.start()) {
        Some(shown) => {
            indices_are_the_shown(shown);
        },
        None => {},
    }
}

/// The widths of shown columns, those that do not flex and those that do.
proof fn widths_add_up(p: Plan, shown: Seq<bool>, n: int)
    requires
        p.valid(shown),
        0 <= n <= indices(shown).len(),
    ensures
        ({
            let cols = indices(shown).take(n);
            total(p.layout(shown).widths.take(n)) == p.fixed(cols) + (if cols.contains(p.title) {
                p.title_width(shown)
            } else {
                0
            }) + (if p.branch is Some && cols.contains(p.branch->0) {
                p.branch_width(shown)
            } else {
                0
            })
        }),
    decreases n,
{
    let cols = indices(shown).take(n);
    let widths = p.layout(shown).widths;
    indices_are_the_shown(shown);
    if n > 0 {
        let c = indices(shown)[n - 1];
        let rest = indices(shown).take(n - 1);
        widths_add_up(p, shown, n - 1);
        assert(cols.drop_last() =~= rest);
        assert(cols.last() == c);
        assert(widths.take(n).drop_last() =~= widths.take(n - 1));
        assert(widths.take(n).last() == p.final_width(shown, c));
        assert forall|x: int| cols.contains(x) <==> (rest.contains(x) || x == c) by {
            if cols.contains(x) {
                let k = choose|k: int| 0 <= k < cols.len() && cols[k] == x;
                if k < n - 1 {
                    assert(rest[k] == x);
                }
            }
            if rest.contains(x) {
                let k = choose|k: int| 0 <= k < rest.len() && rest[k] == x;
                assert(cols[k] == x);
            }
            if x == c {
                assert(cols[n - 1] == c);
            }
        }
        assert(!rest.contains(c)) by {
            if rest.contains(c) {
                let k = choose|k: int| 0 <= k < rest.len() && rest[k] == c;
                assert(indices(shown)[k] < indices(shown)[n - 1]);
            }
        }
    }
}

/// A table with a `TITLE` fills the surface from edge to edge: the widths of its
/// shown columns and the gaps between them add up to the width of the surface.
pub proof fn a_table_fills_the_surface(
    f: Frame,
    t: TableView,
    a: Option<AlignmentView>,
    title: int,
)
    requires
        t.column("TITLE"@) == Some(title),
    ensures
        layout(f, t, a) matches Some(l) ==> total(l.widths) + SEP * (l.columns.len() - 1)
            == f.width,
{
    let p = plan(f, t, a, title);
    plan_is_valid(f, t, a, title);
    column_in_header(t, "TITLE"@);
    names_differ();
    p.settle_keeps(p.start(), title);
    match p.settle(p.start()) {
        Some(shown) => {
            let n = indices(shown).len() as int;
            indices_are_the_shown(shown);
            widths_add_up(p, shown, n);
            assert(indices(shown).take(n) =~= indices(shown));
            assert(p.layout(shown).widths.take(n) =~= p.layout(shown).widths);
            assert(indices(shown).contains(title));
            if p.branch is Some {
                shown_iff_listed(shown, p.branch->0);
            }
            assert(n > 0);
        },
        None => {},
    }
}

/// `TITLE` is wider than `BRANCH`, unless tables share their `TITLE` width.
pub proof fn title_is_wider_than_branch(f: Frame, t: TableView, a: Option<AlignmentView>, title: int)
    requires
        t.column("TITLE"@) == Some(title),
        a is Some ==> a->0.title is None,
    ensures
        ({
            let p = plan(f, t, a, title);
            p.settle(p.start()) matches Some(shown) ==> (p.branch_shown(shown) ==> p.title_width(
                shown,
            ) > p.branch_width(shown) && p.branch_width(shown) >= BRANCH_MIN)
        }),
{
    let p = plan(f, t, a, title);
    plan_is_valid(f, t, a, title);
    p.settle_fits(p.start());
}

/// A wider surface shows no fewer columns: what fits on the narrower one is shown
/// on the wider one too.
pub proof fn a_wider_surface_shows_no_less(
    narrow: Frame,
    wide: Frame,
    t: TableView,
    a: Option<AlignmentView>,
    c: int,
)
    requires
        narrow.width <= wide.width,
        narrow.measure == wide.measure,
        0 <= c < t.header.len(),
    ensures
        layout(narrow, t, a) matches Some(l) ==> layout(wide, t, a) is Some && (l.columns.contains(
            c,
        ) ==> layout(wide, t, a)->0.columns.contains(c)),
{
    match t.column("TITLE"@) {
        Some(title) => {
            let p = plan(narrow, t, a, title);
            let q = plan(wide, t, a, title);
            plan_is_valid(narrow, t, a, title);
            assert(p.start() =~= q.start());
            settling_sooner(p, q, p.start());
            match p.settle(p.start()) {
                Some(shown) => {
                    p.settle_fits(p.start());
                    q.settle_fits(q.start());
                    shown_iff_listed(shown, c);
                    shown_iff_listed(q.settle(q.start())->0, c);
                },
                None => {},
            }
        },
        None => {},
    }
}

/// On a wider surface settling stops no later.
proof fn settling_sooner(p: Plan, q: Plan, shown: Seq<bool>)
    requires
        p.valid(shown),
        p.f.width <= q.f.width,
        p.f.measure == q.f.measure,
        p.t == q.t,
        p.alignment == q.alignment,
        p.title == q.title,
        p.branch == q.branch,
    ensures
        p.settle(shown) matches Some(less) ==> q.settle(shown) is Some && forall|i: int|
            0 <= i < less.len() && #[trigger] less[i] ==> q.settle(shown)->0[i],
    decreases indices(shown).len(),
{
    same_fixed_width(p, q, indices(shown));
    same_next(p, q, shown, shown.len() as int);
    p.settle_fits(shown);
    if !p.fits(shown) {
        p.hide_next_hides(shown);
        match p.hide_next(shown) {
            Some(less) => {
                settling_sooner(p, q, less);
                if q.fits(shown) {
                    assert(q.settle(shown) == Some(shown));
                } else {
                    assert(q.hide_next(shown) == Some(less));
                }
            },
            None => {},
        }
    }
}

proof fn same_fixed_width(p: Plan, q: Plan, columns: Seq<int>)
    requires
        p.f.measure == q.f.measure,
        p.t == q.t,
        p.alignment == q.alignment,
        p.title == q.title,
        p.branch == q.branch,
    ensures
        p.fixed(columns) == q.fixed(columns),
    decreases columns.len(),
{
    if columns.len() > 0 {
        same_fixed_width(p, q, columns.drop_last());
        same_natural_width(p.f, q.f, p.t, columns.last());
    }
}

/// How wide a column is does not depend on the size of the surface.
proof fn same_natural_width(f: Frame, g: Frame, t: TableView, c: int)
    requires
        f.measure == g.measure,
    ensures
        natural_width(f, t, c) == natural_width(g, t, c),
{
    same_widest(f, g, t.rows, c, crate::surface::text_width(f.measure, t.header[c]) as int);
}

proof fn same_widest(
    f: Frame,
    g: Frame,
    rows: Seq<Seq<crate::table::CellText>>,
    c: int,
    floor: int,
)
    requires
        f.measure == g.measure,
    ensures
        crate::table::widest(f, rows, c, floor) == crate::table::widest(g, rows, c, floor),
    decreases rows.len(),
{
    if rows.len() > 0 {
        same_widest(f, g, rows.drop_last(), c, floor);
    }
}

proof fn same_next(p: Plan, q: Plan, shown: Seq<bool>, upto: int)
    requires
        p.title == q.title,
        p.branch == q.branch,
    ensures
        p.rightmost(shown, upto) == q.rightmost(shown, upto),
    decreases upto,
{
    if upto > 0 && upto > p.title + 1 {
        same_next(p, q, shown, upto - 1);
    }
}

/// No column is narrower than nothing.
proof fn widths_are_widths(p: Plan, c: int)
    requires
        p.alignment is Some ==> p.alignment->0.valid(),
        0 <= c,
    ensures
        0 <= p.width(c) <= 0xffff,
{
    natural_width_bound(p.f, p.t, c);
    if c < p.title && p.alignment is Some && c < p.alignment->0.prefix.len() {
        assert(0 <= p.alignment->0.prefix[c]);
    }
}

/// The columns left of `TITLE` are listed first and take the prefix widths; what
/// follows only adds to them.
proof fn prefix_is_listed_first(p: Plan, shown: Seq<bool>, k: int)
    requires
        p.valid(shown),
        p.alignment is Some ==> p.alignment->0.valid(),
        forall|c: int| 0 <= c <= p.title ==> #[trigger] shown[c],
        p.branch is Some ==> p.branch->0 > p.title,
        0 <= k <= shown.len(),
    ensures
        k <= p.title ==> indices(shown.take(k)).len() == k && p.fixed(indices(shown.take(k)))
            == p.prefix_sum(k),
        k > p.title ==> indices(shown.take(k)).len() > p.title && p.fixed(indices(shown.take(k)))
            >= p.prefix_sum(p.title),
    decreases k,
{
    if k > 0 {
        prefix_is_listed_first(p, shown, k - 1);
        assert(shown.take(k).drop_last() =~= shown.take(k - 1));
        assert(shown.take(k).last() == shown[k - 1]);
        let cols = indices(shown.take(k));
        if shown[k - 1] {
            assert(cols.drop_last() =~= indices(shown.take(k - 1)));
            widths_are_widths(p, k - 1);
        }
    }
}

/// Where only `TITLE` and what stands left of it are shown, that is all that
/// counts.
proof fn only_the_prefix(p: Plan, shown: Seq<bool>, k: int)
    requires
        p.valid(shown),
        forall|c: int| 0 <= c <= p.title ==> #[trigger] shown[c],
        forall|c: int| p.title < c < shown.len() ==> !#[trigger] shown[c],
        p.branch is Some ==> p.branch->0 > p.title,
        0 <= k <= shown.len(),
    ensures
        k <= p.title ==> indices(shown.take(k)).len() == k && p.fixed(indices(shown.take(k)))
            == p.prefix_sum(k),
        k > p.title ==> indices(shown.take(k)).len() == p.title + 1 && p.fixed(
            indices(shown.take(k)),
        ) == p.prefix_sum(p.title),
    decreases k,
{
    if k > 0 {
        only_the_prefix(p, shown, k - 1);
        assert(shown.take(k).drop_last() =~= shown.take(k - 1));
        assert(shown.take(k).last() == shown[k - 1]);
        if shown[k - 1] {
            assert(indices(shown.take(k)).drop_last() =~= indices(shown.take(k - 1)));
        }
    }
}

/// Settling succeeds where the columns that are never hidden fit.
proof fn settling_succeeds(p: Plan, shown: Seq<bool>)
    requires
        p.valid(shown),
        forall|c: int| 0 <= c <= p.title ==> #[trigger] shown[c],
        forall|c: int| 0 <= c <= p.title ==> !is_lamp(#[trigger] p.t.header[c]),
        p.branch is Some ==> p.branch->0 > p.title,
        p.prefix_sum(p.title) + SEP * p.title + TITLE_MIN <= p.f.width,
    ensures
        p.settle(shown) is Some,
    decreases indices(shown).len(),
{
    if !p.fits(shown) {
        p.hide_next_hides(shown);
        p.rightmost_is_shown(shown, shown.len() as int);
        match p.hide_next(shown) {
            Some(less) => {
                assert forall|c: int| 0 <= c <= p.title implies #[trigger] less[c] by {
                    assert(shown[c]);
                    assert(!is_lamp(p.t.header[c]));
                }
                settling_succeeds(p, less);
            },
            None => {
                only_the_prefix(p, shown, shown.len() as int);
                assert(shown.take(shown.len() as int) =~= shown);
                assert(false);
            },
        }
    }
}

/// A table is shown exactly where its required width fits: where nothing left of
/// `TITLE` is a lamp or `BRANCH`, so that all of it is mandatory.
pub proof fn a_table_fits_where_its_required_width_does(
    f: Frame,
    t: TableView,
    a: AlignmentView,
    title: int,
)
    requires
        t.column("TITLE"@) == Some(title),
        a.valid(),
        plain_prefix(t, title),
    ensures
        layout(f, t, Some(a)) is Some <==> required_width(f, t, a) <= f.width,
{
    let p = plan(f, t, Some(a), title);
    plan_is_valid(f, t, Some(a), title);
    column_in_header(t, "TITLE"@);
    column_in_header(t, "BRANCH"@);
    names_differ();
    assert(p.branch is Some ==> p.branch->0 > title) by {
        if p.branch is Some && p.branch->0 < title {
            assert(!is_lamp(t.header[p.branch->0]));
        }
    }
    assert forall|c: int| 0 <= c <= p.title implies !is_lamp(#[trigger] p.t.header[c]) by {}
    if required_width(f, t, a) <= f.width {
        settling_succeeds(p, p.start());
    }
    match p.settle(p.start()) {
        Some(shown) => {
            p.settle_fits(p.start());
            assert forall|c: int| 0 <= c <= title implies #[trigger] shown[c] by {
                p.settle_keeps(p.start(), c);
            }
            prefix_is_listed_first(p, shown, shown.len() as int);
            assert(shown.take(shown.len() as int) =~= shown);
        },
        None => {},
    }
}

/// The first listed columns are those left of `TITLE`, then `TITLE`.
proof fn prefix_positions(p: Plan, shown: Seq<bool>, k: int)
    requires
        p.valid(shown),
        forall|c: int| 0 <= c <= p.title ==> #[trigger] shown[c],
        0 <= k <= p.title,
    ensures
        indices(shown).len() > p.title,
        indices(shown)[k] == k,
{
    listed_in_place(shown, p.title + 1, shown.len() as int);
    assert(shown.take(shown.len() as int) =~= shown);
}

/// Columns before the first hidden one are listed in place.
proof fn listed_in_place(shown: Seq<bool>, n: int, upto: int)
    requires
        0 <= n <= shown.len(),
        0 <= upto <= shown.len(),
        forall|c: int| 0 <= c < n ==> #[trigger] shown[c],
    ensures
        ({
            let cols = indices(shown.take(upto));
            &&& cols.len() >= if upto < n {
                upto
            } else {
                n
            }
            &&& upto <= n ==> cols.len() == upto
            &&& forall|k: int| 0 <= k < n && k < upto ==> #[trigger] cols[k] == k
        }),
    decreases upto,
{
    if upto > 0 {
        listed_in_place(shown, n, upto - 1);
        assert(shown.take(upto).drop_last() =~= shown.take(upto - 1));
        assert(shown.take(upto).last() == shown[upto - 1]);
    }
}

/// The starts of the first columns are those of their shared widths.
proof fn starts_are_shared(p: Plan, shown: Seq<bool>, k: int)
    requires
        p.valid(shown),
        forall|c: int| 0 <= c <= p.title ==> #[trigger] shown[c],
        p.branch is Some ==> p.branch->0 > p.title,
        0 <= k <= p.title,
    ensures
        column_start(p.layout(shown), k) == p.prefix_sum(k) + SEP * k,
    decreases k,
{
    if k > 0 {
        starts_are_shared(p, shown, k - 1);
        prefix_positions(p, shown, k - 1);
        assert(p.layout(shown).widths[k - 1] == p.final_width(shown, k - 1));
    }
}

/// A shared width is that of the widest column: no table has a wider one, and
/// where it is more than nothing, one has just that width.
pub proof fn a_shared_width_is_the_widest(f: Frame, ts: Seq<TableView>, c: int)
    requires
        0 <= c,
    ensures
        forall|i: int|
            0 <= i < ts.len() && c < (#[trigger] ts[i]).header.len() ==> natural_width(f, ts[i], c)
                <= shared_width(f, ts, c),
        shared_width(f, ts, c) > 0 ==> exists|i: int|
            0 <= i < ts.len() && c < (#[trigger] ts[i]).header.len() && natural_width(f, ts[i], c)
                == shared_width(f, ts, c),
    decreases ts.len(),
{
    if ts.len() > 0 {
        let rest = ts.drop_last();
        let n = ts.len() - 1;
        a_shared_width_is_the_widest(f, rest, c);
        assert forall|i: int| 0 <= i < ts.len() && c < (
        #[trigger] ts[i]).header.len() implies natural_width(f, ts[i], c) <= shared_width(
            f,
            ts,
            c,
        ) by {
            if i < n {
                assert(rest[i] == ts[i]);
            }
        }
        if shared_width(f, ts, c) > 0 {
            if c < ts[n].header.len() && natural_width(f, ts[n], c) == shared_width(f, ts, c) {
            } else {
                let i = choose|i: int|
                    0 <= i < rest.len() && c < (#[trigger] rest[i]).header.len() && natural_width(
                        f,
                        rest[i],
                        c,
                    ) == shared_width(f, rest, c);
                assert(ts[i] == rest[i]);
            }
        }
    }
}

/// A table of an alignment that fits shows its `BRANCH` exactly where the
/// alignment does not hide the branches.
proof fn branches_go_together(f: Frame, ts: Seq<TableView>, i: int, title: int, branch: int)
    requires
        0 <= i < ts.len(),
        ts[i].column("TITLE"@) == Some(title),
        ts[i].column("BRANCH"@) == Some(branch),
        title < branch,
        plain_prefix(ts[i], title),
    ensures
        ({
            let a = alignment_of(f, ts);
            layout(f, ts[i], Some(a)) matches Some(l) ==> {
                &&& l.columns.contains(branch) <==> !a.hide_branch
                &&& !a.hide_branch ==> a.title is Some
            }
        }),
{
    let t = ts[i];
    let base = prefix_alignment(f, ts);
    let a = alignment_of(f, ts);
    let p = plan(f, t, Some(base), title);
    let q = plan(f, t, Some(a), title);
    plan_is_valid(f, t, Some(base), title);
    plan_is_valid(f, t, Some(a), title);
    column_in_header(t, "BRANCH"@);
    q.settle_fits(q.start());
    match q.settle(q.start()) {
        Some(shown) => {
            shown_iff_listed(shown, branch);
            if !a.hide_branch {
                assert(!loses_branch(f, ts[i], base));
                assert(p.start() =~= q.start());
                p.title_width_moves_no_column(q, p.start());
                let l = layout(f, t, Some(base));
                assert(shows(t, l, "BRANCH"@));
                let k = choose|k: int|
                    0 <= k < l->0.columns.len() && t.header[#[trigger] l->0.columns[k]]
                        == "BRANCH"@;
                let c = l->0.columns[k];
                indices_are_the_shown(shown);
                assert(shown[c]);
                names_differ();
                t.header.index_of_first_ensures("BRANCH"@);
                assert(c >= branch);
                assert(l->0.columns.contains(c));
                branch_survives_the_details(f, t, Some(base), title, c);
                narrowest_is_least(f, ts, base, i);
            }
        },
        None => {},
    }
}

/// Aligned tables have their columns start at the same cells: two tables of one
/// alignment with their `TITLE` at the same place, and only plain columns left of
/// it, give every column left of `TITLE` the width of the widest one of all the
/// tables, and start every column up to `TITLE` at the same cell. Where both have
/// a `BRANCH` next to it, either both show it, and start it at the same cell, or
/// neither does.
pub proof fn aligned_tables_start_their_columns_together(
    f: Frame,
    ts: Seq<TableView>,
    i: int,
    j: int,
    title: int,
    k: int,
)
    requires
        0 <= i < ts.len(),
        0 <= j < ts.len(),
        ts[i].column("TITLE"@) == Some(title),
        ts[j].column("TITLE"@) == Some(title),
        plain_prefix(ts[i], title),
        plain_prefix(ts[j], title),
        0 <= k <= title,
    ensures
        ({
            let a = alignment_of(f, ts);
            layout(f, ts[i], Some(a)) matches Some(l) ==> (layout(f, ts[j], Some(a)) matches Some(
                m,
            ) ==> {
                &&& k < title ==> l.columns[k] == k && l.widths[k] == shared_width(f, ts, k)
                &&& column_start(l, k) == column_start(m, k)
                &&& ts[i].column("BRANCH"@) == Some(title + 1) && ts[j].column("BRANCH"@) == Some(
                    title + 1,
                ) ==> {
                    &&& l.columns.contains(title + 1) <==> m.columns.contains(title + 1)
                    &&& l.columns.contains(title + 1) ==> column_start(l, title + 1)
                        == column_start(m, title + 1)
                }
            })
        }),
{
    let a = alignment_of(f, ts);
    let p = plan(f, ts[i], Some(a), title);
    let q = plan(f, ts[j], Some(a), title);
    prefix_reaches(ts, i, title);
    match (p.settle(p.start()), q.settle(q.start())) {
        (Some(shown), Some(other)) => {
            aligned_start(f, ts[i], a, title, shown, k);
            aligned_start(f, ts[j], a, title, other, k);
            aligned_start(f, ts[i], a, title, shown, title);
            aligned_start(f, ts[j], a, title, other, title);
            same_prefix_sum(p, q, k);
            same_prefix_sum(p, q, title);
            if k < title {
                aligned_column(f, ts[i], a, title, shown, k);
                assert(a.prefix[k] == shared_width(f, ts, k));
            }
            if p.branch == Some(title + 1) && q.branch == Some(title + 1) {
                branches_go_together(f, ts, i, title, title + 1);
                branches_go_together(f, ts, j, title, title + 1);
                shown_iff_listed(shown, title + 1);
                shown_iff_listed(other, title + 1);
            }
        },
        _ => {},
    }
}

/// A column left of `TITLE` is listed in its place, with its shared width.
proof fn aligned_column(
    f: Frame,
    t: TableView,
    a: AlignmentView,
    title: int,
    shown: Seq<bool>,
    k: int,
)
    requires
        t.column("TITLE"@) == Some(title),
        plain_prefix(t, title),
        plan(f, t, Some(a), title).settle(plan(f, t, Some(a), title).start()) == Some(shown),
        0 <= k < title <= a.prefix.len(),
    ensures
        ({
            let l = plan(f, t, Some(a), title).layout(shown);
            l.columns[k] == k && l.widths[k] == a.prefix[k]
        }),
{
    let p = plan(f, t, Some(a), title);
    plan_is_valid(f, t, Some(a), title);
    column_in_header(t, "TITLE"@);
    column_in_header(t, "BRANCH"@);
    names_differ();
    p.settle_fits(p.start());
    assert forall|c: int| 0 <= c <= title implies #[trigger] shown[c] by {
        assert(c < title ==> !is_lamp(t.header[c]));
        p.settle_keeps(p.start(), c);
    }
    prefix_positions(p, shown, k);
    assert(p.layout(shown).widths[k] == p.final_width(shown, k));
    assert(Some(k) != p.branch) by {
        assert(!is_lamp(t.header[k]));
    }
}

/// The prefix of an alignment reaches as far as the `TITLE` of each table.
proof fn prefix_reaches(ts: Seq<TableView>, i: int, title: int)
    requires
        0 <= i < ts.len(),
        ts[i].column("TITLE"@) == Some(title),
    ensures
        title <= prefix_len(ts),
    decreases ts.len(),
{
    if i < ts.len() - 1 {
        prefix_reaches(ts.drop_last(), i, title);
    }
}

proof fn same_prefix_sum(p: Plan, q: Plan, k: int)
    requires
        p.alignment == q.alignment,
        p.alignment is Some,
        p.title == q.title,
        0 <= k <= p.title <= p.alignment->0.prefix.len(),
    ensures
        p.prefix_sum(k) == q.prefix_sum(k),
    decreases k,
{
    if k > 0 {
        same_prefix_sum(p, q, k - 1);
    }
}

/// Where the columns of one aligned table start.
proof fn aligned_start(
    f: Frame,
    t: TableView,
    a: AlignmentView,
    title: int,
    shown: Seq<bool>,
    k: int,
)
    requires
        t.column("TITLE"@) == Some(title),
        plain_prefix(t, title),
        plan(f, t, Some(a), title).settle(plan(f, t, Some(a), title).start()) == Some(shown),
        0 <= k <= title,
    ensures
        ({
            let p = plan(f, t, Some(a), title);
            &&& p.valid(shown)
            &&& column_start(p.layout(shown), k) == p.prefix_sum(k) + SEP * k
            &&& p.layout(shown).widths[title] == p.title_width(shown)
            &&& indices(shown).len() > title
            &&& column_start(p.layout(shown), title + 1) == column_start(p.layout(shown), title)
                + p.title_width(shown) + SEP
        }),
{
    let p = plan(f, t, Some(a), title);
    plan_is_valid(f, t, Some(a), title);
    column_in_header(t, "TITLE"@);
    column_in_header(t, "BRANCH"@);
    names_differ();
    assert(p.branch is Some ==> p.branch->0 > title) by {
        if p.branch is Some && p.branch->0 < title {
            assert(!is_lamp(t.header[p.branch->0]));
        }
    }
    p.settle_fits(p.start());
    assert forall|c: int| 0 <= c <= title implies #[trigger] shown[c] by {
        assert(c < title ==> !is_lamp(t.header[c]));
        p.settle_keeps(p.start(), c);
    }
    starts_are_shared(p, shown, k);
    prefix_positions(p, shown, title);
}

/// No shared width is wider than a surface can be.
proof fn shared_width_bound(f: Frame, ts: Seq<TableView>, c: int)
    requires
        0 <= c,
    ensures
        0 <= shared_width(f, ts, c) <= 0xffff,
    decreases ts.len(),
{
    if ts.len() > 0 {
        shared_width_bound(f, ts.drop_last(), c);
        natural_width_bound(f, ts.last(), c);
    }
}

/// Columns take no less than nothing.
proof fn fixed_is_no_debt(p: Plan, columns: Seq<int>)
    requires
        p.alignment is Some ==> p.alignment->0.valid(),
        forall|k: int| 0 <= k < columns.len() ==> 0 <= #[trigger] columns[k],
    ensures
        0 <= p.fixed(columns),
    decreases columns.len(),
{
    if columns.len() > 0 {
        fixed_is_no_debt(p, columns.drop_last());
        widths_are_widths(p, columns.last());
    }
}

/// A `TITLE` is no wider than a surface can be.
proof fn own_title_width_bound(f: Frame, t: TableView, base: AlignmentView)
    requires
        base.valid(),
        base.title is None,
    ensures
        own_title_width(f, t, base) matches Some(w) ==> 0 <= w <= 0xffff,
{
    match t.column("TITLE"@) {
        Some(title) => {
            let p = plan(f, t, Some(base), title);
            plan_is_valid(f, t, Some(base), title);
            p.settle_fits(p.start());
            match p.settle(p.start()) {
                Some(shown) => {
                    indices_are_the_shown(shown);
                    fixed_is_no_debt(p, indices(shown));
                },
                None => {},
            }
        },
        None => {},
    }
}

/// The narrowest `TITLE` is no wider than a surface can be.
proof fn narrowest_title_bound(f: Frame, ts: Seq<TableView>, base: AlignmentView)
    requires
        base.valid(),
        base.title is None,
    ensures
        narrowest_title(f, ts, base) matches Some(w) ==> 0 <= w <= 0xffff,
    decreases ts.len(),
{
    if ts.len() > 0 {
        narrowest_title_bound(f, ts.drop_last(), base);
        own_title_width_bound(f, ts.last(), base);
    }
}

/// No width that tables share is wider than a surface can be.
pub proof fn an_alignment_is_valid(f: Frame, ts: Seq<TableView>)
    ensures
        alignment_of(f, ts).valid(),
{
    let base = prefix_alignment(f, ts);
    assert forall|c: int| 0 <= c < base.prefix.len() implies 0 <= #[trigger] base.prefix[c]
        <= 0xffff by {
        shared_width_bound(f, ts, c);
    }
    narrowest_title_bound(f, ts, base);
}

/// Shared widths do not depend on the size of the surface.
proof fn same_shared_width(f: Frame, g: Frame, ts: Seq<TableView>, c: int)
    requires
        f.measure == g.measure,
    ensures
        shared_width(f, ts, c) == shared_width(g, ts, c),
    decreases ts.len(),
{
    if ts.len() > 0 {
        same_shared_width(f, g, ts.drop_last(), c);
        same_natural_width(f, g, ts.last(), c);
    }
}

/// What the columns left of `TITLE` take does not depend on the size of the
/// surface.
proof fn same_prefix(p: Plan, q: Plan, k: int)
    requires
        p.f.measure == q.f.measure,
        p.t == q.t,
        p.title == q.title,
        p.alignment is Some,
        q.alignment is Some,
        p.alignment->0.prefix == q.alignment->0.prefix,
    ensures
        p.prefix_sum(k) == q.prefix_sum(k),
    decreases k,
{
    if k > 0 {
        same_prefix(p, q, k - 1);
        same_natural_width(p.f, q.f, p.t, k - 1);
    }
}

/// The width that a table with a `TITLE` requires, aligned with others, does not
/// depend on the size of the surface.
pub proof fn a_required_width_is_fixed(f: Frame, g: Frame, ts: Seq<TableView>, i: int)
    requires
        f.measure == g.measure,
        0 <= i < ts.len(),
        ts[i].column("TITLE"@) is Some,
    ensures
        required_width(f, ts[i], alignment_of(f, ts)) == required_width(
            g,
            ts[i],
            alignment_of(g, ts),
        ),
{
    let a = alignment_of(f, ts);
    let b = alignment_of(g, ts);
    assert forall|c: int| 0 <= c < a.prefix.len() implies #[trigger] a.prefix[c] == b.prefix[c] by {
        same_shared_width(f, g, ts, c);
    }
    assert(a.prefix =~= b.prefix);
    let title = ts[i].column("TITLE"@)->0;
    same_prefix(plan(f, ts[i], Some(a), title), plan(g, ts[i], Some(b), title), title);
}

/// The width of `BRANCH`, where a table has one.
pub open spec fn branch_wish(f: Frame, t: TableView) -> int {
    match t.column("BRANCH"@) {
        Some(b) => natural_width(f, t, b),
        None => 0,
    }
}

/// What a table with all of its columns leaves for `TITLE` and `BRANCH`.
pub open spec fn whole_room(f: Frame, t: TableView, base: AlignmentView, title: int) -> int {
    plan(f, t, Some(base), title).flexible(every_column(t))
}

/// All columns of a table.
pub open spec fn every_column(t: TableView) -> Seq<bool> {
    Seq::new(t.header.len(), |c: int| true)
}

/// Whether a surface leaves each of the tables room for all of its columns, and
/// for its `BRANCH` and the longest `TITLE` of any of them at full length.
pub open spec fn wide_enough(f: Frame, ts: Seq<TableView>) -> bool {
    forall|i: int, j: int|
        #![trigger ts[i], ts[j]]
        0 <= i < ts.len() && 0 <= j < ts.len() ==> {
            let base = prefix_alignment(f, ts);
            ts[i].column("TITLE"@) matches Some(title) ==> (ts[j].column("TITLE"@) matches Some(
                other,
            ) ==> 2 * branch_wish(f, ts[i]) + natural_width(f, ts[j], other) + 2 * BRANCH_MIN + 1
                <= whole_room(f, ts[i], base, title))
        }
}

/// All columns are listed, each in its place.
proof fn all_are_listed(t: TableView)
    ensures
        indices(every_column(t)).len() == t.header.len(),
        forall|k: int|
            0 <= k < t.header.len() ==> #[trigger] indices(every_column(t))[k] == k,
{
    let shown = every_column(t);
    listed_in_place(shown, shown.len() as int, shown.len() as int);
    assert(shown.take(shown.len() as int) =~= shown);
    indices_are_the_shown(shown);
}

/// On a surface that is wide enough a table shows all of its columns, and its own
/// `TITLE` is at least as wide as any of them.
proof fn whole_on_its_own(f: Frame, ts: Seq<TableView>, i: int, j: int)
    requires
        wide_enough(f, ts),
        0 <= i < ts.len(),
        0 <= j < ts.len(),
        ts[i].column("TITLE"@) is Some,
        ts[j].column("TITLE"@) is Some,
    ensures
        ({
            let base = prefix_alignment(f, ts);
            let title = ts[i].column("TITLE"@)->0;
            let p = plan(f, ts[i], Some(base), title);
            let all = every_column(ts[i]);
            &&& p.start() == all
            &&& p.fits(all)
            &&& p.settle(all) == Some(all)
            &&& own_title_width(f, ts[i], base) == Some(p.title_width(all))
            &&& p.title_width(all) >= natural_width(f, ts[j], ts[j].column("TITLE"@)->0)
            &&& p.branch is Some ==> p.flexible(all) - p.title_width(all) >= branch_wish(f, ts[i])
            &&& ts[i].column("BRANCH"@) is Some ==> shows(
                ts[i],
                layout(f, ts[i], Some(base)),
                "BRANCH"@,
            )
        }),
{
    let base = prefix_alignment(f, ts);
    let t = ts[i];
    let title = t.column("TITLE"@)->0;
    let other = ts[j].column("TITLE"@)->0;
    let p = plan(f, t, Some(base), title);
    let all = every_column(t);
    plan_is_valid(f, t, Some(base), title);
    assert(p.start() =~= all);
    column_in_header(t, "BRANCH"@);
    column_in_header(ts[j], "TITLE"@);
    natural_width_bound(f, ts[j], other);
    if p.branch is Some {
        natural_width_bound(f, t, p.branch->0);
    }
    assert(2 * branch_wish(f, t) + natural_width(f, ts[j], other) + 2 * BRANCH_MIN + 1
        <= p.flexible(all));
    assert(p.fits(all));
    all_are_listed(t);
    if p.branch is Some {
        let l = layout(f, t, Some(base))->0;
        assert(l == p.layout(all));
        assert(l.columns[p.branch->0] == p.branch->0);
    }
}

/// The narrowest `TITLE` is that of one of the tables.
proof fn narrowest_is_one(f: Frame, ts: Seq<TableView>, base: AlignmentView, floor: int)
    requires
        forall|i: int|
            0 <= i < ts.len() ==> (own_title_width(f, #[trigger] ts[i], base) matches Some(w)
                ==> w >= floor),
    ensures
        narrowest_title(f, ts, base) matches Some(w) ==> w >= floor,
    decreases ts.len(),
{
    if ts.len() > 0 {
        assert forall|i: int| 0 <= i < ts.drop_last().len() implies (own_title_width(
            f,
            #[trigger] ts.drop_last()[i],
            base,
        ) matches Some(w) ==> w >= floor) by {
            assert(ts.drop_last()[i] == ts[i]);
        }
        narrowest_is_one(f, ts.drop_last(), base, floor);
        assert(ts.last() == ts[ts.len() - 1]);
    }
}

/// A surface that is wide enough shows everything: every table all of its
/// columns, no `TITLE` and no `BRANCH` cut. So where a table is compact, a wider
/// surface shows more.
pub proof fn a_wide_surface_shows_everything(f: Frame, ts: Seq<TableView>, i: int)
    requires
        wide_enough(f, ts),
        0 <= i < ts.len(),
        forall|j: int|
            0 <= j < ts.len() ==> ((#[trigger] ts[j]).column("TITLE"@) matches Some(title)
                ==> plain_prefix(ts[j], title)),
    ensures
        layout(f, ts[i], Some(alignment_of(f, ts))) is Some,
        !compact(f, ts[i], alignment_of(f, ts)),
{
    let t = ts[i];
    let base = prefix_alignment(f, ts);
    let a = alignment_of(f, ts);
    match t.column("TITLE"@) {
        None => {},
        Some(title) => {
            whole_on_its_own(f, ts, i, i);
            let p = plan(f, t, Some(base), title);
            let q = plan(f, t, Some(a), title);
            let all = every_column(t);
            plan_is_valid(f, t, Some(base), title);
            plan_is_valid(f, t, Some(a), title);
            let own = natural_width(f, t, title);
            // No table has to give its branch up, so the narrowest title is shared.
            assert forall|j: int| 0 <= j < ts.len() && (#[trigger] ts[j]).column(
                "TITLE"@,
            ) is Some implies !crate::table::loses_branch(f, ts[j], base) by {
                whole_on_its_own(f, ts, j, i);
            }
            assert forall|j: int| 0 <= j < ts.len() implies !crate::table::loses_branch(
                f,
                #[trigger] ts[j],
                base,
            ) by {
                if ts[j].column("TITLE"@) is None {
                    untitled_keeps_its_branch(f, ts[j], base);
                }
            }
            assert(!a.hide_branch);
            assert forall|j: int| 0 <= j < ts.len() implies (own_title_width(
                f,
                #[trigger] ts[j],
                base,
            ) matches Some(w) ==> w >= own) by {
                if ts[j].column("TITLE"@) is Some {
                    whole_on_its_own(f, ts, j, i);
                }
            }
            narrowest_is_one(f, ts, base, own);
            narrowest_is_least(f, ts, base, i);
            assert(q.start() =~= all);
            same_fixed_widths(p, q, indices(all));
            all_are_listed(t);
            assert(q.flexible(all) == p.flexible(all));
            assert(q.fits(all));
            assert(q.settle(all) == Some(all));
            column_in_header(t, "TITLE"@);
            column_in_header(t, "BRANCH"@);
            let l = q.layout(all);
            assert forall|k: int| 0 <= k < l.columns.len() && flexes(
                t.header[#[trigger] l.columns[k]],
            ) implies natural_width(f, t, l.columns[k]) <= l.widths[k] by {
                assert(l.columns[k] == k);
                assert(l.widths[k] == q.final_width(all, k));
                if k < title {
                    prefix_does_not_flex(t, title, k);
                }
            }
        },
    }
}

/// What stands left of `TITLE` is no `TITLE`, and no `BRANCH` where that is
/// plain.
proof fn prefix_does_not_flex(t: TableView, title: int, c: int)
    requires
        t.column("TITLE"@) == Some(title),
        plain_prefix(t, title),
        0 <= c < title,
    ensures
        !flexes(t.header[c]),
{
    t.header.index_of_first_ensures("TITLE"@);
    t.header.index_of_first_ensures("BRANCH"@);
    assert(!is_lamp(t.header[c]));
    match t.column("BRANCH"@) {
        Some(b) => {
            if b < title {
                assert(!is_lamp(t.header[b]));
            }
        },
        None => {},
    }
}

/// A table without a `TITLE` shows its `BRANCH`.
proof fn untitled_keeps_its_branch(f: Frame, t: TableView, base: AlignmentView)
    requires
        t.column("TITLE"@) is None,
    ensures
        !crate::table::loses_branch(f, t, base),
{
    column_in_header(t, "BRANCH"@);
    match t.column("BRANCH"@) {
        Some(b) => {
            let l = layout(f, t, Some(base))->0;
            assert(t.header[l.columns[b]] == "BRANCH"@);
        },
        None => {},
    }
}

/// Columns take as much under alignments of the same prefix.
proof fn same_fixed_widths(p: Plan, q: Plan, columns: Seq<int>)
    requires
        p.f == q.f,
        p.t == q.t,
        p.title == q.title,
        p.branch == q.branch,
        p.alignment is Some,
        q.alignment is Some,
        p.alignment->0.prefix == q.alignment->0.prefix,
    ensures
        p.fixed(columns) == q.fixed(columns),
    decreases columns.len(),
{
    if columns.len() > 0 {
        same_fixed_widths(p, q, columns.drop_last());
    }
}

/// No other name of a column is `BRANCH`.
proof fn other_names()
    ensures
        ""@ != "BRANCH"@,
        "#"@ != "BRANCH"@,
        "PR"@ != "BRANCH"@,
        "TITLE"@ != "BRANCH"@,
        "FAIL"@ != "BRANCH"@,
        "RUN"@ != "BRANCH"@,
        "PASS"@ != "BRANCH"@,
        "THREADS"@ != "BRANCH"@,
        "RELEASE"@ != "BRANCH"@,
        "MERGED"@ != "BRANCH"@,
        "AUTHOR"@ != "BRANCH"@,
        "WAIT"@ != "BRANCH"@,
        "BUILD"@ != "BRANCH"@,
        "UPDATED"@ != "BRANCH"@,
{
    reveal_strlit("");
    reveal_strlit("#");
    reveal_strlit("PR");
    reveal_strlit("TITLE");
    reveal_strlit("BRANCH");
    reveal_strlit("FAIL");
    reveal_strlit("RUN");
    reveal_strlit("PASS");
    reveal_strlit("THREADS");
    reveal_strlit("RELEASE");
    reveal_strlit("MERGED");
    reveal_strlit("AUTHOR");
    reveal_strlit("WAIT");
    reveal_strlit("BUILD");
    reveal_strlit("UPDATED");
    assert("BRANCH"@.len() == 6);
    assert("AUTHOR"@[0] != "BRANCH"@[0]);
    assert("MERGED"@[0] != "BRANCH"@[0]);
}

/// Every table of PRs has a `BRANCH` exactly where branches are asked for.
pub proof fn every_pr_table_has_its_branch_on_request(show_branch: bool)
    ensures
        crate::prs::header(show_branch).contains("BRANCH"@) <==> show_branch,
        crate::merged::header(show_branch).contains("BRANCH"@) <==> show_branch,
        crate::queue::header(show_branch).contains("BRANCH"@) <==> show_branch,
        crate::reviews::header(show_branch, "UPDATED"@).contains("BRANCH"@) <==> show_branch,
        crate::reviews::header(show_branch, "MERGED"@).contains("BRANCH"@) <==> show_branch,
{
    other_names();
    let b = "BRANCH"@;
    let open = crate::prs::header(show_branch);
    let merged = crate::merged::header(show_branch);
    let queue = crate::queue::header(show_branch);
    let reviews = crate::reviews::header(show_branch, "UPDATED"@);
    let reviewed = crate::reviews::header(show_branch, "MERGED"@);
    if show_branch {
        assert(open[4] == b && merged[4] == b && queue[4] == b && reviews[4] == b && reviewed[4]
            == b);
    } else {
        assert(open =~= seq![""@, ""@, "PR"@, "TITLE"@, "FAIL"@, "RUN"@, "PASS"@, "THREADS"@]);
        assert(merged =~= seq![""@, ""@, "PR"@, "TITLE"@, "RELEASE"@, "MERGED"@]);
        assert(queue =~= seq![
            ""@,
            "#"@,
            "PR"@,
            "TITLE"@,
            "AUTHOR"@,
            "WAIT"@,
            "BUILD"@,
            "FAIL"@,
            "RUN"@,
            "PASS"@,
        ]);
        assert(reviews =~= seq![""@, ""@, "PR"@, "TITLE"@, "AUTHOR"@, "UPDATED"@]);
        assert(reviewed =~= seq![""@, ""@, "PR"@, "TITLE"@, "AUTHOR"@, "MERGED"@]);
    }
}

/// A column is as wide as its widest text: neither its header nor any of its cells
/// is wider, and one of them is just as wide.
pub proof fn a_column_is_as_wide_as_its_widest_text(f: Frame, t: TableView, c: int)
    requires
        0 <= c < t.header.len(),
    ensures
        text_width(f.measure, t.header[c]) <= natural_width(f, t, c),
        forall|i: int|
            0 <= i < t.rows.len() && c < (#[trigger] t.rows[i]).len() ==> text_width(
                f.measure,
                t.rows[i][c].text,
            ) <= natural_width(f, t, c),
        natural_width(f, t, c) == text_width(f.measure, t.header[c]) || exists|i: int|
            0 <= i < t.rows.len() && c < (#[trigger] t.rows[i]).len() && text_width(
                f.measure,
                t.rows[i][c].text,
            ) == natural_width(f, t, c),
{
    the_widest_is_one_of_them(f, t.rows, c, text_width(f.measure, t.header[c]) as int);
}

proof fn the_widest_is_one_of_them(f: Frame, rows: Seq<Seq<CellText>>, c: int, floor: int)
    ensures
        floor <= widest(f, rows, c, floor),
        forall|i: int|
            0 <= i < rows.len() && c < (#[trigger] rows[i]).len() ==> text_width(
                f.measure,
                rows[i][c].text,
            ) <= widest(f, rows, c, floor),
        widest(f, rows, c, floor) == floor || exists|i: int|
            0 <= i < rows.len() && c < (#[trigger] rows[i]).len() && text_width(
                f.measure,
                rows[i][c].text,
            ) == widest(f, rows, c, floor),
    decreases rows.len(),
{
    if rows.len() > 0 {
        let less = rows.drop_last();
        let n = rows.len() - 1;
        the_widest_is_one_of_them(f, less, c, floor);
        let w = widest(f, rows, c, floor);
        assert forall|i: int| 0 <= i < rows.len() && c < (
        #[trigger] rows[i]).len() implies text_width(f.measure, rows[i][c].text) <= w by {
            if i < n {
                assert(less[i] == rows[i]);
            }
        }
        if w != floor {
            if w == widest(f, less, c, floor) {
                let i = choose|i: int|
                    0 <= i < less.len() && c < (#[trigger] less[i]).len() && text_width(
                        f.measure,
                        less[i][c].text,
                    ) == w;
                assert(rows[i] == less[i]);
            } else {
                assert(text_width(f.measure, rows[n][c].text) == w);
            }
        }
    }
}

/// The title width that tables share is that of the narrowest: no table that fits
/// gives its title less room, and one gives it just that; there is none only where
/// no table has a title and fits.
pub proof fn a_shared_title_is_the_narrowest(f: Frame, ts: Seq<TableView>, base: AlignmentView)
    ensures
        match narrowest_title(f, ts, base) {
            Some(w) => {
                &&& exists|i: int|
                    0 <= i < ts.len() && own_title_width(f, #[trigger] ts[i], base) == Some(w)
                &&& forall|i: int|
                    0 <= i < ts.len() ==> (own_title_width(f, #[trigger] ts[i], base) matches Some(
                        v,
                    ) ==> w <= v)
            },
            None => forall|i: int|
                0 <= i < ts.len() ==> own_title_width(f, #[trigger] ts[i], base) is None,
        },
    decreases ts.len(),
{
    if ts.len() > 0 {
        let less = ts.drop_last();
        let n = ts.len() - 1;
        a_shared_title_is_the_narrowest(f, less, base);
        assert forall|i: int| 0 <= i < n implies #[trigger] ts[i] == less[i] by {}
        match narrowest_title(f, ts, base) {
            Some(w) => {
                if own_title_width(f, ts[n], base) == Some(w) {
                    assert(own_title_width(f, ts[n], base) == Some(w));
                } else {
                    let i = choose|i: int|
                        0 <= i < less.len() && own_title_width(f, #[trigger] less[i], base)
                            == Some(w);
                    assert(own_title_width(f, ts[i], base) == Some(w));
                }
                assert forall|i: int| 0 <= i < ts.len() implies (own_title_width(
                    f,
                    #[trigger] ts[i],
                    base,
                ) matches Some(v) ==> w <= v) by {
                    if i < n {
                        assert(less[i] == ts[i]);
                    }
                }
            },
            None => {
                assert forall|i: int| 0 <= i < ts.len() implies own_title_width(
                    f,
                    #[trigger] ts[i],
                    base,
                ) is None by {
                    if i < n {
                        assert(less[i] == ts[i]);
                    }
                }
            },
        }
    }
}

/// A table says so where a wider surface would show more of it: where a column is
/// hidden, and where a cell of a shown `TITLE` or `BRANCH` is cut. Where it does
/// not say so, every column is shown and no such cell is cut.
pub proof fn a_table_says_what_it_hides(f: Frame, t: TableView, a: AlignmentView, c: int)
    requires
        0 <= c < t.header.len(),
        layout(f, t, Some(a)) is Some,
    ensures
        ({
            let l = layout(f, t, Some(a))->0;
            &&& !l.columns.contains(c) ==> compact(f, t, a)
            &&& forall|k: int, i: int|
                #![trigger l.columns[k], t.rows[i]]
                0 <= k < l.columns.len() && 0 <= i < t.rows.len() && l.columns[k] < t.rows[i].len()
                    && (t.header[l.columns[k]] == "TITLE"@ || t.header[l.columns[k]] == "BRANCH"@)
                    && text_width(f.measure, t.rows[i][l.columns[k]].text) > l.widths[k]
                    ==> compact(f, t, a)
        }),
{
    let l = layout(f, t, Some(a))->0;
    match t.column("TITLE"@) {
        Some(title) => {
            let p = plan(f, t, Some(a), title);
            plan_is_valid(f, t, Some(a), title);
            let shown = p.settle(p.start())->0;
            p.settle_fits(p.start());
            indices_are_the_shown(shown);
            shown_iff_listed(shown, c);
            if !shown[c] {
                a_hidden_column_is_missing(shown, c);
            }
        },
        None => {
            assert(l.columns[c] == c);
        },
    }
    assert forall|k: int, i: int|
        #![trigger l.columns[k], t.rows[i]]
        0 <= k < l.columns.len() && 0 <= i < t.rows.len() && l.columns[k] < t.rows[i].len() && (
        t.header[l.columns[k]] == "TITLE"@ || t.header[l.columns[k]] == "BRANCH"@) && text_width(
            f.measure,
            t.rows[i][l.columns[k]].text,
        ) > l.widths[k] implies compact(f, t, a) by {
        the_widest_is_one_of_them(
            f,
            t.rows,
            l.columns[k],
            text_width(f.measure, t.header[l.columns[k]]) as int,
        );
        assert(flexes(t.header[l.columns[k]]));
    }
}

/// A column that is hidden is missing among the shown ones.
proof fn a_hidden_column_is_missing(shown: Seq<bool>, c: int)
    requires
        0 <= c < shown.len(),
        !shown[c],
    ensures
        indices(shown).len() < shown.len(),
    decreases shown.len(),
{
    let less = shown.drop_last();
    if c < shown.len() - 1 {
        assert(!less[c]);
        a_hidden_column_is_missing(less, c);
    } else {
        indices_are_the_shown(less);
    }
}

} // verus!
