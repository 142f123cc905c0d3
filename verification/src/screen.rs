//! The screen: which parts of the dashboard a terminal has room for, and how
//! they are put on it.

use crate::changes::Changes;
use crate::chrome::{compose, composed, help_height, legend_len, paint_tabs, tab_strokes};
use crate::cli::ViewKind;
use crate::dashboard::{
    a_body_fits_its_room, a_body_is_counted, body_height, body_strokes, bottom_of, caret_of,
    count_section, counted, counted_body, dashboard_strokes, goes_with, height_bound, height_limit,
    look_of, paint_bottom, paint_dashboard, paint_mine, paint_reviews, present_tables, tabs_height,
    totals_fit, view_sections, view_tables, BottomView, Look, Times, Ui,
};
use crate::nav;
use crate::nav::texts;
use crate::render::{dim_stroke, paint_dim, painted_more, MIN_WIDTH, OUTPUT_WIDTH};
use crate::sections::Sections;
use crate::shipments::commits_height;
use crate::surface::{
    blank_grid, cells, encode, encoded, frame, height, new_buffer, painted, resize, resized, width,
    Frame, Grid, Measure, Position, Profile, Stroke,
};
use crate::table::{
    alignment_of, compact, layout, max, min, required_width, suits, table_alignment,
    table_fits_aligned, table_is_compact_aligned, table_required_width, tables_view, AlignmentView,
    Table, TableAlignment, TableView, MAX_COLUMNS,
};
use crate::table_laws::{
    a_required_width_is_fixed, a_table_fits_where_its_required_width_does, an_alignment_is_valid,
    plain_prefix,
};
use crate::text::{dec, decimal, folded, is_empty, same};
use uncurses::buffer::TextBuffer;
use vstd::prelude::*;

verus! {

/// The total of the parts from the `k`-th on.
pub open spec fn left_over(parts: Seq<usize>, k: int) -> int
    decreases parts.len() - k,
{
    if k < 0 || k >= parts.len() {
        0
    } else {
        parts[k] + left_over(parts, k + 1)
    }
}

/// Whether hiding the first `k` parts is just enough: what is left fits, and
/// would not with one more.
pub open spec fn just_enough(base: int, parts: Seq<usize>, rows: int, k: int) -> bool {
    &&& 0 <= k <= parts.len()
    &&& base + left_over(parts, k) <= rows
    &&& k > 0 ==> base + left_over(parts, k - 1) > rows
}

/// How many of the parts, from the first on, have to be hidden so that the rest
/// fits beside what is never hidden. `None` where not even that fits.
pub fn hide_count(base: usize, parts: &[usize], rows: usize) -> (r: Option<usize>)
    requires
        base + left_over(parts@, 0) <= usize::MAX,
    ensures
        r is None <==> base > rows,
        r matches Some(k) ==> just_enough(base as int, parts@, rows as int, k as int),
{
    if base > rows {
        return None;
    }
    let mut total: usize = base;
    let mut k: usize = parts.len();
    while k > 0
        invariant
            k <= parts@.len(),
            base <= total <= rows,
            base + left_over(parts@, 0) <= usize::MAX,
            total == base + left_over(parts@, k as int),
        decreases k,
    {
        proof {
            left_over_grows(parts@, 0, k - 1);
        }
        let more: usize = total + parts[k - 1];
        if more > rows {
            return Some(k);
        }
        total = more;
        k -= 1;
    }
    Some(0)
}

proof fn left_over_grows(parts: Seq<usize>, j: int, k: int)
    requires
        0 <= j <= k <= parts.len(),
    ensures
        0 <= left_over(parts, k) <= left_over(parts, j),
    decreases parts.len() - j,
{
    if k < parts.len() {
        left_over_grows(parts, k + 1, parts.len() as int);
    }
    if j < k {
        left_over_grows(parts, j + 1, k);
    }
}

/// Only one number of hidden parts is just enough.
pub proof fn what_is_hidden_is_fixed(base: int, parts: Seq<usize>, rows: int, j: int, k: int)
    requires
        just_enough(base, parts, rows, j),
        just_enough(base, parts, rows, k),
    ensures
        j == k,
{
    if j < k {
        left_over_grows(parts, j, k - 1);
    } else if k < j {
        left_over_grows(parts, k, j - 1);
    }
}

/// The parts of a view in the order they are hidden: the help legend first, then
/// of your own PRs the shipments, the merge queue and the merged PRs, of the
/// reviews the merged ones.
pub open spec fn hideable(s: Sections, ui: Ui) -> Seq<int> {
    let help: int = if ui.show_help {
        3 + legend_len(ui.view)
    } else {
        0
    };
    match ui.view {
        ViewKind::Mine => seq![
            help,
            match s.commits {
                Some(c) => commits_height(c) + 1,
                None => 0,
            },
            counted(s.queue),
            counted(s.merged),
        ],
        ViewKind::Reviews => seq![help, counted(s.reviewed_merged)],
    }
}

/// The rows that are never hidden: the view switcher, the open section whole,
/// and what stands below the sections but for the help legend.
pub open spec fn kept_rows(s: Sections, ui: Ui, error: Seq<char>, footer: Option<(&str, bool)>) -> int {
    tabs_height(footer) + (match ui.view {
        ViewKind::Mine => counted(s.prs),
        ViewKind::Reviews => counted(s.reviews),
    }) + bottom_of(without_help(ui), 0, error, footer, false, true).height()
}

/// The state with the help legend hidden.
pub open spec fn without_help(ui: Ui) -> Ui {
    Ui { show_help: false, ..ui }
}

/// Numbers as they are.
pub open spec fn sizes(parts: Seq<usize>) -> Seq<int> {
    Seq::new(parts.len(), |i: int| parts[i] as int)
}

/// Whether the numbers of rows of a dashboard can be added up.
pub open spec fn countable(s: Sections, ui: Ui) -> bool {
    counted_body(ui.view, s) <= u16::MAX
}

/// The parts of a view in the order they are hidden.
fn hideable_parts(s: &Sections, ui: &Ui) -> (parts: Vec<usize>)
    requires
        countable(*s, *ui),
    ensures
        sizes(parts@) == hideable(*s, *ui),
        left_over(parts@, 0) <= 0x2_0000,
{
    let help: usize = if ui.show_help {
        help_height(ui.view) + 1
    } else {
        0
    };
    let mut parts: Vec<usize> = Vec::new();
    parts.push(help);
    match ui.view {
        ViewKind::Mine => {
            let shipments: usize = match &s.commits {
                Some(c) => if c.available {
                    c.releases.len() + 3
                } else {
                    2
                },
                None => 0,
            };
            parts.push(shipments);
            parts.push(count_section(&s.queue));
            parts.push(count_section(&s.merged));
        },
        ViewKind::Reviews => {
            parts.push(count_section(&s.reviewed_merged));
        },
    }
    assert(sizes(parts@) =~= hideable(*s, *ui));
    proof {
        reveal_with_fuel(left_over, 6);
    }
    parts
}

/// The rows that are never hidden.
fn base_rows(s: &Sections, ui: &Ui, error: &str, footer: Option<(&str, bool)>) -> (n: usize)
    requires
        countable(*s, *ui),
    ensures
        n == kept_rows(*s, *ui, error@, footer),
        n <= 0x1_0010,
{
    let tabs: usize = if footer.is_some() {
        2
    } else {
        0
    };
    let open: usize = match ui.view {
        ViewKind::Mine => count_section(&s.prs),
        ViewKind::Reviews => count_section(&s.reviews),
    };
    let mut bottom: usize = 0;
    if !is_empty(ui.search.as_str()) || ui.searching {
        bottom = 1;
    }
    if !is_empty(error) {
        bottom = if bottom > 0 {
            bottom + 2
        } else {
            1
        };
    }
    if footer.is_some() {
        bottom = if bottom > 0 {
            bottom + 2
        } else {
            1
        };
    }
    tabs + open + bottom
}

/// How many parts of the dashboard have to be hidden on a terminal of so many
/// rows. `None` where the open section does not fit whole.
pub fn plan_rows(s: &Sections, ui: &Ui, error: &str, footer: Option<(&str, bool)>, rows: u16) -> (r:
    Option<usize>)
    requires
        countable(*s, *ui),
    ensures
        r is None <==> kept_rows(*s, *ui, error@, footer) > rows,
        r matches Some(k) ==> exists|parts: Seq<usize>| #[trigger]
            sizes(parts) == hideable(*s, *ui) && just_enough(
                kept_rows(*s, *ui, error@, footer),
                parts,
                rows as int,
                k as int,
            ),
{
    let parts: Vec<usize> = hideable_parts(s, ui);
    let base: usize = base_rows(s, ui, error, footer);
    let r: Option<usize> = hide_count(base, parts.as_slice(), rows as usize);
    assert(sizes(parts@) == hideable(*s, *ui));
    r
}

/// The rows that the open section needs.
pub fn min_rows(s: &Sections, ui: &Ui, error: &str, footer: Option<(&str, bool)>) -> (n: u16)
    requires
        countable(*s, *ui),
    ensures
        n == min(kept_rows(*s, *ui, error@, footer), u16::MAX as int),
{
    let n: usize = base_rows(s, ui, error, footer);
    if n > 0xffff {
        0xffff
    } else {
        n as u16
    }
}

/// The sections that are left when the first `k` parts are hidden.
pub open spec fn left_sections(s: Sections, view: ViewKind, k: int) -> Sections {
    match view {
        ViewKind::Mine => Sections {
            commits: if k >= 2 {
                None
            } else {
                s.commits
            },
            queue: if k >= 3 {
                None
            } else {
                s.queue
            },
            merged: if k >= 4 {
                None
            } else {
                s.merged
            },
            ..s
        },
        ViewKind::Reviews => Sections {
            reviewed_merged: if k >= 2 {
                None
            } else {
                s.reviewed_merged
            },
            ..s
        },
    }
}

/// The state that is left when the first `k` parts are hidden.
pub open spec fn left_ui(ui: Ui, k: int) -> Ui {
    if k >= 1 {
        without_help(ui)
    } else {
        ui
    }
}

/// Hides the sections among the first `k` parts.
pub fn hide_sections(s: Sections, view: ViewKind, k: usize) -> (r: Sections)
    ensures
        r == left_sections(s, view, k as int),
{
    let mut r: Sections = s;
    match view {
        ViewKind::Mine => {
            if k >= 2 {
                r.commits = None;
            }
            if k >= 3 {
                r.queue = None;
            }
            if k >= 4 {
                r.merged = None;
            }
        },
        ViewKind::Reviews => {
            if k >= 2 {
                r.reviewed_merged = None;
            }
        },
    }
    r
}

/// What is left fits on the terminal: the rows of the view switcher, of the
/// sections and of what stands below them are no more than there are; and the
/// open section is left.
pub proof fn what_is_left_fits(
    f: Frame,
    s: Sections,
    ui: Ui,
    times: Times,
    look: Look,
    matches: int,
    error: Seq<char>,
    footer: Option<(&str, bool)>,
    more: bool,
    parts: Seq<usize>,
    rows: int,
    k: int,
)
    requires
        footer is Some,
        sizes(parts) == hideable(s, ui),
        just_enough(kept_rows(s, ui, error, footer), parts, rows, k),
    ensures
        tabs_height(footer) + body_height(
            f,
            ui.view,
            left_sections(s, ui.view, k),
            times,
            look,
        ) + bottom_of(left_ui(ui, k), matches, error, footer, more, true).height() <= rows,
        left_sections(s, ui.view, k).prs == s.prs,
        left_sections(s, ui.view, k).reviews == s.reviews,
{
    let left = left_sections(s, ui.view, k);
    a_body_fits_its_room(f, ui.view, left, times, look);
    a_body_is_counted(ui.view, left, times, look);
    assert(parts.len() == hideable(s, ui).len());
    assert forall|i: int| 0 <= i < parts.len() implies parts[i] == #[trigger] hideable(
        s,
        ui,
    )[i] by {
        assert(sizes(parts)[i] == hideable(s, ui)[i]);
    }
    reveal_with_fuel(left_over, 6);
    let b = bottom_of(left_ui(ui, k), matches, error, footer, more, true);
    let c = bottom_of(without_help(ui), 0, error, footer, false, true);
    assert(b.height() <= c.height() + (if k == 0 && ui.show_help {
        3 + legend_len(ui.view)
    } else {
        0
    }));
}

/// The width of the widest mandatory part of the first `n` tables.
pub open spec fn widest_required(f: Frame, ts: Seq<TableView>, a: AlignmentView, n: int) -> int
    decreases n,
{
    if n <= 0 {
        MIN_WIDTH as int
    } else {
        max(
            widest_required(f, ts, a, n - 1),
            min(required_width(f, ts[n - 1], a), u16::MAX as int),
        )
    }
}

/// The least width at which every table shows its mandatory columns.
pub fn min_columns(s: &TextBuffer, tables: &[&Table]) -> (w: u16)
    requires
        forall|i: int| 0 <= i < tables@.len() ==> #[trigger] tables@[i].header@.len() <= MAX_COLUMNS,
    ensures
        ({
            let ts = tables_view(tables@);
            w == widest_required(
                frame(*s),
                ts,
                alignment_of(frame(*s), ts),
                ts.len() as int,
            )
        }),
{
    let ghost ts = tables_view(tables@);
    let alignment: TableAlignment = table_alignment(s, tables);
    let mut w: u16 = MIN_WIDTH;
    let mut i: usize = 0;
    while i < tables.len()
        invariant
            i <= tables@.len(),
            ts == tables_view(tables@),
            alignment@.valid(),
            forall|j: int|
                0 <= j < tables@.len() ==> #[trigger] tables@[j].header@.len() <= MAX_COLUMNS,
            w == widest_required(frame(*s), ts, alignment@, i as int),
        decreases tables@.len() - i,
    {
        assert(ts[i as int] == tables@[i as int]@);
        let need: u16 = table_required_width(s, tables[i], &alignment);
        if w < need {
            w = need;
        }
        i += 1;
    }
    w
}

/// Whether every one of the tables fits, aligned with the others.
pub fn tables_fit(s: &TextBuffer, tables: &[&Table]) -> (r: bool)
    requires
        forall|i: int| 0 <= i < tables@.len() ==> #[trigger] tables@[i].header@.len() <= MAX_COLUMNS,
    ensures
        ({
            let ts = tables_view(tables@);
            r == forall|i: int|
                0 <= i < ts.len() ==> layout(
                    frame(*s),
                    #[trigger] ts[i],
                    Some(alignment_of(frame(*s), ts)),
                ) is Some
        }),
{
    let ghost ts = tables_view(tables@);
    let alignment: TableAlignment = table_alignment(s, tables);
    let mut i: usize = 0;
    while i < tables.len()
        invariant
            i <= tables@.len(),
            ts == tables_view(tables@),
            alignment@ == alignment_of(frame(*s), ts),
            alignment@.valid(),
            forall|j: int|
                0 <= j < tables@.len() ==> #[trigger] tables@[j].header@.len() <= MAX_COLUMNS,
            forall|j: int|
                0 <= j < tables@.len() ==> suits(frame(*s), (#[trigger] tables@[j])@, alignment@),
            forall|j: int|
                0 <= j < i ==> layout(frame(*s), #[trigger] ts[j], Some(alignment@)) is Some,
        decreases tables@.len() - i,
    {
        assert(ts[i as int] == tables@[i as int]@);
        assert(suits(frame(*s), tables@[i as int]@, alignment@));
        if !table_fits_aligned(s, tables[i], &alignment) {
            return false;
        }
        i += 1;
    }
    true
}

/// Whether a wider terminal would show more of any of the tables.
pub fn any_compact(s: &TextBuffer, tables: &[&Table]) -> (r: bool)
    requires
        forall|i: int| 0 <= i < tables@.len() ==> #[trigger] tables@[i].header@.len() <= MAX_COLUMNS,
    ensures
        ({
            let ts = tables_view(tables@);
            r == exists|i: int|
                0 <= i < ts.len() && compact(
                    frame(*s),
                    #[trigger] ts[i],
                    alignment_of(frame(*s), ts),
                )
        }),
{
    let ghost ts = tables_view(tables@);
    let alignment: TableAlignment = table_alignment(s, tables);
    let mut i: usize = 0;
    while i < tables.len()
        invariant
            i <= tables@.len(),
            ts == tables_view(tables@),
            alignment@ == alignment_of(frame(*s), ts),
            alignment@.valid(),
            forall|j: int|
                0 <= j < tables@.len() ==> #[trigger] tables@[j].header@.len() <= MAX_COLUMNS,
            forall|j: int|
                0 <= j < tables@.len() ==> suits(frame(*s), (#[trigger] tables@[j])@, alignment@),
            forall|j: int| 0 <= j < i ==> !compact(frame(*s), #[trigger] ts[j], alignment@),
        decreases tables@.len() - i,
    {
        assert(ts[i as int] == tables@[i as int]@);
        assert(suits(frame(*s), tables@[i as int]@, alignment@));
        if table_is_compact_aligned(s, tables[i], &alignment) {
            assert(compact(frame(*s), ts[i as int], alignment@));
            return true;
        }
        i += 1;
    }
    false
}

/// What a terminal has room for.
#[derive(Copy, Clone, Debug, PartialEq, Eq, Structural)]
pub enum Fit {
    /// It is too small: it needs so many columns and rows.
    TooSmall(u16, u16),
    /// It shows the dashboard with so many parts hidden; the flag says whether a
    /// larger one would show more.
    Shown(usize, bool),
}

/// Whether every one of the tables fits, aligned with the others, on a surface of
/// at least the minimum width.
pub open spec fn columns_fit(f: Frame, ts: Seq<TableView>) -> bool {
    &&& f.width >= MIN_WIDTH
    &&& forall|i: int|
        0 <= i < ts.len() ==> layout(f, #[trigger] ts[i], Some(alignment_of(f, ts))) is Some
}

/// What a terminal has room for, given how many parts its rows hide (`None` where
/// they are too few) and the tables of the sections that are left. `rows` is how
/// many rows are needed.
pub fn fit(s: &TextBuffer, hidden: Option<usize>, tables: &[&Table], rows: u16) -> (r: Fit)
    requires
        forall|i: int| 0 <= i < tables@.len() ==> #[trigger] tables@[i].header@.len() <= MAX_COLUMNS,
    ensures
        ({
            let f = frame(*s);
            let ts = tables_view(tables@);
            let a = alignment_of(f, ts);
            if hidden is None || !columns_fit(f, ts) {
                r matches Fit::TooSmall(w, h) && h == rows && w == widest_required(
                    f,
                    ts,
                    a,
                    ts.len() as int,
                )
            } else {
                r == Fit::Shown(
                    hidden->0,
                    hidden->0 > 0 || exists|i: int|
                        0 <= i < ts.len() && compact(f, #[trigger] ts[i], a),
                )
            }
        }),
{
    match hidden {
        Some(k) => if width(s) >= MIN_WIDTH && tables_fit(s, tables) {
            let compact: bool = any_compact(s, tables);
            return Fit::Shown(k, k > 0 || compact);
        },
        None => {},
    }
    Fit::TooSmall(min_columns(s, tables), rows)
}

/// The widest of the required widths is at most `w` exactly where each of them
/// is.
proof fn widest_covers(f: Frame, ts: Seq<TableView>, a: AlignmentView, n: int, w: int)
    requires
        0 <= n <= ts.len(),
    ensures
        widest_required(f, ts, a, n) <= w <==> MIN_WIDTH <= w && forall|i: int|
            0 <= i < n ==> min(required_width(f, #[trigger] ts[i], a), u16::MAX as int) <= w,
    decreases n,
{
    if n > 0 {
        widest_covers(f, ts, a, n - 1, w);
        if widest_required(f, ts, a, n) <= w {
            assert forall|i: int| 0 <= i < n implies min(
                required_width(f, #[trigger] ts[i], a),
                u16::MAX as int,
            ) <= w by {}
        } else if MIN_WIDTH <= w && widest_required(f, ts, a, n - 1) <= w {
            assert(min(required_width(f, ts[n - 1], a), u16::MAX as int) > w);
        }
    }
}

/// The columns that a terminal that is too small is said to need are just enough:
/// a terminal of any other width has room for the tables exactly where it has at
/// least so many. This holds of tables with a `TITLE`, what stands left of it
/// plain, and as far as a terminal can be that wide.
pub proof fn the_asked_columns_are_just_enough(f: Frame, g: Frame, ts: Seq<TableView>)
    requires
        f.measure == g.measure,
        forall|i: int|
            0 <= i < ts.len() ==> ((#[trigger] ts[i]).column("TITLE"@) matches Some(title)
                && plain_prefix(ts[i], title)),
        forall|i: int|
            0 <= i < ts.len() ==> required_width(f, #[trigger] ts[i], alignment_of(f, ts))
                <= u16::MAX,
    ensures
        columns_fit(g, ts) <==> widest_required(f, ts, alignment_of(f, ts), ts.len() as int)
            <= g.width,
{
    let a = alignment_of(f, ts);
    let b = alignment_of(g, ts);
    an_alignment_is_valid(g, ts);
    widest_covers(f, ts, a, ts.len() as int, g.width as int);
    assert forall|i: int| 0 <= i < ts.len() implies (layout(g, #[trigger] ts[i], Some(b)) is Some
        <==> min(required_width(f, ts[i], a), u16::MAX as int) <= g.width) by {
        a_required_width_is_fixed(f, g, ts, i);
        a_table_fits_where_its_required_width_does(g, ts[i], b, ts[i].column("TITLE"@)->0);
    }
}

/// Parts are hidden only where they do not fit: a dashboard of which nothing more
/// could be shown hides none, and one that hides some has one that would not fit.
pub proof fn parts_hide_only_for_want_of_rows(base: int, parts: Seq<usize>, rows: int, k: int)
    requires
        just_enough(base, parts, rows, k),
    ensures
        base + left_over(parts, 0) <= rows <==> k == 0,
        k > 0 ==> parts[k - 1] > 0,
{
    left_over_grows(parts, 0, k);
    if k > 0 {
        left_over_grows(parts, 0, k - 1);
    }
}

/// What a terminal that is too small shows.
pub open spec fn too_small_text(columns: int, rows: int) -> Seq<char> {
    "Terminal too small (need "@ + decimal(columns as nat) + "x"@ + decimal(rows as nat) + ")"@
}

/// Paints that the terminal is too small, with the dimensions that it needs.
pub fn paint_too_small(s: &mut TextBuffer, columns: u16, rows: u16)
    ensures
        frame(*final(s)) == frame(*old(s)),
        cells(*final(s)) == painted(
            cells(*old(s)),
            frame(*old(s)),
            seq![dim_stroke(too_small_text(columns as int, rows as int), 0, 0)],
        ),
{
    let mut text: String = "Terminal too small (need ".to_owned();
    let w: String = dec(columns as u64);
    let h: String = dec(rows as u64);
    text.append(w.as_str());
    text.append("x");
    text.append(h.as_str());
    text.append(")");
    paint_dim(s, text.as_str(), 0);
}

/// Where the cursor goes when the rows that it visits change: it stays where its
/// row still leads to the same link, and else goes to the first row that does.
pub open spec fn followed(sel: Option<usize>, before: Seq<Seq<char>>, after: Seq<Seq<char>>) -> Option<
    int,
> {
    match sel {
        Some(i) => if i >= before.len() {
            None
        } else if i < after.len() && after[i as int] == before[i as int] {
            Some(i as int)
        } else {
            after.index_of_first(before[i as int])
        },
        None => None,
    }
}

/// Keeps the cursor on the same link when the rows that it visits change; drops
/// it where that row is not shown any more.
pub fn follow(sel: Option<usize>, before: &Vec<&str>, after: &Vec<&str>) -> (r: Option<usize>)
    ensures
        (match r {
            Some(i) => Some(i as int),
            None => None,
        }) == followed(sel, texts(before@), texts(after@)),
{
    let i: usize = match sel {
        Some(i) => i,
        None => {
            return None;
        },
    };
    assert(texts(before@).len() == before@.len());
    if i >= before.len() {
        return None;
    }
    let url: &str = before[i];
    let ghost all = texts(after@);
    assert(texts(before@)[i as int] == url@);
    if i < after.len() {
        assert(all[i as int] == after@[i as int]@);
        if same(after[i], url) {
            return Some(i);
        }
    }
    proof {
        all.index_of_first_ensures(url@);
    }
    let mut j: usize = 0;
    while j < after.len()
        invariant
            j <= after@.len(),
            all == texts(after@),
            i < before@.len(),
            sel == Some(i),
            texts(before@)[i as int] == url@,
            texts(before@).len() == before@.len(),
            i < all.len() ==> all[i as int] != url@,
            forall|k: int| 0 <= k < j ==> all[k] != url@,
            match all.index_of_first(url@) {
                Some(index) => {
                    &&& 0 <= index < all.len()
                    &&& all[index] == url@
                    &&& forall|k: int| 0 <= k < index < all.len() ==> all[k] != url@
                },
                None => !all.contains(url@),
            },
        decreases after@.len() - j,
    {
        assert(all[j as int] == after@[j as int]@);
        if same(after[j], url) {
            return Some(j);
        }
        j += 1;
    }
    None
}

/// The cursor stays on its link: where it is kept, the row it is on leads where
/// its row led; it is dropped only where no row leads there any more; and it does
/// not move where the rows do not change.
pub proof fn the_cursor_follows_its_link(
    sel: Option<usize>,
    before: Seq<Seq<char>>,
    after: Seq<Seq<char>>,
)
    ensures
        followed(sel, before, after) matches Some(j) ==> sel is Some && 0 <= j < after.len()
            && after[j] == before[sel->0 as int],
        followed(sel, before, after) is None && sel is Some && sel->0 < before.len()
            ==> !after.contains(before[sel->0 as int]),
        before == after && sel is Some && sel->0 < before.len() ==> followed(sel, before, after)
            == Some(sel->0 as int),
{
    match sel {
        Some(i) => {
            after.index_of_first_ensures(before[i as int]);
        },
        None => {},
    }
}

/// The frame of a buffer that is painted before it is put on the screen.
pub open spec fn buffer_frame(width: u16, height: int) -> Frame {
    Frame {
        width,
        height: max(height, 1) as u16,
        measure: Measure { grapheme: false, eaw_wide: false },
    }
}

/// The strokes of the upper part of the screen.
pub open spec fn upper_strokes(
    f: Frame,
    s: Sections,
    times: Times,
    view: ViewKind,
    look: Look,
) -> Seq<Stroke> {
    tab_strokes(f, view, look.ascii, 0) + body_strokes(f, view, s, times, look, 2)
}

/// Where a cell of the bottom block lands on the screen; nowhere where its row
/// was cut.
pub open spec fn on_screen(p: Option<(u16, u16)>, top: int, cut: int) -> Option<(int, int)> {
    match p {
        Some(p) => if p.1 < cut || top + p.1 - cut > u16::MAX {
            None
        } else {
            Some((p.0 as int, top + p.1 - cut))
        },
        None => None,
    }
}

/// The most rows a view can take.
fn room_of(sections: &Sections, view: ViewKind) -> (n: u16)
    requires
        2 + counted_body(view, *sections) <= u16::MAX,
    ensures
        n == 2 + counted_body(view, *sections),
{
    let n: usize = match view {
        ViewKind::Mine => {
            let shipments: usize = match &sections.commits {
                Some(c) => if c.available {
                    c.releases.len() + 3
                } else {
                    2
                },
                None => 0,
            };
            count_section(&sections.prs) + count_section(&sections.queue) + count_section(
                &sections.merged,
            ) + shipments
        },
        ViewKind::Reviews => count_section(&sections.reviews) + count_section(
            &sections.reviewed_merged,
        ),
    };
    2 + n as u16
}

/// The rows of what stands below the sections while watching.
fn bottom_rows(ui: &Ui, error: &str) -> (n: u16)
    ensures
        forall|matches: int, footer: (&str, bool), more: bool|
            n == (#[trigger] bottom_of(*ui, matches, error@, Some(footer), more, true)).height(),
        n >= 1,
        n <= 20,
{
    let mut n: u16 = if ui.show_help {
        help_height(ui.view) as u16
    } else {
        0
    };
    if !is_empty(ui.search.as_str()) || ui.searching {
        n = if n > 0 {
            n + 2
        } else {
            1
        };
    }
    if !is_empty(error) {
        n = if n > 0 {
            n + 2
        } else {
            1
        };
    }
    if n > 0 {
        n + 2
    } else {
        1
    }
}

/// The cells of the screen while watching: the view switcher and the sections at
/// the top, and what stands below them glued to the last rows.
pub open spec fn screen_cells(
    g: Grid,
    f: Frame,
    s: Sections,
    times: Times,
    view: ViewKind,
    look: Look,
    b: BottomView,
) -> Grid {
    let body_f = buffer_frame(f.width, 2 + counted_body(view, s));
    let bottom_f = buffer_frame(f.width, b.height());
    composed(
        g,
        f,
        painted(blank_grid(body_f), body_f, upper_strokes(body_f, s, times, view, look)),
        body_f,
        2 + body_height(body_f, view, s, times, look),
        painted(blank_grid(bottom_f), bottom_f, b.strokes(bottom_f, look.ascii, 0)),
        bottom_f,
        b.height(),
        f.height as int,
        None,
    )
}

/// The cell of the screen just past the query, while there is one.
pub open spec fn screen_caret(f: Frame, b: BottomView) -> Option<(int, int)> {
    let shown = min(b.height(), f.height as int);
    on_screen(
        caret_of(b, buffer_frame(f.width, b.height()), 0),
        f.height - shown,
        b.height() - shown,
    )
}

/// A cell as numbers.
pub open spec fn opt_cell(p: Option<Position>) -> Option<(int, int)> {
    match p {
        Some(p) => Some((p.x as int, p.y as int)),
        None => None,
    }
}

/// Paints the screen while watching: the view switcher and the sections at the
/// top, and what stands below them glued to the last rows. Returns the cell of
/// the screen just past the query, while there is one.
pub fn paint_screen(
    screen: &mut TextBuffer,
    sections: &Sections,
    times: &Times,
    ui: &Ui,
    changes: &Changes,
    error: &str,
    footer: (&str, bool),
    more: bool,
    ascii: bool,
    show_branch: bool,
) -> (caret: Option<Position>)
    requires
        goes_with(*times, *sections),
        totals_fit(*sections),
        frame(*old(screen)).width <= 0xff00,
        2 + counted_body(ui.view, *sections) <= u16::MAX,
    ensures
        ({
            let f = frame(*old(screen));
            let look = look_of(*changes, ui.selected, ascii, show_branch);
            let matches = nav::all_targets(ui.view, *sections, folded(ui.search@)).len() as int;
            let b = bottom_of(*ui, matches, error@, Some(footer), more, true);
            &&& frame(*final(screen)) == f
            &&& cells(*final(screen)) == screen_cells(
                cells(*old(screen)),
                f,
                *sections,
                *times,
                ui.view,
                look,
                b,
            )
            &&& opt_cell(caret) == screen_caret(f, b)
        }),
{
    let ghost look = look_of(*changes, ui.selected, ascii, show_branch);
    let w: u16 = width(screen);
    let rows: u16 = height(screen);
    let room: u16 = room_of(sections, ui.view);
    let mut body: TextBuffer = new_buffer(w, room);
    let ghost body_f = frame(body);
    proof {
        a_body_is_counted(ui.view, *sections, *times, look);
        a_body_fits_its_room(body_f, ui.view, *sections, *times, look);
    }
    let ghost blank_body = cells(body);
    let y: u16 = paint_tabs(&mut body, ui.view, ascii, 0) + 1;
    let body_h: u16 = match ui.view {
        ViewKind::Mine => paint_mine(
            &mut body,
            sections,
            times,
            changes,
            ui.selected,
            ascii,
            show_branch,
            y,
        ),
        ViewKind::Reviews => paint_reviews(
            &mut body,
            sections,
            times,
            ui.selected,
            ascii,
            show_branch,
            y,
        ),
    };
    proof {
        let tabs = tab_strokes(body_f, ui.view, ascii, 0);
        let rest = body_strokes(body_f, ui.view, *sections, *times, look, 2);
        if ui.view == ViewKind::Reviews {
            let vs = crate::dashboard::view_sections(ui.view, *sections, *times, look);
            let a = alignment_of(body_f, crate::dashboard::present_tables(vs));
            let upper = crate::dashboard::sections_strokes(
                body_f,
                a,
                vs,
                ascii,
                2,
                vs.len() as int,
            );
            assert(upper + Seq::<Stroke>::empty() =~= upper);
        }
        painted_more(blank_body, body_f, tabs, rest);
    }
    let matches: usize = nav::targets(ui.view, sections, ui.search.as_str()).len();
    let bottom_h: u16 = bottom_rows(ui, error);
    let mut bottom: TextBuffer = new_buffer(w, bottom_h);
    let ghost bottom_f = frame(bottom);
    let (used, at): (u16, Option<Position>) = paint_bottom(
        &mut bottom,
        ui,
        matches,
        error,
        Some(footer),
        more,
        true,
        ascii,
        0,
    );
    let (top, cut): (u16, u16) = compose(
        screen,
        &mut body,
        body_h,
        &mut bottom,
        used,
        rows,
        None,
    );
    match at {
        Some(p) => if p.y < cut {
            None
        } else {
            let y: usize = top as usize + (p.y - cut) as usize;
            if y > 0xffff {
                None
            } else {
                Some(Position { x: p.x, y: y as u16 })
            }
        },
        None => None,
    }
}

/// Paints a frame of the watch: the dashboard of the sections that are left, with
/// the help legend only where nothing is hidden; or, where the terminal has too
/// few rows (`hidden` is `None`) or columns, the dimensions that it needs. `rows`
/// is how many rows are needed. Returns the cell just past the query, while there
/// is one.
pub fn paint_frame(
    screen: &mut TextBuffer,
    sections: &Sections,
    times: &Times,
    ui: &Ui,
    changes: &Changes,
    error: &str,
    footer: (&str, bool),
    hidden: Option<usize>,
    rows: u16,
    ascii: bool,
    show_branch: bool,
) -> (caret: Option<Position>)
    requires
        goes_with(*times, *sections),
        totals_fit(*sections),
        frame(*old(screen)).width <= 0xff00,
        2 + counted_body(ui.view, *sections) <= u16::MAX,
    ensures
        ({
            let f = frame(*old(screen));
            let ts = present_tables(
                view_sections(
                    ui.view,
                    *sections,
                    *times,
                    look_of(*changes, None, ascii, show_branch),
                ),
            );
            let a = alignment_of(f, ts);
            &&& frame(*final(screen)) == f
            &&& hidden is None || !columns_fit(f, ts) ==> {
                let need = too_small_text(
                    widest_required(f, ts, a, ts.len() as int),
                    rows as int,
                );
                &&& caret is None
                &&& cells(*final(screen)) == painted(
                    cells(*old(screen)),
                    f,
                    seq![dim_stroke(need, 0, 0)],
                )
            }
            &&& hidden is Some && columns_fit(f, ts) ==> {
                let more = hidden->0 > 0 || exists|i: int|
                    0 <= i < ts.len() && compact(f, #[trigger] ts[i], a);
                let matches = nav::all_targets(ui.view, *sections, folded(ui.search@)).len();
                let b = bottom_of(
                    left_ui(*ui, hidden->0 as int),
                    matches as int,
                    error@,
                    Some(footer),
                    more,
                    true,
                );
                &&& cells(*final(screen)) == screen_cells(
                    cells(*old(screen)),
                    f,
                    *sections,
                    *times,
                    ui.view,
                    look_of(*changes, ui.selected, ascii, show_branch),
                    b,
                )
                &&& opt_cell(caret) == screen_caret(f, b)
            }
        }),
{
    let tables: Vec<Table> = view_tables(sections, times, ui.view, changes, ascii, show_branch);
    let refs: Vec<&Table> = borrowed(&tables);
    match fit(screen, hidden, refs.as_slice(), rows) {
        Fit::TooSmall(columns, rows) => {
            paint_too_small(screen, columns, rows);
            None
        },
        Fit::Shown(k, more) => {
            let shown = Ui {
                view: ui.view,
                show_help: ui.show_help && k == 0,
                selected: ui.selected,
                search: ui.search.clone(),
                searching: ui.searching,
            };
            paint_screen(
                screen,
                sections,
                times,
                &shown,
                changes,
                error,
                footer,
                more,
                ascii,
                show_branch,
            )
        },
    }
}

/// References to tables.
fn borrowed<'a>(tables: &'a Vec<Table>) -> (refs: Vec<&'a Table>)
    ensures
        tables_view(refs@) == Seq::new(tables@.len(), |i: int| tables@[i]@),
        refs@.len() == tables@.len(),
        forall|i: int| 0 <= i < refs@.len() ==> *#[trigger] refs@[i] == tables@[i],
{
    let mut refs: Vec<&'a Table> = Vec::new();
    let mut i: usize = 0;
    while i < tables.len()
        invariant
            i <= tables@.len(),
            refs@.len() == i,
            forall|j: int| 0 <= j < i ==> *#[trigger] refs@[j] == tables@[j],
        decreases tables@.len() - i,
    {
        refs.push(&tables[i]);
        i += 1;
    }
    assert(tables_view(refs@) =~= Seq::new(tables@.len(), |i: int| tables@[i]@));
    refs
}

/// The frame of output that is as wide as piped output is.
pub open spec fn output_frame(height: int) -> Frame {
    Frame {
        width: OUTPUT_WIDTH as u16,
        height: height as u16,
        measure: Measure { grapheme: false, eaw_wide: false },
    }
}

/// Renders the dashboard once into a buffer sized to its content and encodes it
/// for a terminal of the given color profile.
pub fn render_to_string(
    sections: &Sections,
    times: &Times,
    ui: &Ui,
    changes: &Changes,
    footer: Option<(&str, bool)>,
    ascii: bool,
    show_branch: bool,
    profile: Profile,
) -> (out: String)
    requires
        goes_with(*times, *sections),
        totals_fit(*sections),
        height_limit(*sections, *ui) <= u16::MAX,
    ensures
        ({
            let f = output_frame(height_limit(*sections, *ui));
            let look = look_of(*changes, ui.selected, ascii, show_branch);
            let matches = nav::all_targets(ui.view, *sections, folded(ui.search@)).len() as int;
            let b = bottom_of(*ui, matches, Seq::empty(), footer, false, false);
            let used = tabs_height(footer) + body_height(f, ui.view, *sections, *times, look)
                + b.height();
            let cropped = output_frame(max(used, 1));
            out@ == encoded(
                resized(
                    painted(
                        blank_grid(f),
                        f,
                        dashboard_strokes(f, *sections, *times, ui.view, look, b, footer),
                    ),
                    f,
                    cropped,
                ),
                cropped,
                profile,
            )
        }),
{
    let ghost look = look_of(*changes, ui.selected, ascii, show_branch);
    proof {
        reveal_strlit("");
        assert(""@ =~= Seq::empty());
        a_body_is_counted(ui.view, *sections, *times, look);
    }
    let h: u16 = height_bound(sections, ui);
    let mut canvas: TextBuffer = new_buffer(OUTPUT_WIDTH as u16, h);
    let (used, _): (u16, Option<Position>) = paint_dashboard(
        &mut canvas,
        sections,
        times,
        ui,
        changes,
        "",
        footer,
        false,
        ascii,
        show_branch,
    );
    let rows: u16 = if used < 1 {
        1
    } else {
        used
    };
    resize(&mut canvas, OUTPUT_WIDTH as u16, rows);
    encode(&canvas, profile)
}

} // verus!
