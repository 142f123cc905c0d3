//! The dashboard: its sections one below the other, and the lines around them.

use crate::changes::Changes;
use crate::chrome::{footer_strokes, help_height, help_strokes, legend_len, prompt_strokes, tab_strokes};
use crate::cli::ViewKind;
use crate::commits::CommitStats;
use crate::merged;
use crate::nav;
use crate::prs;
use crate::queue;
use crate::render::{
    caret_cell, dim_stroke, header_line, paint_dim, paint_dim_at, paint_footer, paint_header,
    paint_help, paint_search_prompt, paint_table_aligned, paint_tabs, painted_more, select_marker,
    table_height, table_strokes, Cell, Table, TableAlignment, ROW_INDENT,
};
use crate::reviews;
use crate::sections::Sections;
use crate::shipments::{commits_height, commits_strokes, paint_commits, total_mine};
use crate::status;
use crate::surface::{cells, frame, painted, Color, Frame, Position, Stroke};
use crate::table::{
    alignment_of, suits, table_alignment, tables_view, AlignmentView, TableView, MAX_COLUMNS,
};
use crate::text::{chars_of, concat, dec, decimal, folded, is_empty, text_of};
use uncurses::buffer::TextBuffer;
use vstd::prelude::*;

verus! {

/// One section: a counted header, and its table or what stands in for it.
pub struct Section {
    pub title: &'static str,
    pub accent: Color,
    pub count: usize,
    pub note: Option<String>,
    pub empty_msg: &'static str,
    pub table: Option<Table>,
}

/// What a section shows.
#[verifier::ext_equal]
pub struct SectionView {
    pub title: Seq<char>,
    pub accent: Color,
    pub count: nat,
    pub note: Option<Seq<char>>,
    pub empty: Seq<char>,
    pub table: Option<TableView>,
}

/// An optional table as what it shows.
pub open spec fn opt_table(t: Option<Table>) -> Option<TableView> {
    match t {
        Some(t) => Some(t@),
        None => None,
    }
}

impl View for Section {
    type V = SectionView;

    open spec fn view(&self) -> SectionView {
        SectionView {
            title: self.title@,
            accent: self.accent,
            count: self.count as nat,
            note: crate::model::opt_string(self.note),
            empty: self.empty_msg@,
            table: opt_table(self.table),
        }
    }
}

/// Several sections.
pub open spec fn sections_view(sections: Seq<Section>) -> Seq<SectionView> {
    Seq::new(sections.len(), |i: int| sections[i]@)
}

/// The tables of the sections that have one, in order.
pub open spec fn present_tables(vs: Seq<SectionView>) -> Seq<TableView>
    decreases vs.len(),
{
    if vs.len() == 0 {
        Seq::empty()
    } else {
        match vs.last().table {
            Some(t) => present_tables(vs.drop_last()).push(t),
            None => present_tables(vs.drop_last()),
        }
    }
}

/// The strokes of a section at row `y`.
pub open spec fn section_strokes(
    f: Frame,
    a: AlignmentView,
    v: SectionView,
    ascii: bool,
    y: int,
) -> Seq<Stroke> {
    header_line(f, v.title, v.accent, Some(decimal(v.count)), v.note, ascii, y) + match v.table {
        Some(t) => table_strokes(f, t, a, ascii, y + 1),
        None => seq![dim_stroke(v.empty, ROW_INDENT as int, y + 1)],
    }
}

/// The rows of a section: its header, its table or placeholder, and a blank row.
pub open spec fn section_height(f: Frame, a: AlignmentView, v: SectionView) -> int {
    2 + match v.table {
        Some(t) => table_height(f, t, a),
        None => 1,
    }
}

/// The most rows a section can take, however wide the surface.
pub open spec fn section_room(v: SectionView) -> int {
    match v.table {
        Some(t) => 3 + t.rows.len() as int,
        None => 3,
    }
}

/// The strokes of the first `n` sections, one below the other from row `y` on.
pub open spec fn sections_strokes(
    f: Frame,
    a: AlignmentView,
    vs: Seq<SectionView>,
    ascii: bool,
    y: int,
    n: int,
) -> Seq<Stroke>
    decreases n,
{
    if n <= 0 {
        Seq::empty()
    } else {
        sections_strokes(f, a, vs, ascii, y, n - 1) + section_strokes(
            f,
            a,
            vs[n - 1],
            ascii,
            y + sections_height(f, a, vs, n - 1),
        )
    }
}

/// The rows of the first `n` sections.
pub open spec fn sections_height(f: Frame, a: AlignmentView, vs: Seq<SectionView>, n: int) -> int
    decreases n,
{
    if n <= 0 {
        0
    } else {
        sections_height(f, a, vs, n - 1) + section_height(f, a, vs[n - 1])
    }
}

/// The most rows the first `n` sections can take.
pub open spec fn sections_room(vs: Seq<SectionView>, n: int) -> int
    decreases n,
{
    if n <= 0 {
        0
    } else {
        sections_room(vs, n - 1) + section_room(vs[n - 1])
    }
}

/// Sections take no more rows than there is room for.
pub proof fn sections_fit_their_room(f: Frame, a: AlignmentView, vs: Seq<SectionView>, n: int)
    requires
        0 <= n <= vs.len(),
    ensures
        0 <= sections_height(f, a, vs, n) <= sections_room(vs, n) <= sections_room(
            vs,
            vs.len() as int,
        ),
    decreases vs.len() - n, n,
{
    heights_are_bounded(f, a, vs, n);
    rooms_grow(vs, n, vs.len() as int);
}

proof fn heights_are_bounded(f: Frame, a: AlignmentView, vs: Seq<SectionView>, n: int)
    requires
        0 <= n <= vs.len(),
    ensures
        0 <= sections_height(f, a, vs, n) <= sections_room(vs, n),
    decreases n,
{
    if n > 0 {
        heights_are_bounded(f, a, vs, n - 1);
    }
}

proof fn rooms_grow(vs: Seq<SectionView>, m: int, n: int)
    requires
        0 <= m <= n <= vs.len(),
    ensures
        sections_room(vs, m) <= sections_room(vs, n),
    decreases n - m,
{
    if m < n {
        rooms_grow(vs, m, n - 1);
    }
}

/// Whether a table can be laid out and aligned: it has not too many columns.
pub open spec fn laid_out(sections: Seq<Section>) -> bool {
    forall|i: int|
        0 <= i < sections.len() ==> ((#[trigger] sections[i]).table matches Some(t)
            ==> t.header@.len() <= MAX_COLUMNS)
}

/// The alignment of the tables of the sections.
fn align_sections(s: &TextBuffer, sections: &Vec<Section>) -> (a: TableAlignment)
    requires
        laid_out(sections@),
    ensures
        a@ == alignment_of(frame(*s), present_tables(sections_view(sections@))),
        a@.valid(),
        forall|i: int|
            0 <= i < sections@.len() ==> ((#[trigger] sections@[i]).table matches Some(t) ==> suits(
                frame(*s),
                t@,
                a@,
            )),
{
    let ghost vs = sections_view(sections@);
    let mut tables: Vec<&Table> = Vec::new();
    let ghost mut at: Seq<int> = Seq::empty();
    let mut i: usize = 0;
    assert(vs.take(0) =~= Seq::empty());
    assert(tables_view(tables@) =~= Seq::empty());
    while i < sections.len()
        invariant
            i <= sections@.len(),
            laid_out(sections@),
            vs == sections_view(sections@),
            tables_view(tables@) == present_tables(vs.take(i as int)),
            forall|j: int|
                0 <= j < tables@.len() ==> #[trigger] tables@[j].header@.len() <= MAX_COLUMNS,
            at.len() == i,
            forall|j: int|
                0 <= j < i ==> ((#[trigger] sections@[j]).table matches Some(t) ==> 0 <= at[j]
                    < tables@.len() && *tables@[at[j]] == t),
        decreases sections@.len() - i,
    {
        assert(vs.take(i + 1).drop_last() =~= vs.take(i as int));
        assert(vs.take(i + 1).last() == sections@[i as int]@);
        let ghost before = tables_view(tables@);
        proof {
            at = at.push(tables@.len() as int);
        }
        match &sections[i].table {
            Some(t) => {
                tables.push(t);
                assert(tables_view(tables@) =~= before.push(t@));
            },
            None => {},
        }
        i += 1;
    }
    assert(vs.take(sections@.len() as int) =~= vs);
    let a: TableAlignment = table_alignment(s, tables.as_slice());
    assert forall|i: int| 0 <= i < sections@.len() implies ((
    #[trigger] sections@[i]).table matches Some(t) ==> suits(frame(*s), t@, a@)) by {
        if sections@[i].table is Some {
            assert(suits(frame(*s), tables@[at[i]]@, a@));
        }
    }
    a
}

/// Paints one section at row `top`: a counted header (with an optional dim
/// note), then either its table or, when empty, a dim placeholder, then a blank
/// row. Returns the next free row.
fn paint_section(
    s: &mut TextBuffer,
    section: &Section,
    alignment: &TableAlignment,
    ascii: bool,
    top: u16,
) -> (next: u16)
    requires
        section.table matches Some(t) ==> t.header@.len() <= MAX_COLUMNS && suits(
            frame(*old(s)),
            t@,
            alignment@,
        ),
        alignment@.valid(),
        top + section_room(section@) <= u16::MAX,
        frame(*old(s)).width + 4 <= u16::MAX,
    ensures
        frame(*final(s)) == frame(*old(s)),
        cells(*final(s)) == painted(
            cells(*old(s)),
            frame(*old(s)),
            section_strokes(frame(*old(s)), alignment@, section@, ascii, top as int),
        ),
        next == top + section_height(frame(*old(s)), alignment@, section@),
{
    let ghost g = cells(*s);
    let ghost f = frame(*s);
    let count: String = dec(section.count as u64);
    let note: Option<&str> = match &section.note {
        Some(n) => Some(n.as_str()),
        None => None,
    };
    let ghost head = header_line(
        f,
        section.title@,
        section.accent,
        Some(decimal(section.count as nat)),
        section@.note,
        ascii,
        top as int,
    );
    let y: u16 = paint_header(
        s,
        section.title,
        section.accent,
        Some(count.as_str()),
        note,
        ascii,
        top,
    );
    let y: u16 = match &section.table {
        Some(table) => {
            let next: u16 = paint_table_aligned(s, table, alignment, ascii, y);
            proof {
                painted_more(g, f, head, table_strokes(f, table@, alignment@, ascii, y as int));
            }
            next
        },
        None => {
            let next: u16 = paint_dim_at(s, section.empty_msg, ROW_INDENT, y);
            proof {
                painted_more(
                    g,
                    f,
                    head,
                    seq![dim_stroke(section.empty_msg@, ROW_INDENT as int, y as int)],
                );
            }
            next
        },
    };
    y + 1
}

/// Paints sections one below the other, their tables aligned together. Returns
/// the next free row.
fn paint_sections(s: &mut TextBuffer, sections: &Vec<Section>, ascii: bool, top: u16) -> (next: u16)
    requires
        laid_out(sections@),
        top + sections_room(sections_view(sections@), sections@.len() as int) <= u16::MAX,
        frame(*old(s)).width + 4 <= u16::MAX,
    ensures
        ({
            let f = frame(*old(s));
            let vs = sections_view(sections@);
            let a = alignment_of(f, present_tables(vs));
            &&& frame(*final(s)) == f
            &&& cells(*final(s)) == painted(
                cells(*old(s)),
                f,
                sections_strokes(f, a, vs, ascii, top as int, vs.len() as int),
            )
            &&& next == top + sections_height(f, a, vs, vs.len() as int)
        }),
{
    let ghost g = cells(*s);
    let ghost f = frame(*s);
    let ghost vs = sections_view(sections@);
    let alignment: TableAlignment = align_sections(s, sections);
    let ghost a = alignment@;
    let mut y: u16 = top;
    let mut i: usize = 0;
    while i < sections.len()
        invariant
            i <= sections@.len(),
            laid_out(sections@),
            vs == sections_view(sections@),
            a == alignment@,
            a.valid(),
            f == frame(*s),
            f.width + 4 <= u16::MAX,
            top + sections_room(vs, vs.len() as int) <= u16::MAX,
            forall|j: int|
                0 <= j < sections@.len() ==> ((#[trigger] sections@[j]).table matches Some(t)
                    ==> suits(f, t@, a)),
            y == top + sections_height(f, a, vs, i as int),
            cells(*s) == painted(
                g,
                f,
                sections_strokes(f, a, vs, ascii, top as int, i as int),
            ),
        decreases sections@.len() - i,
    {
        let ghost before = sections_strokes(f, a, vs, ascii, top as int, i as int);
        proof {
            sections_fit_their_room(f, a, vs, i as int);
            sections_fit_their_room(f, a, vs, i + 1);
            assert(vs[i as int] == sections@[i as int]@);
        }
        let ghost y0 = y as int;
        y = paint_section(s, &sections[i], &alignment, ascii, y);
        proof {
            painted_more(g, f, before, section_strokes(f, a, vs[i as int], ascii, y0));
        }
        i += 1;
    }
    y
}

/// What the clock says of the sections, as short texts.
pub struct Times {
    /// How long each merge-queue entry has been queued.
    pub queue_waits: Vec<String>,
    /// How long the build of each merge-queue entry has been running, where it
    /// has started.
    pub queue_builds: Vec<Option<String>>,
    /// How long until a newly added queue entry would merge.
    pub queue_eta: Option<String>,
    /// How long ago each merged PR merged.
    pub merged_ages: Vec<String>,
    /// How long ago each release was published.
    pub release_ages: Vec<Option<String>>,
    /// How long ago each PR to review was updated.
    pub review_ages: Vec<String>,
    /// How long ago each merged PR that was reviewed merged.
    pub reviewed_ages: Vec<String>,
}

/// A table with the navigation caret on one of its rows, where it has that row.
pub open spec fn with_caret(t: TableView, row: Option<int>, ascii: bool) -> TableView {
    match row {
        Some(k) => if 0 <= k < t.rows.len() && t.rows[k].len() > 0 {
            TableView { rows: t.rows.update(k, t.rows[k].update(0, caret_cell(ascii))), ..t }
        } else {
            t
        },
        None => t,
    }
}

/// Overwrites the leading marker cell of the table's `local`-th row with the
/// navigation caret. Nothing happens where there is no such row.
fn place_caret(table: &mut Table, local: usize, ascii: bool)
    ensures
        final(table)@ == with_caret(old(table)@, Some(local as int), ascii),
        final(table).header == old(table).header,
{
    if local < table.rows.len() && table.rows[local].len() > 0 {
        let ghost before = table@;
        let ghost row = crate::table::row_view(table.rows@[local as int]@);
        let marker: Cell = select_marker(ascii);
        let ghost mark = marker@;
        table.rows[local][0] = marker;
        assert(crate::table::row_view(table.rows@[local as int]@) =~= row.update(0, mark));
        assert(table@.rows =~= before.rows.update(local as int, row.update(0, mark)));
    }
}

/// The row of a section that the cursor is on: `before` rows stand above the
/// section, and it has `n`.
pub open spec fn local_row(selected: Option<usize>, before: int, n: int) -> Option<int> {
    match selected {
        Some(sel) => if before <= sel < before + n {
            Some(sel - before)
        } else {
            None
        },
        None => None,
    }
}

/// The row of a section that the cursor is on.
fn local_index(selected: Option<usize>, before: usize, n: usize) -> (r: Option<usize>)
    ensures
        (match r {
            Some(k) => Some(k as int),
            None => None,
        }) == local_row(selected, before as int, n as int),
{
    match selected {
        Some(sel) => if before <= sel && sel - before < n {
            Some(sel - before)
        } else {
            None
        },
        None => None,
    }
}

/// How many rows an optional section has.
pub open spec fn row_count<T>(rows: Option<Vec<T>>) -> int {
    match rows {
        Some(r) => r@.len() as int,
        None => 0,
    }
}

/// How many rows an optional section has.
fn count_rows<T>(rows: &Option<Vec<T>>) -> (n: usize)
    ensures
        n == row_count(*rows),
{
    match rows {
        Some(r) => r.len(),
        None => 0,
    }
}

/// Puts the caret on a row of an optional table.
fn caret_on(table: Option<Table>, row: Option<usize>, ascii: bool) -> (r: Option<Table>)
    ensures
        opt_table(r) == (match table {
            Some(t) => Some(
                with_caret(
                    t@,
                    match row {
                        Some(k) => Some(k as int),
                        None => None,
                    },
                    ascii,
                ),
            ),
            None => None,
        }),
        r matches Some(t) ==> table is Some && t.header == table->0.header,
{
    match table {
        Some(t) => {
            let mut t: Table = t;
            match row {
                Some(k) => {
                    place_caret(&mut t, k, ascii);
                },
                None => {},
            }
            Some(t)
        },
        None => None,
    }
}

/// A section that is always there, as a list.
pub open spec fn one_section(
    title: Seq<char>,
    accent: Color,
    count: int,
    note: Option<Seq<char>>,
    empty: Seq<char>,
    table: Option<TableView>,
) -> Seq<SectionView> {
    seq![SectionView { title, accent, count: count as nat, note, empty, table }]
}

/// How the time until a new queue entry would merge reads.
pub open spec fn eta_note(eta: Option<String>) -> Option<Seq<char>> {
    match eta {
        Some(t) => Some("~"@ + t@ + " to merge"@),
        None => None,
    }
}

/// The open PRs section.
pub open spec fn prs_section(
    s: Sections,
    highlight: Set<i64>,
    selected: Option<usize>,
    ascii: bool,
    show_branch: bool,
) -> Seq<SectionView> {
    match s.prs {
        Some(rows) => one_section(
            "My open PRs"@,
            status::LAVENDER,
            rows@.len() as int,
            None,
            "No open PRs."@,
            if rows@.len() == 0 {
                None
            } else {
                Some(
                    with_caret(
                        prs::pr_table(rows@, ascii, highlight, show_branch),
                        local_row(selected, 0, row_count(s.prs)),
                        ascii,
                    ),
                )
            },
        ),
        None => Seq::empty(),
    }
}

/// The merge-queue section.
pub open spec fn queue_section(
    s: Sections,
    times: Times,
    selected: Option<usize>,
    ascii: bool,
    show_branch: bool,
) -> Seq<SectionView> {
    match s.queue {
        Some(rows) => one_section(
            "Merge Queue"@,
            status::BLUE,
            rows@.len() as int,
            eta_note(times.queue_eta),
            "No merge queue."@,
            if rows@.len() == 0 {
                None
            } else {
                Some(
                    with_caret(
                        queue::queue_table(
                            rows@,
                            show_branch,
                            times.queue_waits@,
                            times.queue_builds@,
                        ),
                        local_row(selected, row_count(s.prs), row_count(s.queue)),
                        ascii,
                    ),
                )
            },
        ),
        None => Seq::empty(),
    }
}

/// The merged PRs section.
pub open spec fn merged_section(
    s: Sections,
    times: Times,
    highlight: Set<i64>,
    selected: Option<usize>,
    ascii: bool,
    show_branch: bool,
) -> Seq<SectionView> {
    match s.merged {
        Some(rows) => one_section(
            "My merged PRs"@,
            status::MAUVE,
            rows@.len() as int,
            None,
            "No recent merged PRs."@,
            if rows@.len() == 0 {
                None
            } else {
                Some(
                    with_caret(
                        merged::merged_table(
                            rows@,
                            ascii,
                            highlight,
                            show_branch,
                            times.merged_ages@,
                        ),
                        local_row(
                            selected,
                            row_count(s.prs) + row_count(s.queue),
                            row_count(s.merged),
                        ),
                        ascii,
                    ),
                )
            },
        ),
        None => Seq::empty(),
    }
}

/// The sections of the view of your own PRs that are tables: open PRs, merge
/// queue, merged PRs.
pub open spec fn mine_views(
    s: Sections,
    times: Times,
    status_changed: Set<i64>,
    newly_merged: Set<i64>,
    selected: Option<usize>,
    ascii: bool,
    show_branch: bool,
) -> Seq<SectionView> {
    prs_section(s, status_changed, selected, ascii, show_branch) + queue_section(
        s,
        times,
        selected,
        ascii,
        show_branch,
    ) + merged_section(s, times, newly_merged, selected, ascii, show_branch)
}

/// The shipment that the cursor is on, counted past the rows of the tables.
pub open spec fn shipment_row(s: Sections, selected: Option<usize>) -> Option<int> {
    let before = row_count(s.prs) + row_count(s.queue) + row_count(s.merged);
    match selected {
        Some(sel) => if sel >= before {
            Some(sel - before)
        } else {
            None
        },
        None => None,
    }
}

/// The sections of the reviews view.
pub open spec fn review_views(
    s: Sections,
    times: Times,
    selected: Option<usize>,
    ascii: bool,
    show_branch: bool,
) -> Seq<SectionView> {
    (match s.reviews {
        Some(rows) => one_section(
            "Reviews"@,
            status::LAVENDER,
            rows@.len() as int,
            None,
            "No PRs to review."@,
            if rows@.len() == 0 {
                None
            } else {
                Some(
                    with_caret(
                        reviews::open_table(rows@, ascii, show_branch, times.review_ages@),
                        local_row(selected, 0, row_count(s.reviews)),
                        ascii,
                    ),
                )
            },
        ),
        None => Seq::empty(),
    }) + (match s.reviewed_merged {
        Some(rows) => one_section(
            "Reviewed & merged"@,
            status::MAUVE,
            rows@.len() as int,
            None,
            "No reviewed PRs merged recently."@,
            if rows@.len() == 0 {
                None
            } else {
                Some(
                    with_caret(
                        reviews::merged_table(rows@, show_branch, times.reviewed_ages@),
                        local_row(
                            selected,
                            row_count(s.reviews),
                            row_count(s.reviewed_merged),
                        ),
                        ascii,
                    ),
                )
            },
        ),
        None => Seq::empty(),
    })
}

/// Whether the times go with the sections: one for each row and each release, and
/// one for the estimate of the queue where it has one; and no more rows stand
/// above a section than can be counted.
pub open spec fn goes_with(times: Times, s: Sections) -> bool {
    &&& s.queue matches Some(rows) ==> times.queue_waits@.len() == rows@.len()
        && times.queue_builds@.len() == rows@.len()
        && (times.queue_eta is Some <==> s.queue_next_eta is Some)
    &&& s.merged matches Some(rows) ==> times.merged_ages@.len() == rows@.len()
    &&& s.commits matches Some(c) ==> times.release_ages@.len() == c.releases@.len()
    &&& s.reviews matches Some(rows) ==> times.review_ages@.len() == rows@.len()
    &&& s.reviewed_merged matches Some(rows) ==> times.reviewed_ages@.len() == rows@.len()
    &&& row_count(s.prs) + row_count(s.queue) + row_count(s.merged) <= usize::MAX
}

/// Adds a section to a list.
fn push_section(
    out: &mut Vec<Section>,
    title: &'static str,
    accent: Color,
    count: usize,
    note: Option<String>,
    empty_msg: &'static str,
    table: Option<Table>,
)
    requires
        laid_out(old(out)@),
        table matches Some(t) ==> t.header@.len() <= MAX_COLUMNS,
    ensures
        laid_out(final(out)@),
        sections_view(final(out)@) == sections_view(old(out)@) + one_section(
            title@,
            accent,
            count as int,
            crate::model::opt_string(note),
            empty_msg@,
            opt_table(table),
        ),
{
    let ghost before = out@;
    let section = Section { title, accent, count, note, empty_msg, table };
    out.push(section);
    assert(sections_view(out@) =~= sections_view(before).push(section@));
    assert(laid_out(out@)) by {
        assert forall|i: int| 0 <= i < out@.len() implies ((#[trigger] out@[i]).table matches Some(
            t,
        ) ==> t.header@.len() <= MAX_COLUMNS) by {
            if i < before.len() {
                assert(out@[i] == before[i]);
            }
        }
    }
}

/// The table sections of the view of your own PRs, with the caret on the row
/// that the cursor is on.
fn mine_sections(
    sections: &Sections,
    times: &Times,
    changes: &Changes,
    selected: Option<usize>,
    ascii: bool,
    show_branch: bool,
) -> (out: Vec<Section>)
    requires
        goes_with(*times, *sections),
    ensures
        laid_out(out@),
        sections_view(out@) == mine_views(
            *sections,
            *times,
            changes.status_changed@,
            changes.newly_merged@,
            selected,
            ascii,
            show_branch,
        ),
{
    let np: usize = count_rows(&sections.prs);
    let nq: usize = count_rows(&sections.queue);
    let nm: usize = count_rows(&sections.merged);
    let mut out: Vec<Section> = Vec::new();
    assert(sections_view(out@) =~= Seq::empty());
    match &sections.prs {
        Some(rows) => {
            let table: Option<Table> = if rows.len() == 0 {
                None
            } else {
                Some(prs::to_table(rows.as_slice(), ascii, &changes.status_changed, show_branch))
            };
            let table: Option<Table> = caret_on(table, local_index(selected, 0, np), ascii);
            push_section(
                &mut out,
                "My open PRs",
                status::LAVENDER,
                rows.len(),
                None,
                "No open PRs.",
                table,
            );
        },
        None => {},
    }
    let ghost first = prs_section(
        *sections,
        changes.status_changed@,
        selected,
        ascii,
        show_branch,
    );
    assert(sections_view(out@) =~= first);
    match &sections.queue {
        Some(rows) => {
            let note: Option<String> = match &times.queue_eta {
                Some(t) => Some(concat(concat("~", t.as_str()).as_str(), " to merge")),
                None => None,
            };
            let table: Option<Table> = if rows.len() == 0 {
                None
            } else {
                Some(
                    queue::to_table(
                        rows.as_slice(),
                        show_branch,
                        times.queue_waits.as_slice(),
                        times.queue_builds.as_slice(),
                    ),
                )
            };
            let table: Option<Table> = caret_on(table, local_index(selected, np, nq), ascii);
            push_section(
                &mut out,
                "Merge Queue",
                status::BLUE,
                rows.len(),
                note,
                "No merge queue.",
                table,
            );
        },
        None => {},
    }
    let ghost second = queue_section(*sections, *times, selected, ascii, show_branch);
    assert(sections_view(out@) =~= first + second);
    match &sections.merged {
        Some(rows) => {
            let table: Option<Table> = if rows.len() == 0 {
                None
            } else {
                Some(
                    merged::to_table(
                        rows.as_slice(),
                        ascii,
                        &changes.newly_merged,
                        show_branch,
                        times.merged_ages.as_slice(),
                    ),
                )
            };
            let table: Option<Table> = caret_on(table, local_index(selected, np + nq, nm), ascii);
            push_section(
                &mut out,
                "My merged PRs",
                status::MAUVE,
                rows.len(),
                None,
                "No recent merged PRs.",
                table,
            );
        },
        None => {},
    }
    assert(sections_view(out@) =~= mine_views(
        *sections,
        *times,
        changes.status_changed@,
        changes.newly_merged@,
        selected,
        ascii,
        show_branch,
    ));
    out
}

/// The sections of the reviews view, with the caret on the row that the cursor
/// is on.
fn review_sections(
    sections: &Sections,
    times: &Times,
    selected: Option<usize>,
    ascii: bool,
    show_branch: bool,
) -> (out: Vec<Section>)
    requires
        goes_with(*times, *sections),
    ensures
        laid_out(out@),
        sections_view(out@) == review_views(*sections, *times, selected, ascii, show_branch),
{
    let nr: usize = count_rows(&sections.reviews);
    let nm: usize = count_rows(&sections.reviewed_merged);
    let mut out: Vec<Section> = Vec::new();
    assert(sections_view(out@) =~= Seq::empty());
    match &sections.reviews {
        Some(rows) => {
            let table: Option<Table> = if rows.len() == 0 {
                None
            } else {
                Some(
                    reviews::open_to_table(
                        rows.as_slice(),
                        ascii,
                        show_branch,
                        times.review_ages.as_slice(),
                    ),
                )
            };
            let table: Option<Table> = caret_on(table, local_index(selected, 0, nr), ascii);
            push_section(
                &mut out,
                "Reviews",
                status::LAVENDER,
                rows.len(),
                None,
                "No PRs to review.",
                table,
            );
        },
        None => {},
    }
    match &sections.reviewed_merged {
        Some(rows) => {
            let table: Option<Table> = if rows.len() == 0 {
                None
            } else {
                Some(
                    reviews::merged_to_table(
                        rows.as_slice(),
                        show_branch,
                        times.reviewed_ages.as_slice(),
                    ),
                )
            };
            let table: Option<Table> = caret_on(table, local_index(selected, nr, nm), ascii);
            push_section(
                &mut out,
                "Reviewed & merged",
                status::MAUVE,
                rows.len(),
                None,
                "No reviewed PRs merged recently.",
                table,
            );
        },
        None => {},
    }
    assert(sections_view(out@) =~= review_views(*sections, *times, selected, ascii, show_branch));
    out
}

/// The shipment that the cursor is on, as an index.
pub open spec fn shipment_sel(s: Sections, selected: Option<usize>) -> Option<usize> {
    match shipment_row(s, selected) {
        Some(k) => Some(k as usize),
        None => None,
    }
}

/// What is marked as changed, and how rows are shown.
pub struct Look {
    pub status_changed: Set<i64>,
    pub newly_merged: Set<i64>,
    pub selected: Option<usize>,
    pub ascii: bool,
    pub show_branch: bool,
}

/// The table sections of a view.
pub open spec fn view_sections(view: ViewKind, s: Sections, times: Times, look: Look) -> Seq<
    SectionView,
> {
    match view {
        ViewKind::Mine => mine_views(
            s,
            times,
            look.status_changed,
            look.newly_merged,
            look.selected,
            look.ascii,
            look.show_branch,
        ),
        ViewKind::Reviews => review_views(
            s,
            times,
            look.selected,
            look.ascii,
            look.show_branch,
        ),
    }
}

/// The shipments of a view: your own PRs have them.
pub open spec fn view_commits(view: ViewKind, s: Sections) -> Option<CommitStats> {
    match view {
        ViewKind::Mine => s.commits,
        ViewKind::Reviews => None,
    }
}

/// The strokes of a view from row `top` on: its table sections, then the
/// shipments.
pub open spec fn body_strokes(
    f: Frame,
    view: ViewKind,
    s: Sections,
    times: Times,
    look: Look,
    top: int,
) -> Seq<Stroke> {
    let vs = view_sections(view, s, times, look);
    let a = alignment_of(f, present_tables(vs));
    let n = vs.len() as int;
    sections_strokes(f, a, vs, look.ascii, top, n) + match view_commits(view, s) {
        Some(c) => commits_strokes(
            f,
            c,
            times.release_ages@,
            shipment_sel(s, look.selected),
            look.ascii,
            top + sections_height(f, a, vs, n),
        ),
        None => Seq::empty(),
    }
}

/// The rows of a view.
pub open spec fn body_height(
    f: Frame,
    view: ViewKind,
    s: Sections,
    times: Times,
    look: Look,
) -> int {
    let vs = view_sections(view, s, times, look);
    let a = alignment_of(f, present_tables(vs));
    sections_height(f, a, vs, vs.len() as int) + match view_commits(view, s) {
        Some(c) => commits_height(c) + 1,
        None => 0,
    }
}

/// The most rows a view can take, however wide the surface.
pub open spec fn body_room(view: ViewKind, s: Sections, times: Times, look: Look) -> int {
    let vs = view_sections(view, s, times, look);
    sections_room(vs, vs.len() as int) + match view_commits(view, s) {
        Some(c) => commits_height(c) + 1,
        None => 0,
    }
}

/// A view takes no more rows than there is room for.
pub proof fn a_body_fits_its_room(
    f: Frame,
    view: ViewKind,
    s: Sections,
    times: Times,
    look: Look,
)
    ensures
        0 <= body_height(f, view, s, times, look) <= body_room(view, s, times, look),
{
    let vs = view_sections(view, s, times, look);
    let a = alignment_of(f, present_tables(vs));
    sections_fit_their_room(f, a, vs, vs.len() as int);
}

/// Whether the counts of the shipments can be totalled.
pub open spec fn totals_fit(s: Sections) -> bool {
    s.commits matches Some(c) ==> total_mine(c) <= usize::MAX
}

/// How a change set and the other choices look.
pub open spec fn look_of(
    changes: Changes,
    selected: Option<usize>,
    ascii: bool,
    show_branch: bool,
) -> Look {
    Look {
        status_changed: changes.status_changed@,
        newly_merged: changes.newly_merged@,
        selected,
        ascii,
        show_branch,
    }
}

/// The view of your own PRs: open PRs, merge queue, merged PRs, then shipments.
/// Each section always shows its header; an empty one follows it with a dim
/// placeholder. Returns the next free row.
pub fn paint_mine(
    s: &mut TextBuffer,
    sections: &Sections,
    times: &Times,
    changes: &Changes,
    selected: Option<usize>,
    ascii: bool,
    show_branch: bool,
    top: u16,
) -> (next: u16)
    requires
        goes_with(*times, *sections),
        totals_fit(*sections),
        frame(*old(s)).width + 4 <= u16::MAX,
        top + body_room(
            ViewKind::Mine,
            *sections,
            *times,
            look_of(*changes, selected, ascii, show_branch),
        ) <= u16::MAX,
    ensures
        ({
            let f = frame(*old(s));
            let look = look_of(*changes, selected, ascii, show_branch);
            &&& frame(*final(s)) == f
            &&& cells(*final(s)) == painted(
                cells(*old(s)),
                f,
                body_strokes(f, ViewKind::Mine, *sections, *times, look, top as int),
            )
            &&& next == top + body_height(f, ViewKind::Mine, *sections, *times, look)
        }),
{
    let ghost g = cells(*s);
    let ghost f = frame(*s);
    let ghost look = look_of(*changes, selected, ascii, show_branch);
    let list: Vec<Section> = mine_sections(
        sections,
        times,
        changes,
        selected,
        ascii,
        show_branch,
    );
    let ghost vs = view_sections(ViewKind::Mine, *sections, *times, look);
    let ghost a = alignment_of(f, present_tables(vs));
    proof {
        sections_fit_their_room(f, a, vs, vs.len() as int);
    }
    assert(sections_view(list@).len() == list@.len());
    let y: u16 = paint_sections(s, &list, ascii, top);
    let ghost upper = sections_strokes(f, a, vs, ascii, top as int, vs.len() as int);
    match &sections.commits {
        Some(stats) => {
            let before: usize = count_rows(&sections.prs) + count_rows(&sections.queue)
                + count_rows(&sections.merged);
            let ship_sel: Option<usize> = match selected {
                Some(sel) => if sel >= before {
                    Some(sel - before)
                } else {
                    None
                },
                None => None,
            };
            let next: u16 = paint_commits(s, stats, &times.release_ages, ship_sel, ascii, y);
            proof {
                painted_more(
                    g,
                    f,
                    upper,
                    commits_strokes(f, *stats, times.release_ages@, ship_sel, ascii, y as int),
                );
            }
            next + 1
        },
        None => {
            assert(upper + Seq::<Stroke>::empty() =~= upper);
            y
        },
    }
}

/// The tables that a view shows, in order and with no caret.
pub fn view_tables(
    sections: &Sections,
    times: &Times,
    view: ViewKind,
    changes: &Changes,
    ascii: bool,
    show_branch: bool,
) -> (out: Vec<Table>)
    requires
        goes_with(*times, *sections),
    ensures
        Seq::new(out@.len(), |i: int| out@[i]@) == present_tables(
            view_sections(view, *sections, *times, look_of(*changes, None, ascii, show_branch)),
        ),
        forall|i: int| 0 <= i < out@.len() ==> (#[trigger] out@[i]).header@.len() <= MAX_COLUMNS,
{
    let mut list: Vec<Section> = match view {
        ViewKind::Mine => mine_sections(sections, times, changes, None, ascii, show_branch),
        ViewKind::Reviews => review_sections(sections, times, None, ascii, show_branch),
    };
    let ghost vs = sections_view(list@);
    let ghost all = list@;
    let mut out: Vec<Table> = Vec::new();
    let ghost mut done: int = 0;
    while list.len() > 0
        invariant
            laid_out(all),
            vs == sections_view(all),
            0 <= done <= all.len(),
            list@ == all.skip(done),
            Seq::new(out@.len(), |i: int| out@[i]@) == present_tables(vs.take(done)),
            forall|i: int|
                0 <= i < out@.len() ==> (#[trigger] out@[i]).header@.len() <= MAX_COLUMNS,
        decreases list@.len(),
    {
        let ghost before = out@;
        let section: Section = list.remove(0);
        proof {
            assert(section == all[done]);
            assert(vs.take(done + 1).drop_last() =~= vs.take(done));
            assert(vs.take(done + 1).last() == section@);
            assert(list@ =~= all.skip(done + 1));
        }
        match section.table {
            Some(t) => {
                out.push(t);
                assert(Seq::new(out@.len(), |i: int| out@[i]@) =~= Seq::new(
                    before.len(),
                    |i: int| before[i]@,
                ).push(t@));
            },
            None => {},
        }
        proof {
            done = done + 1;
        }
    }
    assert(vs.take(done) =~= vs);
    out
}

/// The reviews view: PRs to review, then merged PRs you reviewed. Returns the
/// next free row.
pub fn paint_reviews(
    s: &mut TextBuffer,
    sections: &Sections,
    times: &Times,
    selected: Option<usize>,
    ascii: bool,
    show_branch: bool,
    top: u16,
) -> (next: u16)
    requires
        goes_with(*times, *sections),
        frame(*old(s)).width + 4 <= u16::MAX,
        top + sections_room(
            review_views(*sections, *times, selected, ascii, show_branch),
            review_views(*sections, *times, selected, ascii, show_branch).len() as int,
        ) <= u16::MAX,
    ensures
        ({
            let f = frame(*old(s));
            let vs = review_views(*sections, *times, selected, ascii, show_branch);
            let a = alignment_of(f, present_tables(vs));
            &&& frame(*final(s)) == f
            &&& cells(*final(s)) == painted(
                cells(*old(s)),
                f,
                sections_strokes(f, a, vs, ascii, top as int, vs.len() as int),
            )
            &&& next == top + sections_height(f, a, vs, vs.len() as int)
        }),
{
    let list: Vec<Section> = review_sections(sections, times, selected, ascii, show_branch);
    assert(sections_view(list@).len() == list@.len());
    paint_sections(s, &list, ascii, top)
}

/// The interactive state of the dashboard.
pub struct Ui {
    /// The active view.
    pub view: ViewKind,
    /// Whether the help legend is shown.
    pub show_help: bool,
    /// The cursor into the rows that the search keeps; none until it is moved.
    /// It is dropped when the view or the search changes, and kept in range when
    /// a refresh brings fewer rows.
    pub selected: Option<usize>,
    /// The search query; empty where no filter is applied.
    pub search: String,
    /// Whether the search prompt is open and capturing text.
    pub searching: bool,
}

impl Ui {
    /// The form for output without interaction: no selection and no search.
    pub fn once(view: ViewKind, no_help: bool) -> (ui: Ui)
        ensures
            ui.view == view,
            ui.show_help == !no_help,
            ui.selected is None,
            ui.search@.len() == 0,
            !ui.searching,
    {
        Ui { view, show_help: !no_help, selected: None, search: String::new(), searching: false }
    }

    /// The sections to paint: `good` filtered by the search, or `good` itself
    /// when there is no query. `buf` owns the filtered copy if one is made.
    pub fn shown<'a>(&self, good: &'a Sections, buf: &'a mut Option<Sections>) -> (r: &'a Sections)
        ensures
            self.search@.len() == 0 ==> *r == *good,
            self.search@.len() > 0 ==> nav::is_filtered(*r, *good, folded(self.search@)),
    {
        if is_empty(self.search.as_str()) {
            good
        } else {
            buf.insert(nav::filter(good, self.search.as_str()))
        }
    }
}

/// What stands below the sections: the search prompt, the error line and the key
/// hints, each where it is shown; and the help legend, above or below them.
pub struct BottomView {
    pub view: ViewKind,
    pub show_help: bool,
    /// Whether the help legend is the first part rather than the last one.
    pub help_first: bool,
    /// The query and the number of matches, while there is a search.
    pub search: Option<(Seq<char>, int)>,
    /// The error, where there is one.
    pub error: Seq<char>,
    /// The refresh interval and whether a refresh is running, while watching.
    pub footer: Option<(Seq<char>, bool)>,
    /// Whether a larger terminal would show more.
    pub more: bool,
}

impl BottomView {
    /// The rows of the help legend.
    pub open spec fn help_rows(self) -> int {
        if self.show_help {
            2 + legend_len(self.view)
        } else {
            0
        }
    }

    /// A part below others stands one blank row below them.
    pub open spec fn below(self, end: int) -> int {
        if end > 0 {
            end + 1
        } else {
            0
        }
    }

    /// The rows above the search prompt.
    pub open spec fn upper_end(self) -> int {
        if self.help_first {
            self.help_rows()
        } else {
            0
        }
    }

    /// The rows down to the search prompt.
    pub open spec fn search_end(self) -> int {
        if self.search is Some {
            self.below(self.upper_end()) + 1
        } else {
            self.upper_end()
        }
    }

    /// The rows down to the error line.
    pub open spec fn error_end(self) -> int {
        if self.error.len() > 0 {
            self.below(self.search_end()) + 1
        } else {
            self.search_end()
        }
    }

    /// The rows down to the key hints.
    pub open spec fn footer_end(self) -> int {
        if self.footer is Some {
            self.below(self.error_end()) + 1
        } else {
            self.error_end()
        }
    }

    /// All rows.
    pub open spec fn height(self) -> int {
        if self.show_help && !self.help_first {
            self.below(self.footer_end()) + self.help_rows()
        } else {
            self.footer_end()
        }
    }

    /// The row of the help legend, from row `top` on.
    pub open spec fn help_top(self, top: int) -> int {
        if self.help_first {
            top
        } else {
            top + self.below(self.footer_end())
        }
    }

    /// The strokes of the help legend, where it is shown.
    pub open spec fn help_part(self, f: Frame, ascii: bool, top: int) -> Seq<Stroke> {
        if self.show_help {
            help_strokes(f, self.view, ascii, self.help_top(top))
        } else {
            Seq::empty()
        }
    }

    /// The strokes of the search prompt, where it is shown.
    pub open spec fn search_part(self, f: Frame, ascii: bool, top: int) -> Seq<Stroke> {
        match self.search {
            Some(q) => prompt_strokes(f, q.0, q.1, ascii, top + self.below(self.upper_end())),
            None => Seq::empty(),
        }
    }

    /// The strokes of the error line, where it is shown.
    pub open spec fn error_part(self, top: int) -> Seq<Stroke> {
        if self.error.len() > 0 {
            seq![dim_stroke("error: "@ + self.error, 0, top + self.below(self.search_end()))]
        } else {
            Seq::empty()
        }
    }

    /// The strokes of the key hints, where they are shown.
    pub open spec fn footer_part(self, f: Frame, ascii: bool, top: int) -> Seq<Stroke> {
        match self.footer {
            Some(t) => footer_strokes(
                f,
                t.0,
                t.1,
                self.more,
                ascii,
                top + self.below(self.error_end()),
            ),
            None => Seq::empty(),
        }
    }

    /// The strokes from row `top` on.
    pub open spec fn strokes(self, f: Frame, ascii: bool, top: int) -> Seq<Stroke> {
        let lines = self.search_part(f, ascii, top) + self.error_part(top) + self.footer_part(
            f,
            ascii,
            top,
        );
        if self.help_first {
            self.help_part(f, ascii, top) + lines
        } else {
            lines + self.help_part(f, ascii, top)
        }
    }
}

/// The footer texts as characters.
pub open spec fn footer_view(footer: Option<(&str, bool)>) -> Option<(Seq<char>, bool)> {
    match footer {
        Some(t) => Some((t.0@, t.1)),
        None => None,
    }
}

/// What stands below the sections.
pub open spec fn bottom_of(
    ui: Ui,
    matches: int,
    error: Seq<char>,
    footer: Option<(&str, bool)>,
    more: bool,
    help_first: bool,
) -> BottomView {
    BottomView {
        view: ui.view,
        show_help: ui.show_help,
        help_first,
        search: if ui.search@.len() > 0 || ui.searching {
            Some((ui.search@, matches))
        } else {
            None
        },
        error,
        footer: footer_view(footer),
        more,
    }
}

/// The cell just past the query, where there is a search prompt.
pub open spec fn caret_of(b: BottomView, f: Frame, top: int) -> Option<(u16, u16)> {
    match b.search {
        Some(q) => Some(
            crate::surface::text_end(f, 0, top + b.below(b.upper_end()), "/"@ + q.0),
        ),
        None => None,
    }
}

/// Paints the search prompt, the error line and the key hints, each where it is
/// shown and separated from what is above it by a blank row; `y` is the first row
/// below the help legend, where that stands above them. Returns the next free row
/// and the cell just past the query.
fn paint_lines(
    s: &mut TextBuffer,
    ui: &Ui,
    matches: usize,
    error: &str,
    footer: Option<(&str, bool)>,
    more: bool,
    ascii: bool,
    top: u16,
    y: u16,
    b: Ghost<BottomView>,
) -> (r: (u16, Option<Position>))
    requires
        b@ == bottom_of(*ui, matches as int, error@, footer, more, b@.help_first),
        frame(*old(s)).width + 7 <= u16::MAX,
        y == top + b@.upper_end(),
        top + b@.footer_end() <= u16::MAX,
    ensures
        ({
            let f = frame(*old(s));
            &&& frame(*final(s)) == f
            &&& cells(*final(s)) == painted(
                cells(*old(s)),
                f,
                b@.search_part(f, ascii, top as int) + b@.error_part(top as int) + b@.footer_part(
                    f,
                    ascii,
                    top as int,
                ),
            )
            &&& r.0 == top + b@.footer_end()
            &&& (match r.1 {
                Some(p) => Some((p.x, p.y)),
                None => None,
            }) == caret_of(b@, f, top as int)
        }),
{
    let ghost g = cells(*s);
    let ghost f = frame(*s);
    let ghost mut done: Seq<Stroke> = Seq::empty();
    let mut y: u16 = y;
    let mut caret: Option<Position> = None;
    if !is_empty(ui.search.as_str()) || ui.searching {
        if y > top {
            y = y + 1;
        }
        let (next, at): (u16, Position) = paint_search_prompt(
            s,
            ui.search.as_str(),
            matches,
            ascii,
            y,
        );
        caret = Some(at);
        y = next;
    }
    proof {
        done = b@.search_part(f, ascii, top as int);
        assert(cells(*s) == painted(g, f, done));
    }
    if !is_empty(error) {
        if y > top {
            y = y + 1;
        }
        let line: String = concat("error: ", error);
        y = paint_dim(s, line.as_str(), y);
    }
    proof {
        let part = b@.error_part(top as int);
        painted_more(g, f, done, part);
        done = done + part;
        assert(cells(*s) == painted(g, f, done));
    }
    match footer {
        Some((interval, refreshing)) => {
            if y > top {
                y = y + 1;
            }
            y = paint_footer(s, interval, refreshing, more, ascii, y);
        },
        None => {},
    }
    proof {
        let part = b@.footer_part(f, ascii, top as int);
        painted_more(g, f, done, part);
        done = done + part;
        assert(cells(*s) == painted(g, f, done));
    }
    (y, caret)
}

/// Paints what stands below the sections from row `top` on: the search prompt,
/// the error line and the key hints, with the help legend before or after them,
/// each separated by a blank row. Returns the next free row and the cell just
/// past the query.
pub fn paint_bottom(
    s: &mut TextBuffer,
    ui: &Ui,
    matches: usize,
    error: &str,
    footer: Option<(&str, bool)>,
    more: bool,
    help_first: bool,
    ascii: bool,
    top: u16,
) -> (r: (u16, Option<Position>))
    requires
        frame(*old(s)).width + 7 <= u16::MAX,
        top + bottom_of(*ui, matches as int, error@, footer, more, help_first).height() <= u16::MAX,
    ensures
        ({
            let b = bottom_of(*ui, matches as int, error@, footer, more, help_first);
            let f = frame(*old(s));
            &&& frame(*final(s)) == f
            &&& cells(*final(s)) == painted(cells(*old(s)), f, b.strokes(f, ascii, top as int))
            &&& r.0 == top + b.height()
            &&& (match r.1 {
                Some(p) => Some((p.x, p.y)),
                None => None,
            }) == caret_of(b, f, top as int)
        }),
{
    let ghost g = cells(*s);
    let ghost f = frame(*s);
    let ghost b = bottom_of(*ui, matches as int, error@, footer, more, help_first);
    let ghost legend = b.help_part(f, ascii, top as int);
    let ghost lines = b.search_part(f, ascii, top as int) + b.error_part(top as int)
        + b.footer_part(f, ascii, top as int);
    let mut y: u16 = top;
    if ui.show_help && help_first {
        y = paint_help(s, ui.view, ascii, top);
    }
    let (next, caret): (u16, Option<Position>) = paint_lines(
        s,
        ui,
        matches,
        error,
        footer,
        more,
        ascii,
        top,
        y,
        Ghost(b),
    );
    y = next;
    if ui.show_help && !help_first {
        if y > top {
            y = y + 1;
        }
        y = paint_help(s, ui.view, ascii, y);
    }
    proof {
        if help_first {
            painted_more(g, f, legend, lines);
        } else {
            painted_more(g, f, lines, legend);
        }
    }
    (y, caret)
}

/// The rows above the sections: the view switcher and a blank row, while
/// watching.
pub open spec fn tabs_height(footer: Option<(&str, bool)>) -> int {
    if footer is Some {
        2
    } else {
        0
    }
}

/// The strokes of the whole dashboard.
pub open spec fn dashboard_strokes(
    f: Frame,
    s: Sections,
    times: Times,
    view: ViewKind,
    look: Look,
    b: BottomView,
    footer: Option<(&str, bool)>,
) -> Seq<Stroke> {
    let top = tabs_height(footer);
    (if footer is Some {
        tab_strokes(f, view, look.ascii, 0)
    } else {
        Seq::empty()
    }) + body_strokes(f, view, s, times, look, top) + b.strokes(
        f,
        look.ascii,
        top + body_height(f, view, s, times, look),
    )
}

/// Paints the whole dashboard from row 0 on: while watching the view switcher,
/// then the sections of the active view, then the search prompt, the error line,
/// the key hints and the help legend, each where it is shown. Rows that changed since the previous refresh are marked. Returns the number of rows
/// used and the cell just past the query.
pub fn paint_dashboard(
    s: &mut TextBuffer,
    sections: &Sections,
    times: &Times,
    ui: &Ui,
    changes: &Changes,
    error: &str,
    footer: Option<(&str, bool)>,
    more: bool,
    ascii: bool,
    show_branch: bool,
) -> (r: (u16, Option<Position>))
    requires
        goes_with(*times, *sections),
        totals_fit(*sections),
        frame(*old(s)).width + 7 <= u16::MAX,
        tabs_height(footer) + body_room(
            ui.view,
            *sections,
            *times,
            look_of(*changes, ui.selected, ascii, show_branch),
        ) + bottom_of(*ui, 0, error@, footer, more, false).height() <= u16::MAX,
    ensures
        ({
            let f = frame(*old(s));
            let look = look_of(*changes, ui.selected, ascii, show_branch);
            let matches = nav::all_targets(ui.view, *sections, folded(ui.search@)).len() as int;
            let b = bottom_of(*ui, matches, error@, footer, more, false);
            let top = tabs_height(footer) + body_height(f, ui.view, *sections, *times, look);
            &&& frame(*final(s)) == f
            &&& cells(*final(s)) == painted(
                cells(*old(s)),
                f,
                dashboard_strokes(f, *sections, *times, ui.view, look, b, footer),
            )
            &&& r.0 == top + b.height()
            &&& r.0 <= height_limit(*sections, *ui)
            &&& (match r.1 {
                Some(p) => Some((p.x, p.y)),
                None => None,
            }) == caret_of(b, f, top)
        }),
{
    let ghost g = cells(*s);
    let ghost f = frame(*s);
    let ghost look = look_of(*changes, ui.selected, ascii, show_branch);
    let ghost mut done: Seq<Stroke> = Seq::empty();
    let mut y: u16 = 0;
    proof {
        a_body_fits_its_room(f, ui.view, *sections, *times, look);
    }
    if footer.is_some() {
        y = paint_tabs(s, ui.view, ascii, y) + 1;
        proof {
            done = tab_strokes(f, ui.view, ascii, 0);
        }
    }
    let ghost top = y as int;
    let ghost body = body_strokes(f, ui.view, *sections, *times, look, top);
    y = match ui.view {
        ViewKind::Mine => paint_mine(
            s,
            sections,
            times,
            changes,
            ui.selected,
            ascii,
            show_branch,
            y,
        ),
        ViewKind::Reviews => {
            proof {
                let vs = view_sections(ui.view, *sections, *times, look);
                let a = alignment_of(f, present_tables(vs));
                let upper = sections_strokes(f, a, vs, ascii, top, vs.len() as int);
                assert(upper + Seq::<Stroke>::empty() =~= upper);
            }
            paint_reviews(s, sections, times, ui.selected, ascii, show_branch, y)
        },
    };
    proof {
        painted_more(g, f, done, body);
        done = done + body;
    }
    let matches: usize = nav::targets(ui.view, sections, ui.search.as_str()).len();
    assert(nav::all_targets(ui.view, *sections, folded(ui.search@)).len() == matches);
    let r: (u16, Option<Position>) = paint_bottom(
        s,
        ui,
        matches,
        error,
        footer,
        more,
        false,
        ascii,
        y,
    );
    proof {
        let b = bottom_of(*ui, matches as int, error@, footer, more, false);
        painted_more(g, f, done, b.strokes(f, ascii, y as int));
        the_dashboard_stays_below_its_bound(
            f,
            *sections,
            *times,
            *ui,
            look,
            matches as int,
            error@,
            footer,
            more,
        );
    }
    r
}

/// The most rows the dashboard can take, by the numbers of its rows.
pub open spec fn height_limit(s: Sections, ui: Ui) -> int {
    10 + (match ui.view {
        ViewKind::Mine => counted(s.prs) + counted(s.queue) + counted(s.merged) + (match s.commits {
            Some(c) => c.releases@.len() as int + 4,
            None => 0,
        }),
        ViewKind::Reviews => counted(s.reviews) + counted(s.reviewed_merged),
    }) + (if ui.show_help {
        3 + legend_len(ui.view)
    } else {
        0
    })
}

/// The rows of an optional section, with its header, its table header and a
/// blank row.
pub open spec fn counted<T>(rows: Option<Vec<T>>) -> int {
    match rows {
        Some(r) => r@.len() as int + 3,
        None => 0,
    }
}

/// The rows of an optional section, with what stands around them.
pub(crate) fn count_section<T>(rows: &Option<Vec<T>>) -> (n: usize)
    requires
        counted(*rows) <= u16::MAX,
    ensures
        n == counted(*rows),
{
    match rows {
        Some(r) => r.len() + 3,
        None => 0,
    }
}

/// A safe upper bound on the dashboard height, used to size a surface before it
/// is cropped to the painted height.
pub fn height_bound(s: &Sections, ui: &Ui) -> (h: u16)
    requires
        height_limit(*s, *ui) <= u16::MAX,
    ensures
        h == height_limit(*s, *ui),
{
    let mut n: usize = 10;
    match ui.view {
        ViewKind::Mine => {
            n = n + count_section(&s.prs);
            n = n + count_section(&s.queue);
            n = n + count_section(&s.merged);
            n = n + match &s.commits {
                Some(c) => c.releases.len() + 4,
                None => 0,
            };
        },
        ViewKind::Reviews => {
            n = n + count_section(&s.reviews);
            n = n + count_section(&s.reviewed_merged);
        },
    }
    if ui.show_help {
        n = n + help_height(ui.view) + 1;
    }
    n as u16
}

/// The bound on the height is one: whatever the width, the dashboard takes no
/// more rows.
pub proof fn the_dashboard_stays_below_its_bound(
    f: Frame,
    s: Sections,
    times: Times,
    ui: Ui,
    look: Look,
    matches: int,
    error: Seq<char>,
    footer: Option<(&str, bool)>,
    more: bool,
)
    ensures
        tabs_height(footer) + body_height(f, ui.view, s, times, look) + bottom_of(
            ui,
            matches,
            error,
            footer,
            more,
            false,
        ).height() <= height_limit(s, ui),
{
    a_body_fits_its_room(f, ui.view, s, times, look);
    a_body_is_counted(ui.view, s, times, look);
}

/// How many rows and releases all sections have.
pub open spec fn all_rows(s: Sections) -> int {
    row_count(s.prs) + row_count(s.queue) + row_count(s.merged) + row_count(s.reviews)
        + row_count(s.reviewed_merged) + (match s.commits {
        Some(c) => c.releases@.len() as int,
        None => 0,
    })
}

/// The most rows and releases that a dashboard always has room for.
pub const ROOM: usize = 0xf000;

/// A dashboard of no more rows than there is always room for can be painted,
/// whatever stands below its sections, and its height is bounded.
pub proof fn a_dashboard_has_room(
    s: Sections,
    times: Times,
    ui: Ui,
    look: Look,
    matches: int,
    error: Seq<char>,
    footer: Option<(&str, bool)>,
    more: bool,
    help_first: bool,
)
    requires
        all_rows(s) <= ROOM,
    ensures
        height_limit(s, ui) <= u16::MAX,
        2 + counted_body(ui.view, s) <= u16::MAX,
        tabs_height(footer) + body_room(ui.view, s, times, look) + bottom_of(
            ui,
            matches,
            error,
            footer,
            more,
            help_first,
        ).height() <= u16::MAX,
{
    a_body_is_counted(ui.view, s, times, look);
}

/// The rows of a view by the numbers of its rows.
pub open spec fn counted_body(view: ViewKind, s: Sections) -> int {
    match view {
        ViewKind::Mine => counted(s.prs) + counted(s.queue) + counted(s.merged) + (match s.commits {
            Some(c) => commits_height(c) + 1,
            None => 0,
        }),
        ViewKind::Reviews => counted(s.reviews) + counted(s.reviewed_merged),
    }
}

/// The room of a view goes by the numbers of its rows alone.
pub proof fn a_body_is_counted(view: ViewKind, s: Sections, times: Times, look: Look)
    ensures
        body_room(view, s, times, look) == counted_body(view, s),
{
    match view {
        ViewKind::Mine => {
            let one = prs_section(
                s,
                look.status_changed,
                look.selected,
                look.ascii,
                look.show_branch,
            );
            let two = queue_section(
                s,
                times,
                look.selected,
                look.ascii,
                look.show_branch,
            );
            let three = merged_section(
                s,
                times,
                look.newly_merged,
                look.selected,
                look.ascii,
                look.show_branch,
            );
            rooms_add_up(one + two, three);
            rooms_add_up(one, two);
            one_room(one);
            one_room(two);
            one_room(three);
        },
        ViewKind::Reviews => {
            reveal_with_fuel(sections_room, 4);
        },
    }
}

/// The room of a list of at most one section.
pub(crate) proof fn one_room(vs: Seq<SectionView>)
    requires
        vs.len() <= 1,
    ensures
        sections_room(vs, vs.len() as int) == (if vs.len() == 0 {
            0
        } else {
            section_room(vs[0])
        }),
{
    reveal_with_fuel(sections_room, 3);
}

/// The room of two lists of sections is that of both.
pub(crate) proof fn rooms_add_up(a: Seq<SectionView>, b: Seq<SectionView>)
    ensures
        sections_room(a + b, (a + b).len() as int) == sections_room(a, a.len() as int)
            + sections_room(b, b.len() as int),
{
    room_of_prefix(a, b, a.len() as int);
    room_of_suffix(a, b, b.len() as int);
}

proof fn room_of_prefix(a: Seq<SectionView>, b: Seq<SectionView>, n: int)
    requires
        0 <= n <= a.len(),
    ensures
        sections_room(a + b, n) == sections_room(a, n),
    decreases n,
{
    if n > 0 {
        room_of_prefix(a, b, n - 1);
    }
}

proof fn room_of_suffix(a: Seq<SectionView>, b: Seq<SectionView>, n: int)
    requires
        0 <= n <= b.len(),
    ensures
        sections_room(a + b, a.len() + n) == sections_room(a + b, a.len() as int)
            + sections_room(b, n),
    decreases n,
{
    if n > 0 {
        room_of_suffix(a, b, n - 1);
    }
}

/// The first line of a text, without its line break.
pub open spec fn first_line(text: Seq<char>) -> Seq<char> {
    match text.index_of_first('\n') {
        Some(i) => if i > 0 && text[i - 1] == '\r' {
            text.take(i - 1)
        } else {
            text.take(i)
        },
        None => text,
    }
}

/// A line cut to 120 characters, the cut marked.
pub open spec fn shortened(line: Seq<char>) -> Seq<char> {
    if line.len() > 120 {
        line.take(119).push('\u{2026}')
    } else {
        line
    }
}

/// The first line of an error, truncated, for the one-line error status.
pub fn short_error(full: &str) -> (r: String)
    ensures
        r@ == shortened(first_line(full@)),
        r@.len() <= 120,
{
    let chars: Vec<char> = chars_of(full);
    proof {
        full@.index_of_first_ensures('\n');
    }
    let mut n: usize = 0;
    while n < chars.len() && chars[n] != '\n'
        invariant
            n <= chars@.len(),
            chars@ == full@,
            forall|j: int| 0 <= j < n ==> full@[j] != '\n',
        decreases chars@.len() - n,
    {
        n += 1;
    }
    let found: bool = n < chars.len();
    if found && n > 0 && chars[n - 1] == '\r' {
        n = n - 1;
    }
    assert(first_line(full@) =~= full@.take(n as int));
    if n > 120 {
        let mut r: String = text_of(&chars, 119);
        r.push('\u{2026}');
        assert(full@.take(n as int).take(119) =~= full@.take(119));
        r
    } else {
        text_of(&chars, n)
    }
}

/// The shipment that the cursor is on leads where the matching link does.
proof fn the_caret_is_on_the_selected_shipment(
    stats: CommitStats,
    ages: Seq<Option<String>>,
    k: usize,
)
    requires
        k < nav::shipment_links(Some(stats), Seq::empty()).len(),
    ensures
        ({
            let i = if stats.upcoming is Some {
                k as int
            } else {
                k + 1
            };
            let rows = crate::shipments::shipment_rows(stats, ages);
            &&& stats.available
            &&& crate::shipments::is_selected(stats, Some(k), i)
            &&& 0 <= i < rows.len()
            &&& rows[i].url == Some(nav::shipment_links(Some(stats), Seq::empty())[k as int])
        }),
{
    nav::the_empty_query_keeps_all(stats.releases@);
}

/// The caret is on the row that is opened: in the view of your own PRs, the row
/// that shows it leads where the selected one of the visited links does.
pub proof fn the_caret_is_on_the_selected_link(
    s: Sections,
    ages: Seq<Option<String>>,
    sel: usize,
)
    requires
        sel < nav::all_targets(ViewKind::Mine, s, Seq::empty()).len(),
    ensures
        ({
            let link = nav::all_targets(ViewKind::Mine, s, Seq::empty())[sel as int];
            let np = row_count(s.prs);
            let nq = row_count(s.queue);
            let nm = row_count(s.merged);
            &&& local_row(Some(sel), 0, np) matches Some(k) ==> s.prs->0@[k].url@ == link
            &&& local_row(Some(sel), np, nq) matches Some(k) ==> s.queue->0@[k].url@ == link
            &&& local_row(Some(sel), np + nq, nm) matches Some(k) ==> s.merged->0@[k].url@ == link
            &&& shipment_sel(s, Some(sel)) matches Some(k) ==> {
                let stats = s.commits->0;
                let i = if stats.upcoming is Some {
                    k as int
                } else {
                    k + 1
                };
                let rows = crate::shipments::shipment_rows(stats, ages);
                &&& s.commits is Some
                &&& stats.available
                &&& crate::shipments::is_selected(stats, Some(k), i)
                &&& 0 <= i < rows.len()
                &&& rows[i].url == Some(link)
            }
        }),
{
    let q = Seq::<char>::empty();
    let a = nav::section_links(s.prs, q);
    let b = nav::section_links(s.queue, q);
    let c = nav::section_links(s.merged, q);
    let d = nav::shipment_links(s.commits, q);
    let all = nav::all_targets(ViewKind::Mine, s, q);
    nav::all_links(s.prs);
    nav::all_links(s.queue);
    nav::all_links(s.merged);
    nav::four_groups(a, b, c, d);
    assert(all == a + (b + (c + d)));
    let link = all[sel as int];
    let np = row_count(s.prs);
    let nq = row_count(s.queue);
    let nm = row_count(s.merged);
    assert(a.len() == np && b.len() == nq && c.len() == nm);
    if sel < np {
        assert(link == a[sel as int]);
    } else if sel < np + nq {
        assert(link == b[sel - np]);
    } else if sel < np + nq + nm {
        assert(link == c[sel - np - nq]);
    } else {
        assert(link == d[sel - np - nq - nm]);
        the_caret_is_on_the_selected_shipment(
            s.commits->0,
            ages,
            (sel - np - nq - nm) as usize,
        );
    }
}

/// In the reviews view too, the row that shows the caret leads where the selected
/// one of the visited links does.
pub proof fn the_caret_is_on_the_selected_review(s: Sections, sel: usize)
    requires
        sel < nav::all_targets(ViewKind::Reviews, s, Seq::empty()).len(),
    ensures
        ({
            let link = nav::all_targets(ViewKind::Reviews, s, Seq::empty())[sel as int];
            let nr = row_count(s.reviews);
            let nm = row_count(s.reviewed_merged);
            &&& local_row(Some(sel), 0, nr) matches Some(k) ==> s.reviews->0@[k].url@ == link
            &&& local_row(Some(sel), nr, nm) matches Some(k) ==> s.reviewed_merged->0@[k].url@
                == link
            &&& local_row(Some(sel), 0, nr) is Some || local_row(Some(sel), nr, nm) is Some
        }),
{
    let q = Seq::<char>::empty();
    let a = nav::section_links(s.reviews, q);
    let b = nav::section_links(s.reviewed_merged, q);
    nav::all_links(s.reviews);
    nav::all_links(s.reviewed_merged);
    nav::two_groups(a, b);
    assert(nav::all_targets(ViewKind::Reviews, s, q) == a + b);
}

/// An error is shown on one line of no more than 120 characters: as it is where it
/// fits, else cut with an ellipsis at its end. What stands below its first line is
/// left out.
pub proof fn an_error_takes_one_line(line: &str, full: &str, rest: Seq<char>, x: String, y: String)
    requires
        !line@.contains('\n'),
        line@.len() > 0 ==> line@.last() != '\r',
        full@ == line@.push('\n') + rest,
        call_ensures(short_error, (line,), x),
        call_ensures(short_error, (full,), y),
    ensures
        y@ == x@,
        line@.len() <= 120 ==> x@ == line@,
        line@.len() > 120 ==> x@.len() == 120 && x@.last() == '\u{2026}' && x@.drop_last()
            == line@.take(119),
        !x@.contains('\n'),
{
    let n = line@.len() as int;
    line@.index_of_first_ensures('\n');
    full@.index_of_first_ensures('\n');
    assert(full@[n] == '\n');
    assert(full@.contains('\n'));
    let i = full@.index_of_first('\n')->0;
    if i < n {
        assert(line@[i] == full@[i]);
    }
    assert(i == n);
    assert(full@.take(n) =~= line@);
    if n > 0 {
        assert(full@[n - 1] == line@.last());
    }
    assert(first_line(full@) =~= line@);
    assert(first_line(line@) =~= line@);
    if x@.contains('\n') {
        let k = choose|k: int| 0 <= k < x@.len() && x@[k] == '\n';
        assert(line@[k] == '\n');
    }
    if n > 120 {
        assert(x@.drop_last() =~= line@.take(119));
    }
}

} // verus!
