//! Tables: styled cells under a fixed header, laid out across the full width of
//! a surface.
//!
//! A table gives most room to its `TITLE` column and then to `BRANCH`. Where
//! the surface is too narrow, columns right of `TITLE` are hidden.

use crate::surface::{frame, str_width, text_width, width, Frame, Style, StyleView};
use crate::text::same;
use uncurses::buffer::TextBuffer;
use vstd::prelude::*;

verus! {

/// Two blank columns separate adjacent table columns.
pub const SEP: usize = 2;

/// The least width of a shown `TITLE` column.
pub const TITLE_MIN: usize = 5;

/// The least width of a shown `BRANCH` column.
pub const BRANCH_MIN: usize = 6;

/// The most columns a table may have.
pub const MAX_COLUMNS: usize = 0xff00;

/// One table cell: its text and its style, which carries any hyperlink.
pub struct Cell {
    pub text: String,
    pub style: Style,
}

/// What a cell shows.
#[verifier::ext_equal]
pub struct CellText {
    pub text: Seq<char>,
    pub style: StyleView,
}

impl View for Cell {
    type V = CellText;

    open spec fn view(&self) -> CellText {
        CellText { text: self.text@, style: self.style@ }
    }
}

/// A table: a fixed header and styled rows.
pub struct Table {
    pub header: Vec<&'static str>,
    pub rows: Vec<Vec<Cell>>,
}

/// What a table shows.
#[verifier::ext_equal]
pub struct TableView {
    pub header: Seq<Seq<char>>,
    pub rows: Seq<Seq<CellText>>,
}

/// The texts of a header.
pub open spec fn header_view(header: Seq<&'static str>) -> Seq<Seq<char>> {
    Seq::new(header.len(), |i: int| header[i]@)
}

/// The cells of a row.
pub open spec fn row_view(row: Seq<Cell>) -> Seq<CellText> {
    Seq::new(row.len(), |i: int| row[i]@)
}

/// The cells of several rows.
pub open spec fn rows_view(rows: Seq<Vec<Cell>>) -> Seq<Seq<CellText>> {
    Seq::new(rows.len(), |i: int| row_view(rows[i]@))
}

impl View for Table {
    type V = TableView;

    open spec fn view(&self) -> TableView {
        TableView { header: header_view(self.header@), rows: rows_view(self.rows@) }
    }
}

impl TableView {
    /// The first column of that name.
    pub open spec fn column(self, name: Seq<char>) -> Option<int> {
        self.header.index_of_first(name)
    }
}

impl Table {
    /// The first column whose header is `name`.
    pub(crate) fn column(&self, name: &str) -> (r: Option<usize>)
        ensures
            (match r {
                Some(c) => Some(c as int),
                None => None,
            }) == self@.column(name@),
            r matches Some(c) ==> c < self.header@.len() && self.header@[c as int]@ == name@,
    {
        proof {
            self@.header.index_of_first_ensures(name@);
        }
        let mut i: usize = 0;
        while i < self.header.len()
            invariant
                i <= self.header@.len(),
                forall|j: int| 0 <= j < i ==> self@.header[j] != name@,
                match self@.header.index_of_first(name@) {
                    Some(index) => {
                        &&& 0 <= index < self@.header.len()
                        &&& self@.header[index] == name@
                        &&& forall|j: int|
                            0 <= j < index < self@.header.len() ==> self@.header[j] != name@
                    },
                    None => !self@.header.contains(name@),
                },
            decreases self.header@.len() - i,
        {
            assert(self@.header[i as int] == self.header@[i as int]@);
            if same(self.header[i], name) {
                return Some(i);
            }
            i += 1;
        }
        None
    }
}

/// Whether a column is one of the three lamps of the check semaphore.
pub open spec fn is_lamp(name: Seq<char>) -> bool {
    name == "FAIL"@ || name == "RUN"@ || name == "PASS"@
}

/// Whether a header names a lamp of the check semaphore.
fn lamp_header(name: &str) -> (r: bool)
    ensures
        r == is_lamp(name@),
{
    same(name, "FAIL") || same(name, "RUN") || same(name, "PASS")
}

/// The greater of two numbers.
pub open spec fn max(a: int, b: int) -> int {
    if a < b {
        b
    } else {
        a
    }
}

/// The lesser of two numbers.
pub open spec fn min(a: int, b: int) -> int {
    if b < a {
        b
    } else {
        a
    }
}

/// The width of the widest of `floor` and the cells of column `c`.
pub open spec fn widest(f: Frame, rows: Seq<Seq<CellText>>, c: int, floor: int) -> int
    decreases rows.len(),
{
    if rows.len() == 0 {
        floor
    } else {
        let w = widest(f, rows.drop_last(), c, floor);
        if c < rows.last().len() {
            max(w, text_width(f.measure, rows.last()[c].text) as int)
        } else {
            w
        }
    }
}

/// The display width of column `c`: that of its header or of its widest cell.
pub open spec fn natural_width(f: Frame, t: TableView, c: int) -> int {
    widest(f, t.rows, c, text_width(f.measure, t.header[c]) as int)
}

/// A column is at most as wide as a surface can be.
pub proof fn natural_width_bound(f: Frame, t: TableView, c: int)
    ensures
        0 <= natural_width(f, t, c) <= 0xffff,
{
    widest_bound(f, t.rows, c, text_width(f.measure, t.header[c]) as int);
}

proof fn widest_bound(f: Frame, rows: Seq<Seq<CellText>>, c: int, floor: int)
    requires
        0 <= floor <= 0xffff,
    ensures
        floor <= widest(f, rows, c, floor) <= 0xffff,
    decreases rows.len(),
{
    if rows.len() > 0 {
        widest_bound(f, rows.drop_last(), c, floor);
    }
}

/// The display width of table column `c`: its header and widest cell.
fn col_width(s: &TextBuffer, table: &Table, c: usize) -> (w: usize)
    requires
        c < table.header@.len(),
    ensures
        w == natural_width(frame(*s), table@, c as int),
        w <= 0xffff,
{
    let mut w: usize = str_width(s, table.header[c]) as usize;
    let mut r: usize = 0;
    assert(table@.rows.take(0) =~= Seq::empty());
    while r < table.rows.len()
        invariant
            r <= table.rows@.len(),
            c < table.header@.len(),
            w == widest(
                frame(*s),
                table@.rows.take(r as int),
                c as int,
                text_width(frame(*s).measure, table@.header[c as int]) as int,
            ),
            w <= 0xffff,
        decreases table.rows@.len() - r,
    {
        let row: &Vec<Cell> = &table.rows[r];
        assert(table@.rows.take(r + 1).drop_last() =~= table@.rows.take(r as int));
        assert(table@.rows.take(r + 1).last() == row_view(row@));
        if c < row.len() {
            let cw: usize = str_width(s, row[c].text.as_str()) as usize;
            if w < cw {
                w = cw;
            }
        }
        r += 1;
    }
    assert(table@.rows.take(table.rows@.len() as int) =~= table@.rows);
    w
}

/// Column widths that several tables share.
pub struct TableAlignment {
    prefix_widths: Vec<usize>,
    title_width: Option<usize>,
    hide_branch: bool,
}

/// The shared widths of the columns left of `TITLE`, the shared width of
/// `TITLE` where there is one, and whether no table shows `BRANCH`.
#[verifier::ext_equal]
pub struct AlignmentView {
    pub prefix: Seq<int>,
    pub title: Option<int>,
    pub hide_branch: bool,
}

/// Machine widths as numbers.
pub open spec fn ints(s: Seq<usize>) -> Seq<int> {
    Seq::new(s.len(), |i: int| s[i] as int)
}

impl View for TableAlignment {
    type V = AlignmentView;

    closed spec fn view(&self) -> AlignmentView {
        AlignmentView {
            prefix: ints(self.prefix_widths@),
            title: match self.title_width {
                Some(w) => Some(w as int),
                None => None,
            },
            hide_branch: self.hide_branch,
        }
    }
}

impl AlignmentView {
    /// No shared width is wider than a surface can be.
    pub open spec fn valid(self) -> bool {
        &&& forall|i: int| 0 <= i < self.prefix.len() ==> 0 <= #[trigger] self.prefix[i] <= 0xffff
        &&& self.title matches Some(w) ==> 0 <= w <= 0xffff
    }
}

/// The columns that are shown, in order.
pub open spec fn indices(shown: Seq<bool>) -> Seq<int>
    decreases shown.len(),
{
    if shown.len() == 0 {
        Seq::empty()
    } else if shown.last() {
        indices(shown.drop_last()).push(shown.len() - 1)
    } else {
        indices(shown.drop_last())
    }
}

/// A column is among the shown ones exactly where its flag is set.
pub proof fn indices_are_the_shown(shown: Seq<bool>)
    ensures
        indices(shown).len() <= shown.len(),
        forall|k: int|
            0 <= k < indices(shown).len() ==> 0 <= #[trigger] indices(shown)[k] < shown.len()
                && shown[indices(shown)[k]],
        forall|c: int|
            0 <= c < shown.len() && #[trigger] shown[c] ==> indices(shown).contains(c),
        forall|j: int, k: int|
            0 <= j < k < indices(shown).len() ==> #[trigger] indices(shown)[j]
                < #[trigger] indices(shown)[k],
    decreases shown.len(),
{
    if shown.len() > 0 {
        let rest = shown.drop_last();
        indices_are_the_shown(rest);
        assert forall|c: int| 0 <= c < shown.len() && #[trigger] shown[c] implies indices(
            shown,
        ).contains(c) by {
            if c < shown.len() - 1 {
                assert(rest[c]);
                let k = choose|k: int| 0 <= k < indices(rest).len() && indices(rest)[k] == c;
                assert(indices(shown)[k] == c);
            } else {
                assert(indices(shown).last() == c);
            }
        }
    }
}

/// Hiding columns leaves fewer shown.
proof fn hiding_shrinks(before: Seq<bool>, after: Seq<bool>, c: int)
    requires
        before.len() == after.len(),
        forall|i: int| 0 <= i < after.len() && #[trigger] after[i] ==> before[i],
        0 <= c < before.len(),
        before[c],
        !after[c],
    ensures
        indices(after).len() < indices(before).len(),
    decreases before.len(),
{
    hiding_does_not_grow(before.drop_last(), after.drop_last());
    if c < before.len() - 1 {
        hiding_shrinks(before.drop_last(), after.drop_last(), c);
    }
}

/// Hiding columns does not leave more shown.
proof fn hiding_does_not_grow(before: Seq<bool>, after: Seq<bool>)
    requires
        before.len() == after.len(),
        forall|i: int| 0 <= i < after.len() && #[trigger] after[i] ==> before[i],
    ensures
        indices(after).len() <= indices(before).len(),
    decreases before.len(),
{
    if before.len() > 0 {
        hiding_does_not_grow(before.drop_last(), after.drop_last());
    }
}

/// Everything that decides how a table with a `TITLE` column is laid out.
pub struct Plan {
    pub f: Frame,
    pub t: TableView,
    pub alignment: Option<AlignmentView>,
    pub title: int,
    pub branch: Option<int>,
}

impl Plan {
    /// The width of a column that is neither `TITLE` nor `BRANCH`.
    pub open spec fn width(self, c: int) -> int {
        if c < self.title && self.alignment is Some && c < self.alignment->0.prefix.len() {
            self.alignment->0.prefix[c]
        } else {
            natural_width(self.f, self.t, c)
        }
    }

    /// Whether `BRANCH` is among the shown columns.
    pub open spec fn branch_shown(self, shown: Seq<bool>) -> bool {
        self.branch is Some && shown[self.branch->0]
    }

    /// The total width of those of the columns that do not flex.
    pub open spec fn fixed(self, columns: Seq<int>) -> int
        decreases columns.len(),
    {
        if columns.len() == 0 {
            0
        } else {
            let c = columns.last();
            self.fixed(columns.drop_last()) + if c != self.title && Some(c) != self.branch {
                self.width(c)
            } else {
                0
            }
        }
    }

    /// The total width of the gaps between so many columns.
    pub open spec fn gaps(self, n: int) -> int {
        if n == 0 {
            0
        } else {
            SEP * (n - 1)
        }
    }

    /// What is left for `TITLE` and `BRANCH`.
    pub open spec fn flexible(self, shown: Seq<bool>) -> int {
        self.f.width - self.fixed(indices(shown)) - self.gaps(indices(shown).len() as int)
    }

    /// The least room that the flexible columns need.
    pub open spec fn needed(self, shown: Seq<bool>) -> int {
        if self.branch_shown(shown) {
            BRANCH_MIN + 1 + BRANCH_MIN
        } else {
            TITLE_MIN as int
        }
    }

    /// Whether the shown columns fit on the surface.
    pub open spec fn fits(self, shown: Seq<bool>) -> bool {
        self.needed(shown) <= self.flexible(shown)
    }

    /// The rightmost shown column below `upto` that lies right of `TITLE` and is
    /// not `BRANCH`.
    pub open spec fn rightmost(self, shown: Seq<bool>, upto: int) -> Option<int>
        decreases upto,
    {
        if upto <= self.title + 1 || upto <= 0 {
            None
        } else if shown[upto - 1] && Some(upto - 1) != self.branch {
            Some(upto - 1)
        } else {
            self.rightmost(shown, upto - 1)
        }
    }

    /// What is shown after the next column was hidden: the rightmost detail
    /// column, with it the whole semaphore where it is a lamp, and `BRANCH` once
    /// no other is left. `None` where nothing can be hidden any more.
    pub open spec fn hide_next(self, shown: Seq<bool>) -> Option<Seq<bool>> {
        match self.rightmost(shown, shown.len() as int) {
            Some(c) => if is_lamp(self.t.header[c]) {
                Some(Seq::new(shown.len(), |i: int| shown[i] && !is_lamp(self.t.header[i])))
            } else {
                Some(shown.update(c, false))
            },
            None => if self.branch_shown(shown) {
                Some(shown.update(self.branch->0, false))
            } else {
                None
            },
        }
    }

    /// The columns that stay when columns are hidden until the rest fits.
    pub open spec fn settle(self, shown: Seq<bool>) -> Option<Seq<bool>>
        decreases indices(shown).len(),
        when self.valid(shown)
        via Self::settle_terminates
    {
        if self.fits(shown) {
            Some(shown)
        } else {
            match self.hide_next(shown) {
                Some(less) => self.settle(less),
                None => None,
            }
        }
    }

    #[via_fn]
    proof fn settle_terminates(self, shown: Seq<bool>) {
        if !self.fits(shown) {
            self.hide_next_hides(shown);
        }
    }

    /// The flags speak of the columns of this table.
    pub open spec fn valid(self, shown: Seq<bool>) -> bool {
        &&& shown.len() == self.t.header.len()
        &&& 0 <= self.title < shown.len()
        &&& self.branch matches Some(b) ==> 0 <= b < shown.len() && b != self.title
    }

    pub(crate) proof fn rightmost_is_shown(self, shown: Seq<bool>, upto: int)
        requires
            0 <= upto <= shown.len(),
            0 <= self.title,
        ensures
            self.rightmost(shown, upto) matches Some(c) ==> self.title < c < upto && shown[c]
                && Some(c) != self.branch && (forall|i: int|
                c < i < upto && Some(i) != self.branch ==> !#[trigger] shown[i]),
            self.rightmost(shown, upto) is None ==> forall|i: int|
                self.title < i < upto && Some(i) != self.branch ==> !#[trigger] shown[i],
        decreases upto,
    {
        if upto > self.title + 1 {
            self.rightmost_is_shown(shown, upto - 1);
        }
    }

    pub(crate) proof fn hide_next_hides(self, shown: Seq<bool>)
        requires
            self.valid(shown),
        ensures
            self.hide_next(shown) matches Some(less) ==> less.len() == shown.len() && self.valid(
                less,
            ) && indices(less).len() < indices(shown).len() && (forall|i: int|
                0 <= i < less.len() && #[trigger] less[i] ==> shown[i]),
    {
        self.rightmost_is_shown(shown, shown.len() as int);
        match self.hide_next(shown) {
            Some(less) => {
                let c = match self.rightmost(shown, shown.len() as int) {
                    Some(c) => c,
                    None => self.branch->0,
                };
                assert(shown[c] && !less[c]);
                hiding_shrinks(shown, less, c);
            },
            None => {},
        }
    }

    /// The columns that are shown before any is hidden for want of room.
    pub open spec fn start(self) -> Seq<bool> {
        Seq::new(
            self.t.header.len(),
            |i: int|
                !(self.alignment is Some && self.alignment->0.hide_branch && Some(i)
                    == self.branch),
        )
    }

    /// The width of `BRANCH` where it is shown.
    pub open spec fn branch_width(self, shown: Seq<bool>) -> int {
        let room = self.flexible(shown);
        if self.alignment is Some && self.alignment->0.title is Some {
            room - self.alignment->0.title->0
        } else {
            let most = max((room - 1) / 2, BRANCH_MIN as int);
            min(max(natural_width(self.f, self.t, self.branch->0), BRANCH_MIN as int), most)
        }
    }

    /// The width of `TITLE`: what the other columns leave.
    pub open spec fn title_width(self, shown: Seq<bool>) -> int {
        if self.branch_shown(shown) {
            self.flexible(shown) - self.branch_width(shown)
        } else {
            self.flexible(shown)
        }
    }

    /// The width of a shown column.
    pub open spec fn final_width(self, shown: Seq<bool>, c: int) -> int {
        if c == self.title {
            self.title_width(shown)
        } else if Some(c) == self.branch {
            self.branch_width(shown)
        } else {
            self.width(c)
        }
    }

    /// The shown columns and their widths.
    pub open spec fn layout(self, shown: Seq<bool>) -> LayoutView {
        LayoutView {
            columns: indices(shown),
            widths: Seq::new(
                indices(shown).len(),
                |k: int| self.final_width(shown, indices(shown)[k]),
            ),
        }
    }
}

/// The columns that are shown and how wide each is.
#[verifier::ext_equal]
pub struct LayoutView {
    pub columns: Seq<int>,
    pub widths: Seq<int>,
}

/// The plan of a table whose `TITLE` column is `title`.
pub open spec fn plan(
    f: Frame,
    t: TableView,
    alignment: Option<AlignmentView>,
    title: int,
) -> Plan {
    Plan { f, t, alignment, title, branch: t.column("BRANCH"@) }
}

/// How a table is laid out: all of its columns at their natural widths where it
/// has no `TITLE`; otherwise across the full width of the surface, without the
/// columns that had to be hidden. `None` where even the columns that are never
/// hidden do not fit.
pub open spec fn layout(
    f: Frame,
    t: TableView,
    alignment: Option<AlignmentView>,
) -> Option<LayoutView> {
    match t.column("TITLE"@) {
        None => Some(
            LayoutView {
                columns: Seq::new(t.header.len(), |i: int| i),
                widths: Seq::new(t.header.len(), |i: int| natural_width(f, t, i)),
            },
        ),
        Some(title) => {
            let p = plan(f, t, alignment, title);
            match p.settle(p.start()) {
                Some(shown) => Some(p.layout(shown)),
                None => None,
            }
        },
    }
}

/// The columns of a table that are shown, and their widths.
pub struct TableLayout {
    pub columns: Vec<usize>,
    pub widths: Vec<usize>,
}

impl View for TableLayout {
    type V = LayoutView;

    open spec fn view(&self) -> LayoutView {
        LayoutView { columns: ints(self.columns@), widths: ints(self.widths@) }
    }
}

/// An optional alignment as numbers.
pub open spec fn align_view(a: Option<&TableAlignment>) -> Option<AlignmentView> {
    match a {
        Some(a) => Some(a@),
        None => None,
    }
}

/// An optional column as a number.
pub open spec fn column_view(c: Option<usize>) -> Option<int> {
    match c {
        Some(c) => Some(c as int),
        None => None,
    }
}

/// An optional layout as numbers.
pub open spec fn layout_view(l: Option<TableLayout>) -> Option<LayoutView> {
    match l {
        Some(l) => Some(l@),
        None => None,
    }
}

/// Whether a shared `TITLE` width leaves this table room for its `BRANCH`.
pub open spec fn suits(f: Frame, t: TableView, alignment: AlignmentView) -> bool {
    t.column("TITLE"@) matches Some(title) ==> {
        let p = plan(f, t, Some(alignment), title);
        p.settle(p.start()) matches Some(shown) ==> (p.branch_shown(shown) && alignment.title
            is Some ==> alignment.title->0 <= p.flexible(shown))
    }
}

/// The first column of a name lies inside the header.
pub(crate) proof fn column_in_header(t: TableView, name: Seq<char>)
    ensures
        t.column(name) matches Some(c) ==> 0 <= c < t.header.len() && t.header[c] == name,
{
    t.header.index_of_first_ensures(name);
}

/// The plan of a table with a `TITLE` column speaks of its columns.
pub(crate) proof fn plan_is_valid(f: Frame, t: TableView, alignment: Option<AlignmentView>, title: int)
    requires
        t.column("TITLE"@) == Some(title),
    ensures
        plan(f, t, alignment, title).valid(plan(f, t, alignment, title).start()),
{
    column_in_header(t, "TITLE"@);
    column_in_header(t, "BRANCH"@);
    reveal_strlit("TITLE");
    reveal_strlit("BRANCH");
    assert("TITLE"@[0] != "BRANCH"@[0]);
}

/// The columns whose flag is set, in order.
fn shown_columns(shown: &Vec<bool>) -> (columns: Vec<usize>)
    ensures
        ints(columns@) == indices(shown@),
        columns@.len() <= shown@.len(),
        forall|k: int| 0 <= k < columns@.len() ==> #[trigger] columns@[k] < shown@.len(),
{
    let mut columns: Vec<usize> = Vec::new();
    let mut c: usize = 0;
    while c < shown.len()
        invariant
            c <= shown@.len(),
            ints(columns@) == indices(shown@.take(c as int)),
            columns@.len() <= c,
            forall|k: int| 0 <= k < columns@.len() ==> #[trigger] columns@[k] < c,
        decreases shown@.len() - c,
    {
        assert(shown@.take(c + 1).drop_last() =~= shown@.take(c as int));
        let ghost before = columns@;
        if shown[c] {
            columns.push(c);
            assert(ints(columns@) =~= ints(before).push(c as int));
        }
        c += 1;
    }
    assert(shown@.take(shown@.len() as int) =~= shown@);
    columns
}

/// The width of a column that does not flex.
fn aligned_col_width(
    s: &TextBuffer,
    table: &Table,
    column: usize,
    title: usize,
    alignment: Option<&TableAlignment>,
) -> (w: usize)
    requires
        column < table.header@.len(),
        align_view(alignment) matches Some(a) ==> a.valid(),
    ensures
        w == plan(frame(*s), table@, align_view(alignment), title as int).width(column as int),
        w <= 0xffff,
{
    match alignment {
        Some(a) => {
            if column < title && column < a.prefix_widths.len() {
                assert(a@.prefix[column as int] == a.prefix_widths@[column as int]);
                return a.prefix_widths[column];
            }
        },
        None => {},
    }
    col_width(s, table, column)
}

/// The total width of those of the columns that do not flex.
fn fixed_width(
    s: &TextBuffer,
    table: &Table,
    columns: &Vec<usize>,
    title: usize,
    branch: Option<usize>,
    alignment: Option<&TableAlignment>,
) -> (w: usize)
    requires
        table.header@.len() <= MAX_COLUMNS,
        columns@.len() <= table.header@.len(),
        forall|k: int| 0 <= k < columns@.len() ==> #[trigger] columns@[k] < table.header@.len(),
        align_view(alignment) matches Some(a) ==> a.valid(),
        column_view(branch) == table@.column("BRANCH"@),
    ensures
        w == plan(frame(*s), table@, align_view(alignment), title as int).fixed(ints(columns@)),
        w <= 0xffff * columns@.len(),
{
    let ghost p = plan(frame(*s), table@, align_view(alignment), title as int);
    let mut w: usize = 0;
    let mut i: usize = 0;
    assert(ints(columns@).take(0) =~= Seq::empty());
    while i < columns.len()
        invariant
            i <= columns@.len(),
            columns@.len() <= MAX_COLUMNS,
            p == plan(frame(*s), table@, align_view(alignment), title as int),
            forall|k: int|
                0 <= k < columns@.len() ==> #[trigger] columns@[k] < table.header@.len(),
            align_view(alignment) matches Some(a) ==> a.valid(),
            column_view(branch) == table@.column("BRANCH"@),
            w == p.fixed(ints(columns@).take(i as int)),
            w <= 0xffff * i,
        decreases columns@.len() - i,
    {
        let c: usize = columns[i];
        assert(ints(columns@).take(i + 1).drop_last() =~= ints(columns@).take(i as int));
        assert(ints(columns@).take(i + 1).last() == c);
        let is_branch: bool = match branch {
            Some(b) => b == c,
            None => false,
        };
        if c != title && !is_branch {
            let cw: usize = aligned_col_width(s, table, c, title, alignment);
            w = w + cw;
        }
        i += 1;
    }
    assert(ints(columns@).take(columns@.len() as int) =~= ints(columns@));
    w
}

/// The rightmost shown column that lies right of `title` and is not `branch`.
fn rightmost_detail(shown: &Vec<bool>, title: usize, branch: Option<usize>, p: Ghost<Plan>) -> (r:
    Option<usize>)
    requires
        p@.title == title,
        p@.branch == column_view(branch),
        p@.valid(shown@),
    ensures
        column_view(r) == p@.rightmost(shown@, shown@.len() as int),
{
    let total: usize = shown.len();
    let mut upto: usize = total;
    while upto > title + 1
        invariant
            p@.title == title,
            p@.branch == column_view(branch),
            title < total == shown@.len(),
            upto <= shown@.len(),
            p@.rightmost(shown@, shown@.len() as int) == p@.rightmost(shown@, upto as int),
        decreases upto,
    {
        let c: usize = upto - 1;
        let is_branch: bool = match branch {
            Some(b) => b == c,
            None => false,
        };
        if shown[c] && !is_branch {
            return Some(c);
        }
        upto = c;
    }
    None
}

/// Hides every lamp of the check semaphore.
fn hide_lamps(shown: &mut Vec<bool>, table: &Table)
    requires
        old(shown)@.len() == table.header@.len(),
    ensures
        final(shown)@ == Seq::new(
            old(shown)@.len(),
            |i: int| old(shown)@[i] && !is_lamp(table@.header[i]),
        ),
{
    let mut c: usize = 0;
    while c < table.header.len()
        invariant
            c <= table.header@.len(),
            shown@.len() == table.header@.len(),
            old(shown)@.len() == table.header@.len(),
            forall|i: int|
                0 <= i < c ==> #[trigger] shown@[i] == (old(shown)@[i] && !is_lamp(
                    table@.header[i],
                )),
            forall|i: int| c <= i < shown@.len() ==> #[trigger] shown@[i] == old(shown)@[i],
        decreases table.header@.len() - c,
    {
        assert(table@.header[c as int] == table.header@[c as int]@);
        if lamp_header(table.header[c]) {
            shown.set(c, false);
        }
        c += 1;
    }
}

/// The widths of the shown columns.
fn final_widths(
    s: &TextBuffer,
    table: &Table,
    shown: &Vec<bool>,
    columns: &Vec<usize>,
    title: usize,
    branch: Option<usize>,
    alignment: Option<&TableAlignment>,
    title_width: usize,
    branch_width: usize,
) -> (widths: Vec<usize>)
    requires
        shown@.len() == table.header@.len(),
        ints(columns@) == indices(shown@),
        forall|k: int| 0 <= k < columns@.len() ==> #[trigger] columns@[k] < table.header@.len(),
        align_view(alignment) matches Some(a) ==> a.valid(),
        column_view(branch) == table@.column("BRANCH"@),
        title_width <= 0xffff,
        branch_width <= 0xffff,
        ({
            let p = plan(frame(*s), table@, align_view(alignment), title as int);
            &&& title_width == p.title_width(shown@)
            &&& p.branch_shown(shown@) ==> branch_width == p.branch_width(shown@)
        }),
    ensures
        ints(widths@) == plan(frame(*s), table@, align_view(alignment), title as int).layout(
            shown@,
        ).widths,
        widths@.len() == columns@.len(),
        forall|k: int| 0 <= k < widths@.len() ==> #[trigger] widths@[k] <= 0xffff,
{
    let ghost p = plan(frame(*s), table@, align_view(alignment), title as int);
    let mut widths: Vec<usize> = Vec::new();
    let mut i: usize = 0;
    proof {
        indices_are_the_shown(shown@);
    }
    while i < columns.len()
        invariant
            i <= columns@.len(),
            widths@.len() == i,
            title_width <= 0xffff,
            branch_width <= 0xffff,
            forall|k: int| 0 <= k < i ==> #[trigger] widths@[k] <= 0xffff,
            p == plan(frame(*s), table@, align_view(alignment), title as int),
            shown@.len() == table.header@.len(),
            ints(columns@) == indices(shown@),
            forall|k: int|
                0 <= k < columns@.len() ==> #[trigger] columns@[k] < table.header@.len(),
            forall|k: int|
                0 <= k < indices(shown@).len() ==> shown@[#[trigger] indices(shown@)[k]],
            align_view(alignment) matches Some(a) ==> a.valid(),
            column_view(branch) == table@.column("BRANCH"@),
            title_width == p.title_width(shown@),
            p.branch_shown(shown@) ==> branch_width == p.branch_width(shown@),
            forall|k: int|
                0 <= k < i ==> #[trigger] widths@[k] == p.final_width(
                    shown@,
                    indices(shown@)[k],
                ),
        decreases columns@.len() - i,
    {
        let c: usize = columns[i];
        assert(ints(columns@)[i as int] == c);
        assert(shown@[indices(shown@)[i as int]]);
        let is_branch: bool = match branch {
            Some(b) => b == c,
            None => false,
        };
        let w: usize = if c == title {
            title_width
        } else if is_branch {
            branch_width
        } else {
            aligned_col_width(s, table, c, title, alignment)
        };
        widths.push(w);
        i += 1;
    }
    assert(ints(widths@) =~= p.layout(shown@).widths);
    widths
}

/// Every column of a table, at its natural width.
fn natural_layout(s: &TextBuffer, table: &Table) -> (l: TableLayout)
    ensures
        l@ == (LayoutView {
            columns: Seq::new(table@.header.len(), |i: int| i),
            widths: Seq::new(table@.header.len(), |i: int| natural_width(frame(*s), table@, i)),
        }),
        l.columns@.len() == l.widths@.len() == table.header@.len(),
        forall|k: int| 0 <= k < l.columns@.len() ==> #[trigger] l.columns@[k] == k,
        forall|k: int| 0 <= k < l.widths@.len() ==> #[trigger] l.widths@[k] <= 0xffff,
{
    let mut columns: Vec<usize> = Vec::new();
    let mut widths: Vec<usize> = Vec::new();
    let mut c: usize = 0;
    while c < table.header.len()
        invariant
            c <= table.header@.len(),
            columns@.len() == c,
            widths@.len() == c,
            forall|k: int| 0 <= k < c ==> #[trigger] columns@[k] == k,
            forall|k: int| 0 <= k < c ==> #[trigger] widths@[k] <= 0xffff,
            forall|k: int|
                0 <= k < c ==> #[trigger] widths@[k] == natural_width(frame(*s), table@, k),
        decreases table.header@.len() - c,
    {
        columns.push(c);
        widths.push(col_width(s, table, c));
        c += 1;
    }
    let l = TableLayout { columns, widths };
    assert(l@.columns =~= Seq::new(table@.header.len(), |i: int| i));
    assert(l@.widths =~= Seq::new(
        table@.header.len(),
        |i: int| natural_width(frame(*s), table@, i),
    ));
    l
}

/// Lays a table out across the full surface width. Columns to the right of
/// `TITLE` disappear from right to left until the table fits.
pub fn table_layout(s: &TextBuffer, table: &Table, alignment: Option<&TableAlignment>) -> (r:
    Option<TableLayout>)
    requires
        table.header@.len() <= MAX_COLUMNS,
        align_view(alignment) matches Some(a) ==> a.valid() && suits(frame(*s), table@, a),
    ensures
        layout_view(r) == layout(frame(*s), table@, align_view(alignment)),
        r matches Some(l) ==> l.columns@.len() == l.widths@.len() && l.columns@.len()
            <= table.header@.len() && (forall|k: int|
            0 <= k < l.columns@.len() ==> #[trigger] l.columns@[k] < table.header@.len()) && (
        forall|k: int| 0 <= k < l.widths@.len() ==> #[trigger] l.widths@[k] <= 0xffff),
{
    let available: usize = width(s) as usize;
    let title: usize = match table.column("TITLE") {
        Some(title) => title,
        None => {
            return Some(natural_layout(s, table));
        },
    };
    let branch: Option<usize> = table.column("BRANCH");
    let ghost p = plan(frame(*s), table@, align_view(alignment), title as int);
    proof {
        plan_is_valid(frame(*s), table@, align_view(alignment), title as int);
    }
    let hide_branch: bool = match alignment {
        Some(a) => a.hide_branch,
        None => false,
    };
    let mut shown: Vec<bool> = Vec::new();
    let mut c: usize = 0;
    while c < table.header.len()
        invariant
            c <= table.header@.len(),
            shown@.len() == c,
            p.branch == column_view(branch),
            hide_branch == (p.alignment is Some && p.alignment->0.hide_branch),
            forall|i: int|
                0 <= i < c ==> #[trigger] shown@[i] == !(hide_branch && Some(i) == p.branch),
        decreases table.header@.len() - c,
    {
        let is_branch: bool = match branch {
            Some(b) => b == c,
            None => false,
        };
        shown.push(!(hide_branch && is_branch));
        c += 1;
    }
    assert(shown@ =~= p.start());
    loop
        invariant
            table.header@.len() <= MAX_COLUMNS,
            available == frame(*s).width,
            p == plan(frame(*s), table@, align_view(alignment), title as int),
            p.branch == column_view(branch),
            table@.column("TITLE"@) == Some(title as int),
            p.valid(shown@),
            p.settle(shown@) == p.settle(p.start()),
            align_view(alignment) matches Some(a) ==> a.valid() && suits(frame(*s), table@, a),
        decreases indices(shown@).len(),
    {
        let columns: Vec<usize> = shown_columns(&shown);
        let separators: usize = if columns.len() == 0 {
            0
        } else {
            SEP * (columns.len() - 1)
        };
        let fixed: usize = fixed_width(s, table, &columns, title, branch, alignment);
        let branch_shown: bool = match branch {
            Some(b) => shown[b],
            None => false,
        };
        let needed: usize = if branch_shown {
            BRANCH_MIN + 1 + BRANCH_MIN
        } else {
            TITLE_MIN
        };
        assert(ints(columns@).len() == columns@.len());
        if fixed + separators + needed <= available {
            let flexible: usize = available - fixed - separators;
            assert(flexible == p.flexible(shown@));
            assert(p.settle(shown@) == Some(shown@));
            let mut title_width: usize = flexible;
            let mut branch_width: usize = 0;
            if branch_shown {
                let shared: Option<usize> = match alignment {
                    Some(a) => a.title_width,
                    None => None,
                };
                branch_width = match shared {
                    Some(w) => flexible - w,
                    None => {
                        let natural: usize = col_width(s, table, branch.unwrap());
                        let half: usize = (flexible - 1) / 2;
                        let most: usize = if half < BRANCH_MIN {
                            BRANCH_MIN
                        } else {
                            half
                        };
                        let least: usize = if natural < BRANCH_MIN {
                            BRANCH_MIN
                        } else {
                            natural
                        };
                        if most < least {
                            most
                        } else {
                            least
                        }
                    },
                };
                title_width = flexible - branch_width;
            }
            let widths: Vec<usize> = final_widths(
                s,
                table,
                &shown,
                &columns,
                title,
                branch,
                alignment,
                title_width,
                branch_width,
            );
            return Some(TableLayout { columns, widths });
        }
        proof {
            p.hide_next_hides(shown@);
            p.rightmost_is_shown(shown@, shown@.len() as int);
        }
        let ghost before = shown@;
        match rightmost_detail(&shown, title, branch, Ghost(p)) {
            Some(c) => {
                assert(p.t.header[c as int] == table.header@[c as int]@);
                if lamp_header(table.header[c]) {
                    hide_lamps(&mut shown, table);
                } else {
                    shown.set(c, false);
                }
            },
            None => match branch {
                Some(b) => {
                    if !shown[b] {
                        return None;
                    }
                    shown.set(b, false);
                },
                None => {
                    return None;
                },
            },
        }
        assert(p.hide_next(before) == Some(shown@));
    }
}

/// The most columns that stand left of `TITLE` in any of the tables.
pub open spec fn prefix_len(ts: Seq<TableView>) -> int
    decreases ts.len(),
{
    if ts.len() == 0 {
        0
    } else {
        let rest = prefix_len(ts.drop_last());
        match ts.last().column("TITLE"@) {
            Some(c) => max(rest, c),
            None => rest,
        }
    }
}

/// The width of the widest column `c` among the tables that have one.
pub open spec fn shared_width(f: Frame, ts: Seq<TableView>, c: int) -> int
    decreases ts.len(),
{
    if ts.len() == 0 {
        0
    } else {
        let rest = shared_width(f, ts.drop_last(), c);
        if c < ts.last().header.len() {
            max(rest, natural_width(f, ts.last(), c))
        } else {
            rest
        }
    }
}

/// The alignment that shares the widths of the columns left of `TITLE` alone.
pub open spec fn prefix_alignment(f: Frame, ts: Seq<TableView>) -> AlignmentView {
    AlignmentView {
        prefix: Seq::new(prefix_len(ts) as nat, |c: int| shared_width(f, ts, c)),
        title: None,
        hide_branch: false,
    }
}

/// Whether a laid-out table shows a column of that name.
pub open spec fn shows(t: TableView, l: Option<LayoutView>, name: Seq<char>) -> bool {
    l is Some && exists|k: int|
        0 <= k < l->0.columns.len() && t.header[#[trigger] l->0.columns[k]] == name
}

/// Whether a table has a `BRANCH` column that its layout does not show.
pub open spec fn loses_branch(f: Frame, t: TableView, base: AlignmentView) -> bool {
    t.column("BRANCH"@) is Some && !shows(t, layout(f, t, Some(base)), "BRANCH"@)
}

/// The width that a table gives its `TITLE` column, where it has one and fits.
pub open spec fn own_title_width(f: Frame, t: TableView, base: AlignmentView) -> Option<int> {
    match t.column("TITLE"@) {
        Some(title) => {
            let p = plan(f, t, Some(base), title);
            match p.settle(p.start()) {
                Some(shown) => Some(p.title_width(shown)),
                None => None,
            }
        },
        None => None,
    }
}

/// The narrowest `TITLE` among the tables.
pub open spec fn narrowest_title(f: Frame, ts: Seq<TableView>, base: AlignmentView) -> Option<int>
    decreases ts.len(),
{
    if ts.len() == 0 {
        None
    } else {
        let rest = narrowest_title(f, ts.drop_last(), base);
        match own_title_width(f, ts.last(), base) {
            Some(w) => Some(
                match rest {
                    Some(m) => min(m, w),
                    None => w,
                },
            ),
            None => rest,
        }
    }
}

/// What a set of section tables shares: the widest columns left of `TITLE`, and,
/// where any has a `BRANCH`, either the narrowest `TITLE`, so that every branch
/// starts at the same cell, or no branch at all if one of them had to go.
pub open spec fn alignment_of(f: Frame, ts: Seq<TableView>) -> AlignmentView {
    let base = prefix_alignment(f, ts);
    if !exists|i: int| 0 <= i < ts.len() && (#[trigger] ts[i]).column("BRANCH"@) is Some {
        base
    } else if exists|i: int| 0 <= i < ts.len() && loses_branch(f, #[trigger] ts[i], base) {
        AlignmentView { hide_branch: true, ..base }
    } else {
        AlignmentView { title: narrowest_title(f, ts, base), ..base }
    }
}

/// Several tables as what they show.
pub open spec fn tables_view(tables: Seq<&Table>) -> Seq<TableView> {
    Seq::new(tables.len(), |i: int| tables[i]@)
}

impl Plan {
    /// Columns that are hidden never include `TITLE`, nor a column left of it
    /// that is neither a lamp nor `BRANCH`.
    pub proof fn settle_keeps(self, shown: Seq<bool>, c: int)
        requires
            self.valid(shown),
            0 <= c <= self.title,
            shown[c],
            !is_lamp(self.t.header[c]),
            Some(c) != self.branch,
        ensures
            self.settle(shown) matches Some(less) ==> self.valid(less) && less[c] && self.fits(
                less,
            ),
        decreases indices(shown).len(),
    {
        if !self.fits(shown) {
            self.hide_next_hides(shown);
            self.rightmost_is_shown(shown, shown.len() as int);
            match self.hide_next(shown) {
                Some(less) => {
                    assert(less[c]);
                    self.settle_keeps(less, c);
                },
                None => {},
            }
        }
    }

    /// A shared `TITLE` width does not decide which columns are shown.
    pub(crate) proof fn title_width_moves_no_column(self, other: Plan, shown: Seq<bool>)
        requires
            self.valid(shown),
            self.f == other.f,
            self.t == other.t,
            self.title == other.title,
            self.branch == other.branch,
            self.alignment is Some,
            other.alignment is Some,
            self.alignment->0.prefix == other.alignment->0.prefix,
        ensures
            self.settle(shown) == other.settle(shown),
            self.flexible(shown) == other.flexible(shown),
        decreases indices(shown).len(),
    {
        self.same_fixed(other, indices(shown));
        self.same_rightmost(other, shown, shown.len() as int);
        if !self.fits(shown) {
            self.hide_next_hides(shown);
            match self.hide_next(shown) {
                Some(less) => {
                    assert(other.hide_next(shown) == Some(less));
                    self.title_width_moves_no_column(other, less);
                },
                None => {},
            }
        }
    }

    proof fn same_rightmost(self, other: Plan, shown: Seq<bool>, upto: int)
        requires
            self.title == other.title,
            self.branch == other.branch,
        ensures
            self.rightmost(shown, upto) == other.rightmost(shown, upto),
        decreases upto,
    {
        if upto > 0 && upto > self.title + 1 {
            self.same_rightmost(other, shown, upto - 1);
        }
    }

    proof fn same_fixed(self, other: Plan, columns: Seq<int>)
        requires
            self.f == other.f,
            self.t == other.t,
            self.title == other.title,
            self.branch == other.branch,
            self.alignment is Some,
            other.alignment is Some,
            self.alignment->0.prefix == other.alignment->0.prefix,
        ensures
            self.fixed(columns) == other.fixed(columns),
        decreases columns.len(),
    {
        if columns.len() > 0 {
            self.same_fixed(other, columns.drop_last());
        }
    }
}

/// `TITLE` is always among the shown columns, and its width is the own one.
proof fn title_is_shown(f: Frame, t: TableView, a: AlignmentView, title: int)
    requires
        t.column("TITLE"@) == Some(title),
    ensures
        layout(f, t, Some(a)) matches Some(l) ==> l.columns.contains(title) && (forall|k: int|
            0 <= k < l.columns.len() && #[trigger] l.columns[k] == title ==> Some(l.widths[k])
                == own_title_width(f, t, a)),
{
    let p = plan(f, t, Some(a), title);
    plan_is_valid(f, t, Some(a), title);
    column_in_header(t, "TITLE"@);
    assert(!is_lamp("TITLE"@)) by {
        reveal_strlit("TITLE");
        reveal_strlit("FAIL");
        reveal_strlit("RUN");
        reveal_strlit("PASS");
        assert("TITLE"@.len() == 5);
    }
    p.settle_keeps(p.start(), title);
    match p.settle(p.start()) {
        Some(shown) => {
            indices_are_the_shown(shown);
        },
        None => {},
    }
}

/// The narrowest title is no wider than any of the tables' own.
pub(crate) proof fn narrowest_is_least(f: Frame, ts: Seq<TableView>, base: AlignmentView, i: int)
    requires
        0 <= i < ts.len(),
    ensures
        own_title_width(f, ts[i], base) matches Some(w) ==> narrowest_title(f, ts, base) is Some
            && narrowest_title(f, ts, base)->0 <= w,
    decreases ts.len(),
{
    if i < ts.len() - 1 {
        narrowest_is_least(f, ts.drop_last(), base, i);
    }
}

/// The alignment of a set of tables suits each of them.
pub proof fn alignment_suits(f: Frame, ts: Seq<TableView>, i: int)
    requires
        0 <= i < ts.len(),
    ensures
        suits(f, ts[i], alignment_of(f, ts)),
{
    let base = prefix_alignment(f, ts);
    let a = alignment_of(f, ts);
    let t = ts[i];
    match t.column("TITLE"@) {
        Some(title) if a.title is Some => {
            let p = plan(f, t, Some(base), title);
            let q = plan(f, t, Some(a), title);
            plan_is_valid(f, t, Some(base), title);
            assert(p.start() =~= q.start());
            p.title_width_moves_no_column(q, p.start());
            narrowest_is_least(f, ts, base, i);
            match p.settle(p.start()) {
                Some(shown) => {
                    title_is_shown(f, t, base, title);
                    p.settle_fits(p.start());
                    p.title_width_moves_no_column(q, shown);
                },
                None => {},
            }
        },
        _ => {},
    }
}

impl Plan {
    /// What settling arrives at fits.
    pub(crate) proof fn settle_fits(self, shown: Seq<bool>)
        requires
            self.valid(shown),
        ensures
            self.settle(shown) matches Some(less) ==> self.valid(less) && self.fits(less) && (
            forall|i: int| 0 <= i < less.len() && #[trigger] less[i] ==> shown[i]),
        decreases indices(shown).len(),
    {
        if !self.fits(shown) {
            self.hide_next_hides(shown);
            match self.hide_next(shown) {
                Some(less) => {
                    self.settle_fits(less);
                },
                None => {},
            }
        }
    }
}

/// The most columns that stand left of `TITLE` in any of the tables.
fn longest_prefix(tables: &[&Table]) -> (n: usize)
    ensures
        n == prefix_len(tables_view(tables@)),
{
    let ghost ts = tables_view(tables@);
    let mut n: usize = 0;
    let mut i: usize = 0;
    assert(ts.take(0) =~= Seq::empty());
    while i < tables.len()
        invariant
            i <= tables@.len(),
            ts == tables_view(tables@),
            n == prefix_len(ts.take(i as int)),
        decreases tables@.len() - i,
    {
        assert(ts.take(i + 1).drop_last() =~= ts.take(i as int));
        assert(ts.take(i + 1).last() == tables@[i as int]@);
        match tables[i].column("TITLE") {
            Some(c) => {
                if n < c {
                    n = c;
                }
            },
            None => {},
        }
        i += 1;
    }
    assert(ts.take(tables@.len() as int) =~= ts);
    n
}

/// The width of the widest column `c` among the tables that have one.
fn widest_column(s: &TextBuffer, tables: &[&Table], c: usize) -> (w: usize)
    ensures
        w == shared_width(frame(*s), tables_view(tables@), c as int),
        w <= 0xffff,
{
    let ghost ts = tables_view(tables@);
    let mut w: usize = 0;
    let mut i: usize = 0;
    assert(ts.take(0) =~= Seq::empty());
    while i < tables.len()
        invariant
            i <= tables@.len(),
            ts == tables_view(tables@),
            w == shared_width(frame(*s), ts.take(i as int), c as int),
            w <= 0xffff,
        decreases tables@.len() - i,
    {
        assert(ts.take(i + 1).drop_last() =~= ts.take(i as int));
        assert(ts.take(i + 1).last() == tables@[i as int]@);
        let table: &Table = tables[i];
        if c < table.header.len() {
            let cw: usize = col_width(s, table, c);
            if w < cw {
                w = cw;
            }
        }
        i += 1;
    }
    assert(ts.take(tables@.len() as int) =~= ts);
    w
}

/// Whether a laid-out table shows a `BRANCH` column.
fn shows_branch(table: &Table, found: &Option<TableLayout>) -> (r: bool)
    requires
        found matches Some(l) ==> forall|k: int|
            0 <= k < l.columns@.len() ==> #[trigger] l.columns@[k] < table.header@.len(),
    ensures
        r == shows(table@, layout_view(*found), "BRANCH"@),
{
    match found {
        Some(l) => {
            let mut k: usize = 0;
            while k < l.columns.len()
                invariant
                    k <= l.columns@.len(),
                    *found == Some(*l),
                    forall|j: int|
                        0 <= j < l.columns@.len() ==> #[trigger] l.columns@[j]
                            < table.header@.len(),
                    forall|j: int|
                        0 <= j < k ==> table@.header[#[trigger] l@.columns[j]] != "BRANCH"@,
                decreases l.columns@.len() - k,
            {
                assert(l@.columns[k as int] == l.columns@[k as int]);
                if same(table.header[l.columns[k]], "BRANCH") {
                    assert(table@.header[layout_view(*found)->0.columns[k as int]] == "BRANCH"@);
                    return true;
                }
                k += 1;
            }
            false
        },
        None => false,
    }
}

/// The width of the `TITLE` column of a laid-out table.
fn title_width_in(
    s: &TextBuffer,
    table: &Table,
    found: &Option<TableLayout>,
    a: Ghost<AlignmentView>,
) -> (r: Option<usize>)
    requires
        layout_view(*found) == layout(frame(*s), table@, Some(a@)),
        found matches Some(l) ==> l.columns@.len() == l.widths@.len() && (forall|k: int|
            0 <= k < l.widths@.len() ==> #[trigger] l.widths@[k] <= 0xffff),
    ensures
        column_view(r) == own_title_width(frame(*s), table@, a@),
        r matches Some(w) ==> w <= 0xffff,
{
    let title: usize = match table.column("TITLE") {
        Some(title) => title,
        None => {
            return None;
        },
    };
    proof {
        title_is_shown(frame(*s), table@, a@, title as int);
    }
    match found {
        Some(l) => {
            let mut k: usize = 0;
            while k < l.columns.len() && l.columns[k] != title
                invariant
                    k <= l.columns@.len(),
                    forall|j: int| 0 <= j < k ==> l@.columns[j] != title,
                decreases l.columns@.len() - k,
            {
                k += 1;
            }
            assert(l@.columns.contains(title as int));
            assert(l@.columns[k as int] == title);
            assert(l@.widths[k as int] == l.widths@[k as int]);
            Some(l.widths[k])
        },
        None => None,
    }
}

/// Shared left-column widths for a set of section tables. When `BRANCH` is
/// present, `TITLE` also uses one shared width so every branch starts at the
/// same cell.
pub fn table_alignment(s: &TextBuffer, tables: &[&Table]) -> (a: TableAlignment)
    requires
        forall|i: int| 0 <= i < tables@.len() ==> #[trigger] tables@[i].header@.len() <= MAX_COLUMNS,
    ensures
        a@ == alignment_of(frame(*s), tables_view(tables@)),
        a@.valid(),
        forall|i: int| 0 <= i < tables@.len() ==> suits(frame(*s), (#[trigger] tables@[i])@, a@),
{
    let ghost f = frame(*s);
    let ghost ts = tables_view(tables@);
    let prefix_len: usize = longest_prefix(tables);
    let mut prefix_widths: Vec<usize> = Vec::new();
    while prefix_widths.len() < prefix_len
        invariant
            prefix_widths@.len() <= prefix_len,
            ts == tables_view(tables@),
            f == frame(*s),
            forall|c: int|
                0 <= c < prefix_widths@.len() ==> #[trigger] prefix_widths@[c] <= 0xffff
                    && prefix_widths@[c] == shared_width(f, ts, c),
        decreases prefix_len - prefix_widths@.len(),
    {
        let w: usize = widest_column(s, tables, prefix_widths.len());
        prefix_widths.push(w);
    }
    let mut alignment = TableAlignment { prefix_widths, title_width: None, hide_branch: false };
    let ghost base = prefix_alignment(f, ts);
    assert(alignment@.prefix =~= base.prefix);
    assert(alignment@ == base);
    let mut any_branch: bool = false;
    let mut hide_branch: bool = false;
    let mut narrowest: Option<usize> = None;
    assert(ts.take(0) =~= Seq::empty());
    let mut i: usize = 0;
    while i < tables.len()
        invariant
            i <= tables@.len(),
            ts == tables_view(tables@),
            f == frame(*s),
            alignment@ == base,
            base.valid(),
            base.title is None,
            forall|j: int|
                0 <= j < tables@.len() ==> #[trigger] tables@[j].header@.len() <= MAX_COLUMNS,
            any_branch == exists|j: int|
                0 <= j < i && (#[trigger] ts[j]).column("BRANCH"@) is Some,
            hide_branch == exists|j: int| 0 <= j < i && loses_branch(f, #[trigger] ts[j], base),
            column_view(narrowest) == narrowest_title(f, ts.take(i as int), base),
            narrowest matches Some(w) ==> w <= 0xffff,
        decreases tables@.len() - i,
    {
        let table: &Table = tables[i];
        assert(ts[i as int] == table@);
        assert(ts.take(i + 1).drop_last() =~= ts.take(i as int));
        assert(ts.take(i + 1).last() == table@);
        assert(suits(f, table@, base));
        let l: Option<TableLayout> = table_layout(s, table, Some(&alignment));
        let has_branch: bool = table.column("BRANCH").is_some();
        if has_branch {
            any_branch = true;
            if !shows_branch(table, &l) {
                hide_branch = true;
            }
        }
        match title_width_in(s, table, &l, Ghost(base)) {
            Some(w) => {
                narrowest = match narrowest {
                    Some(m) => if w < m {
                        Some(w)
                    } else {
                        Some(m)
                    },
                    None => Some(w),
                };
            },
            None => {},
        }
        i += 1;
    }
    assert(ts.take(tables@.len() as int) =~= ts);
    if any_branch {
        if hide_branch {
            alignment.hide_branch = true;
        } else {
            alignment.title_width = narrowest;
        }
    }
    assert(alignment@ == alignment_of(f, ts));
    assert forall|i: int| 0 <= i < tables@.len() implies suits(
        f,
        (#[trigger] tables@[i])@,
        alignment@,
    ) by {
        alignment_suits(f, ts, i);
        assert(ts[i] == tables@[i]@);
    }
    alignment
}

/// Whether the mandatory columns of `table` fit on `s` after every optional
/// column has been hidden.
pub fn table_fits(s: &TextBuffer, table: &Table) -> (r: bool)
    requires
        table.header@.len() <= MAX_COLUMNS,
    ensures
        r == (layout(frame(*s), table@, Some(alignment_of(frame(*s), seq![table@]))) is Some),
{
    let alignment: TableAlignment = own_alignment(s, table);
    table_fits_aligned(s, table, &alignment)
}

/// The alignment of a table with itself alone.
fn own_alignment(s: &TextBuffer, table: &Table) -> (a: TableAlignment)
    requires
        table.header@.len() <= MAX_COLUMNS,
    ensures
        a@ == alignment_of(frame(*s), seq![table@]),
        a@.valid(),
        suits(frame(*s), table@, a@),
{
    let tables: [&Table; 1] = [table];
    let a: TableAlignment = table_alignment(s, &tables);
    assert(tables@[0] == table);
    assert(tables_view(tables@) =~= seq![table@]);
    a
}

/// Whether `table`, aligned with others, fits on `s`.
pub fn table_fits_aligned(s: &TextBuffer, table: &Table, alignment: &TableAlignment) -> (r: bool)
    requires
        table.header@.len() <= MAX_COLUMNS,
        alignment@.valid(),
        suits(frame(*s), table@, alignment@),
    ensures
        r == (layout(frame(*s), table@, Some(alignment@)) is Some),
{
    table_layout(s, table, Some(alignment)).is_some()
}

/// The total width of the first `n` columns of a table without a `TITLE`.
pub open spec fn natural_sum(f: Frame, t: TableView, n: int) -> int
    decreases n,
{
    if n <= 0 {
        0
    } else {
        natural_sum(f, t, n - 1) + natural_width(f, t, n - 1)
    }
}

impl Plan {
    /// The total width of the first `n` columns, all left of `TITLE`.
    pub open spec fn prefix_sum(self, n: int) -> int
        decreases n,
    {
        if n <= 0 {
            0
        } else {
            self.prefix_sum(n - 1) + self.width(n - 1)
        }
    }
}

/// The width that the columns of a table that are never hidden take.
pub open spec fn required_width(f: Frame, t: TableView, a: AlignmentView) -> int {
    match t.column("TITLE"@) {
        None => natural_sum(f, t, t.header.len() as int) + if t.header.len() == 0 {
            0
        } else {
            SEP * (t.header.len() - 1)
        },
        Some(title) => plan(f, t, Some(a), title).prefix_sum(title) + SEP * title + TITLE_MIN,
    }
}

/// The width that the mandatory columns of `table` take, as far as a surface
/// can be that wide.
pub fn table_required_width(s: &TextBuffer, table: &Table, alignment: &TableAlignment) -> (w: u16)
    requires
        table.header@.len() <= MAX_COLUMNS,
        alignment@.valid(),
    ensures
        w == min(required_width(frame(*s), table@, alignment@), u16::MAX as int),
{
    let mut w: usize = 0;
    let mut c: usize = 0;
    let total: usize = match table.column("TITLE") {
        None => {
            while c < table.header.len()
                invariant
                    c <= table.header@.len() <= MAX_COLUMNS,
                    w == natural_sum(frame(*s), table@, c as int),
                    w <= 0xffff * c,
                decreases table.header@.len() - c,
            {
                let cw: usize = col_width(s, table, c);
                w = w + cw;
                c += 1;
            }
            if table.header.len() == 0 {
                w
            } else {
                w + SEP * (table.header.len() - 1)
            }
        },
        Some(title) => {
            let ghost p = plan(frame(*s), table@, Some(alignment@), title as int);
            while c < title
                invariant
                    c <= title < table.header@.len() <= MAX_COLUMNS,
                    p == plan(frame(*s), table@, Some(alignment@), title as int),
                    alignment@.valid(),
                    w == p.prefix_sum(c as int),
                    w <= 0xffff * c,
                decreases title - c,
            {
                let cw: usize = aligned_col_width(s, table, c, title, Some(alignment));
                w = w + cw;
                c += 1;
            }
            w + SEP * title + TITLE_MIN
        },
    };
    if total > 0xffff {
        0xffff
    } else {
        total as u16
    }
}

/// Whether a column flexes with the width of the surface.
pub open spec fn flexes(name: Seq<char>) -> bool {
    name == "TITLE"@ || name == "BRANCH"@
}

/// Whether a wider surface would show more of a table: a hidden column, or more
/// of a `TITLE` or `BRANCH`.
pub open spec fn compact(f: Frame, t: TableView, a: AlignmentView) -> bool {
    layout(f, t, Some(a)) matches Some(l) && (l.columns.len() < t.header.len() || exists|k: int|
        0 <= k < l.columns.len() && flexes(t.header[#[trigger] l.columns[k]]) && natural_width(
            f,
            t,
            l.columns[k],
        ) > l.widths[k])
}

/// Whether a wider surface would reveal a hidden column or more text in `TITLE`
/// or `BRANCH`.
pub fn table_is_compact(s: &TextBuffer, table: &Table) -> (r: bool)
    requires
        table.header@.len() <= MAX_COLUMNS,
    ensures
        r == compact(frame(*s), table@, alignment_of(frame(*s), seq![table@])),
{
    let alignment: TableAlignment = own_alignment(s, table);
    table_is_compact_aligned(s, table, &alignment)
}

/// Whether a wider surface would show more of `table`, aligned with others.
pub fn table_is_compact_aligned(s: &TextBuffer, table: &Table, alignment: &TableAlignment) -> (r:
    bool)
    requires
        table.header@.len() <= MAX_COLUMNS,
        alignment@.valid(),
        suits(frame(*s), table@, alignment@),
    ensures
        r == compact(frame(*s), table@, alignment@),
{
    let l: TableLayout = match table_layout(s, table, Some(alignment)) {
        Some(l) => l,
        None => {
            return false;
        },
    };
    if l.columns.len() < table.header.len() {
        return true;
    }
    let ghost v = layout(frame(*s), table@, Some(alignment@));
    let mut k: usize = 0;
    while k < l.columns.len()
        invariant
            k <= l.columns@.len() == l.widths@.len(),
            v == layout(frame(*s), table@, Some(alignment@)),
            v == Some(l@),
            forall|j: int|
                0 <= j < l.columns@.len() ==> #[trigger] l.columns@[j] < table.header@.len(),
            forall|j: int|
                0 <= j < k ==> !(flexes(table@.header[#[trigger] v->0.columns[j]])
                    && natural_width(frame(*s), table@, v->0.columns[j]) > v->0.widths[j]),
        decreases l.columns@.len() - k,
    {
        let c: usize = l.columns[k];
        assert(v->0.columns[k as int] == c);
        assert(v->0.widths[k as int] == l.widths@[k as int]);
        assert(table@.header[c as int] == table.header@[c as int]@);
        let flexible: bool = same(table.header[c], "TITLE") || same(table.header[c], "BRANCH");
        if flexible && col_width(s, table, c) > l.widths[k] {
            return true;
        }
        k += 1;
    }
    false
}

} // verus!
