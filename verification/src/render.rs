//! The painters: every line of the dashboard is painted onto a surface here, so
//! that its layout lives in one place.

pub use crate::chrome::{
    compose, help_height, paint_footer, paint_help, paint_search_prompt, paint_tabs,
};
use crate::status;
use crate::status::Lamp;
use crate::surface::{
    bg_set, blank_grid, bolded, cells, colored, dimmed, encode, encoded, frame, linked, new_buffer,
    no_style, painted, rgb, set_bg, set_str, text_end, width, Color, Frame, Grid, Measure,
    Position, Profile, Stroke, Style, StyleView,
};
pub use crate::table::{
    table_alignment, table_fits, table_fits_aligned, table_is_compact, table_is_compact_aligned,
    table_layout, table_required_width, Cell, Table, TableAlignment, TableLayout,
};
use crate::table::{
    alignment_of, layout, suits, tables_view, AlignmentView, CellText, LayoutView, TableView,
    MAX_COLUMNS, SEP,
};
use crate::text::{chars_of, concat, dec, dec_int, decimal, decimal_int, is_empty, text_of};
use std::hash::{DefaultHasher, Hash, Hasher};
use uncurses::ansi::truncate::truncate as truncate_tail;
use uncurses::buffer::TextBuffer;
use vstd::prelude::*;
use vstd::std_specs::hash::DefaultHasherAdditionalSpecFns;

verus! {

/// The width of piped output, where there is no terminal to size against.
pub const OUTPUT_WIDTH: usize = 120;

/// Below this width there is no room for a useful PR row.
pub const MIN_WIDTH: u16 = 24;

/// What `str::hash` writes into a hasher for a text, write by write.
pub uninterp spec fn hash_writes(text: Seq<char>) -> Seq<Seq<u8>>;

/// `str::hash`: feeds a text to a hasher. What it writes is a function of the
/// text alone.
#[verifier::external_body]
fn hash_into(s: &str, h: &mut DefaultHasher)
    ensures
        final(h)@ == old(h)@ + hash_writes(s@),
{
    s.hash(h);
}

/// The lowercase hexadecimal digit of `d`.
pub open spec fn hex_digit(d: nat) -> char {
    if d < 10 {
        (48 + d) as char
    } else {
        (87 + d) as char
    }
}

/// The last `k` hexadecimal digits of `n`, most significant first.
pub open spec fn hex(n: nat, k: nat) -> Seq<char>
    decreases k,
{
    if k == 0 {
        Seq::empty()
    } else {
        hex(n / 16, (k - 1) as nat).push(hex_digit(n % 16))
    }
}

/// The last `k` hexadecimal digits of `n`.
fn hex_text(n: u64, k: u64) -> (r: String)
    ensures
        r@ == hex(n as nat, k as nat),
    decreases k,
{
    if k == 0 {
        let r: String = String::new();
        assert(r@ =~= Seq::empty());
        r
    } else {
        let mut r: String = hex_text(n / 16, k - 1);
        let d: u8 = (n % 16) as u8;
        let c: u8 = if d < 10 {
            48 + d
        } else {
            87 + d
        };
        r.push(c as char);
        r
    }
}

/// The hash of a URL.
pub open spec fn url_hash(url: Seq<char>) -> u64 {
    DefaultHasher::spec_finish(hash_writes(url))
}

/// The link parameters of a URL: `id=` and the first seven of the sixteen hex
/// digits of its hash.
pub open spec fn link_id(url: Seq<char>) -> Seq<char> {
    "id="@ + hex(url_hash(url) as nat, 16).take(7)
}

/// A link id is `id=` and seven lowercase hexadecimal digits.
pub proof fn link_id_is_seven_hex_digits(url: Seq<char>)
    ensures
        link_id(url).take(3) == "id="@,
        link_id(url).len() == 10,
        forall|i: int|
            3 <= i < 10 ==> {
                ||| '0' <= #[trigger] link_id(url)[i] <= '9'
                ||| 'a' <= link_id(url)[i] <= 'f'
            },
{
    reveal_strlit("id=");
    hex_shape(url_hash(url) as nat, 16);
    assert(link_id(url).take(3) =~= "id="@);
}

proof fn hex_shape(n: nat, k: nat)
    ensures
        hex(n, k).len() == k,
        forall|i: int|
            0 <= i < k ==> {
                ||| '0' <= #[trigger] hex(n, k)[i] <= '9'
                ||| 'a' <= hex(n, k)[i] <= 'f'
            },
    decreases k,
{
    if k > 0 {
        hex_shape(n / 16, (k - 1) as nat);
    }
}

/// The OSC-8 `id=` parameter of a URL, so that terminals treat each link as one
/// distinct hyperlink and don't merge adjacent ones.
pub fn link_params(url: &str) -> (r: String)
    ensures
        r@ == link_id(url@),
{
    let mut h = DefaultHasher::new();
    hash_into(url, &mut h);
    assert(h@ =~= hash_writes(url@));
    let n: u64 = h.finish();
    let digits: Vec<char> = chars_of(hex_text(n, 16).as_str());
    proof {
        hex_shape(n as nat, 16);
    }
    let id: String = text_of(&digits, 7);
    let mut r: String = "id=".to_owned();
    r.append(id.as_str());
    r
}

impl Clone for Cell {
    fn clone(&self) -> (r: Self)
        ensures
            r == *self,
    {
        Cell { text: self.text.clone(), style: self.style.clone() }
    }
}

/// A cell of plain text.
pub open spec fn plain_cell(text: Seq<char>) -> CellText {
    CellText { text, style: no_style() }
}

/// The link cell of PR `number`.
pub open spec fn pr_cell(number: int, url: Seq<char>, style: StyleView) -> CellText {
    CellText { text: "#"@ + decimal_int(number), style: linked(style, url, link_id(url)) }
}

impl Cell {
    /// A cell of unstyled text.
    pub fn plain(text: &str) -> (c: Self)
        ensures
            c@ == plain_cell(text@),
    {
        Cell { text: text.to_owned(), style: Style::new() }
    }

    /// A cell of styled text.
    pub fn styled(text: &str, style: Style) -> (c: Self)
        ensures
            c.text@ == text@,
            c.style == style,
    {
        Cell { text: text.to_owned(), style }
    }

    /// A dim, underlined hyperlink that shows `text`.
    pub fn link(text: &str, url: &str) -> (c: Self)
        ensures
            c@ == (CellText { text: text@, style: linked(dimmed(), url@, link_id(url@)) }),
    {
        Cell::link_styled(text, url, Style::new().faint())
    }

    /// A hyperlink with a style of its own, underlined so it reads as a link
    /// even when colored.
    pub fn link_styled(text: &str, url: &str, style: Style) -> (c: Self)
        ensures
            c@ == (CellText { text: text@, style: linked(style@, url@, link_id(url@)) }),
    {
        let params: String = link_params(url);
        Cell { text: text.to_owned(), style: style.underline().link(url.to_owned(), params) }
    }

    /// A styled, clickable `#<number>` PR link.
    pub fn pr(number: i64, url: &str, style: Style) -> (c: Self)
        ensures
            c@ == pr_cell(number as int, url@, style@),
    {
        let mut text: String = "#".to_owned();
        let digits: String = dec_int(number);
        text.append(digits.as_str());
        Cell::link_styled(text.as_str(), url, style)
    }
}

/// The cell of a lamp: dim where it counts none, else in its color, bold.
pub open spec fn lamp_view(n: u64, lamp: Lamp) -> CellText {
    CellText {
        text: decimal(n as nat),
        style: if n == 0 {
            dimmed()
        } else {
            bolded(colored(status::lamp_color(lamp)))
        },
    }
}

/// One lamp of the check semaphore: dim when zero, its palette color (bold)
/// when not, so only the counts that matter catch the eye.
pub fn lamp_cell(n: u64, lamp: Lamp) -> (c: Cell)
    ensures
        c@ == lamp_view(n, lamp),
{
    let text: String = dec(n);
    let style: Style = if n == 0 {
        Style::new().faint()
    } else {
        status::fg(status::lamp_color(lamp)).bold()
    };
    Cell { text, style }
}

/// A text cut to a number of display columns, the cut marked by a tail.
pub uninterp spec fn truncated(text: Seq<char>, max: int, tail: Seq<char>) -> Seq<char>;

/// `uncurses::ansi::truncate::truncate`: a text cut to `max` display columns,
/// with `tail` where something was cut. It is a function of its arguments, and
/// empty where `max` is zero.
#[verifier::external_body]
fn truncate_to(s: &str, max: usize, tail: &str) -> (r: String)
    ensures
        r@ == truncated(s@, max as int, tail@),
        max == 0 ==> r@.len() == 0,
{
    truncate_tail(s, max, tail)
}

/// What marks a cut: three dots in ASCII mode, else an ellipsis.
pub open spec fn ellipsis(ascii: bool) -> Seq<char> {
    if ascii {
        "..."@
    } else {
        "\u{22ef}"@
    }
}

/// Truncates `s` to at most `max` display columns, marking the cut with an
/// ellipsis. It counts display columns, not bytes.
pub fn truncate(s: &str, max: usize, ascii: bool) -> (r: String)
    ensures
        r@ == truncated(s@, max as int, ellipsis(ascii)),
        max == 0 ==> r@.len() == 0,
{
    if ascii {
        truncate_to(s, max, "...")
    } else {
        truncate_to(s, max, "\u{22ef}")
    }
}

/// Where the `k`-th shown column starts: the widths and separators before it.
pub open spec fn column_start(l: LayoutView, k: int) -> int
    decreases k,
{
    if k <= 0 {
        0
    } else {
        column_start(l, k - 1) + l.widths[k - 1] + SEP
    }
}

/// The surface column of that start.
pub open spec fn column_x(l: LayoutView, k: int) -> int {
    column_start(l, k) % 0x1_0000
}

/// The strokes of the first `k` shown headers: bold, the empty ones left out.
pub open spec fn header_strokes(t: TableView, l: LayoutView, top: int, k: int) -> Seq<Stroke>
    decreases k,
{
    if k <= 0 {
        Seq::empty()
    } else {
        let rest = header_strokes(t, l, top, k - 1);
        let text = t.header[l.columns[k - 1]];
        if text.len() == 0 {
            rest
        } else {
            rest.push(
                Stroke { x: column_x(l, k - 1), y: top, text, style: bolded(no_style()) },
            )
        }
    }
}

/// The text of a cell as its column shows it: `TITLE` and `BRANCH` are cut to
/// the width of the column.
pub open spec fn shown_text(
    t: TableView,
    l: LayoutView,
    ascii: bool,
    text: Seq<char>,
    k: int,
) -> Seq<char> {
    let c = l.columns[k];
    if Some(c) == t.column("TITLE"@) || Some(c) == t.column("BRANCH"@) {
        truncated(text, l.widths[k], ellipsis(ascii))
    } else {
        text
    }
}

/// The strokes of the first `k` shown cells of a row, at row `y`.
pub open spec fn row_strokes(
    t: TableView,
    l: LayoutView,
    ascii: bool,
    row: Seq<CellText>,
    y: int,
    k: int,
) -> Seq<Stroke>
    decreases k,
{
    if k <= 0 {
        Seq::empty()
    } else {
        let rest = row_strokes(t, l, ascii, row, y, k - 1);
        let c = l.columns[k - 1];
        if c < row.len() {
            rest.push(
                Stroke {
                    x: column_x(l, k - 1),
                    y,
                    text: shown_text(t, l, ascii, row[c].text, k - 1),
                    style: row[c].style,
                },
            )
        } else {
            rest
        }
    }
}

/// The strokes of the first `n` rows, the first of them at row `top`.
pub open spec fn rows_strokes(t: TableView, l: LayoutView, ascii: bool, top: int, n: int) -> Seq<
    Stroke,
>
    decreases n,
{
    if n <= 0 {
        Seq::empty()
    } else {
        rows_strokes(t, l, ascii, top, n - 1) + row_strokes(
            t,
            l,
            ascii,
            t.rows[n - 1],
            top + n - 1,
            l.columns.len() as int,
        )
    }
}

/// The strokes of a table at row `top`: its header row and then its rows, or
/// none where it does not fit.
pub open spec fn table_strokes(
    f: Frame,
    t: TableView,
    a: AlignmentView,
    ascii: bool,
    top: int,
) -> Seq<Stroke> {
    match layout(f, t, Some(a)) {
        Some(l) => header_strokes(t, l, top, l.columns.len() as int) + rows_strokes(
            t,
            l,
            ascii,
            top + 1,
            t.rows.len() as int,
        ),
        None => Seq::empty(),
    }
}

/// The rows that a table takes, its header row among them; none where it does
/// not fit.
pub open spec fn table_height(f: Frame, t: TableView, a: AlignmentView) -> int {
    if layout(f, t, Some(a)) is Some {
        1 + t.rows.len() as int
    } else {
        0
    }
}

/// Paints one stroke.
pub(crate) fn stroke(s: &mut TextBuffer, x: u16, y: u16, text: &str, style: &Style) -> (end:
    Position)
    ensures
        frame(*final(s)) == frame(*old(s)),
        cells(*final(s)) == painted(
            cells(*old(s)),
            frame(*old(s)),
            seq![Stroke { x: x as int, y: y as int, text: text@, style: style@ }],
        ),
        (end.x, end.y) == text_end(frame(*old(s)), x as int, y as int, text@),
        end.x <= x || end.x <= frame(*old(s)).width,
        end.x <= x + 255 * text@.len(),
{
    let ghost one = Stroke { x: x as int, y: y as int, text: text@, style: style@ };
    proof {
        crate::surface::painted_push(cells(*s), frame(*s), Seq::empty(), one);
        assert(Seq::empty().push(one) =~= seq![one]);
    }
    set_str(s, Position { x, y }, text, style)
}

/// Painting one more list of strokes after a first.
pub proof fn painted_more(g: Grid, f: Frame, a: Seq<Stroke>, b: Seq<Stroke>)
    ensures
        painted(painted(g, f, a), f, b) == painted(g, f, a + b),
{
    crate::surface::painted_concat(g, f, a, b);
}

/// The starts of the shown columns.
fn column_starts(l: &TableLayout) -> (xs: Vec<u16>)
    requires
        l.widths@.len() <= MAX_COLUMNS,
        forall|k: int| 0 <= k < l.widths@.len() ==> #[trigger] l.widths@[k] <= 0xffff,
    ensures
        xs@.len() == l.widths@.len(),
        forall|k: int| 0 <= k < xs@.len() ==> #[trigger] xs@[k] == column_x(l@, k),
{
    let mut xs: Vec<u16> = Vec::new();
    let mut acc: usize = 0;
    let mut k: usize = 0;
    while k < l.widths.len()
        invariant
            k <= l.widths@.len() <= MAX_COLUMNS,
            xs@.len() == k,
            acc == column_start(l@, k as int),
            acc <= 0x1_0001 * k,
            forall|j: int| 0 <= j < l.widths@.len() ==> #[trigger] l.widths@[j] <= 0xffff,
            forall|j: int| 0 <= j < k ==> #[trigger] xs@[j] == column_x(l@, j),
        decreases l.widths@.len() - k,
    {
        xs.push((acc % 0x1_0000) as u16);
        assert(l@.widths[k as int] == l.widths@[k as int]);
        acc = acc + l.widths[k] + SEP;
        k += 1;
    }
    xs
}

/// Paints the header row.
fn paint_header_row(s: &mut TextBuffer, table: &Table, l: &TableLayout, xs: &Vec<u16>, top: u16)
    requires
        xs@.len() == l.columns@.len(),
        forall|k: int| 0 <= k < xs@.len() ==> #[trigger] xs@[k] == column_x(l@, k),
        forall|k: int| 0 <= k < l.columns@.len() ==> #[trigger] l.columns@[k] < table.header@.len(),
    ensures
        frame(*final(s)) == frame(*old(s)),
        cells(*final(s)) == painted(
            cells(*old(s)),
            frame(*old(s)),
            header_strokes(table@, l@, top as int, l.columns@.len() as int),
        ),
{
    let bold: Style = Style::new().bold();
    let mut k: usize = 0;
    let ghost g = cells(*s);
    let ghost f = frame(*s);
    while k < l.columns.len()
        invariant
            k <= l.columns@.len(),
            xs@.len() == l.columns@.len(),
            bold@ == bolded(no_style()),
            forall|j: int| 0 <= j < xs@.len() ==> #[trigger] xs@[j] == column_x(l@, j),
            forall|j: int|
                0 <= j < l.columns@.len() ==> #[trigger] l.columns@[j] < table.header@.len(),
            frame(*s) == f,
            cells(*s) == painted(g, f, header_strokes(table@, l@, top as int, k as int)),
        decreases l.columns@.len() - k,
    {
        let c: usize = l.columns[k];
        let h: &'static str = table.header[c];
        assert(l@.columns[k as int] == c);
        assert(table@.header[c as int] == h@);
        if !is_empty(h) {
            let ghost before = header_strokes(table@, l@, top as int, k as int);
            stroke(s, xs[k], top, h, &bold);
            proof {
                let one = Stroke {
                    x: xs@[k as int] as int,
                    y: top as int,
                    text: h@,
                    style: bold@,
                };
                painted_more(g, f, before, seq![one]);
                assert(before + seq![one] =~= before.push(one));
            }
        }
        k += 1;
    }
}

/// Paints one table row at row `y`.
fn paint_row(
    s: &mut TextBuffer,
    table: &Table,
    l: &TableLayout,
    xs: &Vec<u16>,
    ascii: bool,
    row: &Vec<Cell>,
    y: u16,
)
    requires
        xs@.len() == l.columns@.len() == l.widths@.len(),
        forall|k: int| 0 <= k < xs@.len() ==> #[trigger] xs@[k] == column_x(l@, k),
    ensures
        frame(*final(s)) == frame(*old(s)),
        cells(*final(s)) == painted(
            cells(*old(s)),
            frame(*old(s)),
            row_strokes(
                table@,
                l@,
                ascii,
                crate::table::row_view(row@),
                y as int,
                l.columns@.len() as int,
            ),
        ),
{
    let title: Option<usize> = table.column("TITLE");
    let branch: Option<usize> = table.column("BRANCH");
    let ghost g = cells(*s);
    let ghost f = frame(*s);
    let ghost view = crate::table::row_view(row@);
    let mut k: usize = 0;
    while k < l.columns.len()
        invariant
            k <= l.columns@.len(),
            xs@.len() == l.columns@.len() == l.widths@.len(),
            crate::table::column_view(title) == table@.column("TITLE"@),
            crate::table::column_view(branch) == table@.column("BRANCH"@),
            view == crate::table::row_view(row@),
            forall|j: int| 0 <= j < xs@.len() ==> #[trigger] xs@[j] == column_x(l@, j),
            frame(*s) == f,
            cells(*s) == painted(g, f, row_strokes(table@, l@, ascii, view, y as int, k as int)),
        decreases l.columns@.len() - k,
    {
        let c: usize = l.columns[k];
        assert(l@.columns[k as int] == c);
        assert(l@.widths[k as int] == l.widths@[k as int]);
        if c < row.len() {
            let cell: &Cell = &row[c];
            assert(view[c as int] == cell@);
            let is_title: bool = match title {
                Some(t) => t == c,
                None => false,
            };
            let is_branch: bool = match branch {
                Some(b) => b == c,
                None => false,
            };
            let ghost before = row_strokes(table@, l@, ascii, view, y as int, k as int);
            if is_title || is_branch {
                let text: String = truncate(cell.text.as_str(), l.widths[k], ascii);
                stroke(s, xs[k], y, text.as_str(), &cell.style);
            } else {
                stroke(s, xs[k], y, cell.text.as_str(), &cell.style);
            }
            proof {
                let one = Stroke {
                    x: xs@[k as int] as int,
                    y: y as int,
                    text: shown_text(table@, l@, ascii, cell.text@, k as int),
                    style: cell.style@,
                };
                painted_more(g, f, before, seq![one]);
                assert(before + seq![one] =~= before.push(one));
            }
        }
        k += 1;
    }
}

/// Paints `table` onto `s` starting at row `top`. Columns are left-aligned and
/// separated by two blank columns; the header row is bold. Returns the next
/// free row.
pub fn paint_table(s: &mut TextBuffer, table: &Table, ascii: bool, top: u16) -> (next: u16)
    requires
        table.header@.len() <= MAX_COLUMNS,
        top + 1 + table.rows@.len() <= u16::MAX,
    ensures
        ({
            let a = alignment_of(frame(*old(s)), seq![table@]);
            &&& frame(*final(s)) == frame(*old(s))
            &&& cells(*final(s)) == painted(
                cells(*old(s)),
                frame(*old(s)),
                table_strokes(frame(*old(s)), table@, a, ascii, top as int),
            )
            &&& next == top + table_height(frame(*old(s)), table@, a)
        }),
{
    let tables: [&Table; 1] = [table];
    let alignment: TableAlignment = table_alignment(s, &tables);
    assert(tables@[0] == table);
    assert(tables_view(tables@) =~= seq![table@]);
    paint_table_aligned(s, table, &alignment, ascii, top)
}

/// Paints `table`, aligned with others, onto `s` starting at row `top`.
pub fn paint_table_aligned(
    s: &mut TextBuffer,
    table: &Table,
    alignment: &TableAlignment,
    ascii: bool,
    top: u16,
) -> (next: u16)
    requires
        table.header@.len() <= MAX_COLUMNS,
        top + 1 + table.rows@.len() <= u16::MAX,
        alignment@.valid(),
        suits(frame(*old(s)), table@, alignment@),
    ensures
        frame(*final(s)) == frame(*old(s)),
        cells(*final(s)) == painted(
            cells(*old(s)),
            frame(*old(s)),
            table_strokes(frame(*old(s)), table@, alignment@, ascii, top as int),
        ),
        next == top + table_height(frame(*old(s)), table@, alignment@),
{
    let l: TableLayout = match table_layout(s, table, Some(alignment)) {
        Some(l) => l,
        None => {
            return top;
        },
    };
    let xs: Vec<u16> = column_starts(&l);
    let ghost g = cells(*s);
    let ghost f = frame(*s);
    let ghost head = header_strokes(table@, l@, top as int, l.columns@.len() as int);
    paint_header_row(s, table, &l, &xs, top);
    let mut r: usize = 0;
    assert(head + rows_strokes(table@, l@, ascii, top + 1, 0) =~= head);
    while r < table.rows.len()
        invariant
            r <= table.rows@.len(),
            top + 1 + table.rows@.len() <= u16::MAX,
            xs@.len() == l.columns@.len() == l.widths@.len(),
            forall|k: int| 0 <= k < xs@.len() ==> #[trigger] xs@[k] == column_x(l@, k),
            frame(*s) == f,
            cells(*s) == painted(
                g,
                f,
                head + rows_strokes(table@, l@, ascii, top + 1, r as int),
            ),
        decreases table.rows@.len() - r,
    {
        let y: u16 = top + 1 + r as u16;
        let ghost before = rows_strokes(table@, l@, ascii, top + 1, r as int);
        assert(table@.rows[r as int] == crate::table::row_view(table.rows@[r as int]@));
        paint_row(s, table, &l, &xs, ascii, &table.rows[r], y);
        proof {
            let more = row_strokes(
                table@,
                l@,
                ascii,
                table@.rows[r as int],
                y as int,
                l.columns@.len() as int,
            );
            painted_more(g, f, head + before, more);
            assert((head + before) + more =~= head + (before + more));
        }
        r += 1;
    }
    top + 1 + table.rows.len() as u16
}

/// Paints `table` alone and encodes it to a string, either styled or plain.
/// Plain output implies ASCII mode.
#[must_use]
pub fn render_table(table: &Table, styled: bool) -> (out: String)
    requires
        table.header@.len() <= MAX_COLUMNS,
        1 + table.rows@.len() <= u16::MAX,
    ensures
        ({
            let f = Frame {
                width: OUTPUT_WIDTH as u16,
                height: (table.rows@.len() + 1) as u16,
                measure: Measure { grapheme: false, eaw_wide: false },
            };
            out@ == encoded(
                painted(
                    blank_grid(f),
                    f,
                    table_strokes(f, table@, alignment_of(f, seq![table@]), !styled, 0),
                ),
                f,
                if styled {
                    Profile::TrueColor
                } else {
                    Profile::Disabled
                },
            )
        }),
{
    let height: u16 = table.rows.len() as u16 + 1;
    let mut buf: TextBuffer = new_buffer(OUTPUT_WIDTH as u16, height);
    paint_table(&mut buf, table, !styled, 0);
    let profile: Profile = if styled {
        Profile::TrueColor
    } else {
        Profile::Disabled
    };
    encode(&buf, profile)
}

/// Paints a dim one-liner at row `y`, flush left. Returns `y + 1`.
pub fn paint_dim(s: &mut TextBuffer, msg: &str, y: u16) -> (next: u16)
    requires
        y < u16::MAX,
    ensures
        frame(*final(s)) == frame(*old(s)),
        cells(*final(s)) == painted(
            cells(*old(s)),
            frame(*old(s)),
            seq![dim_stroke(msg@, 0, y as int)],
        ),
        next == y + 1,
{
    paint_dim_at(s, msg, 0, y)
}

/// A dim text at a cell.
pub open spec fn dim_stroke(msg: Seq<char>, x: int, y: int) -> Stroke {
    Stroke { x, y, text: msg, style: dimmed() }
}

/// Paints a dim one-liner indented by `indent` columns. Returns `y + 1`.
pub fn paint_dim_at(s: &mut TextBuffer, msg: &str, indent: u16, y: u16) -> (next: u16)
    requires
        y < u16::MAX,
    ensures
        frame(*final(s)) == frame(*old(s)),
        cells(*final(s)) == painted(
            cells(*old(s)),
            frame(*old(s)),
            seq![dim_stroke(msg@, indent as int, y as int)],
        ),
        next == y + 1,
{
    let dim: Style = Style::new().faint();
    stroke(s, indent, y, msg, &dim);
    y + 1
}

/// The column just past a text painted from column `x` of row `y` on.
pub open spec fn end_x(f: Frame, x: int, y: int, text: Seq<char>) -> int {
    text_end(f, x, y, text).0 as int
}

/// The strokes of a section header at row `y`.
pub open spec fn header_line(
    f: Frame,
    title: Seq<char>,
    accent: Color,
    count: Option<Seq<char>>,
    note: Option<Seq<char>>,
    ascii: bool,
    y: int,
) -> Seq<Stroke> {
    let text = if !ascii {
        "\u{258c} "@ + title
    } else if count is Some {
        title + " ("@ + count->0 + ")"@
    } else {
        title
    };
    let style = if ascii {
        no_style()
    } else {
        bolded(colored(accent))
    };
    let bar = seq![Stroke { x: 0, y, text, style }];
    let end = end_x(f, 0, y, text);
    let (badge, past) = if !ascii && count is Some {
        (seq![dim_stroke(count->0, end + 2, y)], end_x(f, end + 2, y, count->0))
    } else {
        (Seq::empty(), end)
    };
    let tail = match note {
        Some(n) => seq![dim_stroke(n, past + 2, y)],
        None => Seq::empty(),
    };
    bar + badge + tail
}

/// Paints a section header at row `y`: a colored bold accent bar, the title, an
/// optional dim count badge (or `Title (count)` in ASCII mode), and an optional
/// dim trailing note. Returns `y + 1`.
pub fn paint_header(
    s: &mut TextBuffer,
    title: &str,
    accent: Color,
    count: Option<&str>,
    note: Option<&str>,
    ascii: bool,
    y: u16,
) -> (next: u16)
    requires
        y < u16::MAX,
        count is Some || note is Some ==> frame(*old(s)).width + 4 <= u16::MAX,
    ensures
        frame(*final(s)) == frame(*old(s)),
        cells(*final(s)) == painted(
            cells(*old(s)),
            frame(*old(s)),
            header_line(
                frame(*old(s)),
                title@,
                accent,
                status::opt_text(count),
                status::opt_text(note),
                ascii,
                y as int,
            ),
        ),
        next == y + 1,
{
    let ghost g = cells(*s);
    let ghost f = frame(*s);
    let dim: Style = Style::new().faint();
    let mut done: Ghost<Seq<Stroke>> = Ghost(Seq::empty());
    let past: u16;
    if ascii {
        let text: String = match count {
            Some(c) => concat(concat(concat(title, " (").as_str(), c).as_str(), ")"),
            None => title.to_owned(),
        };
        let plain: Style = Style::new();
        let end: Position = stroke(s, 0, y, text.as_str(), &plain);
        past = end.x;
        proof {
            done@ = seq![Stroke { x: 0, y: y as int, text: text@, style: plain@ }];
        }
    } else {
        let text: String = concat("\u{258c} ", title);
        let style: Style = status::fg(accent).bold();
        let end: Position = stroke(s, 0, y, text.as_str(), &style);
        let ghost bar = seq![Stroke { x: 0, y: y as int, text: text@, style: style@ }];
        proof {
            done@ = bar;
        }
        match count {
            Some(c) => {
                let end2: Position = stroke(s, end.x + 2, y, c, &dim);
                past = end2.x;
                proof {
                    let badge = seq![dim_stroke(c@, end.x + 2, y as int)];
                    painted_more(g, f, bar, badge);
                    done@ = bar + badge;
                }
            },
            None => {
                past = end.x;
            },
        }
    }
    match note {
        Some(n) => {
            stroke(s, past + 2, y, n, &dim);
            proof {
                let tail = seq![dim_stroke(n@, past + 2, y as int)];
                painted_more(g, f, done@, tail);
                done@ = done@ + tail;
            }
        },
        None => {},
    }
    assert(done@ =~= header_line(
        f,
        title@,
        accent,
        status::opt_text(count),
        status::opt_text(note),
        ascii,
        y as int,
    ));
    y + 1
}

/// Where a table row's PR column starts: the marker cell and the glyph cell,
/// each one column wide, plus their separators.
pub const ROW_INDENT: u16 = 6;

/// The leading cell of a row.
pub open spec fn marker_cell(highlighted: bool, ascii: bool) -> CellText {
    if highlighted {
        CellText {
            text: if ascii {
                ">"@
            } else {
                "\u{25b8}"@
            },
            style: bolded(colored(status::PINK)),
        }
    } else {
        plain_cell(" "@)
    }
}

/// A leading cell marking a row that changed since the previous refresh.
pub fn change_marker(highlighted: bool, ascii: bool) -> (c: Cell)
    ensures
        c@ == marker_cell(highlighted, ascii),
{
    if highlighted {
        let m: &str = if ascii {
            ">"
        } else {
            "\u{25b8}"
        };
        Cell::styled(m, status::fg(status::PINK).bold())
    } else {
        Cell::plain(" ")
    }
}

/// The cell of the navigation caret.
pub open spec fn caret_cell(ascii: bool) -> CellText {
    CellText {
        text: if ascii {
            ">"@
        } else {
            "\u{276f}"@
        },
        style: bolded(colored(status::LAVENDER)),
    }
}

/// The leading cell of the row that the navigation cursor is on.
pub fn select_marker(ascii: bool) -> (c: Cell)
    ensures
        c@ == caret_cell(ascii),
{
    let m: &str = if ascii {
        ">"
    } else {
        "\u{276f}"
    };
    Cell::styled(m, status::fg(status::LAVENDER).bold())
}

/// A grid with the background of the first `n` cells of row `y` set.
pub open spec fn row_highlighted(g: Grid, f: Frame, y: int, n: int) -> Grid
    decreases n,
{
    if n <= 0 {
        g
    } else {
        bg_set(row_highlighted(g, f, y, n - 1), f, (n - 1, y), status::SURFACE)
    }
}

/// Highlighting a row sets the background of each of its cells and changes
/// nothing else: every cell keeps its text, color and link.
pub proof fn highlight_sets_the_background_alone(g: Grid, f: Frame, y: int, n: int, p: (int, int))
    requires
        0 <= n <= f.width,
        g.dom().contains(p),
        forall|q: (int, int)| g.dom().contains(q) <==> f.has(q),
    ensures
        ({
            let h = row_highlighted(g, f, y, n);
            &&& h.dom() == g.dom()
            &&& h[p].text == g[p].text
            &&& h[p].width == g[p].width
            &&& h[p].style == StyleView {
                bg: if p.1 == y && p.0 < n {
                    Some(rgb(status::SURFACE))
                } else {
                    g[p].style.bg
                },
                ..g[p].style
            }
        }),
    decreases n,
{
    assert(f.has(p));
    if n > 0 {
        highlight_sets_the_background_alone(g, f, y, n - 1, p);
        assert(p.1 == y && p.0 == n - 1 ==> p == (n - 1, y));
        if f.has((n - 1, y)) {
            highlight_sets_the_background_alone(g, f, y, n - 1, (n - 1, y));
        }
        assert(row_highlighted(g, f, y, n).dom() =~= g.dom());
    }
}

/// Paints the selection background across the whole of row `y`, edge to edge.
pub fn highlight_row(s: &mut TextBuffer, y: u16)
    ensures
        frame(*final(s)) == frame(*old(s)),
        cells(*final(s)) == row_highlighted(
            cells(*old(s)),
            frame(*old(s)),
            y as int,
            frame(*old(s)).width as int,
        ),
{
    let w: u16 = width(s);
    let ghost g = cells(*s);
    let ghost f = frame(*s);
    let mut x: u16 = 0;
    while x < w
        invariant
            x <= w,
            f == frame(*s),
            cells(*s) == row_highlighted(g, f, y as int, x as int),
        decreases w - x,
    {
        set_bg(s, x, y, status::SURFACE);
        x += 1;
    }
}

} // verus!
