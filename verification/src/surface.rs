//! The drawing surface: a grid of styled cells.
//!
//! The grid itself is an `uncurses` [`TextBuffer`]. What a buffer holds is
//! named by [`cells`] and [`frame`], and every operation on a buffer that the
//! painters use is stated over these two.

use std::sync::Arc;
use uncurses::buffer::{Surface, SurfaceMut, TextBuffer, View as BufView};
use uncurses::color::{Color as SurfaceColor, Profile as SurfaceProfile};
use uncurses::layout::{Position as SurfacePosition, Rect};
use uncurses::style::{AttrFlags, Link as SurfaceLink, Style as SurfaceStyle, UnderlineStyle};
use uncurses::text::{Encode, TextSurface};
use vstd::prelude::*;

verus! {

/// A 24-bit color: its red, green and blue channels.
pub type Color = (u8, u8, u8);

/// The color of a cell, as the surface stores it.
pub enum ColorView {
    /// One of the sixteen colors that a terminal names.
    Named(int),
    /// An entry of the 256-color palette.
    Indexed(int),
    /// A 24-bit color.
    Rgb(int, int, int),
}

/// The style of a cell: colors, underline kind, attribute bits and hyperlink
/// (its URL and its parameters).
#[verifier::ext_equal]
pub struct StyleView {
    pub fg: Option<ColorView>,
    pub bg: Option<ColorView>,
    pub underline_color: Option<ColorView>,
    pub underline: int,
    pub attrs: int,
    pub link: Option<(Seq<char>, Seq<char>)>,
}

/// One cell of a surface: the text it shows, how many columns that takes, and
/// its style.
#[verifier::ext_equal]
pub struct CellView {
    pub text: Seq<char>,
    pub width: int,
    pub style: StyleView,
}

/// What every cell of a surface holds, by column and row.
pub type Grid = Map<(int, int), CellView>;

/// How a surface measures text: by grapheme clusters or by code points, and
/// whether characters of ambiguous width are wide.
#[derive(Clone, Copy)]
pub struct Measure {
    pub grapheme: bool,
    pub eaw_wide: bool,
}

/// What does not change while a surface is painted: its size, and how it
/// measures text.
#[derive(Clone, Copy)]
pub struct Frame {
    pub width: u16,
    pub height: u16,
    pub measure: Measure,
}

impl Frame {
    /// Whether the cell at column `p.0` of row `p.1` exists.
    pub open spec fn has(self, p: (int, int)) -> bool {
        0 <= p.0 < self.width && 0 <= p.1 < self.height
    }
}

/// The style of unstyled text.
pub open spec fn no_style() -> StyleView {
    StyleView {
        fg: None,
        bg: None,
        underline_color: None,
        underline: 0,
        attrs: 0,
        link: None,
    }
}

/// A cell that nothing was painted on.
pub open spec fn blank() -> CellView {
    CellView { text: seq![' '], width: 1, style: no_style() }
}

/// The grid of an unpainted surface.
pub open spec fn blank_grid(f: Frame) -> Grid {
    Map::new(|p: (int, int)| f.has(p), |p: (int, int)| blank())
}

/// A color as the surface stores it.
pub open spec fn rgb(c: Color) -> ColorView {
    ColorView::Rgb(c.0 as int, c.1 as int, c.2 as int)
}

/// A hyperlink: where it leads, and the parameters by which a terminal tells
/// links apart.
pub struct Link {
    pub url: String,
    pub params: String,
}

impl Clone for Link {
    fn clone(&self) -> (r: Self)
        ensures
            r == *self,
    {
        Link { url: self.url.clone(), params: self.params.clone() }
    }
}

/// How a text is painted.
pub struct Style {
    pub fg: Option<Color>,
    pub bold: bool,
    pub faint: bool,
    pub italic: bool,
    pub underline: bool,
    pub link: Option<Link>,
}

impl Clone for Style {
    fn clone(&self) -> (r: Self)
        ensures
            r == *self,
    {
        Style {
            fg: self.fg,
            bold: self.bold,
            faint: self.faint,
            italic: self.italic,
            underline: self.underline,
            link: match &self.link {
                Some(l) => Some(l.clone()),
                None => None,
            },
        }
    }
}

impl View for Style {
    type V = StyleView;

    open spec fn view(&self) -> StyleView {
        StyleView {
            fg: match self.fg {
                Some(c) => Some(rgb(c)),
                None => None,
            },
            bg: None,
            underline_color: None,
            underline: if self.underline {
                1
            } else {
                0
            },
            attrs: (if self.bold {
                1int
            } else {
                0
            }) + (if self.faint {
                2int
            } else {
                0
            }) + (if self.italic {
                4int
            } else {
                0
            }),
            link: match self.link {
                Some(l) => Some((l.url@, l.params@)),
                None => None,
            },
        }
    }
}

/// `s` in bold.
pub open spec fn bolded(s: StyleView) -> StyleView {
    StyleView { attrs: s.attrs + 1, ..s }
}

/// The style of plain text in the color `c`.
pub open spec fn colored(c: Color) -> StyleView {
    StyleView { fg: Some(rgb(c)), ..no_style() }
}

/// The style of dim text.
pub open spec fn dimmed() -> StyleView {
    StyleView { attrs: 2, ..no_style() }
}

/// `s`, underlined and leading to `url`. An empty URL is no link.
pub open spec fn linked(s: StyleView, url: Seq<char>, params: Seq<char>) -> StyleView {
    StyleView {
        underline: 1,
        link: if url.len() == 0 {
            None
        } else {
            Some((url, params))
        },
        ..s
    }
}

impl Style {
    /// No color, no attribute, no link.
    pub fn new() -> (r: Self)
        ensures
            r@ == no_style(),
            r == (Style {
                fg: None,
                bold: false,
                faint: false,
                italic: false,
                underline: false,
                link: None,
            }),
    {
        Style {
            fg: None,
            bold: false,
            faint: false,
            italic: false,
            underline: false,
            link: None,
        }
    }

    /// This style in the color `c`.
    pub fn fg(self, c: Color) -> (r: Self)
        ensures
            r == (Style { fg: Some(c), ..self }),
            r@ == (StyleView { fg: Some(rgb(c)), ..self@ }),
    {
        Style { fg: Some(c), ..self }
    }

    /// This style in bold.
    pub fn bold(self) -> (r: Self)
        ensures
            r == (Style { bold: true, ..self }),
            !self.bold ==> r@ == bolded(self@),
    {
        Style { bold: true, ..self }
    }

    /// This style, dim.
    pub fn faint(self) -> (r: Self)
        ensures
            r == (Style { faint: true, ..self }),
            !self.faint ==> r@ == (StyleView { attrs: self@.attrs + 2, ..self@ }),
    {
        Style { faint: true, ..self }
    }

    /// This style in italics.
    pub fn italic(self) -> (r: Self)
        ensures
            r == (Style { italic: true, ..self }),
            !self.italic ==> r@ == (StyleView { attrs: self@.attrs + 4, ..self@ }),
    {
        Style { italic: true, ..self }
    }

    /// This style, underlined.
    pub fn underline(self) -> (r: Self)
        ensures
            r == (Style { underline: true, ..self }),
            r@ == (StyleView { underline: 1, ..self@ }),
    {
        Style { underline: true, ..self }
    }

    /// This style leading to `url`; an empty URL takes the link away.
    pub fn link(self, url: String, params: String) -> (r: Self)
        ensures
            url@.len() == 0 ==> r == (Style { link: None, ..self }),
            url@.len() > 0 ==> r == (Style { link: Some(Link { url, params }), ..self }),
            r@ == (StyleView {
                link: if url@.len() == 0 {
                    None
                } else {
                    Some((url@, params@))
                },
                ..self@
            }),
    {
        if crate::text::is_empty(url.as_str()) {
            Style { link: None, ..self }
        } else {
            Style { link: Some(Link { url, params }), ..self }
        }
    }
}

/// A cell of a surface: its column and its row.
#[derive(Clone, Copy, PartialEq, Eq, Structural, Debug)]
pub struct Position {
    pub x: u16,
    pub y: u16,
}

/// How much color encoded output may use.
#[derive(Clone, Copy, PartialEq, Eq, Structural, Debug)]
pub enum Profile {
    TrueColor,
    Ansi256,
    Ansi,
    Ascii,
    Disabled,
}

/// The `uncurses` cell buffer. A value of it is opaque: [`cells`] and [`frame`]
/// name what it holds.
#[verifier::external_type_specification]
#[verifier::external_body]
pub struct ExTextBuffer(TextBuffer);

/// What the cells of `b` hold.
pub uninterp spec fn cells(b: TextBuffer) -> Grid;

/// The size of `b` and how it measures text.
pub uninterp spec fn frame(b: TextBuffer) -> Frame;

/// The number of columns that `text` takes on a surface.
pub uninterp spec fn text_width(m: Measure, text: Seq<char>) -> u16;

/// The grid after `text` was painted on it from column `x` of row `y` on.
pub uninterp spec fn text_painted(
    g: Grid,
    f: Frame,
    x: int,
    y: int,
    text: Seq<char>,
    style: StyleView,
) -> Grid;

/// The cell just past `text` painted from column `x` of row `y` on.
pub uninterp spec fn text_end(f: Frame, x: int, y: int, text: Seq<char>) -> (u16, u16);

/// A row of a surface `width` columns wide after another surface's row was
/// drawn over it from its first column on.
pub uninterp spec fn row_drawn(
    row: Map<int, CellView>,
    width: int,
    over: Map<int, CellView>,
    over_width: int,
) -> Map<int, CellView>;

/// The bytes, as text, that show a grid on a terminal of a given color profile.
pub uninterp spec fn encoded(g: Grid, f: Frame, profile: Profile) -> Seq<char>;

/// Row `y` of a grid.
pub open spec fn row_of(g: Grid, y: int) -> Map<int, CellView> {
    Map::new(|x: int| g.dom().contains((x, y)), |x: int| g[(x, y)])
}

/// The grid after rows `off..off + n` of another one were drawn over it from
/// row `at` on, as far as both surfaces have them.
pub open spec fn rows_drawn(
    g: Grid,
    f: Frame,
    over: Grid,
    over_f: Frame,
    off: int,
    n: int,
    at: int,
) -> Grid {
    Map::new(
        |p: (int, int)| g.dom().contains(p),
        |p: (int, int)|
            if at <= p.1 < at + n && off + (p.1 - at) < over_f.height {
                row_drawn(
                    row_of(g, p.1),
                    f.width as int,
                    row_of(over, off + (p.1 - at)),
                    over_f.width as int,
                )[p.0]
            } else {
                g[p]
            },
    )
}

/// The grid with the background of one cell set.
pub open spec fn bg_set(g: Grid, f: Frame, p: (int, int), c: Color) -> Grid {
    if f.has(p) {
        let cell = g[p];
        g.insert(p, CellView { style: StyleView { bg: Some(rgb(c)), ..cell.style }, ..cell })
    } else {
        g
    }
}

/// The grid cut or extended to a new size: what both sizes have stays, the rest
/// is blank.
pub open spec fn resized(g: Grid, f: Frame, to: Frame) -> Grid {
    Map::new(
        |p: (int, int)| to.has(p),
        |p: (int, int)|
            if f.has(p) {
                g[p]
            } else {
                blank()
            },
    )
}

/// `TextBuffer::new`: a blank buffer of the given size, which measures text
/// code point by code point, ambiguous widths narrow.
#[verifier::external_body]
pub(crate) fn new_buffer(width: u16, height: u16) -> (b: TextBuffer)
    ensures
        frame(b) == (Frame {
            width,
            height,
            measure: Measure { grapheme: false, eaw_wide: false },
        }),
        cells(b) == blank_grid(frame(b)),
{
    TextBuffer::new(width, height)
}

/// `TextBuffer::width`: the number of columns.
#[verifier::external_body]
pub(crate) fn width(buf: &TextBuffer) -> (w: u16)
    ensures
        w == frame(*buf).width,
{
    buf.width()
}

/// `TextBuffer::height`: the number of rows.
#[verifier::external_body]
pub(crate) fn height(buf: &TextBuffer) -> (h: u16)
    ensures
        h == frame(*buf).height,
{
    buf.height()
}

/// `TextBuffer::resize`: cells that both sizes have keep their place, newly
/// exposed ones are blank, and how text is measured stays.
#[verifier::external_body]
pub(crate) fn resize(buf: &mut TextBuffer, width: u16, height: u16)
    ensures
        frame(*final(buf)) == (Frame { width, height, ..frame(*old(buf)) }),
        cells(*final(buf)) == resized(cells(*old(buf)), frame(*old(buf)), frame(*final(buf))),
{
    buf.resize(width, height);
}

/// `TextSurface::str_width`: the number of columns that `s` takes under the
/// buffer's own way of measuring text.
#[verifier::external_body]
pub(crate) fn str_width(buf: &TextBuffer, s: &str) -> (w: u16)
    ensures
        w == text_width(frame(*buf).measure, s@),
{
    buf.str_width(s)
}

/// `TextSurface::set_str`: paints `s` from the given cell on. What it leaves in
/// the grid and the cell just past the text are functions of the grid, the
/// frame and the arguments. The text is cut at the right edge, so the end lies
/// no further right than the edge or the start; and it is painted by clusters of
/// one or more characters, each of a width that fits a byte.
#[verifier::external_body]
pub(crate) fn set_str(buf: &mut TextBuffer, at: Position, s: &str, style: &Style) -> (end: Position)
    ensures
        frame(*final(buf)) == frame(*old(buf)),
        cells(*final(buf)) == text_painted(
            cells(*old(buf)),
            frame(*old(buf)),
            at.x as int,
            at.y as int,
            s@,
            style@,
        ),
        (end.x, end.y) == text_end(
            frame(*old(buf)),
            at.x as int,
            at.y as int,
            s@,
        ),
        end.x <= at.x || end.x <= frame(*old(buf)).width,
        end.x <= at.x + 255 * s@.len(),
{
    let mut st = SurfaceStyle::new();
    st.fg = style.fg.map(|c| SurfaceColor::Rgb(c.0, c.1, c.2));
    st.attrs.set(AttrFlags::BOLD, style.bold);
    st.attrs.set(AttrFlags::FAINT, style.faint);
    st.attrs.set(AttrFlags::ITALIC, style.italic);
    st.underline = [UnderlineStyle::None, UnderlineStyle::Single][style.underline as usize];
    st.link = style.link.as_ref().map(
        |l| Arc::new(SurfaceLink { url: l.url.clone(), params: l.params.clone() }),
    );
    let end = buf.set_str((at.x, at.y), s, st);
    Position { x: end.x, y: end.y }
}

/// `SurfaceMut::cell_mut`: the cell at a position, where the buffer has one,
/// gets the background `c`; nothing else changes.
#[verifier::external_body]
pub(crate) fn set_bg(buf: &mut TextBuffer, x: u16, y: u16, c: Color)
    ensures
        frame(*final(buf)) == frame(*old(buf)),
        cells(*final(buf)) == bg_set(
            cells(*old(buf)),
            frame(*old(buf)),
            (x as int, y as int),
            c,
        ),
{
    if let Some(cell) = buf.cell_mut(SurfacePosition::new(x, y)) {
        cell.style.bg = Some(SurfaceColor::Rgb(c.0, c.1, c.2));
    }
}

/// `Surface::draw` of a `View` of rows `off..off + n` of `src`, at full width,
/// onto `dst` from row `at` on. Each row of `dst` that is drawn over depends on
/// itself and the row drawn over it alone; every other row stays, and `src` is
/// only read.
#[verifier::external_body]
pub(crate) fn draw_rows(dst: &mut TextBuffer, src: &mut TextBuffer, off: u16, n: u16, at: u16)
    requires
        frame(*old(src)).width <= 0xff00,
        at + n <= 0xffff,
        off + n <= 0xffff,
    ensures
        frame(*final(dst)) == frame(*old(dst)),
        frame(*final(src)) == frame(*old(src)),
        cells(*final(src)) == cells(*old(src)),
        cells(*final(dst)).dom() == cells(*old(dst)).dom(),
        forall|p: (int, int)|
            #![trigger cells(*final(dst))[p]]
            cells(*old(dst)).dom().contains(p) && at <= p.1 < at + n && off + (p.1 - at) < frame(
                *old(src),
            ).height ==> cells(*final(dst))[p] == row_drawn(
                row_of(cells(*old(dst)), p.1),
                frame(*old(dst)).width as int,
                row_of(cells(*old(src)), off + (p.1 - at)),
                frame(*old(src)).width as int,
            )[p.0],
        forall|p: (int, int)|
            #![trigger cells(*final(dst))[p]]
            cells(*old(dst)).dom().contains(p) && !(at <= p.1 < at + n && off + (p.1 - at)
                < frame(*old(src)).height) ==> cells(*final(dst))[p] == cells(*old(dst))[p],
{
    let w = src.width();
    BufView::new(src, Rect::new(0, off, w, n)).draw(dst, SurfacePosition::new(0, at));
}

/// `Encode::display_with`: the rows as text for a terminal of the given color
/// profile, a function of the grid, the frame and the profile.
#[verifier::external_body]
pub(crate) fn encode(buf: &TextBuffer, profile: Profile) -> (s: String)
    ensures
        s@ == encoded(cells(*buf), frame(*buf), profile),
{
    let profile = match profile {
        Profile::TrueColor => SurfaceProfile::TrueColor,
        Profile::Ansi256 => SurfaceProfile::Ansi256,
        Profile::Ansi => SurfaceProfile::Ansi,
        Profile::Ascii => SurfaceProfile::Ascii,
        Profile::Disabled => SurfaceProfile::Disabled,
    };
    buf.display_with(profile).to_string()
}

/// One text to paint: where it starts, what it says, and how it looks.
#[verifier::ext_equal]
pub struct Stroke {
    pub x: int,
    pub y: int,
    pub text: Seq<char>,
    pub style: StyleView,
}

/// The grid after the strokes were painted, one after the other.
pub open spec fn painted(g: Grid, f: Frame, strokes: Seq<Stroke>) -> Grid
    decreases strokes.len(),
{
    if strokes.len() == 0 {
        g
    } else {
        let s = strokes.last();
        text_painted(painted(g, f, strokes.drop_last()), f, s.x, s.y, s.text, s.style)
    }
}

/// Painting one more stroke.
pub proof fn painted_push(g: Grid, f: Frame, strokes: Seq<Stroke>, s: Stroke)
    ensures
        painted(g, f, strokes.push(s)) == text_painted(
            painted(g, f, strokes),
            f,
            s.x,
            s.y,
            s.text,
            s.style,
        ),
{
    assert(strokes.push(s).drop_last() =~= strokes);
}

/// Painting a list of strokes and then another paints both in that order.
pub proof fn painted_concat(g: Grid, f: Frame, a: Seq<Stroke>, b: Seq<Stroke>)
    ensures
        painted(g, f, a + b) == painted(painted(g, f, a), f, b),
    decreases b.len(),
{
    if b.len() == 0 {
        assert(a + b =~= a);
    } else {
        painted_concat(g, f, a, b.drop_last());
        assert((a + b).drop_last() =~= a + b.drop_last());
    }
}

} // verus!
