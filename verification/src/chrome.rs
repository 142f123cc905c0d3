//! The lines around the tables: the key hints, the view switcher, the search
//! prompt and the help legend, and how they share the screen with the body.

use crate::cli::ViewKind;
use crate::render::{dim_stroke, end_x, header_line, paint_header, painted_more, stroke};
use crate::status;
use crate::surface::{
    bolded, cells, colored, dimmed, draw_rows, frame, no_style, painted, row_drawn, row_of,
    rows_drawn, str_width, text_width, width, Frame, Grid, Position, Stroke, Style, StyleView,
};
use crate::table::{max, min};
use crate::text::{char_text, concat, dec, decimal, is_empty, same};
use uncurses::buffer::TextBuffer;
use vstd::prelude::*;

verus! {

/// A key hint: the key, and what it does.
pub type Hint = (&'static str, String);

/// What hints say.
pub open spec fn hints_view(hints: Seq<Hint>) -> Seq<(Seq<char>, Seq<char>)> {
    Seq::new(hints.len(), |i: int| (hints[i].0@, hints[i].1@))
}

/// The columns of a hint: its key, and a gap and its label where it has one.
pub open spec fn hint_width(f: Frame, h: (Seq<char>, Seq<char>)) -> int {
    text_width(f.measure, h.0) + (if h.1.len() > 0 {
        1int
    } else {
        0
    }) + text_width(f.measure, h.1)
}

/// The columns of hints without what separates them.
pub open spec fn labels_width(f: Frame, hs: Seq<(Seq<char>, Seq<char>)>) -> int
    decreases hs.len(),
{
    if hs.len() == 0 {
        0
    } else {
        labels_width(f, hs.drop_last()) + hint_width(f, hs.last())
    }
}

/// The columns of a line of hints, three of them between each two.
pub open spec fn hints_width(f: Frame, hs: Seq<(Seq<char>, Seq<char>)>) -> int {
    labels_width(f, hs) + if hs.len() == 0 {
        0
    } else {
        3 * (hs.len() - 1)
    }
}

/// Whether a line of hints fits on the surface.
pub open spec fn hints_fit(f: Frame, hs: Seq<(Seq<char>, Seq<char>)>) -> bool {
    hints_width(f, hs) <= f.width
}

/// What the refresh hint says.
pub open spec fn refresh_label(interval: Seq<char>, refreshing: bool) -> Seq<char> {
    if refreshing {
        "refreshing"@
    } else {
        "refresh (every "@ + interval + ")"@
    }
}

/// Every hint, at full length.
pub open spec fn all_hints(interval: Seq<char>, refreshing: bool, more: bool) -> Seq<
    (Seq<char>, Seq<char>),
> {
    let rest = seq![
        ("r"@, refresh_label(interval, refreshing)),
        ("tab"@, "switch view"@),
        ("enter"@, "open"@),
        ("y"@, "copy"@),
        ("/"@, "search"@),
        ("?"@, "help"@),
    ];
    if more {
        seq![("+"@, "resize for more"@)] + rest
    } else {
        rest
    }
}

/// Hints with the label of one of them cleared.
pub open spec fn cleared(hs: Seq<(Seq<char>, Seq<char>)>, i: int) -> Seq<(Seq<char>, Seq<char>)> {
    hs.update(i, (hs[i].0, Seq::empty()))
}

/// Hints with labels cleared from the last one on, down to hint `floor`, until
/// the line fits.
pub open spec fn without_labels(
    f: Frame,
    hs: Seq<(Seq<char>, Seq<char>)>,
    upto: int,
    floor: int,
) -> Seq<(Seq<char>, Seq<char>)>
    decreases upto,
{
    if upto <= floor || upto <= 0 {
        hs
    } else {
        let less = cleared(hs, upto - 1);
        if hints_fit(f, less) {
            less
        } else {
            without_labels(f, less, upto - 1, floor)
        }
    }
}

/// Hints with the last ones dropped, but for the first `floor`, until the line
/// fits.
pub open spec fn without_hints(f: Frame, hs: Seq<(Seq<char>, Seq<char>)>, floor: int) -> Seq<
    (Seq<char>, Seq<char>),
>
    decreases hs.len(),
{
    if hints_fit(f, hs) || hs.len() <= floor || hs.len() == 0 {
        hs
    } else {
        without_hints(f, hs.drop_last(), floor)
    }
}

/// The hints that the footer shows: at full length where they fit; otherwise
/// labels go from the right, then whole hints, and at last the labels of the
/// essential ones are shortened and cleared. The label of a running refresh
/// stays.
pub open spec fn footer_hints(f: Frame, interval: Seq<char>, refreshing: bool, more: bool) -> Seq<
    (Seq<char>, Seq<char>),
> {
    let r: int = if more {
        1
    } else {
        0
    };
    let essential = r + 1;
    let full = all_hints(interval, refreshing, more);
    let bare = if hints_fit(f, full) {
        full
    } else {
        without_labels(f, full, full.len() as int, essential)
    };
    let few = without_hints(f, bare, essential);
    let short = if hints_fit(f, few) {
        few
    } else {
        let one = if more {
            few.update(0, (few[0].0, "more"@))
        } else {
            few
        };
        if refreshing {
            one
        } else {
            one.update(r, (one[r].0, "refresh"@))
        }
    };
    let less = if !hints_fit(f, short) && more {
        cleared(short, 0)
    } else {
        short
    };
    if !hints_fit(f, less) && !refreshing {
        cleared(less, r)
    } else {
        less
    }
}

/// How a hint reads: its key, and its label where it has one.
pub open spec fn hint_text(h: (Seq<char>, Seq<char>)) -> Seq<char> {
    if h.1.len() == 0 {
        h.0
    } else {
        h.0 + " "@ + h.1
    }
}

/// How a line of hints reads.
pub open spec fn hints_text(hs: Seq<(Seq<char>, Seq<char>)>) -> Seq<char>
    decreases hs.len(),
{
    if hs.len() == 0 {
        Seq::empty()
    } else if hs.len() == 1 {
        hint_text(hs[0])
    } else {
        hints_text(hs.drop_last()) + " - "@ + hint_text(hs.last())
    }
}

/// The strokes of the first `n` hints at row `y`, and the column past them.
pub open spec fn hint_strokes(
    f: Frame,
    hs: Seq<(Seq<char>, Seq<char>)>,
    refreshing: bool,
    y: int,
    n: int,
) -> (Seq<Stroke>, int)
    decreases n,
{
    if n <= 0 {
        (Seq::empty(), 0)
    } else {
        let (before, x0) = hint_strokes(f, hs, refreshing, y, n - 1);
        let (gap, x) = if n > 1 {
            (seq![dim_stroke(" - "@, x0, y)], end_x(f, x0, y, " - "@))
        } else {
            (Seq::empty(), x0)
        };
        let h = hs[n - 1];
        let style = if h.0 == "r"@ && refreshing {
            dimmed()
        } else {
            bolded(colored(status::OVERLAY))
        };
        let key = seq![Stroke { x, y, text: h.0, style }];
        let past = end_x(f, x, y, h.0);
        let (label, end) = if h.1.len() == 0 {
            (Seq::empty(), past)
        } else {
            (seq![dim_stroke(h.1, past + 1, y)], end_x(f, past + 1, y, h.1))
        };
        (before + gap + key + label, end)
    }
}

/// The strokes of the key-hint footer at row `y`.
pub open spec fn footer_strokes(
    f: Frame,
    interval: Seq<char>,
    refreshing: bool,
    more: bool,
    ascii: bool,
    y: int,
) -> Seq<Stroke> {
    let hs = footer_hints(f, interval, refreshing, more);
    if ascii {
        seq![Stroke { x: 0, y, text: hints_text(hs), style: no_style() }]
    } else {
        hint_strokes(f, hs, refreshing, y, hs.len() as int).0
    }
}

/// The columns of a line of hints.
fn line_width(s: &TextBuffer, hints: &Vec<Hint>) -> (w: usize)
    requires
        hints@.len() <= 7,
    ensures
        w == hints_width(frame(*s), hints_view(hints@)),
{
    let ghost hs = hints_view(hints@);
    let mut w: usize = 0;
    let mut i: usize = 0;
    assert(hs.take(0) =~= Seq::empty());
    while i < hints.len()
        invariant
            i <= hints@.len() <= 7,
            hs == hints_view(hints@),
            w == labels_width(frame(*s), hs.take(i as int)),
            w <= 0x2_0000 * i,
        decreases hints@.len() - i,
    {
        assert(hs.take(i + 1).drop_last() =~= hs.take(i as int));
        assert(hs.take(i + 1).last() == (hints@[i as int].0@, hints@[i as int].1@));
        let key: usize = str_width(s, hints[i].0) as usize;
        let label: usize = str_width(s, hints[i].1.as_str()) as usize;
        let gap: usize = if is_empty(hints[i].1.as_str()) {
            0
        } else {
            1
        };
        w = w + key + gap + label;
        i += 1;
    }
    assert(hs.take(hints@.len() as int) =~= hs);
    if hints.len() == 0 {
        w
    } else {
        w + 3 * (hints.len() - 1)
    }
}

/// Whether a line of hints fits on the surface.
fn line_fits(s: &TextBuffer, hints: &Vec<Hint>) -> (r: bool)
    requires
        hints@.len() <= 7,
    ensures
        r == hints_fit(frame(*s), hints_view(hints@)),
{
    line_width(s, hints) <= width(s) as usize
}

/// Gives a hint another label.
fn relabel(hints: &mut Vec<Hint>, i: usize, label: &str)
    requires
        i < old(hints)@.len(),
    ensures
        final(hints)@.len() == old(hints)@.len(),
        hints_view(final(hints)@) == hints_view(old(hints)@).update(
            i as int,
            (old(hints)@[i as int].0@, label@),
        ),
{
    let key: &'static str = hints[i].0;
    let ghost before = hints@;
    hints.set(i, (key, label.to_owned()));
    assert(hints_view(hints@) =~= hints_view(before).update(i as int, (key@, label@)));
}

/// Takes the label of a hint away.
fn clear_label(hints: &mut Vec<Hint>, i: usize)
    requires
        i < old(hints)@.len(),
    ensures
        final(hints)@.len() == old(hints)@.len(),
        hints_view(final(hints)@) == cleared(hints_view(old(hints)@), i as int),
{
    proof {
        reveal_strlit("");
        assert(""@ =~= Seq::empty());
    }
    relabel(hints, i, "");
}

/// Every hint, at full length.
fn full_hints(interval: &str, refreshing: bool, more: bool) -> (hints: Vec<Hint>)
    ensures
        hints_view(hints@) == all_hints(interval@, refreshing, more),
        hints@.len() <= 7,
{
    let refresh: String = if refreshing {
        "refreshing".to_owned()
    } else {
        concat(concat("refresh (every ", interval).as_str(), ")")
    };
    let mut hints: Vec<Hint> = Vec::new();
    if more {
        hints.push(("+", "resize for more".to_owned()));
    }
    hints.push(("r", refresh));
    hints.push(("tab", "switch view".to_owned()));
    hints.push(("enter", "open".to_owned()));
    hints.push(("y", "copy".to_owned()));
    hints.push(("/", "search".to_owned()));
    hints.push(("?", "help".to_owned()));
    assert(hints_view(hints@) =~= all_hints(interval@, refreshing, more));
    hints
}

/// The hints that the footer shows.
fn fitting_hints(s: &TextBuffer, interval: &str, refreshing: bool, more: bool) -> (hints: Vec<Hint>)
    ensures
        hints_view(hints@) == footer_hints(frame(*s), interval@, refreshing, more),
        hints@.len() <= 7,
{
    let ghost f = frame(*s);
    let mut hints: Vec<Hint> = full_hints(interval, refreshing, more);
    let r: usize = if more {
        1
    } else {
        0
    };
    let essential: usize = r + 1;
    let ghost full = hints_view(hints@);
    if !line_fits(s, &hints) {
        let ghost bare = without_labels(f, full, full.len() as int, essential as int);
        let mut upto: usize = hints.len();
        let mut fits: bool = false;
        while upto > essential && !fits
            invariant
                f == frame(*s),
                upto <= hints@.len() <= 7,
                essential <= hints@.len(),
                fits ==> hints_view(hints@) == bare,
                !fits ==> without_labels(f, hints_view(hints@), upto as int, essential as int)
                    == bare,
            decreases upto,
        {
            upto -= 1;
            clear_label(&mut hints, upto);
            fits = line_fits(s, &hints);
        }
        assert(hints_view(hints@) == bare);
    }
    let ghost bare = hints_view(hints@);
    while hints.len() > essential && !line_fits(s, &hints)
        invariant
            f == frame(*s),
            1 <= essential <= hints@.len() <= 7,
            without_hints(f, hints_view(hints@), essential as int) == without_hints(
                f,
                bare,
                essential as int,
            ),
        decreases hints@.len(),
    {
        let ghost before = hints@;
        hints.pop();
        assert(hints_view(hints@) =~= hints_view(before).drop_last());
    }
    if !line_fits(s, &hints) {
        if more {
            relabel(&mut hints, 0, "more");
        }
        if !refreshing {
            relabel(&mut hints, r, "refresh");
        }
    }
    if more && !line_fits(s, &hints) {
        clear_label(&mut hints, 0);
    }
    if !refreshing && !line_fits(s, &hints) {
        clear_label(&mut hints, r);
    }
    hints
}

/// How a line of hints reads.
fn line_text(hints: &Vec<Hint>) -> (line: String)
    ensures
        line@ == hints_text(hints_view(hints@)),
{
    let ghost hs = hints_view(hints@);
    let mut line: String = String::new();
    let mut i: usize = 0;
    assert(hs.take(0) =~= Seq::empty());
    assert(line@ =~= Seq::empty());
    while i < hints.len()
        invariant
            i <= hints@.len(),
            hs == hints_view(hints@),
            line@ == hints_text(hs.take(i as int)),
        decreases hints@.len() - i,
    {
        assert(hs.take(i + 1).drop_last() =~= hs.take(i as int));
        assert(hs.take(i + 1).last() == (hints@[i as int].0@, hints@[i as int].1@));
        if i > 0 {
            line.append(" - ");
        }
        let ghost before = line@;
        line.append(hints[i].0);
        if !is_empty(hints[i].1.as_str()) {
            line.append(" ");
            line.append(hints[i].1.as_str());
        }
        assert(line@ =~= before + hint_text(hs[i as int]));
        assert(i == 0 ==> line@ =~= hint_text(hs[0]));
        i += 1;
    }
    assert(hs.take(hints@.len() as int) =~= hs);
    line
}

/// Paints the key-hint footer at row `y`, folding the refresh interval into the
/// refresh hint. While a refresh is in flight the hint says so and its key is
/// dim, since it is inert until the fetch finishes. Returns `y + 1`.
pub fn paint_footer(
    s: &mut TextBuffer,
    interval: &str,
    refreshing: bool,
    more: bool,
    ascii: bool,
    y: u16,
) -> (next: u16)
    requires
        y < u16::MAX,
        frame(*old(s)).width + 7 <= u16::MAX,
    ensures
        frame(*final(s)) == frame(*old(s)),
        cells(*final(s)) == painted(
            cells(*old(s)),
            frame(*old(s)),
            footer_strokes(frame(*old(s)), interval@, refreshing, more, ascii, y as int),
        ),
        next == y + 1,
{
    let ghost g = cells(*s);
    let ghost f = frame(*s);
    let hints: Vec<Hint> = fitting_hints(s, interval, refreshing, more);
    let ghost hs = hints_view(hints@);
    if ascii {
        let line: String = line_text(&hints);
        let plain: Style = Style::new();
        stroke(s, 0, y, line.as_str(), &plain);
        return y + 1;
    }
    let key: Style = status::fg(status::OVERLAY).bold();
    let dim: Style = Style::new().faint();
    let mut x: u16 = 0;
    let mut i: usize = 0;
    while i < hints.len()
        invariant
            i <= hints@.len() <= 7,
            hs == hints_view(hints@),
            f.width + 7 <= u16::MAX,
            f == frame(*s),
            key@ == bolded(colored(status::OVERLAY)),
            dim@ == dimmed(),
            x <= f.width + i,
            x == hint_strokes(f, hs, refreshing, y as int, i as int).1,
            cells(*s) == painted(g, f, hint_strokes(f, hs, refreshing, y as int, i as int).0),
        decreases hints@.len() - i,
    {
        let ghost before = hint_strokes(f, hs, refreshing, y as int, i as int).0;
        let ghost mut gap: Seq<Stroke> = Seq::empty();
        if i > 0 {
            proof {
                gap = seq![dim_stroke(" - "@, x as int, y as int)];
                painted_more(g, f, before, gap);
            }
            let end: Position = stroke(s, x, y, " - ", &dim);
            x = end.x;
        } else {
            assert(before + gap =~= before);
        }
        let key_glyph: &'static str = hints[i].0;
        let dimmed_key: bool = refreshing && same(key_glyph, "r");
        let key_style: &Style = if dimmed_key {
            &dim
        } else {
            &key
        };
        let p: Position = stroke(s, x, y, key_glyph, key_style);
        let ghost mark = seq![
            Stroke { x: x as int, y: y as int, text: key_glyph@, style: key_style@ },
        ];
        proof {
            painted_more(g, f, before + gap, mark);
        }
        x = p.x;
        let ghost mut label: Seq<Stroke> = Seq::empty();
        if !is_empty(hints[i].1.as_str()) {
            let end: Position = stroke(s, p.x + 1, y, hints[i].1.as_str(), &dim);
            x = end.x;
            proof {
                label = seq![dim_stroke(hints@[i as int].1@, p.x + 1, y as int)];
                painted_more(g, f, before + gap + mark, label);
            }
        } else {
            assert(before + gap + mark + label =~= before + gap + mark);
        }
        assert(hs[i as int] == (hints@[i as int].0@, hints@[i as int].1@));
        i += 1;
    }
    y + 1
}

/// Clearing labels keeps every key and every label below `floor`.
proof fn clearing_keeps_keys(f: Frame, hs: Seq<(Seq<char>, Seq<char>)>, upto: int, floor: int)
    requires
        0 <= floor,
        upto <= hs.len(),
    ensures
        ({
            let less = without_labels(f, hs, upto, floor);
            &&& less.len() == hs.len()
            &&& forall|i: int| 0 <= i < hs.len() ==> (#[trigger] less[i]).0 == hs[i].0
            &&& forall|i: int| 0 <= i < floor && i < hs.len() ==> #[trigger] less[i] == hs[i]
        }),
    decreases upto,
{
    if upto > floor && upto > 0 {
        let less = cleared(hs, upto - 1);
        if !hints_fit(f, less) {
            clearing_keeps_keys(f, less, upto - 1, floor);
        }
    }
}

/// Dropping hints keeps the first ones.
proof fn dropping_keeps_the_first(f: Frame, hs: Seq<(Seq<char>, Seq<char>)>, floor: int)
    requires
        1 <= floor <= hs.len(),
    ensures
        ({
            let few = without_hints(f, hs, floor);
            &&& floor <= few.len() <= hs.len()
            &&& few == hs.take(few.len() as int)
            &&& hints_fit(f, few) || few.len() == floor
        }),
    decreases hs.len(),
{
    if !hints_fit(f, hs) && hs.len() > floor {
        dropping_keeps_the_first(f, hs.drop_last(), floor);
        let few = without_hints(f, hs.drop_last(), floor);
        assert(hs.drop_last().take(few.len() as int) =~= hs.take(few.len() as int));
    } else {
        assert(hs.take(hs.len() as int) =~= hs);
    }
}

/// However narrow the surface, the footer starts with the refresh key, after
/// `+` where there is more to show; what it shows fits, or it is down to these
/// keys alone, without labels but that of a running refresh.
pub proof fn footer_keeps_the_essential_hints(
    f: Frame,
    interval: Seq<char>,
    refreshing: bool,
    more: bool,
)
    ensures
        ({
            let hs = footer_hints(f, interval, refreshing, more);
            let r: int = if more {
                1
            } else {
                0
            };
            &&& hs.len() > r
            &&& hs[r].0 == "r"@
            &&& more ==> hs[0].0 == "+"@
            &&& refreshing ==> hs[r].1 == "refreshing"@
            &&& hints_fit(f, hs) || {
                &&& hs.len() == r + 1
                &&& more ==> hs[0].1.len() == 0
                &&& !refreshing ==> hs[r].1.len() == 0
            }
        }),
{
    let r: int = if more {
        1
    } else {
        0
    };
    let full = all_hints(interval, refreshing, more);
    assert(full.len() == 6 + r);
    assert(full[r].0 == "r"@);
    let bare = if hints_fit(f, full) {
        full
    } else {
        without_labels(f, full, full.len() as int, r + 1)
    };
    clearing_keeps_keys(f, full, full.len() as int, r + 1);
    dropping_keeps_the_first(f, bare, r + 1);
}

/// Where the whole line of hints fits, the footer shows it at full length.
pub proof fn wide_footer_is_whole(f: Frame, interval: Seq<char>, refreshing: bool, more: bool)
    requires
        hints_fit(f, all_hints(interval, refreshing, more)),
    ensures
        footer_hints(f, interval, refreshing, more) == all_hints(interval, refreshing, more),
{
}

/// The strokes of the view switcher at row `y`.
pub open spec fn tab_strokes(f: Frame, view: ViewKind, ascii: bool, y: int) -> Seq<Stroke> {
    let one = tab_stroke("my PRs"@, view == ViewKind::Mine, ascii, 0, y);
    let x = end_x(f, 0, y, one.text) + 2;
    seq![one, tab_stroke("reviews"@, view == ViewKind::Reviews, ascii, x, y)]
}

/// One name of the view switcher.
pub open spec fn tab_stroke(name: Seq<char>, active: bool, ascii: bool, x: int, y: int) -> Stroke {
    Stroke {
        x,
        y,
        text: if !active {
            name
        } else if ascii {
            "["@ + name + "]"@
        } else {
            "\u{258c}"@ + name
        },
        style: if ascii {
            no_style()
        } else if active {
            bolded(colored(status::LAVENDER))
        } else {
            dimmed()
        },
    }
}

/// Paints one name of the view switcher.
fn paint_tab(s: &mut TextBuffer, name: &str, active: bool, ascii: bool, x: u16, y: u16) -> (end: u16)
    ensures
        frame(*final(s)) == frame(*old(s)),
        cells(*final(s)) == painted(
            cells(*old(s)),
            frame(*old(s)),
            seq![tab_stroke(name@, active, ascii, x as int, y as int)],
        ),
        end == end_x(
            frame(*old(s)),
            x as int,
            y as int,
            tab_stroke(name@, active, ascii, x as int, y as int).text,
        ),
        end <= x || end <= frame(*old(s)).width,
{
    let text: String = if !active {
        name.to_owned()
    } else if ascii {
        concat(concat("[", name).as_str(), "]")
    } else {
        concat("\u{258c}", name)
    };
    let style: Style = if ascii {
        Style::new()
    } else if active {
        status::fg(status::LAVENDER).bold()
    } else {
        Style::new().faint()
    };
    stroke(s, x, y, text.as_str(), &style).x
}

/// Paints the view switcher at row `y`: both view names, the active one accented
/// (bracketed in ASCII mode), the other dim. Returns `y + 1`.
pub fn paint_tabs(s: &mut TextBuffer, view: ViewKind, ascii: bool, y: u16) -> (next: u16)
    requires
        y < u16::MAX,
        frame(*old(s)).width + 2 <= u16::MAX,
    ensures
        frame(*final(s)) == frame(*old(s)),
        cells(*final(s)) == painted(
            cells(*old(s)),
            frame(*old(s)),
            tab_strokes(frame(*old(s)), view, ascii, y as int),
        ),
        next == y + 1,
{
    let ghost g = cells(*s);
    let ghost f = frame(*s);
    let end: u16 = paint_tab(s, "my PRs", view == ViewKind::Mine, ascii, 0, y);
    paint_tab(s, "reviews", view == ViewKind::Reviews, ascii, end + 2, y);
    proof {
        let all = tab_strokes(f, view, ascii, y as int);
        painted_more(g, f, seq![all[0]], seq![all[1]]);
        assert(seq![all[0]] + seq![all[1]] =~= all);
    }
    y + 1
}

/// How a number of matches reads.
pub open spec fn matches_text(matches: int) -> Seq<char> {
    if matches == 1 {
        "(1 match)"@
    } else {
        "("@ + decimal(matches as nat) + " matches)"@
    }
}

/// The strokes of the search prompt at row `y`.
pub open spec fn prompt_strokes(f: Frame, query: Seq<char>, matches: int, ascii: bool, y: int) -> Seq<
    Stroke,
> {
    let text = "/"@ + query;
    let style = if ascii {
        no_style()
    } else {
        bolded(colored(status::PEACH))
    };
    seq![
        Stroke { x: 0, y, text, style },
        dim_stroke(matches_text(matches), end_x(f, 0, y, text) + 2, y),
    ]
}

/// Paints the search prompt at row `y`: an accented `/`, the query, and a dim
/// match count. Returns the next free row and the cell just past the query, for
/// the caller to park the terminal's own cursor on.
pub fn paint_search_prompt(
    s: &mut TextBuffer,
    query: &str,
    matches: usize,
    ascii: bool,
    y: u16,
) -> (r: (u16, Position))
    requires
        y < u16::MAX,
        frame(*old(s)).width + 2 <= u16::MAX,
    ensures
        frame(*final(s)) == frame(*old(s)),
        cells(*final(s)) == painted(
            cells(*old(s)),
            frame(*old(s)),
            prompt_strokes(frame(*old(s)), query@, matches as int, ascii, y as int),
        ),
        r.0 == y + 1,
        (r.1.x, r.1.y) == crate::surface::text_end(frame(*old(s)), 0, y as int, "/"@ + query@),
{
    let ghost g = cells(*s);
    let ghost f = frame(*s);
    let count: String = if matches == 1 {
        "(1 match)".to_owned()
    } else {
        concat(concat("(", dec(matches as u64).as_str()).as_str(), " matches)")
    };
    let prompt: String = concat("/", query);
    let style: Style = if ascii {
        Style::new()
    } else {
        status::fg(status::PEACH).bold()
    };
    let caret: Position = stroke(s, 0, y, prompt.as_str(), &style);
    let dim: Style = Style::new().faint();
    stroke(s, caret.x + 2, y, count.as_str(), &dim);
    proof {
        let all = prompt_strokes(f, query@, matches as int, ascii, y as int);
        painted_more(g, f, seq![all[0]], seq![all[1]]);
        assert(seq![all[0]] + seq![all[1]] =~= all);
    }
    (y + 1, caret)
}

/// How a screen of `rows` rows is shared: how many rows of the bottom block are
/// shown, and how many are left for the body.
pub open spec fn shown_bottom(bottom_h: int, rows: int) -> int {
    min(bottom_h, rows)
}

/// The first body row that is shown: the top, or, where the body is taller than
/// its room and there is a caret, so far down that the caret is centered, but no
/// further than the end of the body.
pub open spec fn body_offset(body_h: int, avail: int, caret: Option<u16>) -> int {
    match caret {
        Some(c) => if body_h > avail {
            min(max(c - avail / 2, 0), body_h - avail)
        } else {
            0
        },
        None => 0,
    }
}

/// The screen with the body at its top and the bottom block at its end.
pub open spec fn composed(
    screen: Grid,
    f: Frame,
    body: Grid,
    body_f: Frame,
    body_h: int,
    bottom: Grid,
    bottom_f: Frame,
    bottom_h: int,
    rows: int,
    caret: Option<u16>,
) -> Grid {
    let shown = shown_bottom(bottom_h, rows);
    let avail = rows - shown;
    let off = body_offset(body_h, avail, caret);
    let upper = rows_drawn(screen, f, body, body_f, off, avail, 0);
    rows_drawn(upper, f, bottom, bottom_f, bottom_h - shown, shown, avail)
}

/// Composes one screen of exactly `rows` rows: as much of `body` as fits at the
/// top, then `bottom` glued to the last rows. When the body is taller than the
/// space left over it scrolls, keeping `caret` in view. A bottom block that is
/// itself too tall keeps its tail.
///
/// Returns the row the bottom block starts on and how many rows were cut from
/// its head.
pub fn compose(
    screen: &mut TextBuffer,
    body: &mut TextBuffer,
    body_h: u16,
    bottom: &mut TextBuffer,
    bottom_h: u16,
    rows: u16,
    caret: Option<u16>,
) -> (r: (u16, u16))
    requires
        frame(*old(body)).width <= 0xff00,
        frame(*old(bottom)).width <= 0xff00,
    ensures
        r.0 == rows - shown_bottom(bottom_h as int, rows as int),
        r.1 == bottom_h - shown_bottom(bottom_h as int, rows as int),
        frame(*final(screen)) == frame(*old(screen)),
        frame(*final(body)) == frame(*old(body)),
        cells(*final(body)) == cells(*old(body)),
        frame(*final(bottom)) == frame(*old(bottom)),
        cells(*final(bottom)) == cells(*old(bottom)),
        cells(*final(screen)) == composed(
            cells(*old(screen)),
            frame(*old(screen)),
            cells(*old(body)),
            frame(*old(body)),
            body_h as int,
            cells(*old(bottom)),
            frame(*old(bottom)),
            bottom_h as int,
            rows as int,
            caret,
        ),
{
    let ghost g = cells(*screen);
    let ghost f = frame(*screen);
    let shown: u16 = if rows < bottom_h {
        rows
    } else {
        bottom_h
    };
    let cut: u16 = bottom_h - shown;
    let avail: u16 = rows - shown;
    let off: u16 = match caret {
        Some(c) => if body_h > avail {
            let centered: u16 = if c < avail / 2 {
                0
            } else {
                c - avail / 2
            };
            if body_h - avail < centered {
                body_h - avail
            } else {
                centered
            }
        } else {
            0
        },
        None => 0,
    };
    draw_rows(screen, body, off, avail, 0);
    let ghost upper = rows_drawn(
        g,
        f,
        cells(*body),
        frame(*body),
        off as int,
        avail as int,
        0,
    );
    assert(cells(*screen) =~= upper);
    draw_rows(screen, bottom, cut, shown, avail);
    assert(cells(*screen) =~= rows_drawn(
        upper,
        f,
        cells(*bottom),
        frame(*bottom),
        cut as int,
        shown as int,
        avail as int,
    ));
    (avail, cut)
}

/// The caret's row is on the screen whenever the body has any room there, and
/// the body is never scrolled past its end.
pub proof fn compose_keeps_the_caret_in_view(body_h: u16, bottom_h: u16, rows: u16, caret: u16)
    ensures
        ({
            let avail = rows - shown_bottom(bottom_h as int, rows as int);
            let off = body_offset(body_h as int, avail, Some(caret));
            &&& 0 <= off
            &&& off > 0 ==> off + avail <= body_h
            &&& caret < body_h && avail > 0 ==> off <= caret < off + avail
        }),
{
}

/// The last row of the bottom block is the last row of the screen, whatever the
/// body and however little room there is.
pub proof fn compose_keeps_the_last_bottom_row(
    screen: Grid,
    f: Frame,
    body: Grid,
    body_f: Frame,
    body_h: int,
    bottom: Grid,
    bottom_f: Frame,
    bottom_h: int,
    rows: int,
    caret: Option<u16>,
    x: int,
)
    requires
        0 < rows,
        0 < bottom_h <= bottom_f.height,
        screen.dom().contains((x, rows - 1)),
    ensures
        ({
            let all = composed(
                screen,
                f,
                body,
                body_f,
                body_h,
                bottom,
                bottom_f,
                bottom_h,
                rows,
                caret,
            );
            all[(x, rows - 1)] == row_drawn(
                row_of(screen, rows - 1),
                f.width as int,
                row_of(bottom, bottom_h - 1),
                bottom_f.width as int,
            )[x]
        }),
{
    let shown = shown_bottom(bottom_h, rows);
    let avail = rows - shown;
    let off = body_offset(body_h, avail, caret);
    let upper = rows_drawn(screen, f, body, body_f, off, avail, 0);
    assert(row_of(upper, rows - 1) =~= row_of(screen, rows - 1));
}

/// The separator of the key list in the help legend.
pub open spec fn key_separator(ascii: bool) -> Seq<char> {
    if ascii {
        " | "@
    } else {
        "  \u{b7}  "@
    }
}

/// The key list of the help legend.
pub open spec fn key_list(ascii: bool) -> Seq<char> {
    let sep = key_separator(ascii);
    "j/k move"@ + sep + "g/G first/last"@ + sep + "^D/^U half page"@ + sep + "enter open"@ + sep
        + "y copy link"@ + sep + "Y copy section"@ + sep + "/ filter"@
}

/// One row of the help legend: an indented glyph and its meaning.
pub open spec fn legend_strokes(
    f: Frame,
    glyph: Seq<char>,
    style: StyleView,
    meaning: Seq<char>,
    y: int,
) -> Seq<Stroke> {
    seq![
        Stroke { x: 2, y, text: glyph, style },
        dim_stroke(meaning, end_x(f, 2, y, glyph) + 2, y),
    ]
}

/// The legend row of entry `i` of a view.
pub open spec fn legend_entry(f: Frame, view: ViewKind, ascii: bool, i: int, y: int) -> Seq<Stroke> {
    match view {
        ViewKind::Mine => {
            let m = status::MERGEABLE_ORDER@[i];
            legend_strokes(
                f,
                seq![status::mergeable_glyph(m, ascii)],
                colored(status::mergeable_style(m).1),
                status::mergeable_meaning(m)@,
                y,
            )
        },
        ViewKind::Reviews => {
            let r = status::REVIEW_ORDER@[i];
            legend_strokes(
                f,
                seq![status::review_glyph(r, ascii)],
                colored(status::review_style(r).1),
                status::review_meaning(r)@,
                y,
            )
        },
    }
}

/// The first `n` legend rows of a view, the first of them at row `y`.
pub open spec fn legend_entries(f: Frame, view: ViewKind, ascii: bool, n: int, y: int) -> Seq<Stroke>
    decreases n,
{
    if n <= 0 {
        Seq::empty()
    } else {
        legend_entries(f, view, ascii, n - 1, y) + legend_entry(f, view, ascii, n - 1, y + n - 1)
    }
}

/// How many entries the legend of a view has.
pub open spec fn legend_len(view: ViewKind) -> int {
    match view {
        ViewKind::Mine => status::MERGEABLE_ORDER@.len() as int,
        ViewKind::Reviews => status::REVIEW_ORDER@.len() as int,
    }
}

/// The strokes of the help legend of a view at row `top`.
pub open spec fn help_strokes(f: Frame, view: ViewKind, ascii: bool, top: int) -> Seq<Stroke> {
    header_line(f, "Help"@, status::OVERLAY, None, None, ascii, top) + seq![
        dim_stroke(key_list(ascii), 2, top + 1),
    ] + legend_entries(f, view, ascii, legend_len(view), top + 2)
}

/// Paints one indented `glyph  meaning` legend row at `y`.
fn legend_row(s: &mut TextBuffer, glyph: &str, gstyle: &Style, meaning: &str, dim: &Style, y: u16)
    requires
        dim@ == dimmed(),
        glyph@.len() <= 1,
    ensures
        frame(*final(s)) == frame(*old(s)),
        cells(*final(s)) == painted(
            cells(*old(s)),
            frame(*old(s)),
            legend_strokes(frame(*old(s)), glyph@, gstyle@, meaning@, y as int),
        ),
{
    let ghost g = cells(*s);
    let ghost f = frame(*s);
    let p: Position = stroke(s, 2, y, glyph, gstyle);
    stroke(s, p.x + 2, y, meaning, dim);
    proof {
        let all = legend_strokes(f, glyph@, gstyle@, meaning@, y as int);
        painted_more(g, f, seq![all[0]], seq![all[1]]);
        assert(seq![all[0]] + seq![all[1]] =~= all);
    }
}

/// The key list of the help legend.
fn key_line(ascii: bool) -> (r: String)
    ensures
        r@ == key_list(ascii),
{
    let sep: &str = if ascii {
        " | "
    } else {
        "  \u{b7}  "
    };
    let mut r: String = "j/k move".to_owned();
    r.append(sep);
    r.append("g/G first/last");
    r.append(sep);
    r.append("^D/^U half page");
    r.append(sep);
    r.append("enter open");
    r.append(sep);
    r.append("y copy link");
    r.append(sep);
    r.append("Y copy section");
    r.append(sep);
    r.append("/ filter");
    r
}

/// Paints the help legend for `view` at row `top`: the navigation keys, then
/// only the glyphs that view uses. Returns the next free row.
pub fn paint_help(s: &mut TextBuffer, view: ViewKind, ascii: bool, top: u16) -> (next: u16)
    requires
        top + 2 + legend_len(view) <= u16::MAX,
    ensures
        frame(*final(s)) == frame(*old(s)),
        cells(*final(s)) == painted(
            cells(*old(s)),
            frame(*old(s)),
            help_strokes(frame(*old(s)), view, ascii, top as int),
        ),
        next == top + help_height(view),
{
    let ghost g = cells(*s);
    let ghost f = frame(*s);
    let dim: Style = Style::new().faint();
    let ghost head = header_line(f, "Help"@, status::OVERLAY, None, None, ascii, top as int);
    let y: u16 = paint_header(s, "Help", status::OVERLAY, None, None, ascii, top);
    let keys: String = key_line(ascii);
    stroke(s, 2, y, keys.as_str(), &dim);
    let ghost upper = head + seq![dim_stroke(key_list(ascii), 2, top + 1)];
    proof {
        painted_more(g, f, head, seq![dim_stroke(key_list(ascii), 2, top + 1)]);
    }
    let n: u16 = match view {
        ViewKind::Mine => status::MERGEABLE_ORDER.len() as u16,
        ViewKind::Reviews => status::REVIEW_ORDER.len() as u16,
    };
    let mut i: u16 = 0;
    assert(upper + legend_entries(f, view, ascii, 0, top + 2) =~= upper);
    while i < n
        invariant
            i <= n,
            n == legend_len(view),
            top + 2 + n <= u16::MAX,
            dim@ == dimmed(),
            f == frame(*s),
            cells(*s) == painted(
                g,
                f,
                upper + legend_entries(f, view, ascii, i as int, top + 2),
            ),
        decreases n - i,
    {
        let ghost before = legend_entries(f, view, ascii, i as int, top + 2);
        let row: u16 = top + 2 + i;
        match view {
            ViewKind::Mine => {
                let m: status::Mergeable = status::MERGEABLE_ORDER[i as usize];
                let glyph: String = char_text(status::mergeable_glyph(m, ascii));
                let color: Style = status::fg(status::mergeable_style(m).1);
                legend_row(s, glyph.as_str(), &color, status::mergeable_meaning(m), &dim, row);
            },
            ViewKind::Reviews => {
                let r: status::ReviewState = status::REVIEW_ORDER[i as usize];
                let glyph: String = char_text(status::review_glyph(r, ascii));
                let color: Style = status::fg(status::review_style(r).1);
                legend_row(s, glyph.as_str(), &color, status::review_meaning(r), &dim, row);
            },
        }
        proof {
            let more = legend_entry(f, view, ascii, i as int, row as int);
            painted_more(g, f, upper + before, more);
            assert((upper + before) + more =~= upper + (before + more));
        }
        i += 1;
    }
    top + 2 + n
}

/// The number of legend rows [`paint_help`] paints for `view`.
#[verifier::allow_in_spec]
pub fn help_height(view: ViewKind) -> usize
    returns
        ((2 + legend_len(view)) as usize),
{
    2 + match view {
        ViewKind::Mine => status::MERGEABLE_ORDER.len(),
        ViewKind::Reviews => status::REVIEW_ORDER.len(),
    }
}

/// The view switcher names both views side by side and sets apart the one that is
/// shown: its name is marked and the other's is not.
pub proof fn the_shown_view_is_set_apart(f: Frame, view: ViewKind, ascii: bool, y: int)
    ensures
        ({
            let tabs = tab_strokes(f, view, ascii, y);
            &&& tabs.len() == 2
            &&& tabs[0].text == "my PRs"@ <==> view is Reviews
            &&& tabs[1].text == "reviews"@ <==> view is Mine
            &&& !ascii ==> tabs[0].style != tabs[1].style
            &&& tabs[0].y == y && tabs[1].y == y && tabs[0].x == 0
        }),
{
    reveal_strlit("[");
    reveal_strlit("]");
    reveal_strlit("\u{258c}");
    let tabs = tab_strokes(f, view, ascii, y);
    if view is Mine {
        assert(tabs[0].text.len() > "my PRs"@.len());
    } else {
        assert(tabs[1].text.len() > "reviews"@.len());
    }
}

/// The legend of a view has a line for each of its states, below its title and the
/// list of keys.
pub proof fn the_legend_has_a_line_for_each_state(f: Frame, view: ViewKind, ascii: bool, top: int)
    ensures
        view is Mine ==> legend_len(view) == 4,
        view is Reviews ==> legend_len(view) == 4,
        forall|i: int|
            0 <= i < legend_len(view) ==> (#[trigger] legend_entry(f, view, ascii, i, top + i)).len()
                == 2,
        legend_entries(f, view, ascii, legend_len(view), top).len() == 2 * legend_len(view),
{
    legend_lines(f, view, ascii, legend_len(view), top);
}

proof fn legend_lines(f: Frame, view: ViewKind, ascii: bool, n: int, y: int)
    requires
        0 <= n,
    ensures
        legend_entries(f, view, ascii, n, y).len() == 2 * n,
    decreases n,
{
    if n > 0 {
        legend_lines(f, view, ascii, n - 1, y);
    }
}

} // verus!
