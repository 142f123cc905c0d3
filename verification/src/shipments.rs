//! The shipments section: your commits in the next version and in the last
//! releases, one labelled row each.

use crate::commits::{Bucket, CommitStats, Release};
use crate::render::{
    caret_cell, dim_stroke, end_x, header_line, link_id, paint_dim, paint_header, painted_more,
    select_marker, stroke, Cell,
};
use crate::status;
use crate::surface::{
    cells, frame, linked, no_style, painted, str_width, text_width, Frame, Measure,
    Position, Stroke, Style, StyleView,
};
use crate::table::{max, min};
use crate::text::{concat, dec, decimal};
use uncurses::buffer::TextBuffer;
use vstd::prelude::*;

verus! {

/// How a count reads: with a `+` where it is only a lower bound.
pub open spec fn count_view(mine: int, capped: bool) -> Seq<char> {
    decimal(mine as nat) + if capped {
        "+"@
    } else {
        Seq::empty()
    }
}

/// How a count reads.
fn count_text(mine: usize, capped: bool) -> (r: String)
    ensures
        r@ == count_view(mine as int, capped),
{
    let mut r: String = dec(mine as u64);
    if capped {
        r.append("+");
    } else {
        assert(r@ =~= r@ + Seq::<char>::empty());
    }
    r
}

/// How the count of a bucket reads; a dash where there is none.
pub open spec fn bucket_view(b: Option<Bucket>) -> Seq<char> {
    match b {
        Some(b) => count_view(b.count.mine as int, b.count.capped),
        None => "\u{2014}"@,
    }
}

/// One row: its label, where that leads, its count, and how long ago it was
/// published.
#[verifier::ext_equal]
pub struct ShipmentView {
    pub label: Seq<char>,
    pub url: Option<Seq<char>>,
    pub value: Seq<char>,
    pub age: Option<Seq<char>>,
}

/// One row of the section.
struct Shipment {
    label: String,
    url: Option<String>,
    value: String,
    age: Option<String>,
}

impl View for Shipment {
    type V = ShipmentView;

    closed spec fn view(&self) -> ShipmentView {
        ShipmentView {
            label: self.label@,
            url: crate::model::opt_string(self.url),
            value: self.value@,
            age: crate::model::opt_string(self.age),
        }
    }
}

spec fn shipments_view(rows: Seq<Shipment>) -> Seq<ShipmentView> {
    Seq::new(rows.len(), |i: int| rows[i]@)
}

/// The row of what is not released yet.
pub open spec fn upcoming_row(stats: CommitStats) -> ShipmentView {
    ShipmentView {
        label: "upcoming"@,
        url: match stats.upcoming {
            Some(b) => Some(b.url@),
            None => None,
        },
        value: bucket_view(stats.upcoming),
        age: None,
    }
}

/// The row of a release.
pub open spec fn release_row(r: Release, age: Option<String>) -> ShipmentView {
    ShipmentView {
        label: r.tag@,
        url: Some(r.bucket.url@),
        value: bucket_view(Some(r.bucket)),
        age: crate::model::opt_string(age),
    }
}

/// Every row: what is not released yet, then the releases.
pub open spec fn shipment_rows(stats: CommitStats, ages: Seq<Option<String>>) -> Seq<ShipmentView> {
    seq![upcoming_row(stats)] + Seq::new(
        stats.releases@.len(),
        |i: int| release_row(stats.releases@[i], ages[i]),
    )
}

/// Your commits in the first `n` releases.
pub open spec fn release_total(releases: Seq<Release>, n: int) -> int
    decreases n,
{
    if n <= 0 {
        0
    } else {
        release_total(releases, n - 1) + releases[n - 1].bucket.count.mine
    }
}

/// Your commits in everything shown.
pub open spec fn total_mine(stats: CommitStats) -> int {
    release_total(stats.releases@, stats.releases@.len() as int) + match stats.upcoming {
        Some(b) => b.count.mine as int,
        None => 0,
    }
}

/// Whether any of the counts is only a lower bound.
pub open spec fn any_capped(stats: CommitStats) -> bool {
    (stats.upcoming is Some && stats.upcoming->0.count.capped) || exists|i: int|
        0 <= i < stats.releases@.len() && (#[trigger] stats.releases@[i]).bucket.count.capped
}

/// The width of the widest label among the first `n` rows.
pub open spec fn label_width(m: Measure, rows: Seq<ShipmentView>, n: int) -> int
    decreases n,
{
    if n <= 0 {
        0
    } else {
        max(label_width(m, rows, n - 1), text_width(m, rows[n - 1].label) as int)
    }
}

/// The width of the widest count among the first `n` rows.
pub open spec fn value_width(m: Measure, rows: Seq<ShipmentView>, n: int) -> int
    decreases n,
{
    if n <= 0 {
        0
    } else {
        max(value_width(m, rows, n - 1), text_width(m, rows[n - 1].value) as int)
    }
}

/// Whether the cursor is on row `i`. It counts only the rows that lead
/// somewhere: what is not released yet is none of them where there is nothing.
pub open spec fn is_selected(stats: CommitStats, selected: Option<usize>, i: int) -> bool {
    match selected {
        Some(k) => if stats.upcoming is Some {
            i == k
        } else {
            i == k + 1
        },
        None => false,
    }
}

/// The style of a label: what is not released yet is set apart in italics, and a
/// label that leads somewhere is a link.
pub open spec fn label_style(row: ShipmentView, i: int, ascii: bool) -> StyleView {
    let base = if i == 0 && !ascii {
        StyleView { attrs: 4, ..no_style() }
    } else {
        no_style()
    };
    match row.url {
        Some(url) => linked(base, url, link_id(url)),
        None => base,
    }
}

/// The strokes of row `i` at surface row `y`: the caret where the cursor is on
/// it, the label right-aligned, the count, and the age in a trailing column.
pub open spec fn shipment_strokes(
    f: Frame,
    row: ShipmentView,
    i: int,
    selected: bool,
    label_w: int,
    value_w: int,
    ascii: bool,
    y: int,
) -> Seq<Stroke> {
    let caret = if selected {
        seq![Stroke { x: 0, y, text: caret_cell(ascii).text, style: caret_cell(ascii).style }]
    } else {
        Seq::empty()
    };
    let x = (2 + label_w - text_width(f.measure, row.label)) % 0x1_0000;
    let label = seq![Stroke { x, y, text: row.label, style: label_style(row, i, ascii) }];
    let p = end_x(f, x, y, row.label);
    let text = ": "@ + row.value;
    let value = seq![Stroke { x: p, y, text, style: no_style() }];
    let past = end_x(f, p, y, text) + (value_w - text_width(f.measure, row.value) + 3);
    let age = match row.age {
        Some(t) => seq![dim_stroke(t, min(past, 0xffff), y)],
        None => Seq::empty(),
    };
    caret + label + value + age
}

/// The strokes of the first `n` rows, the first of them at surface row `y`.
pub open spec fn shipments_strokes(
    f: Frame,
    stats: CommitStats,
    rows: Seq<ShipmentView>,
    selected: Option<usize>,
    ascii: bool,
    y: int,
    n: int,
) -> Seq<Stroke>
    decreases n,
{
    if n <= 0 {
        Seq::empty()
    } else {
        shipments_strokes(f, stats, rows, selected, ascii, y, n - 1) + shipment_strokes(
            f,
            rows[n - 1],
            n - 1,
            is_selected(stats, selected, n - 1),
            label_width(f.measure, rows, rows.len() as int),
            value_width(f.measure, rows, rows.len() as int),
            ascii,
            y + n - 1,
        )
    }
}

/// The strokes of the shipments section at row `top`.
pub open spec fn commits_strokes(
    f: Frame,
    stats: CommitStats,
    ages: Seq<Option<String>>,
    selected: Option<usize>,
    ascii: bool,
    top: int,
) -> Seq<Stroke> {
    if stats.available {
        let rows = shipment_rows(stats, ages);
        header_line(
            f,
            "My Shipments"@,
            status::TEAL,
            Some(count_view(total_mine(stats), any_capped(stats))),
            None,
            ascii,
            top,
        ) + shipments_strokes(f, stats, rows, selected, ascii, top + 1, rows.len() as int)
    } else {
        seq![dim_stroke("Commit stats unavailable."@, 0, top)]
    }
}

/// The rows of the shipments section.
pub open spec fn commits_height(stats: CommitStats) -> int {
    if stats.available {
        2 + stats.releases@.len() as int
    } else {
        1
    }
}

/// Your commits in everything shown, and whether that is only a lower bound.
fn totals(stats: &CommitStats) -> (r: (usize, bool))
    requires
        total_mine(*stats) <= usize::MAX,
    ensures
        r.0 == total_mine(*stats),
        r.1 == any_capped(*stats),
{
    let mut n: usize = match &stats.upcoming {
        Some(b) => b.count.mine,
        None => 0,
    };
    let mut capped: bool = match &stats.upcoming {
        Some(b) => b.count.capped,
        None => false,
    };
    let ghost first = n as int;
    let ghost first_capped = capped;
    let mut i: usize = 0;
    while i < stats.releases.len()
        invariant
            i <= stats.releases@.len(),
            first + release_total(stats.releases@, stats.releases@.len() as int) <= usize::MAX,
            n == first + release_total(stats.releases@, i as int),
            capped == (first_capped || exists|j: int|
                0 <= j < i && (#[trigger] stats.releases@[j]).bucket.count.capped),
        decreases stats.releases@.len() - i,
    {
        proof {
            totals_grow(stats.releases@, i + 1, stats.releases@.len() as int);
        }
        n = n + stats.releases[i].bucket.count.mine;
        if stats.releases[i].bucket.count.capped {
            capped = true;
        }
        i += 1;
    }
    (n, capped)
}

proof fn totals_grow(releases: Seq<Release>, m: int, n: int)
    requires
        0 <= m <= n <= releases.len(),
    ensures
        release_total(releases, m) <= release_total(releases, n),
    decreases n - m,
{
    if m < n {
        totals_grow(releases, m, n - 1);
    }
}

/// Every row of the section.
fn build_rows(stats: &CommitStats, ages: &Vec<Option<String>>) -> (rows: Vec<Shipment>)
    requires
        ages@.len() == stats.releases@.len(),
    ensures
        shipments_view(rows@) == shipment_rows(*stats, ages@),
{
    let mut rows: Vec<Shipment> = Vec::new();
    rows.push(
        Shipment {
            label: "upcoming".to_owned(),
            url: match &stats.upcoming {
                Some(b) => Some(b.url.clone()),
                None => None,
            },
            value: match &stats.upcoming {
                Some(b) => count_text(b.count.mine, b.count.capped),
                None => "\u{2014}".to_owned(),
            },
            age: None,
        },
    );
    let ghost all = shipment_rows(*stats, ages@);
    let mut i: usize = 0;
    while i < stats.releases.len()
        invariant
            i <= stats.releases@.len() == ages@.len(),
            rows@.len() == i + 1,
            all == shipment_rows(*stats, ages@),
            forall|j: int| 0 <= j < rows@.len() ==> (#[trigger] rows@[j])@ == all[j],
        decreases stats.releases@.len() - i,
    {
        let r: &Release = &stats.releases[i];
        rows.push(
            Shipment {
                label: r.tag.clone(),
                url: Some(r.bucket.url.clone()),
                value: count_text(r.bucket.count.mine, r.bucket.count.capped),
                age: crate::model::clone_opt(&ages[i]),
            },
        );
        i += 1;
    }
    assert(shipments_view(rows@) =~= all);
    rows
}

/// The widths of the widest label and of the widest count.
fn column_widths(s: &TextBuffer, rows: &Vec<Shipment>) -> (r: (usize, usize))
    ensures
        r.0 == label_width(
            frame(*s).measure,
            shipments_view(rows@),
            rows@.len() as int,
        ),
        r.1 == value_width(
            frame(*s).measure,
            shipments_view(rows@),
            rows@.len() as int,
        ),
        r.0 <= 0xffff,
        r.1 <= 0xffff,
        forall|i: int|
            0 <= i < rows@.len() ==> text_width(
                frame(*s).measure,
                (#[trigger] rows@[i])@.label,
            ) <= r.0 && text_width(frame(*s).measure, rows@[i]@.value) <= r.1,
{
    let ghost m = frame(*s).measure;
    let ghost vs = shipments_view(rows@);
    let mut label_w: usize = 0;
    let mut value_w: usize = 0;
    let mut i: usize = 0;
    while i < rows.len()
        invariant
            i <= rows@.len(),
            m == frame(*s).measure,
            vs == shipments_view(rows@),
            label_w == label_width(m, vs, i as int),
            value_w == value_width(m, vs, i as int),
            label_w <= 0xffff,
            value_w <= 0xffff,
            forall|j: int|
                0 <= j < i ==> text_width(m, (#[trigger] rows@[j])@.label) <= label_w
                    && text_width(m, rows@[j]@.value) <= value_w,
        decreases rows@.len() - i,
    {
        assert(vs[i as int] == rows@[i as int]@);
        let lw: usize = str_width(s, rows[i].label.as_str()) as usize;
        let vw: usize = str_width(s, rows[i].value.as_str()) as usize;
        if label_w < lw {
            label_w = lw;
        }
        if value_w < vw {
            value_w = vw;
        }
        i += 1;
    }
    (label_w, value_w)
}

/// Paints one row at surface row `y`.
fn paint_shipment(
    s: &mut TextBuffer,
    row: &Shipment,
    first: bool,
    selected: bool,
    label_w: usize,
    value_w: usize,
    ascii: bool,
    y: u16,
    i: Ghost<int>,
)
    requires
        first == (i@ == 0),
        text_width(frame(*old(s)).measure, row@.label) <= label_w <= 0xffff,
        text_width(frame(*old(s)).measure, row@.value) <= value_w <= 0xffff,
    ensures
        frame(*final(s)) == frame(*old(s)),
        cells(*final(s)) == painted(
            cells(*old(s)),
            frame(*old(s)),
            shipment_strokes(
                frame(*old(s)),
                row@,
                i@,
                selected,
                label_w as int,
                value_w as int,
                ascii,
                y as int,
            ),
        ),
{
    let ghost g = cells(*s);
    let ghost f = frame(*s);
    let style: Style = if first && !ascii {
        Style::new().italic()
    } else {
        Style::new()
    };
    let cell: Cell = match &row.url {
        Some(url) => Cell::link_styled(row.label.as_str(), url.as_str(), style),
        None => Cell::styled(row.label.as_str(), style),
    };
    let ghost mut done: Seq<Stroke> = Seq::empty();
    // A leading gutter of two columns holds the caret on the selected row.
    if selected {
        let caret: Cell = select_marker(ascii);
        stroke(s, 0, y, caret.text.as_str(), &caret.style);
        proof {
            done = seq![Stroke { x: 0, y: y as int, text: caret@.text, style: caret@.style }];
        }
    }
    let lw: usize = str_width(s, row.label.as_str()) as usize;
    let x: u16 = ((2 + label_w - lw) % 0x1_0000) as u16;
    let p: Position = stroke(s, x, y, cell.text.as_str(), &cell.style);
    proof {
        let label = seq![
            Stroke { x: x as int, y: y as int, text: row@.label, style: cell.style@ },
        ];
        painted_more(g, f, done, label);
        done = done + label;
    }
    let text: String = concat(": ", row.value.as_str());
    let plain: Style = Style::new();
    let q: Position = stroke(s, p.x, y, text.as_str(), &plain);
    proof {
        let value = seq![Stroke { x: p.x as int, y: y as int, text: text@, style: plain@ }];
        painted_more(g, f, done, value);
        done = done + value;
    }
    match &row.age {
        Some(age) => {
            let vw: usize = str_width(s, row.value.as_str()) as usize;
            let past: usize = q.x as usize + (value_w - vw + 3);
            let x: u16 = if past < 0xffff {
                past as u16
            } else {
                0xffff
            };
            let dim: Style = Style::new().faint();
            stroke(s, x, y, age.as_str(), &dim);
            proof {
                let trail = seq![dim_stroke(age@, x as int, y as int)];
                painted_more(g, f, done, trail);
                done = done + trail;
            }
        },
        None => {},
    }
    assert(done =~= shipment_strokes(
        f,
        row@,
        i@,
        selected,
        label_w as int,
        value_w as int,
        ascii,
        y as int,
    ));
}

/// Paints the shipments section at row `top`: your commit counts for the next
/// version and the last releases, one labelled row each. `ages` says how long
/// ago each release was published. Returns the next row.
pub fn paint_commits(
    s: &mut TextBuffer,
    stats: &CommitStats,
    ages: &Vec<Option<String>>,
    selected: Option<usize>,
    ascii: bool,
    top: u16,
) -> (next: u16)
    requires
        ages@.len() == stats.releases@.len(),
        total_mine(*stats) <= usize::MAX,
        top + commits_height(*stats) <= u16::MAX,
        frame(*old(s)).width + 4 <= u16::MAX,
    ensures
        frame(*final(s)) == frame(*old(s)),
        cells(*final(s)) == painted(
            cells(*old(s)),
            frame(*old(s)),
            commits_strokes(frame(*old(s)), *stats, ages@, selected, ascii, top as int),
        ),
        next == top + commits_height(*stats),
{
    if !stats.available {
        return paint_dim(s, "Commit stats unavailable.", top);
    }
    let ghost g = cells(*s);
    let ghost f = frame(*s);
    let (total, capped): (usize, bool) = totals(stats);
    let total_text: String = count_text(total, capped);
    let ghost head = header_line(
        f,
        "My Shipments"@,
        status::TEAL,
        Some(count_view(total_mine(*stats), any_capped(*stats))),
        None,
        ascii,
        top as int,
    );
    let y: u16 = paint_header(
        s,
        "My Shipments",
        status::TEAL,
        Some(total_text.as_str()),
        None,
        ascii,
        top,
    );
    let rows: Vec<Shipment> = build_rows(stats, ages);
    let ghost vs = shipment_rows(*stats, ages@);
    let (label_w, value_w): (usize, usize) = column_widths(s, &rows);
    let mut i: usize = 0;
    assert(head + shipments_strokes(f, *stats, vs, selected, ascii, top + 1, 0) =~= head);
    assert(rows@.len() == shipments_view(rows@).len());
    while i < rows.len()
        invariant
            i <= rows@.len(),
            rows@.len() == 1 + stats.releases@.len(),
            top + 2 + stats.releases@.len() <= u16::MAX,
            y == top + 1,
            vs == shipments_view(rows@),
            f == frame(*s),
            label_w == label_width(f.measure, vs, vs.len() as int),
            value_w == value_width(f.measure, vs, vs.len() as int),
            label_w <= 0xffff,
            value_w <= 0xffff,
            forall|j: int|
                0 <= j < rows@.len() ==> text_width(f.measure, (#[trigger] rows@[j])@.label)
                    <= label_w && text_width(f.measure, rows@[j]@.value) <= value_w,
            cells(*s) == painted(
                g,
                f,
                head + shipments_strokes(f, *stats, vs, selected, ascii, top + 1, i as int),
            ),
        decreases rows@.len() - i,
    {
        let ghost before = shipments_strokes(f, *stats, vs, selected, ascii, top + 1, i as int);
        let on: bool = match selected {
            Some(k) => if stats.upcoming.is_some() {
                i == k
            } else {
                i >= 1 && i - 1 == k
            },
            None => false,
        };
        assert(vs[i as int] == rows@[i as int]@);
        paint_shipment(
            s,
            &rows[i],
            i == 0,
            on,
            label_w,
            value_w,
            ascii,
            y + i as u16,
            Ghost(i as int),
        );
        proof {
            let more = shipment_strokes(
                f,
                vs[i as int],
                i as int,
                on,
                label_w as int,
                value_w as int,
                ascii,
                y + i,
            );
            painted_more(g, f, head + before, more);
            assert((head + before) + more =~= head + (before + more));
        }
        i += 1;
    }
    y + rows.len() as u16
}

/// The labels line up at the right: each starts past the gutter of the caret, and
/// where all of them end there is one column.
pub proof fn labels_end_together(m: Measure, rows: Seq<ShipmentView>, i: int, n: int)
    requires
        0 <= i < n <= rows.len(),
    ensures
        ({
            let start = 2 + label_width(m, rows, n) - text_width(m, rows[i].label);
            &&& 2 <= start
            &&& start + text_width(m, rows[i].label) == 2 + label_width(m, rows, n)
        }),
    decreases n,
{
    if i < n - 1 {
        labels_end_together(m, rows, i, n - 1);
    }
}

/// The total counts every commit that is shown once: one more release adds its
/// own commits, what is not released yet adds its own, and without either there
/// are none.
pub proof fn every_shipment_is_counted(a: CommitStats, b: CommitStats, c: CommitStats, r: Release)
    requires
        b.releases@ == a.releases@.push(r),
        b.upcoming == a.upcoming,
        c.releases@ == a.releases@,
        a.upcoming is None,
        c.upcoming is Some,
    ensures
        total_mine(b) == total_mine(a) + r.bucket.count.mine,
        total_mine(c) == total_mine(a) + c.upcoming->0.count.mine,
        a.releases@.len() == 0 ==> total_mine(a) == 0,
        any_capped(b) <==> any_capped(a) || r.bucket.count.capped,
        any_capped(c) <==> any_capped(a) || c.upcoming->0.count.capped,
        a.releases@.len() == 0 ==> !any_capped(a),
{
    let n = a.releases@.len() as int;
    the_same_releases_total_the_same(a.releases@, b.releases@, n);
    assert(b.releases@[n] == r);
    assert forall|i: int| 0 <= i < n implies #[trigger] b.releases@[i] == a.releases@[i] by {}
    if any_capped(a) {
        let i = choose|i: int|
            0 <= i < a.releases@.len() && (#[trigger] a.releases@[i]).bucket.count.capped;
        assert(b.releases@[i].bucket.count.capped);
        assert(c.releases@[i].bucket.count.capped);
    }
    if any_capped(b) && !r.bucket.count.capped {
        let i = choose|i: int|
            0 <= i < b.releases@.len() && (#[trigger] b.releases@[i]).bucket.count.capped;
        assert(a.releases@[i].bucket.count.capped);
    }
    if any_capped(c) && !c.upcoming->0.count.capped {
        let i = choose|i: int|
            0 <= i < c.releases@.len() && (#[trigger] c.releases@[i]).bucket.count.capped;
        assert(a.releases@[i].bucket.count.capped);
    }
}

proof fn the_same_releases_total_the_same(a: Seq<Release>, b: Seq<Release>, n: int)
    requires
        0 <= n <= a.len(),
        n <= b.len(),
        forall|i: int| 0 <= i < n ==> #[trigger] a[i] == b[i],
    ensures
        release_total(a, n) == release_total(b, n),
    decreases n,
{
    if n > 0 {
        the_same_releases_total_the_same(a, b, n - 1);
        assert(a[n - 1] == b[n - 1]);
    }
}

/// A count reads as its number, with a `+` behind it just where it is only a
/// lower bound, and a missing one as a dash.
pub proof fn a_count_says_whether_it_is_whole(b: Bucket)
    ensures
        bucket_view(Some(b)) == (if b.count.capped {
            decimal(b.count.mine as nat).push('+')
        } else {
            decimal(b.count.mine as nat)
        }),
        bucket_view(None) == seq!['\u{2014}'],
{
    reveal_strlit("+");
    reveal_strlit("\u{2014}");
    let d = decimal(b.count.mine as nat);
    assert(d + "+"@ =~= d.push('+'));
    assert(d + Seq::<char>::empty() =~= d);
    assert("\u{2014}"@ =~= seq!['\u{2014}']);
}

/// The shipments are what is not released yet and below it each release in order,
/// each with its label, its page and its count.
pub proof fn every_shipment_has_its_line(stats: CommitStats, ages: Seq<Option<String>>, i: int)
    requires
        0 <= i < stats.releases@.len(),
    ensures
        ({
            let rows = shipment_rows(stats, ages);
            let r = stats.releases@[i];
            &&& rows.len() == stats.releases@.len() + 1
            &&& rows[0].label == "upcoming"@
            &&& rows[0].age is None
            &&& stats.upcoming matches Some(b) ==> rows[0].url == Some(b.url@) && rows[0].value
                == bucket_view(Some(b))
            &&& stats.upcoming is None ==> rows[0].url is None && rows[0].value == bucket_view(None)
            &&& rows[i + 1].label == r.tag@
            &&& rows[i + 1].url == Some(r.bucket.url@)
            &&& rows[i + 1].value == bucket_view(Some(r.bucket))
            &&& rows[i + 1].age == (match ages[i] {
                Some(t) => Some(t@),
                None => None,
            })
        }),
{
}

/// The width of a column is that of its widest text: none is wider, and one is as
/// wide where there is any.
pub proof fn a_column_is_as_wide_as_its_widest(m: Measure, rows: Seq<ShipmentView>, n: int)
    requires
        0 <= n <= rows.len(),
    ensures
        forall|i: int|
            0 <= i < n ==> text_width(m, (#[trigger] rows[i]).label) <= label_width(m, rows, n)
                && text_width(m, rows[i].value) <= value_width(m, rows, n),
        n > 0 ==> exists|i: int|
            0 <= i < n && text_width(m, (#[trigger] rows[i]).label) == label_width(m, rows, n),
        n > 0 ==> exists|i: int|
            0 <= i < n && text_width(m, (#[trigger] rows[i]).value) == value_width(m, rows, n),
    decreases n,
{
    if n > 0 {
        a_column_is_as_wide_as_its_widest(m, rows, n - 1);
        if n == 1 {
            assert(label_width(m, rows, 0) == 0 && value_width(m, rows, 0) == 0);
        }
        let last = rows[n - 1];
        if label_width(m, rows, n) == text_width(m, last.label) {
            assert(text_width(m, rows[n - 1].label) == label_width(m, rows, n));
        } else {
            let i = choose|i: int|
                0 <= i < n - 1 && text_width(m, (#[trigger] rows[i]).label) == label_width(
                    m,
                    rows,
                    n - 1,
                );
            assert(text_width(m, rows[i].label) == label_width(m, rows, n));
        }
        if value_width(m, rows, n) == text_width(m, last.value) {
            assert(text_width(m, rows[n - 1].value) == value_width(m, rows, n));
        } else {
            let i = choose|i: int|
                0 <= i < n - 1 && text_width(m, (#[trigger] rows[i]).value) == value_width(
                    m,
                    rows,
                    n - 1,
                );
            assert(text_width(m, rows[i].value) == value_width(m, rows, n));
        }
    }
}

} // verus!
