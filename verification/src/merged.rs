//! Recently merged PRs: rows, their order, and their table. Every row is merged
//! by definition, so it carries no glyph.

use crate::commits::{ReleaseMap, ReleaseRef};
use crate::model::{clone_opt, opt_string, MergedNode};
use crate::order::{
    order_keeps_the_number, order_shows_the_same, ordered, shown, sort_newest_first, DateKey, Dated,
};
use crate::render;
use crate::render::{link_id, marker_cell, plain_cell, pr_cell, Cell, Table};
use crate::status;
use crate::surface::{colored, dimmed, linked, Style};
use crate::table::{header_view, min, row_view, rows_view, CellText, TableView};
use std::collections::HashSet;
use vstd::prelude::*;

verus! {

broadcast use vstd::std_specs::hash::group_hash_axioms;

/// One merged PR.
#[derive(Debug, PartialEq, Eq)]
pub struct MergedRow {
    pub number: i64,
    pub title: String,
    pub branch: String,
    pub url: String,
    /// The release that shipped this PR, once one did.
    pub release: Option<ReleaseRef>,
    pub merged_at: Option<String>,
}

impl Clone for MergedRow {
    fn clone(&self) -> (r: Self)
        ensures
            r == *self,
    {
        MergedRow {
            number: self.number,
            title: self.title.clone(),
            branch: self.branch.clone(),
            url: self.url.clone(),
            release: match &self.release {
                Some(r) => Some(r.clone()),
                None => None,
            },
            merged_at: clone_opt(&self.merged_at),
        }
    }
}

/// What a merged PR row holds.
#[verifier::ext_equal]
pub struct MergedView {
    pub number: i64,
    pub title: Seq<char>,
    pub branch: Seq<char>,
    pub url: Seq<char>,
    /// The tag and the URL of the release.
    pub release: Option<(Seq<char>, Seq<char>)>,
    pub merged_at: Option<Seq<char>>,
}

impl View for MergedRow {
    type V = MergedView;

    open spec fn view(&self) -> MergedView {
        MergedView {
            number: self.number,
            title: self.title@,
            branch: self.branch@,
            url: self.url@,
            release: match self.release {
                Some(r) => Some((r.tag@, r.url@)),
                None => None,
            },
            merged_at: opt_string(self.merged_at),
        }
    }
}

/// What merged PR rows hold, in order.
pub open spec fn held(rows: Seq<MergedRow>) -> Seq<MergedView> {
    Seq::new(rows.len(), |i: int| rows[i]@)
}

impl Dated for MergedRow {
    open spec fn key(&self) -> DateKey {
        (opt_string(self.merged_at), self.number as int)
    }

    fn moment(&self) -> (m: Option<&str>) {
        match &self.merged_at {
            Some(t) => Some(t.as_str()),
            None => None,
        }
    }

    fn id(&self) -> (n: i64) {
        self.number
    }
}

/// Whether a row shows what a merged PR node and the releases say.
pub open spec fn is_row_of(
    row: MergedRow,
    node: MergedNode,
    releases: Map<i64, ReleaseRef>,
) -> bool {
    &&& row.number == node.number
    &&& row.title == node.title
    &&& row.branch@ == (match node.head_ref_name {
        Some(b) => b@,
        None => Seq::empty(),
    })
    &&& row.url == node.url
    &&& row.release == (if releases.contains_key(node.number) {
        Some(releases[node.number])
    } else {
        None
    })
    &&& row.merged_at == node.merged_at
}

/// Whether the rows are those of the nodes, one for one.
pub open spec fn are_rows_of(
    rows: Seq<MergedRow>,
    nodes: Seq<MergedNode>,
    releases: Map<i64, ReleaseRef>,
) -> bool {
    &&& rows.len() == nodes.len()
    &&& forall|i: int| 0 <= i < rows.len() ==> is_row_of(#[trigger] rows[i], nodes[i], releases)
}

/// Whether `out` is the newest `limit` of the rows.
pub open spec fn newest_of(rows: Seq<MergedRow>, limit: int, out: Seq<MergedRow>) -> bool {
    exists|all: Seq<MergedRow>| #[trigger]
        ordered(rows, all) && out == all.take(min(limit, all.len() as int))
}

/// Whether `out` lists the newest `limit` of the nodes.
pub open spec fn is_listing(
    nodes: Seq<MergedNode>,
    releases: Map<i64, ReleaseRef>,
    limit: int,
    out: Seq<MergedRow>,
) -> bool {
    exists|rows: Seq<MergedRow>| #[trigger]
        are_rows_of(rows, nodes, releases) && newest_of(rows, limit, out)
}

/// A larger limit only adds older rows at the end: the rows for a limit are the
/// first ones for any larger limit. A limit of none lists none.
pub proof fn a_smaller_limit_lists_the_first_rows(
    nodes: Seq<MergedNode>,
    releases: Map<i64, ReleaseRef>,
    few: int,
    many: int,
    a: Seq<MergedRow>,
    b: Seq<MergedRow>,
)
    requires
        0 <= few <= many,
        is_listing(nodes, releases, few, a),
        is_listing(nodes, releases, many, b),
    ensures
        a.len() == min(few, nodes.len() as int),
        b.len() == min(many, nodes.len() as int),
        held(a) == held(b).take(a.len() as int),
{
    let ra = choose|rows: Seq<MergedRow>| #[trigger]
        are_rows_of(rows, nodes, releases) && newest_of(rows, few, a);
    let rb = choose|rows: Seq<MergedRow>| #[trigger]
        are_rows_of(rows, nodes, releases) && newest_of(rows, many, b);
    let all_a = choose|all: Seq<MergedRow>| #[trigger]
        ordered(ra, all) && a == all.take(min(few, all.len() as int));
    let all_b = choose|all: Seq<MergedRow>| #[trigger]
        ordered(rb, all) && b == all.take(min(many, all.len() as int));
    let show = |r: MergedRow| r@;
    let key_of = |v: MergedView| (v.merged_at, v.number as int);
    assert forall|i: int| 0 <= i < ra.len() implies show(#[trigger] ra[i]) == show(rb[i]) by {
        assert(is_row_of(ra[i], nodes[i], releases));
        assert(is_row_of(rb[i], nodes[i], releases));
    }
    assert(shown(ra, show) =~= shown(rb, show));
    order_shows_the_same(ra, rb, all_a, all_b, show, key_of);
    order_keeps_the_number(ra, all_a);
    order_keeps_the_number(rb, all_b);
    assert forall|i: int| 0 <= i < a.len() implies #[trigger] held(a)[i] == held(b)[i] by {
        assert(shown(all_a, show)[i] == show(all_a[i]));
        assert(shown(all_b, show)[i] == show(all_b[i]));
    }
    assert(held(a) =~= held(b).take(a.len() as int));
}

/// The row of a merged PR node.
fn build_row(n: MergedNode, releases: &ReleaseMap) -> (row: MergedRow)
    ensures
        is_row_of(row, n, releases@),
{
    let release: Option<ReleaseRef> = match releases.get(&n.number) {
        Some(r) => Some(r.clone()),
        None => None,
    };
    let branch: String = match n.head_ref_name {
        Some(b) => b,
        None => String::new(),
    };
    assert(n.head_ref_name is None ==> branch@ =~= Seq::empty());
    MergedRow {
        number: n.number,
        title: n.title,
        branch,
        url: n.url,
        release,
        merged_at: n.merged_at,
    }
}

/// Builds rows sorted by merge time, most recent first, capped at `limit`.
/// `releases` maps a PR number to the release that shipped it.
pub fn build_rows(nodes: Vec<MergedNode>, limit: usize, releases: &ReleaseMap) -> (out: Vec<
    MergedRow,
>)
    ensures
        is_listing(nodes@, releases@, limit as int, out@),
{
    let ghost given = nodes@;
    let mut rest: Vec<MergedNode> = nodes;
    let mut rows: Vec<MergedRow> = Vec::new();
    assert(given.skip(0) =~= given);
    while rest.len() > 0
        invariant
            rows@.len() + rest@.len() == given.len(),
            rest@ == given.skip(rows@.len() as int),
            forall|i: int|
                0 <= i < rows@.len() ==> is_row_of(#[trigger] rows@[i], given[i], releases@),
        decreases rest@.len(),
    {
        let ghost n = rows@.len() as int;
        let node: MergedNode = rest.remove(0);
        assert(node == given[n]);
        assert(rest@ =~= given.skip(n + 1));
        rows.push(build_row(node, releases));
    }
    let ghost built = rows@;
    assert(are_rows_of(built, given, releases@));
    let mut out: Vec<MergedRow> = sort_newest_first(rows);
    let ghost all = out@;
    if limit < out.len() {
        out.truncate(limit);
        assert(out@ =~= all.take(limit as int));
    } else {
        assert(out@ =~= all.take(all.len() as int));
    }
    assert(ordered(built, all));
    assert(newest_of(built, limit as int, out@));
    out
}

/// The release cell: a link to the release page, or a dash before there is one.
pub open spec fn release_cell(release: Option<ReleaseRef>) -> CellText {
    match release {
        Some(r) => CellText { text: r.tag@, style: linked(dimmed(), r.url@, link_id(r.url@)) },
        None => CellText { text: "\u{2014}"@, style: dimmed() },
    }
}

/// The cells of a row.
pub open spec fn row_cells(
    r: MergedRow,
    ascii: bool,
    highlight: Set<i64>,
    show_branch: bool,
    age: Seq<char>,
) -> Seq<CellText> {
    seq![
        marker_cell(highlight.contains(r.number), ascii),
        plain_cell(" "@),
        pr_cell(r.number as int, r.url@, colored(status::BLUE)),
        plain_cell(r.title@),
    ] + (if show_branch {
        seq![CellText { text: r.branch@, style: dimmed() }]
    } else {
        Seq::empty()
    }) + seq![release_cell(r.release), CellText { text: age, style: dimmed() }]
}

/// The header of the merged PRs table.
pub open spec fn header(show_branch: bool) -> Seq<Seq<char>> {
    seq![""@, ""@, "PR"@, "TITLE"@] + (if show_branch {
        seq!["BRANCH"@]
    } else {
        Seq::empty()
    }) + seq!["RELEASE"@, "MERGED"@]
}

/// The merged PRs table.
pub open spec fn merged_table(
    rows: Seq<MergedRow>,
    ascii: bool,
    highlight: Set<i64>,
    show_branch: bool,
    ages: Seq<String>,
) -> TableView {
    TableView {
        header: header(show_branch),
        rows: Seq::new(
            rows.len(),
            |i: int| row_cells(rows[i], ascii, highlight, show_branch, ages[i]@),
        ),
    }
}

/// The cells of one row.
fn build_cells(
    r: &MergedRow,
    ascii: bool,
    highlight: &HashSet<i64>,
    show_branch: bool,
    age: &str,
) -> (row: Vec<Cell>)
    ensures
        row_view(row@) == row_cells(*r, ascii, highlight@, show_branch, age@),
{
    // The release tag links to its release page; an unshipped PR shows a dash.
    let release: Cell = match &r.release {
        Some(rr) => Cell::link(rr.tag.as_str(), rr.url.as_str()),
        None => Cell::styled("\u{2014}", Style::new().faint()),
    };
    let mut row: Vec<Cell> = Vec::new();
    row.push(render::change_marker(highlight.contains(&r.number), ascii));
    // A blank glyph cell, so the PR column starts where the open PRs' does.
    row.push(Cell::plain(" "));
    row.push(Cell::pr(r.number, r.url.as_str(), status::fg(status::BLUE)));
    row.push(Cell::plain(r.title.as_str()));
    if show_branch {
        row.push(Cell::styled(r.branch.as_str(), Style::new().faint()));
    }
    row.push(release);
    row.push(Cell::styled(age, Style::new().faint()));
    assert(row_view(row@) =~= row_cells(*r, ascii, highlight@, show_branch, age@));
    row
}

/// The merged PRs table: changed rows marked, the branch shown on request.
/// `ages` says how long ago each of the rows merged.
pub fn to_table(
    rows: &[MergedRow],
    ascii: bool,
    highlight: &HashSet<i64>,
    show_branch: bool,
    ages: &[String],
) -> (table: Table)
    requires
        ages@.len() == rows@.len(),
    ensures
        table@ == merged_table(rows@, ascii, highlight@, show_branch, ages@),
        table.header@.len() <= 7,
        table.rows@.len() == rows@.len(),
{
    let mut out: Vec<Vec<Cell>> = Vec::new();
    let mut i: usize = 0;
    while i < rows.len()
        invariant
            i <= rows@.len() == ages@.len(),
            out@.len() == i,
            forall|j: int|
                0 <= j < i ==> row_view((#[trigger] out@[j])@) == row_cells(
                    rows@[j],
                    ascii,
                    highlight@,
                    show_branch,
                    ages@[j]@,
                ),
        decreases rows@.len() - i,
    {
        out.push(build_cells(&rows[i], ascii, highlight, show_branch, ages[i].as_str()));
        i += 1;
    }
    let mut head: Vec<&'static str> = Vec::new();
    head.push("");
    head.push("");
    head.push("PR");
    head.push("TITLE");
    if show_branch {
        head.push("BRANCH");
    }
    head.push("RELEASE");
    head.push("MERGED");
    assert(header_view(head@) =~= header(show_branch));
    assert(rows_view(out@) =~= merged_table(
        rows@,
        ascii,
        highlight@,
        show_branch,
        ages@,
    ).rows);
    Table { header: head, rows: out }
}

} // verus!
