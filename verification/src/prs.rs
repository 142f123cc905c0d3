//! Your open PRs: rows, their order, and their table.
//!
//! A row leads with a change marker and one mergeability glyph; then come the PR
//! and the detail that explains a blocked PR: the check semaphore and the number
//! of unresolved review threads.

use crate::model::{clone_opt, opt_string, unresolved_count, PrNode};
use crate::order::{ordered, sort_newest_first, DateKey, Dated};
use crate::render;
use crate::render::{lamp_view, marker_cell, plain_cell, pr_cell, Cell, Table};
use crate::status;
use crate::status::{Checks, Lamp, Mergeable, Status};
use crate::surface::{bolded, colored, dimmed, Style};
use crate::table::{header_view, row_view, rows_view, CellText, TableView};
use crate::text::{char_text, dec, decimal};
use std::collections::HashSet;
use vstd::prelude::*;

verus! {

broadcast use vstd::std_specs::hash::group_hash_axioms;

/// One open PR.
#[derive(Debug, PartialEq, Eq)]
pub struct PrRow {
    pub number: i64,
    pub is_draft: bool,
    pub title: String,
    pub branch: String,
    /// The leading glyph: whether this can be merged right now.
    pub mergeable: Mergeable,
    /// Coarse CI and merge state; what the bell compares.
    pub status: Option<Status>,
    /// Failing, running and passing check runs on the last commit.
    pub checks: Checks,
    /// Unresolved review threads on the fetched page.
    pub unresolved: usize,
    /// Whether the PR has more review threads than that page.
    pub unresolved_capped: bool,
    pub queue: Option<(i64, String)>,
    pub url: String,
    pub updated_at: Option<String>,
}

impl Clone for PrRow {
    fn clone(&self) -> (r: Self)
        ensures
            r == *self,
    {
        PrRow {
            number: self.number,
            is_draft: self.is_draft,
            title: self.title.clone(),
            branch: self.branch.clone(),
            mergeable: self.mergeable,
            status: self.status,
            checks: self.checks,
            unresolved: self.unresolved,
            unresolved_capped: self.unresolved_capped,
            queue: match &self.queue {
                Some(q) => Some((q.0, q.1.clone())),
                None => None,
            },
            url: self.url.clone(),
            updated_at: clone_opt(&self.updated_at),
        }
    }
}

impl Dated for PrRow {
    open spec fn key(&self) -> DateKey {
        (opt_string(self.updated_at), self.number as int)
    }

    fn moment(&self) -> (m: Option<&str>) {
        match &self.updated_at {
            Some(t) => Some(t.as_str()),
            None => None,
        }
    }

    fn id(&self) -> (n: i64) {
        self.number
    }
}

/// Whether a row shows what a PR node says.
pub open spec fn is_row_of(row: PrRow, node: PrNode) -> bool {
    let mergeable = status::mergeability(
        opt_string(node.merge_state_status),
        opt_string(node.mergeable),
    );
    &&& row.number == node.number
    &&& row.is_draft == node.is_draft
    &&& row.title == node.title
    &&& row.branch@ == (match node.head_ref_name {
        Some(b) => b@,
        None => Seq::empty(),
    })
    &&& row.mergeable == mergeable
    &&& row.status == status::derive_status(mergeable == Mergeable::Conflicts, node.semaphore())
    &&& row.checks == node.semaphore()
    &&& row.unresolved == unresolved_count(node.review_threads.nodes@)
    &&& row.unresolved_capped == (node.review_threads.total_count
        > node.review_threads.nodes@.len())
    &&& match node.merge_queue_entry {
        Some(e) => row.queue == Some((e.position, e.state)),
        None => row.queue is None,
    }
    &&& row.url == node.url
    &&& row.updated_at == node.updated_at
}

/// Whether the rows are those of the nodes, one for one.
pub open spec fn are_rows_of(rows: Seq<PrRow>, nodes: Seq<PrNode>) -> bool {
    &&& rows.len() == nodes.len()
    &&& forall|i: int| 0 <= i < rows.len() ==> is_row_of(#[trigger] rows[i], nodes[i])
}

/// An optional string as an optional slice.
fn as_opt_str(s: &Option<String>) -> (r: Option<&str>)
    ensures
        status::opt_text(r) == opt_string(*s),
{
    match s {
        Some(s) => Some(s.as_str()),
        None => None,
    }
}

/// The row of a PR node.
fn build_row(pr: PrNode) -> (row: PrRow)
    requires
        pr.countable(),
    ensures
        is_row_of(row, pr),
{
    let checks: Checks = pr.checks();
    let mergeable: Mergeable = status::mergeable_of(
        as_opt_str(&pr.merge_state_status),
        as_opt_str(&pr.mergeable),
    );
    let (unresolved, unresolved_capped): (usize, bool) = pr.review_threads.unresolved();
    let branch: String = match pr.head_ref_name {
        Some(b) => b,
        None => String::new(),
    };
    assert(pr.head_ref_name is None ==> branch@ =~= Seq::empty());
    PrRow {
        number: pr.number,
        is_draft: pr.is_draft,
        title: pr.title,
        branch,
        mergeable,
        status: status::derive_status(mergeable == Mergeable::Conflicts, checks),
        checks,
        unresolved,
        unresolved_capped,
        queue: match pr.merge_queue_entry {
            Some(e) => Some((e.position, e.state)),
            None => None,
        },
        url: pr.url,
        updated_at: pr.updated_at,
    }
}

/// Builds rows sorted by last update time, most recent first.
pub fn build_rows(nodes: Vec<PrNode>) -> (out: Vec<PrRow>)
    requires
        forall|i: int| 0 <= i < nodes@.len() ==> (#[trigger] nodes@[i]).countable(),
    ensures
        exists|rows: Seq<PrRow>| #[trigger] are_rows_of(rows, nodes@) && ordered(rows, out@),
{
    let ghost given = nodes@;
    let mut rest: Vec<PrNode> = nodes;
    let mut rows: Vec<PrRow> = Vec::new();
    assert(given.skip(0) =~= given);
    while rest.len() > 0
        invariant
            rows@.len() + rest@.len() == given.len(),
            rest@ == given.skip(rows@.len() as int),
            forall|i: int| 0 <= i < given.len() ==> (#[trigger] given[i]).countable(),
            forall|i: int| 0 <= i < rows@.len() ==> is_row_of(#[trigger] rows@[i], given[i]),
        decreases rest@.len(),
    {
        let ghost n = rows@.len() as int;
        let pr: PrNode = rest.remove(0);
        assert(pr == given[n]);
        assert(rest@ =~= given.skip(n + 1));
        rows.push(build_row(pr));
    }
    assert(are_rows_of(rows@, given));
    sort_newest_first(rows)
}

/// The rows that are not in the merge queue, in order.
pub open spec fn unqueued(rows: Seq<PrRow>) -> Seq<PrRow> {
    rows.filter(|r: PrRow| r.queue is None)
}

/// Drops PRs that are in the merge queue: the merge-queue section lists them.
pub fn without_queued(rows: Vec<PrRow>) -> (out: Vec<PrRow>)
    ensures
        out@ == unqueued(rows@),
{
    let ghost given = rows@;
    let mut rest: Vec<PrRow> = rows;
    let mut out: Vec<PrRow> = Vec::new();
    let ghost mut n: int = 0;
    proof {
        assert(given.skip(0) =~= given);
        assert(given.take(0) =~= Seq::empty());
        reveal(Seq::filter);
    }
    while rest.len() > 0
        invariant
            0 <= n <= given.len(),
            rest@ == given.skip(n),
            out@ == unqueued(given.take(n)),
        decreases rest@.len(),
    {
        let row: PrRow = rest.remove(0);
        assert(row == given[n]);
        assert(rest@ =~= given.skip(n + 1));
        proof {
            assert(given.take(n + 1).drop_last() =~= given.take(n));
            assert(given.take(n + 1).last() == row);
            reveal(Seq::filter);
        }
        if row.queue.is_none() {
            out.push(row);
        }
        proof {
            n = n + 1;
        }
    }
    assert(given.take(given.len() as int) =~= given);
    out
}

/// A PR that is not in the merge queue stays listed; one that is in it does not.
pub proof fn a_pr_is_listed_once(rows: Seq<PrRow>, row: PrRow)
    requires
        rows.contains(row),
    ensures
        unqueued(rows).contains(row) <==> row.queue is None,
{
    let keep = |r: PrRow| r.queue is None;
    let i = choose|i: int| 0 <= i < rows.len() && rows[i] == row;
    if row.queue is None {
        rows.lemma_filter_contains(keep, i);
    } else if unqueued(rows).contains(row) {
        let j = choose|j: int| 0 <= j < unqueued(rows).len() && unqueued(rows)[j] == row;
        rows.lemma_filter_pred(keep, j);
    }
}

/// The rows that are no drafts, in order.
pub open spec fn undrafted(rows: Seq<PrRow>) -> Seq<PrRow> {
    rows.filter(|r: PrRow| !r.is_draft)
}

/// Drops drafts.
pub fn without_drafts(rows: Vec<PrRow>) -> (out: Vec<PrRow>)
    ensures
        out@ == undrafted(rows@),
{
    let ghost given = rows@;
    let mut rest: Vec<PrRow> = rows;
    let mut out: Vec<PrRow> = Vec::new();
    let ghost mut n: int = 0;
    proof {
        assert(given.skip(0) =~= given);
        assert(given.take(0) =~= Seq::empty());
        reveal(Seq::filter);
    }
    while rest.len() > 0
        invariant
            0 <= n <= given.len(),
            rest@ == given.skip(n),
            out@ == undrafted(given.take(n)),
        decreases rest@.len(),
    {
        let row: PrRow = rest.remove(0);
        assert(row == given[n]);
        assert(rest@ =~= given.skip(n + 1));
        proof {
            assert(given.take(n + 1).drop_last() =~= given.take(n));
            assert(given.take(n + 1).last() == row);
            reveal(Seq::filter);
        }
        if !row.is_draft {
            out.push(row);
        }
        proof {
            n = n + 1;
        }
    }
    assert(given.take(given.len() as int) =~= given);
    out
}

/// The cell of the unresolved threads: dim where there are none, `+` where there
/// are more than could be counted.
pub open spec fn threads_cell(r: PrRow) -> CellText {
    if r.unresolved == 0 {
        CellText { text: decimal(0), style: dimmed() }
    } else {
        CellText {
            text: decimal(r.unresolved as nat) + if r.unresolved_capped {
                "+"@
            } else {
                Seq::empty()
            },
            style: bolded(colored(status::PEACH)),
        }
    }
}

/// The cells of a row.
pub open spec fn row_cells(r: PrRow, ascii: bool, highlight: Set<i64>, show_branch: bool) -> Seq<
    CellText,
> {
    seq![
        marker_cell(highlight.contains(r.number), ascii),
        CellText {
            text: seq![status::mergeable_glyph(r.mergeable, ascii)],
            style: colored(status::mergeable_style(r.mergeable).1),
        },
        pr_cell(
            r.number as int,
            r.url@,
            if r.is_draft {
                dimmed()
            } else {
                colored(status::BLUE)
            },
        ),
        plain_cell(r.title@),
    ] + (if show_branch {
        seq![CellText { text: r.branch@, style: dimmed() }]
    } else {
        Seq::empty()
    }) + seq![
        lamp_view(r.checks.fail, Lamp::Fail),
        lamp_view(r.checks.running, Lamp::Running),
        lamp_view(r.checks.pass, Lamp::Pass),
        threads_cell(r),
    ]
}

/// The header of the open PRs table.
pub open spec fn header(show_branch: bool) -> Seq<Seq<char>> {
    seq![""@, ""@, "PR"@, "TITLE"@] + (if show_branch {
        seq!["BRANCH"@]
    } else {
        Seq::empty()
    }) + seq!["FAIL"@, "RUN"@, "PASS"@, "THREADS"@]
}

/// The open PRs table.
pub open spec fn pr_table(
    rows: Seq<PrRow>,
    ascii: bool,
    highlight: Set<i64>,
    show_branch: bool,
) -> TableView {
    TableView {
        header: header(show_branch),
        rows: Seq::new(rows.len(), |i: int| row_cells(rows[i], ascii, highlight, show_branch)),
    }
}

/// The cells of one row.
#[verifier::rlimit(30)]
fn build_cells(r: &PrRow, ascii: bool, highlight: &HashSet<i64>, show_branch: bool) -> (row: Vec<
    Cell,
>)
    ensures
        row_view(row@) == row_cells(*r, ascii, highlight@, show_branch),
{
    let mark: Cell = render::change_marker(highlight.contains(&r.number), ascii);
    let glyph: String = char_text(status::mergeable_glyph(r.mergeable, ascii));
    let merge: Cell = Cell::styled(
        glyph.as_str(),
        status::fg(status::mergeable_style(r.mergeable).1),
    );
    // A draft's number is dimmed; the glyph already reports it as blocked.
    let pr_style: Style = if r.is_draft {
        Style::new().faint()
    } else {
        status::fg(status::BLUE)
    };
    let pr: Cell = Cell::pr(r.number, r.url.as_str(), pr_style);
    let threads: Cell = if r.unresolved == 0 {
        Cell::styled(dec(0).as_str(), Style::new().faint())
    } else {
        let mut text: String = dec(r.unresolved as u64);
        if r.unresolved_capped {
            text.append("+");
        } else {
            assert(text@ =~= text@ + Seq::<char>::empty());
        }
        Cell::styled(text.as_str(), status::fg(status::PEACH).bold())
    };
    let mut row: Vec<Cell> = Vec::new();
    row.push(mark);
    row.push(merge);
    row.push(pr);
    row.push(Cell::plain(r.title.as_str()));
    if show_branch {
        row.push(Cell::styled(r.branch.as_str(), Style::new().faint()));
    }
    row.push(render::lamp_cell(r.checks.fail, Lamp::Fail));
    row.push(render::lamp_cell(r.checks.running, Lamp::Running));
    row.push(render::lamp_cell(r.checks.pass, Lamp::Pass));
    row.push(threads);
    assert(row_view(row@) =~= row_cells(*r, ascii, highlight@, show_branch));
    row
}

/// The open PRs table: changed rows marked, the branch shown on request.
pub fn to_table(rows: &[PrRow], ascii: bool, highlight: &HashSet<i64>, show_branch: bool) -> (table:
    Table)
    ensures
        table@ == pr_table(rows@, ascii, highlight@, show_branch),
        table.header@.len() <= 9,
        table.rows@.len() == rows@.len(),
{
    let mut out: Vec<Vec<Cell>> = Vec::new();
    let mut i: usize = 0;
    while i < rows.len()
        invariant
            i <= rows@.len(),
            out@.len() == i,
            forall|j: int|
                0 <= j < i ==> row_view((#[trigger] out@[j])@) == row_cells(
                    rows@[j],
                    ascii,
                    highlight@,
                    show_branch,
                ),
        decreases rows@.len() - i,
    {
        out.push(build_cells(&rows[i], ascii, highlight, show_branch));
        i += 1;
    }
    let mut head: Vec<&'static str> = Vec::new();
    head.push("");
    head.push("");
    head.push("PR");
    head.push("TITLE");
    if show_branch {
        head.push("BRANCH");
    }
    head.push("FAIL");
    head.push("RUN");
    head.push("PASS");
    head.push("THREADS");
    assert(header_view(head@) =~= header(show_branch));
    assert(rows_view(out@) =~= pr_table(rows@, ascii, highlight@, show_branch).rows);
    Table { header: head, rows: out }
}

} // verus!
