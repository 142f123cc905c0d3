//! The merge queue: rows, their order, and their table. An entry shows the check
//! semaphore of its speculative merge commit, next to how long it has been queued
//! and how long that build has been running.

use crate::model::{clone_opt, earliest, opt_string, Login, QueueEntryNode};
use crate::order::{ordered, sort_newest_first, DateKey, Dated};
use crate::render;
use crate::render::{lamp_view, plain_cell, pr_cell, Cell, Table};
use crate::status;
use crate::status::{Checks, Lamp};
use crate::surface::{colored, dimmed, Color, Style};
use crate::table::{header_view, row_view, rows_view, CellText, TableView};
use crate::text::{dec_int, decimal_int, same};
use vstd::prelude::*;

verus! {

/// One entry of the merge queue.
#[derive(Debug, PartialEq, Eq)]
pub struct QueueRow {
    pub position: i64,
    pub number: i64,
    pub author: String,
    pub title: String,
    pub branch: String,
    pub url: String,
    pub mine: bool,
    pub enqueued_at: Option<String>,
    pub build_started_at: Option<String>,
    pub checks: Checks,
}

impl Clone for QueueRow {
    fn clone(&self) -> (r: Self)
        ensures
            r == *self,
    {
        QueueRow {
            position: self.position,
            number: self.number,
            author: self.author.clone(),
            title: self.title.clone(),
            branch: self.branch.clone(),
            url: self.url.clone(),
            mine: self.mine,
            enqueued_at: clone_opt(&self.enqueued_at),
            build_started_at: clone_opt(&self.build_started_at),
            checks: self.checks,
        }
    }
}

/// The row at the front of the queue comes first: the position takes the place
/// of a moment, counted down.
impl Dated for QueueRow {
    open spec fn key(&self) -> DateKey {
        (None, -1 - self.position)
    }

    fn moment(&self) -> (m: Option<&str>) {
        None
    }

    fn id(&self) -> (n: i64) {
        -1 - self.position
    }
}

/// The name of an author; one whose account is gone is a ghost.
pub open spec fn author_name(author: Option<Login>) -> Seq<char> {
    match author {
        Some(a) => a.login@,
        None => "ghost"@,
    }
}

/// The name of an author; one whose account is gone is a ghost.
pub fn author_of(author: Option<Login>) -> (name: String)
    ensures
        name@ == author_name(author),
{
    match author {
        Some(a) => a.login,
        None => "ghost".to_owned(),
    }
}

/// Whether an author is the viewer. A ghost never is.
pub open spec fn is_mine(author: Option<Login>, me: Seq<char>) -> bool {
    author matches Some(a) && a.login@ == me
}

/// When the build of an entry started.
pub open spec fn build_start(node: QueueEntryNode) -> Option<Seq<char>> {
    match node.required {
        Some(s) => opt_string(s.build_started_at),
        None => match node.rollup() {
            Some(c) => earliest(c.nodes@),
            None => None,
        },
    }
}

/// Whether a row shows what a queue entry says.
pub open spec fn is_row_of(row: QueueRow, node: QueueEntryNode, me: Seq<char>) -> bool {
    let pr = node.pull_request;
    &&& row.position == node.position
    &&& row.number == pr.number
    &&& row.author@ == author_name(pr.author)
    &&& row.title == pr.title
    &&& row.branch@ == (match pr.head_ref_name {
        Some(b) => b@,
        None => Seq::empty(),
    })
    &&& row.url == pr.url
    &&& row.mine == is_mine(pr.author, me)
    &&& row.enqueued_at == node.enqueued_at
    &&& opt_string(row.build_started_at) == build_start(node)
    &&& row.checks == node.semaphore()
}

/// Whether the rows are those of the entries, one for one.
pub open spec fn are_rows_of(
    rows: Seq<QueueRow>,
    nodes: Seq<QueueEntryNode>,
    me: Seq<char>,
) -> bool {
    &&& rows.len() == nodes.len()
    &&& forall|i: int| 0 <= i < rows.len() ==> is_row_of(#[trigger] rows[i], nodes[i], me)
}

/// The row of a queue entry.
fn build_row(node: QueueEntryNode, me: &str) -> (row: QueueRow)
    requires
        node.countable(),
    ensures
        is_row_of(row, node, me@),
{
    let checks: Checks = node.checks();
    let build_started_at: Option<String> = node.build_started_at();
    let pr = node.pull_request;
    let mine: bool = match &pr.author {
        Some(a) => same(a.login.as_str(), me),
        None => false,
    };
    let branch: String = match pr.head_ref_name {
        Some(b) => b,
        None => String::new(),
    };
    assert(pr.head_ref_name is None ==> branch@ =~= Seq::empty());
    QueueRow {
        position: node.position,
        number: pr.number,
        author: author_of(pr.author),
        title: pr.title,
        branch,
        url: pr.url,
        mine,
        enqueued_at: node.enqueued_at,
        build_started_at,
        checks,
    }
}

/// Builds rows in the order of the queue. `me` is the viewer, whose entries are
/// flagged.
pub fn build_rows(nodes: Vec<QueueEntryNode>, me: &str) -> (out: Vec<QueueRow>)
    requires
        forall|i: int| 0 <= i < nodes@.len() ==> (#[trigger] nodes@[i]).countable(),
    ensures
        exists|rows: Seq<QueueRow>| #[trigger]
            are_rows_of(rows, nodes@, me@) && ordered(rows, out@),
{
    let ghost given = nodes@;
    let mut rest: Vec<QueueEntryNode> = nodes;
    let mut rows: Vec<QueueRow> = Vec::new();
    assert(given.skip(0) =~= given);
    while rest.len() > 0
        invariant
            rows@.len() + rest@.len() == given.len(),
            rest@ == given.skip(rows@.len() as int),
            forall|i: int| 0 <= i < given.len() ==> (#[trigger] given[i]).countable(),
            forall|i: int|
                0 <= i < rows@.len() ==> is_row_of(#[trigger] rows@[i], given[i], me@),
        decreases rest@.len(),
    {
        let ghost n = rows@.len() as int;
        let node: QueueEntryNode = rest.remove(0);
        assert(node == given[n]);
        assert(rest@ =~= given.skip(n + 1));
        rows.push(build_row(node, me));
    }
    assert(are_rows_of(rows@, given, me@));
    sort_newest_first(rows)
}

/// The rows come out by position, the front of the queue first.
pub proof fn the_front_comes_first(rows: Seq<QueueRow>, out: Seq<QueueRow>, i: int, j: int)
    requires
        ordered(rows, out),
        0 <= i < j < out.len(),
    ensures
        out[i].position <= out[j].position,
{
    assert(!crate::order::above(out[j].key(), out[i].key()));
}

/// The color of a PR link: one of your own stands out.
#[verifier::allow_in_spec]
pub fn pr_color(mine: bool) -> Color
    returns
        (if mine {
            status::YELLOW
        } else {
            status::BLUE
        }),
{
    if mine {
        status::YELLOW
    } else {
        status::BLUE
    }
}

/// The cells of a row. A build that has not started shows a dash.
pub open spec fn row_cells(
    r: QueueRow,
    show_branch: bool,
    wait: Seq<char>,
    build: Option<Seq<char>>,
) -> Seq<CellText> {
    seq![
        plain_cell(" "@),
        CellText { text: decimal_int(r.position as int), style: dimmed() },
        pr_cell(r.number as int, r.url@, colored(pr_color(r.mine))),
        plain_cell(r.title@),
    ] + (if show_branch {
        seq![CellText { text: r.branch@, style: dimmed() }]
    } else {
        Seq::empty()
    }) + seq![
        CellText { text: r.author@, style: dimmed() },
        CellText { text: wait, style: dimmed() },
        CellText {
            text: match build {
                Some(b) => b,
                None => "\u{2014}"@,
            },
            style: dimmed(),
        },
        lamp_view(r.checks.fail, Lamp::Fail),
        lamp_view(r.checks.running, Lamp::Running),
        lamp_view(r.checks.pass, Lamp::Pass),
    ]
}

/// The header of the merge-queue table.
pub open spec fn header(show_branch: bool) -> Seq<Seq<char>> {
    seq![""@, "#"@, "PR"@, "TITLE"@] + (if show_branch {
        seq!["BRANCH"@]
    } else {
        Seq::empty()
    }) + seq!["AUTHOR"@, "WAIT"@, "BUILD"@, "FAIL"@, "RUN"@, "PASS"@]
}

/// The merge-queue table.
pub open spec fn queue_table(
    rows: Seq<QueueRow>,
    show_branch: bool,
    waits: Seq<String>,
    builds: Seq<Option<String>>,
) -> TableView {
    TableView {
        header: header(show_branch),
        rows: Seq::new(
            rows.len(),
            |i: int| row_cells(rows[i], show_branch, waits[i]@, opt_string(builds[i])),
        ),
    }
}

/// The cells of one row.
fn build_cells(r: &QueueRow, show_branch: bool, wait: &str, build: &Option<String>) -> (row: Vec<
    Cell,
>)
    ensures
        row_view(row@) == row_cells(*r, show_branch, wait@, opt_string(*build)),
{
    let mut row: Vec<Cell> = Vec::new();
    row.push(Cell::plain(" "));
    row.push(Cell::styled(dec_int(r.position).as_str(), Style::new().faint()));
    row.push(Cell::pr(r.number, r.url.as_str(), status::fg(pr_color(r.mine))));
    row.push(Cell::plain(r.title.as_str()));
    if show_branch {
        row.push(Cell::styled(r.branch.as_str(), Style::new().faint()));
    }
    row.push(Cell::styled(r.author.as_str(), Style::new().faint()));
    row.push(Cell::styled(wait, Style::new().faint()));
    let build_text: &str = match build {
        Some(b) => b.as_str(),
        None => "\u{2014}",
    };
    row.push(Cell::styled(build_text, Style::new().faint()));
    row.push(render::lamp_cell(r.checks.fail, Lamp::Fail));
    row.push(render::lamp_cell(r.checks.running, Lamp::Running));
    row.push(render::lamp_cell(r.checks.pass, Lamp::Pass));
    assert(row_view(row@) =~= row_cells(*r, show_branch, wait@, opt_string(*build)));
    row
}

/// The merge-queue table, the branch shown on request. `waits` says how long each
/// entry has been queued, and `builds` how long its build has been running, where
/// it has started.
pub fn to_table(
    rows: &[QueueRow],
    show_branch: bool,
    waits: &[String],
    builds: &[Option<String>],
) -> (table: Table)
    requires
        waits@.len() == rows@.len(),
        builds@.len() == rows@.len(),
    ensures
        table@ == queue_table(rows@, show_branch, waits@, builds@),
        table.header@.len() <= 11,
        table.rows@.len() == rows@.len(),
{
    let mut out: Vec<Vec<Cell>> = Vec::new();
    let mut i: usize = 0;
    while i < rows.len()
        invariant
            i <= rows@.len() == waits@.len(),
            builds@.len() == rows@.len(),
            out@.len() == i,
            forall|j: int|
                0 <= j < i ==> row_view((#[trigger] out@[j])@) == row_cells(
                    rows@[j],
                    show_branch,
                    waits@[j]@,
                    opt_string(builds@[j]),
                ),
        decreases rows@.len() - i,
    {
        out.push(build_cells(&rows[i], show_branch, waits[i].as_str(), &builds[i]));
        i += 1;
    }
    let mut head: Vec<&'static str> = Vec::new();
    head.push("");
    head.push("#");
    head.push("PR");
    head.push("TITLE");
    if show_branch {
        head.push("BRANCH");
    }
    head.push("AUTHOR");
    head.push("WAIT");
    head.push("BUILD");
    head.push("FAIL");
    head.push("RUN");
    head.push("PASS");
    assert(header_view(head@) =~= header(show_branch));
    assert(rows_view(out@) =~= queue_table(rows@, show_branch, waits@, builds@).rows);
    Table { header: head, rows: out }
}

} // verus!
