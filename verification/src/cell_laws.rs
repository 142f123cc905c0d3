//! What a table shows of a row, column by column.

use crate::merged;
use crate::merged::MergedRow;
use crate::prs;
use crate::prs::PrRow;
use crate::queue;
use crate::queue::QueueRow;
use crate::render::Table;
use crate::reviews;
use crate::reviews::{ReviewRow, ReviewedMergedRow};
use crate::status::{mergeable_glyph, review_glyph, Checks, GREEN, RED, YELLOW};
use crate::surface::{rgb, Color};
use crate::table::TableView;
use crate::text::{decimal, decimal_int};
use std::collections::HashSet;
use vstd::prelude::*;

verus! {

broadcast use vstd::std_specs::hash::group_hash_axioms;

/// Whether `k` is the column of a header, which every row has.
pub open spec fn is_column(t: TableView, i: int, name: Seq<char>, k: int) -> bool {
    &&& 0 <= k < t.header.len()
    &&& t.rows[i].len() == t.header.len()
    &&& t.header[k] == name
}

/// Whether row `i` shows a text under a header.
pub open spec fn shows(t: TableView, i: int, name: Seq<char>, text: Seq<char>) -> bool {
    exists|k: int| #[trigger] is_column(t, i, name, k) && t.rows[i][k].text == text
}

/// Whether row `i` shows the link of a PR: its number, leading to its page.
pub open spec fn links_to(t: TableView, i: int, number: i64, url: Seq<char>) -> bool {
    exists|k: int| #[trigger]
        is_column(t, i, "PR"@, k) && t.rows[i][k].text == "#"@ + decimal_int(number as int) && (
        url.len() > 0 ==> (t.rows[i][k].style.link matches Some(l) && l.0 == url))
}

/// Whether row `i` shows a count of checks under a header: without a color where
/// there are none, else in the color of its lamp.
pub open spec fn counts(t: TableView, i: int, name: Seq<char>, n: u64, color: Color) -> bool {
    exists|k: int| #[trigger]
        is_column(t, i, name, k) && t.rows[i][k].text == decimal(n as nat)
            && t.rows[i][k].style.fg == (if n == 0 {
            None
        } else {
            Some(rgb(color))
        })
}

/// Whether row `i` shows the three counts of a semaphore, each under its header
/// and in its color: red, yellow and green.
pub open spec fn shows_semaphore(t: TableView, i: int, c: Checks) -> bool {
    &&& counts(t, i, "FAIL"@, c.fail, RED)
    &&& counts(t, i, "RUN"@, c.running, YELLOW)
    &&& counts(t, i, "PASS"@, c.pass, GREEN)
}

/// Whether the first cell of row `i` is marked.
pub open spec fn is_marked(t: TableView, i: int) -> bool {
    t.rows[i][0].text != " "@
}

/// No mark of a changed row is a blank.
pub(crate) proof fn marks_are_no_blanks()
    ensures
        ">"@ != " "@,
        "\u{25b8}"@ != " "@,
{
    reveal_strlit(">");
    reveal_strlit(" ");
    reveal_strlit("\u{25b8}");
    assert(">"@[0] == '>' && " "@[0] == ' ' && "\u{25b8}"@[0] == '\u{25b8}');
}

/// The table of open PRs has a line for each, in order: whether it changed,
/// whether it can be merged, its link, its title, its branch on request, its
/// semaphore, and how many threads are open, with a `+` where there are more than
/// could be counted.
pub proof fn an_open_pr_is_shown(
    rows: &[PrRow],
    ascii: bool,
    changed: HashSet<i64>,
    show_branch: bool,
    table: Table,
    i: int,
)
    requires
        call_ensures(prs::to_table, (rows, ascii, &changed, show_branch), table),
        0 <= i < rows@.len(),
    ensures
        table@.rows.len() == rows@.len(),
        ({
            let r = rows@[i];
            &&& is_marked(table@, i) <==> changed@.contains(r.number)
            &&& table@.rows[i][1].text == seq![mergeable_glyph(r.mergeable, ascii)]
            &&& links_to(table@, i, r.number, r.url@)
            &&& shows(table@, i, "TITLE"@, r.title@)
            &&& show_branch ==> shows(table@, i, "BRANCH"@, r.branch@)
            &&& shows_semaphore(table@, i, r.checks)
            &&& shows(
                table@,
                i,
                "THREADS"@,
                if r.unresolved_capped && r.unresolved > 0 {
                    decimal(r.unresolved as nat).push('+')
                } else {
                    decimal(r.unresolved as nat)
                },
            )
        }),
{
    let r = rows@[i];
    let b: int = if show_branch {
        1
    } else {
        0
    };
    reveal_strlit("+");
    marks_are_no_blanks();
    assert(table@.rows[i] == prs::row_cells(r, ascii, changed@, show_branch));
    assert(is_column(table@, i, "PR"@, 2));
    assert(is_column(table@, i, "TITLE"@, 3));
    assert(show_branch ==> is_column(table@, i, "BRANCH"@, 4));
    assert(is_column(table@, i, "FAIL"@, 4 + b));
    assert(is_column(table@, i, "RUN"@, 5 + b));
    assert(is_column(table@, i, "PASS"@, 6 + b));
    assert(is_column(table@, i, "THREADS"@, 7 + b));
    let d = decimal(r.unresolved as nat);
    assert(d + "+"@ =~= d.push('+'));
    assert(d + Seq::<char>::empty() =~= d);
}

/// The table of the merge queue has a line for each entry, in order: its place,
/// its link, its title, its branch on request, its author, how long it has been
/// queued, how long its build has been running or a dash, and its semaphore.
pub proof fn a_queue_entry_is_shown(
    rows: &[QueueRow],
    show_branch: bool,
    waits: &[String],
    builds: &[Option<String>],
    table: Table,
    i: int,
)
    requires
        call_ensures(queue::to_table, (rows, show_branch, waits, builds), table),
        0 <= i < rows@.len(),
    ensures
        table@.rows.len() == rows@.len(),
        ({
            let r = rows@[i];
            &&& shows(table@, i, "#"@, decimal_int(r.position as int))
            &&& links_to(table@, i, r.number, r.url@)
            &&& shows(table@, i, "TITLE"@, r.title@)
            &&& show_branch ==> shows(table@, i, "BRANCH"@, r.branch@)
            &&& shows(table@, i, "AUTHOR"@, r.author@)
            &&& shows(table@, i, "WAIT"@, waits@[i]@)
            &&& shows(
                table@,
                i,
                "BUILD"@,
                match builds@[i] {
                    Some(t) => t@,
                    None => "\u{2014}"@,
                },
            )
            &&& shows_semaphore(table@, i, r.checks)
        }),
{
    let r = rows@[i];
    let b: int = if show_branch {
        1
    } else {
        0
    };
    assert(is_column(table@, i, "#"@, 1));
    assert(is_column(table@, i, "PR"@, 2));
    assert(is_column(table@, i, "TITLE"@, 3));
    assert(show_branch ==> is_column(table@, i, "BRANCH"@, 4));
    assert(is_column(table@, i, "AUTHOR"@, 4 + b));
    assert(is_column(table@, i, "WAIT"@, 5 + b));
    assert(is_column(table@, i, "BUILD"@, 6 + b));
    assert(is_column(table@, i, "FAIL"@, 7 + b));
    assert(is_column(table@, i, "RUN"@, 8 + b));
    assert(is_column(table@, i, "PASS"@, 9 + b));
}

/// The table of merged PRs has a line for each, in order: whether it just merged,
/// its link, its title, its branch on request, the release that shipped it or a
/// dash, and how long ago it merged.
pub proof fn a_merged_pr_is_shown(
    rows: &[MergedRow],
    ascii: bool,
    changed: HashSet<i64>,
    show_branch: bool,
    ages: &[String],
    table: Table,
    i: int,
)
    requires
        call_ensures(merged::to_table, (rows, ascii, &changed, show_branch, ages), table),
        0 <= i < rows@.len(),
    ensures
        table@.rows.len() == rows@.len(),
        ({
            let r = rows@[i];
            &&& is_marked(table@, i) <==> changed@.contains(r.number)
            &&& links_to(table@, i, r.number, r.url@)
            &&& shows(table@, i, "TITLE"@, r.title@)
            &&& show_branch ==> shows(table@, i, "BRANCH"@, r.branch@)
            &&& shows(
                table@,
                i,
                "RELEASE"@,
                match r.release {
                    Some(x) => x.tag@,
                    None => "\u{2014}"@,
                },
            )
            &&& shows(table@, i, "MERGED"@, ages@[i]@)
        }),
{
    let r = rows@[i];
    let b: int = if show_branch {
        1
    } else {
        0
    };
    marks_are_no_blanks();
    assert(table@.rows[i] == merged::row_cells(r, ascii, changed@, show_branch, ages@[i]@));
    assert(is_column(table@, i, "PR"@, 2));
    assert(is_column(table@, i, "TITLE"@, 3));
    assert(show_branch ==> is_column(table@, i, "BRANCH"@, 4));
    assert(is_column(table@, i, "RELEASE"@, 4 + b));
    assert(is_column(table@, i, "MERGED"@, 5 + b));
}

/// The table of PRs under review has a line for each, in order: how far your
/// review is, its link, its title, its branch on request, its author and how long
/// ago it was updated.
pub proof fn a_pr_under_review_is_shown(
    rows: &[ReviewRow],
    ascii: bool,
    show_branch: bool,
    ages: &[String],
    table: Table,
    i: int,
)
    requires
        call_ensures(reviews::open_to_table, (rows, ascii, show_branch, ages), table),
        0 <= i < rows@.len(),
    ensures
        table@.rows.len() == rows@.len(),
        ({
            let r = rows@[i];
            &&& table@.rows[i][1].text == seq![review_glyph(r.state, ascii)]
            &&& links_to(table@, i, r.number, r.url@)
            &&& shows(table@, i, "TITLE"@, r.title@)
            &&& show_branch ==> shows(table@, i, "BRANCH"@, r.branch@)
            &&& shows(table@, i, "AUTHOR"@, r.author@)
            &&& shows(table@, i, "UPDATED"@, ages@[i]@)
        }),
{
    let r = rows@[i];
    let b: int = if show_branch {
        1
    } else {
        0
    };
    assert(table@.rows[i] == reviews::open_cells(r, ascii, show_branch, ages@[i]@));
    assert(is_column(table@, i, "PR"@, 2));
    assert(is_column(table@, i, "TITLE"@, 3));
    assert(show_branch ==> is_column(table@, i, "BRANCH"@, 4));
    assert(is_column(table@, i, "AUTHOR"@, 4 + b));
    assert(is_column(table@, i, "UPDATED"@, 5 + b));
}

/// The table of merged PRs that you reviewed has a line for each, in order: its
/// link, its title, its branch on request, its author and how long ago it merged.
pub proof fn a_reviewed_pr_is_shown(
    rows: &[ReviewedMergedRow],
    show_branch: bool,
    ages: &[String],
    table: Table,
    i: int,
)
    requires
        call_ensures(reviews::merged_to_table, (rows, show_branch, ages), table),
        0 <= i < rows@.len(),
    ensures
        table@.rows.len() == rows@.len(),
        ({
            let r = rows@[i];
            &&& links_to(table@, i, r.number, r.url@)
            &&& shows(table@, i, "TITLE"@, r.title@)
            &&& show_branch ==> shows(table@, i, "BRANCH"@, r.branch@)
            &&& shows(table@, i, "AUTHOR"@, r.author@)
            &&& shows(table@, i, "MERGED"@, ages@[i]@)
        }),
{
    let r = rows@[i];
    let b: int = if show_branch {
        1
    } else {
        0
    };
    assert(table@.rows[i] == reviews::merged_cells(r, show_branch, ages@[i]@));
    assert(is_column(table@, i, "PR"@, 2));
    assert(is_column(table@, i, "TITLE"@, 3));
    assert(show_branch ==> is_column(table@, i, "BRANCH"@, 4));
    assert(is_column(table@, i, "AUTHOR"@, 4 + b));
    assert(is_column(table@, i, "MERGED"@, 5 + b));
}

} // verus!
