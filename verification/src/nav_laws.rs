//! What a search finds, and how the moves of the cursor relate.

use crate::cli::ViewKind;
use crate::merged::MergedRow;
use crate::nav::{
    all_links, clamp, filter, filter_and_targets_stay_in_lockstep, four_groups, group_at, kept,
    links, moved, section_at, section_links, shipment_links, target_groups, targets, texts,
    the_empty_query_keeps_all, two_groups, Searchable,
};
use crate::prs::PrRow;
use crate::queue::QueueRow;
use crate::reviews::{ReviewRow, ReviewedMergedRow};
use crate::sections::Sections;
use crate::term::Wait;
use crate::text::{decimal_int, folded, lowercase, occurs, occurs_at};
use vstd::prelude::*;

verus! {

/// Whether a text in lowercase holds the query in lowercase.
pub open spec fn finds(text: Seq<char>, query: Seq<char>) -> bool {
    query.len() > 0 && occurs(lowercase(text), lowercase(query))
}

/// Whether a query looks for nothing.
pub open spec fn is_blank(query: Seq<char>) -> bool {
    query.len() == 0 || lowercase(query).len() == 0
}

/// The number of a PR as it is searched for.
pub open spec fn hash_number(number: i64) -> Seq<char> {
    "#"@ + decimal_int(number as int)
}

/// Whether a text is put in lowercase piece by piece where blanks part it.
pub open spec fn blanks_part_words() -> bool {
    forall|a: Seq<char>, b: Seq<char>| #[trigger]
        lowercase(a + " "@ + b) == lowercase(a) + " "@ + lowercase(b)
}

/// What occurs in a part of a text occurs in the text.
proof fn a_part_is_searched(before: Seq<char>, part: Seq<char>, after: Seq<char>, needle: Seq<char>)
    requires
        occurs(part, needle),
    ensures
        occurs(before + part + after, needle),
{
    let i = choose|i: int| occurs_at(part, needle, i);
    let whole = before + part + after;
    let at = before.len() + i;
    assert(whole.subrange(at, at + needle.len()) =~= part.subrange(i, i + needle.len()));
    assert(occurs_at(whole, needle, at));
}

/// What is found in either of two pieces is found in both joined.
proof fn either_piece_is_searched(a: Seq<char>, b: Seq<char>, query: Seq<char>)
    requires
        blanks_part_words(),
        finds(a, query) || finds(b, query),
    ensures
        finds(a + " "@ + b, query),
{
    assert(lowercase(a + " "@ + b) == lowercase(a) + " "@ + lowercase(b));
    let none = Seq::<char>::empty();
    let (x, y) = (lowercase(a), lowercase(b));
    if finds(a, query) {
        a_part_is_searched(none, x, " "@ + y, lowercase(query));
        assert(none + x + (" "@ + y) =~= x + " "@ + y);
    } else {
        a_part_is_searched(x + " "@, y, none, lowercase(query));
        assert(x + " "@ + y + none =~= x + " "@ + y);
    }
}

/// A search keeps a row if and only if its words match.
proof fn a_row_is_kept_by_its_words<T: Searchable>(rows: Seq<T>, query: Seq<char>, i: int)
    requires
        0 <= i < rows.len(),
    ensures
        kept(rows, query).contains(rows[i]) <==> crate::nav::matches(rows[i].words(), query),
{
    let keep = |r: T| crate::nav::matches(r.words(), query);
    if keep(rows[i]) {
        rows.lemma_filter_contains(keep, i);
    } else if kept(rows, query).contains(rows[i]) {
        let j = choose|j: int| 0 <= j < kept(rows, query).len() && kept(rows, query)[j] == rows[i];
        rows.lemma_filter_pred(keep, j);
    }
}

/// Whether a search keeps row `i` of a section.
pub open spec fn keeps<T>(out: Option<Vec<T>>, rows: Option<Vec<T>>, i: int) -> bool {
    out is Some && out->0@.contains(rows->0@[i])
}

/// Whether a section has a row `i`.
pub open spec fn has<T>(rows: Option<Vec<T>>, i: int) -> bool {
    rows is Some && 0 <= i < rows->0@.len()
}

/// A search finds an open PR by its number and by its title.
pub proof fn an_open_pr_is_found(s: Sections, query: &str, out: Sections, i: int)
    requires
        call_ensures(filter, (&s, query), out),
        has(s.prs, i),
    ensures
        ({
            let r = s.prs->0@[i];
            &&& keeps(out.prs, s.prs, i) <==> is_blank(query@) || finds(
                hash_number(r.number) + " "@ + r.title@,
                query@,
            )
            &&& blanks_part_words() && (finds(hash_number(r.number), query@) || finds(
                r.title@,
                query@,
            )) ==> keeps(out.prs, s.prs, i)
        }),
{
    let r = s.prs->0@[i];
    a_row_is_kept_by_its_words(s.prs->0@, folded(query@), i);
    if blanks_part_words() && (finds(hash_number(r.number), query@) || finds(r.title@, query@)) {
        either_piece_is_searched(hash_number(r.number), r.title@, query@);
    }
}

/// A search finds an entry of the merge queue by its number, its title and its
/// author.
pub proof fn a_queued_pr_is_found(s: Sections, query: &str, out: Sections, i: int)
    requires
        call_ensures(filter, (&s, query), out),
        has(s.queue, i),
    ensures
        ({
            let r = s.queue->0@[i];
            &&& keeps(out.queue, s.queue, i) <==> is_blank(query@) || finds(
                hash_number(r.number) + " "@ + r.title@ + " "@ + r.author@,
                query@,
            )
            &&& blanks_part_words() && (finds(hash_number(r.number), query@) || finds(
                r.title@,
                query@,
            ) || finds(r.author@, query@)) ==> keeps(out.queue, s.queue, i)
        }),
{
    let r = s.queue->0@[i];
    a_row_is_kept_by_its_words(s.queue->0@, folded(query@), i);
    if blanks_part_words() {
        three_pieces_are_searched(hash_number(r.number), r.title@, r.author@, query@);
    }
}

/// What is found in any of three pieces is found in all of them joined.
proof fn three_pieces_are_searched(a: Seq<char>, b: Seq<char>, c: Seq<char>, query: Seq<char>)
    requires
        blanks_part_words(),
    ensures
        finds(a, query) || finds(b, query) || finds(c, query) ==> finds(
            a + " "@ + b + " "@ + c,
            query,
        ),
{
    if finds(a, query) || finds(b, query) {
        either_piece_is_searched(a, b, query);
        either_piece_is_searched(a + " "@ + b, c, query);
    } else if finds(c, query) {
        either_piece_is_searched(a + " "@ + b, c, query);
    }
}

/// A search finds a merged PR by its number, its title and the tag of the release
/// that shipped it.
pub proof fn a_merged_pr_is_found(s: Sections, query: &str, out: Sections, i: int)
    requires
        call_ensures(filter, (&s, query), out),
        has(s.merged, i),
    ensures
        ({
            let r = s.merged->0@[i];
            &&& r.release is Some ==> (keeps(out.merged, s.merged, i) <==> is_blank(query@)
                || finds(
                hash_number(r.number) + " "@ + r.title@ + " "@ + r.release->0.tag@,
                query@,
            ))
            &&& r.release is None ==> (keeps(out.merged, s.merged, i) <==> is_blank(query@)
                || finds(hash_number(r.number) + " "@ + r.title@ + " "@, query@))
            &&& blanks_part_words() && (finds(hash_number(r.number), query@) || finds(
                r.title@,
                query@,
            ) || (r.release is Some && finds(r.release->0.tag@, query@))) ==> keeps(
                out.merged,
                s.merged,
                i,
            )
        }),
{
    let r = s.merged->0@[i];
    let tag = match r.release {
        Some(x) => x.tag@,
        None => Seq::empty(),
    };
    a_row_is_kept_by_its_words(s.merged->0@, folded(query@), i);
    let head = hash_number(r.number) + " "@ + r.title@ + " "@;
    assert(head + Seq::<char>::empty() =~= head);
    if blanks_part_words() {
        three_pieces_are_searched(hash_number(r.number), r.title@, tag, query@);
    }
}

/// A search finds a PR under review by its number, its title and its author.
pub proof fn a_pr_under_review_is_found(s: Sections, query: &str, out: Sections, i: int)
    requires
        call_ensures(filter, (&s, query), out),
        has(s.reviews, i),
    ensures
        ({
            let r = s.reviews->0@[i];
            &&& keeps(out.reviews, s.reviews, i) <==> is_blank(query@) || finds(
                hash_number(r.number) + " "@ + r.title@ + " "@ + r.author@,
                query@,
            )
            &&& blanks_part_words() && (finds(hash_number(r.number), query@) || finds(
                r.title@,
                query@,
            ) || finds(r.author@, query@)) ==> keeps(out.reviews, s.reviews, i)
        }),
{
    let r = s.reviews->0@[i];
    a_row_is_kept_by_its_words(s.reviews->0@, folded(query@), i);
    if blanks_part_words() {
        three_pieces_are_searched(hash_number(r.number), r.title@, r.author@, query@);
    }
}

/// A search finds a merged PR that you reviewed by its number, its title and its
/// author.
pub proof fn a_reviewed_pr_is_found(s: Sections, query: &str, out: Sections, i: int)
    requires
        call_ensures(filter, (&s, query), out),
        has(s.reviewed_merged, i),
    ensures
        ({
            let r = s.reviewed_merged->0@[i];
            &&& keeps(out.reviewed_merged, s.reviewed_merged, i) <==> is_blank(query@) || finds(
                hash_number(r.number) + " "@ + r.title@ + " "@ + r.author@,
                query@,
            )
            &&& blanks_part_words() && (finds(hash_number(r.number), query@) || finds(
                r.title@,
                query@,
            ) || finds(r.author@, query@)) ==> keeps(out.reviewed_merged, s.reviewed_merged, i)
        }),
{
    let r = s.reviewed_merged->0@[i];
    a_row_is_kept_by_its_words(s.reviewed_merged->0@, folded(query@), i);
    if blanks_part_words() {
        three_pieces_are_searched(hash_number(r.number), r.title@, r.author@, query@);
    }
}

/// A search finds a release by its tag alone, and what is not released yet by the
/// word "upcoming" alone.
pub proof fn a_shipment_is_found(s: Sections, query: &str, out: Sections)
    requires
        call_ensures(filter, (&s, query), out),
        s.commits is Some,
    ensures
        out.commits is Some,
        out.commits->0.available == s.commits->0.available,
        out.commits->0.upcoming == (if is_blank(query@) || finds("upcoming"@, query@) {
            s.commits->0.upcoming
        } else {
            None
        }),
        forall|i: int|
            0 <= i < s.commits->0.releases@.len() ==> (out.commits->0.releases@.contains(
                #[trigger] s.commits->0.releases@[i],
            ) <==> is_blank(query@) || finds(
                s.commits->0.releases@[i].tag@,
                query@,
            )),
{
    assert forall|i: int| 0 <= i < s.commits->0.releases@.len() implies (
    out.commits->0.releases@.contains(#[trigger] s.commits->0.releases@[i]) <==> is_blank(query@)
        || finds(s.commits->0.releases@[i].tag@, query@)) by {
        a_row_is_kept_by_its_words(s.commits->0.releases@, folded(query@), i);
    }
}

/// The same PR is found by the same queries in each section that shows its
/// author.
pub proof fn a_pr_is_found_alike_in_every_section(
    s: Sections,
    query: &str,
    out: Sections,
    i: int,
    j: int,
    k: int,
)
    requires
        call_ensures(filter, (&s, query), out),
        has(s.queue, i),
        has(s.reviews, j),
        has(s.reviewed_merged, k),
        s.queue->0@[i].number == s.reviews->0@[j].number == s.reviewed_merged->0@[k].number,
        s.queue->0@[i].title@ == s.reviews->0@[j].title@,
        s.queue->0@[i].title@ == s.reviewed_merged->0@[k].title@,
        s.queue->0@[i].author@ == s.reviews->0@[j].author@,
        s.queue->0@[i].author@ == s.reviewed_merged->0@[k].author@,
    ensures
        keeps(out.queue, s.queue, i) == keeps(out.reviews, s.reviews, j),
        keeps(out.queue, s.queue, i) == keeps(out.reviewed_merged, s.reviewed_merged, k),
{
    a_row_is_kept_by_its_words(s.queue->0@, folded(query@), i);
    a_row_is_kept_by_its_words(s.reviews->0@, folded(query@), j);
    a_row_is_kept_by_its_words(s.reviewed_merged->0@, folded(query@), k);
}

/// The tag of the release that shipped a PR, or nothing before there is one.
pub open spec fn shipped_by(r: MergedRow) -> Seq<char> {
    match r.release {
        Some(x) => x.tag@,
        None => Seq::empty(),
    }
}

/// A search keeps the rows it finds in the order they had: what is kept of a
/// section are its rows with the others left out.
pub proof fn a_search_keeps_the_order(s: Sections, query: &str, out: Sections)
    requires
        call_ensures(filter, (&s, query), out),
    ensures
        s.prs matches Some(rows) ==> out.prs is Some && out.prs->0@ == rows@.filter(
            |r: PrRow|
                is_blank(query@) || finds(hash_number(r.number) + " "@ + r.title@, query@),
        ),
        s.queue matches Some(rows) ==> out.queue is Some && out.queue->0@ == rows@.filter(
            |r: QueueRow|
                is_blank(query@) || finds(hash_number(r.number) + " "@ + r.title@ + " "@ + r.author@, query@),
        ),
        s.merged matches Some(rows) ==> out.merged is Some && out.merged->0@ == rows@.filter(
            |r: MergedRow|
                is_blank(query@) || finds(
                    hash_number(r.number) + " "@ + r.title@ + " "@ + shipped_by(r),
                    query@,
                ),
        ),
        s.reviews matches Some(rows) ==> out.reviews is Some && out.reviews->0@ == rows@.filter(
            |r: ReviewRow|
                is_blank(query@) || finds(hash_number(r.number) + " "@ + r.title@ + " "@ + r.author@, query@),
        ),
        s.reviewed_merged matches Some(rows) ==> out.reviewed_merged is Some && out.reviewed_merged->0@ == rows@.filter(
            |r: ReviewedMergedRow|
                is_blank(query@) || finds(hash_number(r.number) + " "@ + r.title@ + " "@ + r.author@, query@),
        ),
{
    let prs = |r: PrRow| is_blank(query@) || finds(hash_number(r.number) + " "@ + r.title@, query@);
    assert(prs =~= (|r: PrRow| crate::nav::matches(r.words(), folded(query@))));
    let queue = |r: QueueRow| is_blank(query@) || finds(hash_number(r.number) + " "@ + r.title@ + " "@ + r.author@, query@);
    assert(queue =~= (|r: QueueRow| crate::nav::matches(r.words(), folded(query@))));
    let merged = |r: MergedRow|
        is_blank(query@) || finds(
            hash_number(r.number) + " "@ + r.title@ + " "@ + shipped_by(r),
            query@,
        );
    assert(merged =~= (|r: MergedRow| crate::nav::matches(r.words(), folded(query@))));
    let reviews = |r: ReviewRow| is_blank(query@) || finds(hash_number(r.number) + " "@ + r.title@ + " "@ + r.author@, query@);
    assert(reviews =~= (|r: ReviewRow| crate::nav::matches(r.words(), folded(query@))));
    let reviewed_merged = |r: ReviewedMergedRow| is_blank(query@) || finds(hash_number(r.number) + " "@ + r.title@ + " "@ + r.author@, query@);
    assert(reviewed_merged =~= (|r: ReviewedMergedRow| crate::nav::matches(r.words(), folded(query@))));
}

/// A search only drops rows: what it keeps of a section stood there, and a
/// section that is switched off stays so.
pub proof fn a_search_only_drops_rows(s: Sections, query: &str, out: Sections)
    requires
        call_ensures(filter, (&s, query), out),
    ensures
        only_drops(out.prs, s.prs),
        only_drops(out.queue, s.queue),
        only_drops(out.merged, s.merged),
        only_drops(out.reviews, s.reviews),
        only_drops(out.reviewed_merged, s.reviewed_merged),
        out.commits is Some <==> s.commits is Some,
        out.queue_next_eta == s.queue_next_eta,
{
    kept_rows_stood_there(out.prs, s.prs, folded(query@));
    kept_rows_stood_there(out.queue, s.queue, folded(query@));
    kept_rows_stood_there(out.merged, s.merged, folded(query@));
    kept_rows_stood_there(out.reviews, s.reviews, folded(query@));
    kept_rows_stood_there(out.reviewed_merged, s.reviewed_merged, folded(query@));
}

/// Whether each row of `out` is one of `rows`.
pub open spec fn only_drops<T>(out: Option<Vec<T>>, rows: Option<Vec<T>>) -> bool {
    match (out, rows) {
        (Some(o), Some(r)) => forall|i: int|
            0 <= i < o@.len() ==> r@.contains(#[trigger] o@[i]),
        (None, None) => true,
        _ => false,
    }
}

proof fn kept_rows_stood_there<T: Searchable>(
    out: Option<Vec<T>>,
    rows: Option<Vec<T>>,
    query: Seq<char>,
)
    requires
        crate::nav::kept_of(out, rows, query),
    ensures
        only_drops(out, rows),
{
    match (out, rows) {
        (Some(o), Some(r)) => {
            assert forall|i: int| 0 <= i < o@.len() implies r@.contains(#[trigger] o@[i]) by {
                r@.lemma_filter_contains_rev(|x: T| crate::nav::matches(x.words(), query), o@[i]);
            }
        },
        _ => {},
    }
}

/// An empty query folds to an empty one, so it drops no row.
pub proof fn an_empty_query_drops_nothing(s: Sections, query: &str, out: Sections)
    requires
        query@.len() == 0,
        call_ensures(filter, (&s, query), out),
    ensures
        (match (out.prs, s.prs) {
            (Some(o), Some(r)) => o@ == r@,
            (o, r) => o is None && r is None,
        }),
        (match (out.queue, s.queue) {
            (Some(o), Some(r)) => o@ == r@,
            (o, r) => o is None && r is None,
        }),
        (match (out.merged, s.merged) {
            (Some(o), Some(r)) => o@ == r@,
            (o, r) => o is None && r is None,
        }),
        (match (out.reviews, s.reviews) {
            (Some(o), Some(r)) => o@ == r@,
            (o, r) => o is None && r is None,
        }),
        (match (out.reviewed_merged, s.reviewed_merged) {
            (Some(o), Some(r)) => o@ == r@,
            (o, r) => o is None && r is None,
        }),
{
    if s.prs is Some {
        the_empty_query_keeps_all(s.prs->0@);
    }
    if s.queue is Some {
        the_empty_query_keeps_all(s.queue->0@);
    }
    if s.merged is Some {
        the_empty_query_keeps_all(s.merged->0@);
    }
    if s.reviews is Some {
        the_empty_query_keeps_all(s.reviews->0@);
    }
    if s.reviewed_merged is Some {
        the_empty_query_keeps_all(s.reviewed_merged->0@);
    }
}

/// What the cursor visits while a search applies is what it visits in the
/// filtered rows without one.
pub proof fn the_cursor_visits_what_is_kept(
    view: ViewKind,
    s: Sections,
    query: &str,
    out: Sections,
    none: &str,
    some: Vec<&str>,
    all: Vec<&str>,
)
    requires
        none@.len() == 0,
        call_ensures(filter, (&s, query), out),
        call_ensures(targets, (view, &s, query), some),
        call_ensures(targets, (view, &out, none), all),
    ensures
        texts(some@) == texts(all@),
{
    filter_and_targets_stay_in_lockstep(view, out, s, folded(query@));
}

/// A step down and a step up take each other back: below the cursor there is the
/// next row, and from there the way up leads back to it. At the last row a step
/// down stays, at the first row a step up does.
pub proof fn a_step_is_taken_back(
    i: usize,
    len: usize,
    half: usize,
    down: Option<usize>,
    back: Option<usize>,
    up: Option<usize>,
)
    requires
        i < len,
        call_ensures(moved, (Wait::Down, Some(i), len, half), down),
        call_ensures(moved, (Wait::Up, down, len, half), back),
        call_ensures(moved, (Wait::Up, Some(i), len, half), up),
    ensures
        down is Some && up is Some && back is Some,
        i < len - 1 ==> down->0 == i + 1 && back->0 == i,
        i == len - 1 ==> down->0 == i,
        i > 0 ==> up->0 == i - 1,
        i == 0 ==> up->0 == 0,
{
}

/// A half page down and one up take each other back where the page fits: the
/// cursor moves by half a page, but by one row at least, and never past the ends.
pub proof fn a_half_page_is_taken_back(
    i: usize,
    len: usize,
    half: usize,
    down: Option<usize>,
    back: Option<usize>,
    up: Option<usize>,
)
    requires
        i < len,
        call_ensures(moved, (Wait::HalfDown, Some(i), len, half), down),
        call_ensures(moved, (Wait::HalfUp, down, len, half), back),
        call_ensures(moved, (Wait::HalfUp, Some(i), len, half), up),
    ensures
        down is Some && up is Some && back is Some,
        half > 0 && i + half < len ==> down->0 == i + half && back->0 == i,
        half == 0 && i + 1 < len ==> down->0 == i + 1 && back->0 == i,
        half > 0 && i + half >= len ==> down->0 == len - 1,
        half == 0 && i + 1 == len ==> down->0 == i,
        half > 0 && half <= i ==> up->0 == i - half,
        half == 0 && 1 <= i ==> up->0 == i - 1,
        half >= i ==> up->0 == 0 || (half == 0 && i == 0),
{
}

/// The ends are reached from everywhere: the top is the first row and the bottom
/// the last, and without a cursor every move enters at the top but that to the
/// bottom.
pub proof fn the_ends_are_reached(
    sel: Option<usize>,
    len: usize,
    half: usize,
    top: Option<usize>,
    bottom: Option<usize>,
    action: Wait,
    entered: Option<usize>,
)
    requires
        len > 0,
        call_ensures(moved, (Wait::Top, sel, len, half), top),
        call_ensures(moved, (Wait::Bottom, sel, len, half), bottom),
        call_ensures(moved, (action, None::<usize>, len, half), entered),
    ensures
        top == Some(0usize),
        bottom is Some && bottom->0 == len - 1,
        action is Up || action is Down || action is HalfUp || action is HalfDown ==> entered
            == Some(0usize),
{
}

/// A key that is no move leaves the cursor where it is, and a list without rows
/// has no cursor.
pub proof fn other_keys_leave_the_cursor(
    action: Wait,
    sel: Option<usize>,
    len: usize,
    half: usize,
    r: Option<usize>,
)
    requires
        call_ensures(moved, (action, sel, len, half), r),
    ensures
        len == 0 ==> r is None,
        len > 0 && !(action is Top || action is Bottom || action is Up || action is Down
            || action is HalfUp || action is HalfDown) ==> r == sel,
{
}

/// A cursor stays where it is while its row is there, goes to the last row where
/// its own is gone, and goes with the last row; none appears.
pub proof fn a_cursor_outlives_its_row(sel: Option<usize>, len: usize, r: Option<usize>)
    requires
        call_ensures(clamp, (sel, len), r),
    ensures
        sel is None ==> r is None,
        len == 0 ==> r is None,
        sel is Some && sel->0 < len ==> r == sel,
        sel is Some && 0 < len <= sel->0 ==> r is Some && r->0 == len - 1,
{
}

/// The pages of the open PRs, in order.
pub open spec fn prs_pages(s: Sections) -> Seq<Seq<char>> {
    match s.prs {
        Some(rows) => Seq::new(rows@.len(), |i: int| rows@[i].url@),
        None => Seq::empty(),
    }
}

/// The pages of the entries of the merge queue, in order.
pub open spec fn queue_pages(s: Sections) -> Seq<Seq<char>> {
    match s.queue {
        Some(rows) => Seq::new(rows@.len(), |i: int| rows@[i].url@),
        None => Seq::empty(),
    }
}

/// The pages of the merged PRs, in order.
pub open spec fn merged_pages(s: Sections) -> Seq<Seq<char>> {
    match s.merged {
        Some(rows) => Seq::new(rows@.len(), |i: int| rows@[i].url@),
        None => Seq::empty(),
    }
}

/// The pages of the PRs under review, in order.
pub open spec fn reviews_pages(s: Sections) -> Seq<Seq<char>> {
    match s.reviews {
        Some(rows) => Seq::new(rows@.len(), |i: int| rows@[i].url@),
        None => Seq::empty(),
    }
}

/// The pages of the merged PRs that you reviewed, in order.
pub open spec fn reviewed_merged_pages(s: Sections) -> Seq<Seq<char>> {
    match s.reviewed_merged {
        Some(rows) => Seq::new(rows@.len(), |i: int| rows@[i].url@),
        None => Seq::empty(),
    }
}

/// The pages of the shipments, in order: that of what is not released yet, where
/// there is any, then that of each release; none where they could not be read.
pub open spec fn shipment_pages(s: Sections) -> Seq<Seq<char>> {
    match s.commits {
        Some(c) => if c.available {
            (match c.upcoming {
                Some(b) => seq![b.url@],
                None => Seq::empty(),
            }) + Seq::new(c.releases@.len(), |i: int| c.releases@[i].bucket.url@)
        } else {
            Seq::empty()
        },
        None => Seq::empty(),
    }
}

/// The groups of a view without a query are the pages of its sections.
proof fn the_groups_are_the_pages(s: Sections)
    ensures
        target_groups(ViewKind::Mine, s, Seq::empty()) == seq![
            prs_pages(s),
            queue_pages(s),
            merged_pages(s),
            shipment_pages(s),
        ],
        target_groups(ViewKind::Reviews, s, Seq::empty()) == seq![
            reviews_pages(s),
            reviewed_merged_pages(s),
        ],
{
    all_links(s.prs);
    all_links(s.queue);
    all_links(s.merged);
    all_links(s.reviews);
    all_links(s.reviewed_merged);
    let none = Seq::<char>::empty();
    assert(section_links(s.prs, none) =~= prs_pages(s));
    assert(section_links(s.queue, none) =~= queue_pages(s));
    assert(section_links(s.merged, none) =~= merged_pages(s));
    assert(section_links(s.reviews, none) =~= reviews_pages(s));
    assert(section_links(s.reviewed_merged, none) =~= reviewed_merged_pages(s));
    match s.commits {
        Some(c) => {
            the_empty_query_keeps_all(c.releases@);
            assert(links(c.releases@) =~= Seq::new(
                c.releases@.len(),
                |i: int| c.releases@[i].bucket.url@,
            ));
        },
        None => {},
    }
    assert(shipment_links(s.commits, none) =~= shipment_pages(s));
}

/// Without a query the cursor visits the page of every row from top to bottom: of
/// your own PRs the open ones, the merge queue, the merged ones and the shipments,
/// of the reviews those under review and the merged ones.
pub proof fn the_cursor_visits_every_row(
    s: Sections,
    none: &str,
    mine: Vec<&str>,
    reviews: Vec<&str>,
)
    requires
        none@.len() == 0,
        call_ensures(targets, (ViewKind::Mine, &s, none), mine),
        call_ensures(targets, (ViewKind::Reviews, &s, none), reviews),
    ensures
        texts(mine@) == prs_pages(s) + queue_pages(s) + merged_pages(s) + shipment_pages(s),
        texts(reviews@) == reviews_pages(s) + reviewed_merged_pages(s),
{
    the_groups_are_the_pages(s);
    four_groups(prs_pages(s), queue_pages(s), merged_pages(s), shipment_pages(s));
    two_groups(reviews_pages(s), reviewed_merged_pages(s));
    assert(texts(mine@) =~= prs_pages(s) + queue_pages(s) + merged_pages(s) + shipment_pages(s));
}

/// The section that the cursor is in is the whole of it: that of the open PRs for
/// as many rows as there are, then that of the merge queue, and so on; past the
/// last row there is none.
pub proof fn the_cursor_is_in_one_section(
    s: Sections,
    none: &str,
    index: usize,
    mine: Vec<&str>,
    reviews: Vec<&str>,
)
    requires
        none@.len() == 0,
        call_ensures(section_at, (ViewKind::Mine, &s, none, index), mine),
        call_ensures(section_at, (ViewKind::Reviews, &s, none, index), reviews),
    ensures
        ({
            let a = prs_pages(s).len();
            let b = a + queue_pages(s).len();
            let c = b + merged_pages(s).len();
            let d = c + shipment_pages(s).len();
            texts(mine@) == (if index < a {
                prs_pages(s)
            } else if index < b {
                queue_pages(s)
            } else if index < c {
                merged_pages(s)
            } else if index < d {
                shipment_pages(s)
            } else {
                Seq::empty()
            })
        }),
        ({
            let a = reviews_pages(s).len();
            let b = a + reviewed_merged_pages(s).len();
            texts(reviews@) == (if index < a {
                reviews_pages(s)
            } else if index < b {
                reviewed_merged_pages(s)
            } else {
                Seq::empty()
            })
        }),
{
    the_groups_are_the_pages(s);
    let (p, q, m, h) = (prs_pages(s), queue_pages(s), merged_pages(s), shipment_pages(s));
    let (r, w) = (reviews_pages(s), reviewed_merged_pages(s));
    let empty = Seq::<Seq<Seq<char>>>::empty();
    reveal_with_fuel(group_at, 6);
    assert(seq![p, q, m, h].drop_first() =~= seq![q, m, h]);
    assert(seq![q, m, h].drop_first() =~= seq![m, h]);
    assert(seq![m, h].drop_first() =~= seq![h]);
    assert(seq![h].drop_first() =~= empty);
    assert(seq![r, w].drop_first() =~= seq![w]);
    assert(seq![w].drop_first() =~= empty);
}

} // verus!
