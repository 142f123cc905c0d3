//! Row navigation: what the cursor can visit, in the order it is shown, how the
//! cursor moves, and what a search keeps.

use crate::cli::ViewKind;
use crate::commits::{Bucket, CommitStats, Release};
use crate::merged::MergedRow;
use crate::prs::PrRow;
use crate::queue::QueueRow;
use crate::reviews::{ReviewRow, ReviewedMergedRow};
use crate::sections::Sections;
use crate::term::Wait;
use crate::text::{
    contains, dec_int, decimal_int, fold, folded, is_empty, lowercase, occurs, to_lowercase,
};
use vstd::prelude::*;

verus! {

/// A row that a search can find and the cursor can open.
pub trait Searchable: Sized {
    /// The text that a search looks through.
    spec fn words(&self) -> Seq<char>;

    /// Where the row leads.
    spec fn link(&self) -> Seq<char>;

    /// PR number, title, and (where present) author or release tag, joined for
    /// a single substring test.
    fn haystack(&self) -> (h: String)
        ensures
            h@ == self.words(),
    ;

    /// Where the row leads.
    fn url(&self) -> (u: &str)
        ensures
            u@ == self.link(),
    ;

    /// A copy of the row.
    fn duplicate(&self) -> (r: Self)
        ensures
            r == *self,
    ;
}

/// `#<number> <title>`.
pub open spec fn number_and_title(number: int, title: Seq<char>) -> Seq<char> {
    "#"@ + decimal_int(number) + " "@ + title
}

/// `#<number> <title>`.
fn numbered(number: i64, title: &str) -> (r: String)
    ensures
        r@ == number_and_title(number as int, title@),
{
    let mut r: String = "#".to_owned();
    let digits: String = dec_int(number);
    r.append(digits.as_str());
    r.append(" ");
    r.append(title);
    r
}

/// `#<number> <title> <tail>`.
fn numbered_with(number: i64, title: &str, tail: &str) -> (r: String)
    ensures
        r@ == number_and_title(number as int, title@) + " "@ + tail@,
{
    let mut r: String = numbered(number, title);
    r.append(" ");
    r.append(tail);
    r
}

impl Searchable for PrRow {
    open spec fn words(&self) -> Seq<char> {
        number_and_title(self.number as int, self.title@)
    }

    open spec fn link(&self) -> Seq<char> {
        self.url@
    }

    fn haystack(&self) -> (h: String) {
        numbered(self.number, self.title.as_str())
    }

    fn url(&self) -> (u: &str) {
        self.url.as_str()
    }

    fn duplicate(&self) -> (r: Self) {
        self.clone()
    }
}

impl Searchable for QueueRow {
    open spec fn words(&self) -> Seq<char> {
        number_and_title(self.number as int, self.title@) + " "@ + self.author@
    }

    open spec fn link(&self) -> Seq<char> {
        self.url@
    }

    fn haystack(&self) -> (h: String) {
        numbered_with(self.number, self.title.as_str(), self.author.as_str())
    }

    fn url(&self) -> (u: &str) {
        self.url.as_str()
    }

    fn duplicate(&self) -> (r: Self) {
        self.clone()
    }
}

impl Searchable for MergedRow {
    open spec fn words(&self) -> Seq<char> {
        number_and_title(self.number as int, self.title@) + " "@ + match self.release {
            Some(r) => r.tag@,
            None => Seq::empty(),
        }
    }

    open spec fn link(&self) -> Seq<char> {
        self.url@
    }

    fn haystack(&self) -> (h: String) {
        match &self.release {
            Some(r) => numbered_with(self.number, self.title.as_str(), r.tag.as_str()),
            None => {
                proof {
                    reveal_strlit("");
                    assert(""@ =~= Seq::empty());
                }
                numbered_with(self.number, self.title.as_str(), "")
            },
        }
    }

    fn url(&self) -> (u: &str) {
        self.url.as_str()
    }

    fn duplicate(&self) -> (r: Self) {
        self.clone()
    }
}

impl Searchable for ReviewRow {
    open spec fn words(&self) -> Seq<char> {
        number_and_title(self.number as int, self.title@) + " "@ + self.author@
    }

    open spec fn link(&self) -> Seq<char> {
        self.url@
    }

    fn haystack(&self) -> (h: String) {
        numbered_with(self.number, self.title.as_str(), self.author.as_str())
    }

    fn url(&self) -> (u: &str) {
        self.url.as_str()
    }

    fn duplicate(&self) -> (r: Self) {
        self.clone()
    }
}

impl Searchable for ReviewedMergedRow {
    open spec fn words(&self) -> Seq<char> {
        number_and_title(self.number as int, self.title@) + " "@ + self.author@
    }

    open spec fn link(&self) -> Seq<char> {
        self.url@
    }

    fn haystack(&self) -> (h: String) {
        numbered_with(self.number, self.title.as_str(), self.author.as_str())
    }

    fn url(&self) -> (u: &str) {
        self.url.as_str()
    }

    fn duplicate(&self) -> (r: Self) {
        self.clone()
    }
}

impl Searchable for Release {
    open spec fn words(&self) -> Seq<char> {
        self.tag@
    }

    open spec fn link(&self) -> Seq<char> {
        self.bucket.url@
    }

    fn haystack(&self) -> (h: String) {
        self.tag.clone()
    }

    fn url(&self) -> (u: &str) {
        self.bucket.url.as_str()
    }

    fn duplicate(&self) -> (r: Self) {
        self.clone()
    }
}

/// Whether a text matches a lowercased query; an empty one matches everything.
pub open spec fn matches(hay: Seq<char>, query: Seq<char>) -> bool {
    query.len() == 0 || occurs(lowercase(hay), query)
}

/// Whether `hay` matches the (already-lowercased) query.
fn hit(hay: &str, query_lower: &str) -> (r: bool)
    ensures
        r == matches(hay@, query_lower@),
{
    is_empty(query_lower) || contains(to_lowercase(hay).as_str(), query_lower)
}

/// The rows that match a lowercased query, in order.
pub open spec fn kept<T: Searchable>(rows: Seq<T>, query: Seq<char>) -> Seq<T> {
    rows.filter(|r: T| matches(r.words(), query))
}

/// Where rows lead.
pub open spec fn links<T: Searchable>(rows: Seq<T>) -> Seq<Seq<char>> {
    Seq::new(rows.len(), |i: int| rows[i].link())
}

/// Where the matching rows of a section lead; nowhere where it is switched off.
pub open spec fn section_links<T: Searchable>(rows: Option<Vec<T>>, query: Seq<char>) -> Seq<
    Seq<char>,
> {
    match rows {
        Some(rows) => links(kept(rows@, query)),
        None => Seq::empty(),
    }
}

/// Texts as characters.
pub open spec fn texts(urls: Seq<&str>) -> Seq<Seq<char>> {
    Seq::new(urls.len(), |i: int| urls[i]@)
}

/// One more row at the end of a list.
proof fn kept_push<T: Searchable>(rows: Seq<T>, query: Seq<char>, n: int)
    requires
        0 <= n < rows.len(),
    ensures
        kept(rows.take(n + 1), query) == (if matches(rows[n].words(), query) {
            kept(rows.take(n), query).push(rows[n])
        } else {
            kept(rows.take(n), query)
        }),
{
    assert(rows.take(n + 1).drop_last() =~= rows.take(n));
    assert(rows.take(n + 1).last() == rows[n]);
    reveal(Seq::filter);
}

/// Where the matching rows lead.
fn group<'a, T: Searchable>(rows: &'a Option<Vec<T>>, query: &str) -> (urls: Vec<&'a str>)
    ensures
        texts(urls@) == section_links(*rows, query@),
{
    match rows {
        Some(rows) => rows_group(rows, query),
        None => {
            let urls: Vec<&'a str> = Vec::new();
            assert(texts(urls@) =~= Seq::empty());
            urls
        },
    }
}

/// Where the matching rows of a list lead.
fn rows_group<'a, T: Searchable>(rows: &'a Vec<T>, query: &str) -> (urls: Vec<&'a str>)
    ensures
        texts(urls@) == links(kept(rows@, query@)),
{
    let mut urls: Vec<&'a str> = Vec::new();
    let mut i: usize = 0;
    proof {
        reveal(Seq::filter);
        assert(rows@.take(0) =~= Seq::empty());
        assert(texts(urls@) =~= links(kept(rows@.take(0), query@)));
    }
    while i < rows.len()
        invariant
            i <= rows@.len(),
            texts(urls@) == links(kept(rows@.take(i as int), query@)),
        decreases rows@.len() - i,
    {
        proof {
            kept_push(rows@, query@, i as int);
        }
        let ghost before = texts(urls@);
        let ghost so_far = kept(rows@.take(i as int), query@);
        if hit(rows[i].haystack().as_str(), query) {
            urls.push(rows[i].url());
            assert(texts(urls@) =~= before.push(rows@[i as int].link()));
            assert(links(so_far.push(rows@[i as int])) =~= links(so_far).push(
                rows@[i as int].link(),
            ));
        }
        i += 1;
    }
    assert(rows@.take(rows@.len() as int) =~= rows@);
    urls
}

/// Where the shipments lead: the compare log of what is not released yet, then
/// each release page. Nowhere where the releases could not be read.
pub open spec fn shipment_links(commits: Option<CommitStats>, query: Seq<char>) -> Seq<Seq<char>> {
    match commits {
        Some(stats) => if stats.available {
            (if stats.upcoming is Some && matches("upcoming"@, query) {
                seq![stats.upcoming->0.url@]
            } else {
                Seq::empty()
            }) + links(kept(stats.releases@, query))
        } else {
            Seq::empty()
        },
        None => Seq::empty(),
    }
}

/// Where the matching shipments lead.
fn shipments<'a>(s: &'a Sections, query: &str) -> (urls: Vec<&'a str>)
    ensures
        texts(urls@) == shipment_links(s.commits, query@),
{
    let mut urls: Vec<&'a str> = Vec::new();
    assert(texts(urls@) =~= Seq::empty());
    match &s.commits {
        Some(stats) => {
            if stats.available {
                match &stats.upcoming {
                    Some(b) => {
                        if hit("upcoming", query) {
                            urls.push(b.url.as_str());
                            assert(texts(urls@) =~= seq![b.url@]);
                        }
                    },
                    None => {},
                }
                let ghost first = texts(urls@);
                let mut rest: Vec<&'a str> = rows_group(&stats.releases, query);
                let ghost more = rest@;
                let ghost before = urls@;
                urls.append(&mut rest);
                assert(urls@ =~= before + more);
                assert(texts(urls@) =~= first + texts(more));
            }
        },
        None => {},
    }
    urls
}

/// Where the matching rows of a view lead, section by section in the order they
/// are shown. The query is lowercased.
pub open spec fn target_groups(view: ViewKind, s: Sections, query: Seq<char>) -> Seq<
    Seq<Seq<char>>,
> {
    match view {
        ViewKind::Mine => seq![
            section_links(s.prs, query),
            section_links(s.queue, query),
            section_links(s.merged, query),
            shipment_links(s.commits, query),
        ],
        ViewKind::Reviews => seq![
            section_links(s.reviews, query),
            section_links(s.reviewed_merged, query),
        ],
    }
}

/// Groups one after the other.
pub open spec fn joined(groups: Seq<Seq<Seq<char>>>) -> Seq<Seq<char>>
    decreases groups.len(),
{
    if groups.len() == 0 {
        Seq::empty()
    } else {
        groups[0] + joined(groups.drop_first())
    }
}

/// Where the matching rows of a view lead, from top to bottom.
pub open spec fn all_targets(view: ViewKind, s: Sections, query: Seq<char>) -> Seq<Seq<char>> {
    joined(target_groups(view, s, query))
}

/// The group that holds the `index`-th of all links; none past the end.
pub open spec fn group_at(groups: Seq<Seq<Seq<char>>>, index: int) -> Seq<Seq<char>>
    decreases groups.len(),
{
    if groups.len() == 0 {
        Seq::empty()
    } else if index < groups[0].len() {
        groups[0]
    } else {
        group_at(groups.drop_first(), index - groups[0].len())
    }
}

/// Lists of texts as characters.
pub open spec fn group_texts(groups: Seq<Vec<&str>>) -> Seq<Seq<Seq<char>>> {
    Seq::new(groups.len(), |i: int| texts(groups[i]@))
}

/// The targets of `view` matching `query`, grouped by section in render order.
fn groups<'a>(view: ViewKind, s: &'a Sections, query: &str) -> (r: Vec<Vec<&'a str>>)
    ensures
        group_texts(r@) == target_groups(view, *s, folded(query@)),
{
    let q: String = fold(query);
    let mut r: Vec<Vec<&'a str>> = Vec::new();
    match view {
        ViewKind::Mine => {
            r.push(group(&s.prs, q.as_str()));
            r.push(group(&s.queue, q.as_str()));
            r.push(group(&s.merged, q.as_str()));
            r.push(shipments(s, q.as_str()));
        },
        ViewKind::Reviews => {
            r.push(group(&s.reviews, q.as_str()));
            r.push(group(&s.reviewed_merged, q.as_str()));
        },
    }
    assert(group_texts(r@) =~= target_groups(view, *s, q@));
    r
}

/// The URL of every navigable row in `view` that matches `query`, in the order
/// the dashboard shows them. An empty `query` yields every row.
pub fn targets<'a>(view: ViewKind, s: &'a Sections, query: &str) -> (urls: Vec<&'a str>)
    ensures
        texts(urls@) == all_targets(view, *s, folded(query@)),
{
    let mut rest: Vec<Vec<&'a str>> = groups(view, s, query);
    let ghost all = group_texts(rest@);
    let mut urls: Vec<&'a str> = Vec::new();
    assert(texts(urls@) + joined(all) =~= joined(all));
    while rest.len() > 0
        invariant
            texts(urls@) + joined(group_texts(rest@)) == joined(all),
        decreases rest@.len(),
    {
        let ghost left = group_texts(rest@);
        let ghost before = urls@;
        let mut g: Vec<&'a str> = rest.remove(0);
        let ghost more = g@;
        assert(group_texts(rest@) =~= left.drop_first());
        assert(left[0] == texts(more));
        urls.append(&mut g);
        assert(urls@ =~= before + more);
        assert(texts(urls@) =~= texts(before) + texts(more));
        assert(texts(urls@) + joined(group_texts(rest@)) =~= texts(before) + joined(left));
    }
    assert(texts(urls@) + joined(group_texts(rest@)) =~= texts(urls@));
    urls
}

/// Every target of the section that holds the `index`-th one. Empty sections
/// hold no index, so 0 yields the first section that is not empty; an index out
/// of range yields nothing.
pub fn section_at<'a>(view: ViewKind, s: &'a Sections, query: &str, index: usize) -> (urls: Vec<
    &'a str,
>)
    ensures
        texts(urls@) == group_at(
            target_groups(view, *s, folded(query@)),
            index as int,
        ),
{
    let mut rest: Vec<Vec<&'a str>> = groups(view, s, query);
    let ghost all = group_texts(rest@);
    let mut left: usize = index;
    while rest.len() > 0
        invariant
            group_at(group_texts(rest@), left as int) == group_at(all, index as int),
            all == target_groups(view, *s, folded(query@)),
        decreases rest@.len(),
    {
        let ghost before = group_texts(rest@);
        let g: Vec<&'a str> = rest.remove(0);
        assert(group_texts(rest@) =~= before.drop_first());
        assert(before[0] == texts(g@));
        if left < g.len() {
            return g;
        }
        left = left - g.len();
    }
    let none: Vec<&'a str> = Vec::new();
    assert(texts(none@) =~= Seq::empty());
    none
}

/// The links of a section are among those of the view, at the places that lead
/// to it: the `index`-th link of a view is a link of its `index`-th section, and
/// past the last link there is no section.
pub proof fn a_section_holds_its_targets(groups: Seq<Seq<Seq<char>>>, index: int)
    requires
        0 <= index,
    ensures
        index < joined(groups).len() ==> group_at(groups, index).contains(joined(groups)[index]),
        index >= joined(groups).len() ==> group_at(groups, index).len() == 0,
    decreases groups.len(),
{
    if groups.len() > 0 {
        let first = groups[0];
        let rest = groups.drop_first();
        if index < first.len() {
            assert(joined(groups)[index] == first[index]);
        } else {
            a_section_holds_its_targets(rest, index - first.len());
            assert(index < joined(groups).len() ==> joined(groups)[index] == joined(rest)[index
                - first.len()]);
        }
    }
}

/// Without a cursor, the section that is meant is the first that has any links.
pub proof fn the_first_section_is_not_empty(groups: Seq<Seq<Seq<char>>>, k: int)
    requires
        0 <= k < groups.len(),
        groups[k].len() > 0,
        forall|i: int| 0 <= i < k ==> (#[trigger] groups[i]).len() == 0,
    ensures
        group_at(groups, 0) == groups[k],
    decreases groups.len(),
{
    if k > 0 {
        assert(groups[0].len() == 0);
        let rest = groups.drop_first();
        assert forall|i: int| 0 <= i < k - 1 implies (#[trigger] rest[i]).len() == 0 by {
            assert(rest[i] == groups[i + 1]);
        }
        the_first_section_is_not_empty(rest, k - 1);
    }
}

/// The rows of a section that match, or none where it is switched off.
pub open spec fn kept_of<T: Searchable>(
    out: Option<Vec<T>>,
    rows: Option<Vec<T>>,
    query: Seq<char>,
) -> bool {
    match (out, rows) {
        (Some(o), Some(r)) => o@ == kept(r@, query),
        (None, None) => true,
        _ => false,
    }
}

/// Whether `out` is what a search keeps of the shipments: releases by tag, and
/// what is not released yet by the word "upcoming".
pub open spec fn commits_kept(out: Option<CommitStats>, c: Option<CommitStats>, query: Seq<char>) -> bool {
    match (out, c) {
        (Some(o), Some(c)) => {
            &&& o.available == c.available
            &&& o.upcoming == (if matches("upcoming"@, query) {
                c.upcoming
            } else {
                None
            })
            &&& o.releases@ == kept(c.releases@, query)
        },
        (None, None) => true,
        _ => false,
    }
}

/// Whether `out` is what a search keeps of `s`. The query is lowercased.
pub open spec fn is_filtered(out: Sections, s: Sections, query: Seq<char>) -> bool {
    &&& kept_of(out.prs, s.prs, query)
    &&& kept_of(out.queue, s.queue, query)
    &&& out.queue_next_eta == s.queue_next_eta
    &&& kept_of(out.merged, s.merged, query)
    &&& commits_kept(out.commits, s.commits, query)
    &&& kept_of(out.reviews, s.reviews, query)
    &&& kept_of(out.reviewed_merged, s.reviewed_merged, query)
}

/// Copies the rows that match.
fn matching<T: Searchable>(rows: &Vec<T>, query: &str) -> (out: Vec<T>)
    ensures
        out@ == kept(rows@, query@),
{
    let mut out: Vec<T> = Vec::new();
    let mut i: usize = 0;
    proof {
        reveal(Seq::filter);
        assert(rows@.take(0) =~= Seq::empty());
        assert(out@ =~= kept(rows@.take(0), query@));
    }
    while i < rows.len()
        invariant
            i <= rows@.len(),
            out@ == kept(rows@.take(i as int), query@),
        decreases rows@.len() - i,
    {
        proof {
            kept_push(rows@, query@, i as int);
        }
        if hit(rows[i].haystack().as_str(), query) {
            out.push(rows[i].duplicate());
        }
        i += 1;
    }
    assert(rows@.take(rows@.len() as int) =~= rows@);
    out
}

/// Copies the rows of a section that match.
fn matching_section<T: Searchable>(rows: &Option<Vec<T>>, query: &str) -> (out: Option<Vec<T>>)
    ensures
        kept_of(out, *rows, query@),
{
    match rows {
        Some(rows) => Some(matching(rows, query)),
        None => None,
    }
}

/// Filters the shipments.
fn filter_commits(stats: &CommitStats, query_lower: &str) -> (out: CommitStats)
    ensures
        commits_kept(Some(out), Some(*stats), query_lower@),
{
    let upcoming: Option<Bucket> = if hit("upcoming", query_lower) {
        match &stats.upcoming {
            Some(b) => Some(b.clone()),
            None => None,
        }
    } else {
        None
    };
    CommitStats {
        available: stats.available,
        upcoming,
        releases: matching(&stats.releases, query_lower),
    }
}

/// A copy of `s` keeping only the rows that match `query`, in every section of
/// both views.
pub fn filter(s: &Sections, query: &str) -> (out: Sections)
    ensures
        is_filtered(out, *s, folded(query@)),
{
    let q: String = fold(query);
    Sections {
        prs: matching_section(&s.prs, q.as_str()),
        queue: matching_section(&s.queue, q.as_str()),
        queue_next_eta: s.queue_next_eta,
        merged: matching_section(&s.merged, q.as_str()),
        commits: match &s.commits {
            Some(c) => Some(filter_commits(c, q.as_str())),
            None => None,
        },
        reviews: matching_section(&s.reviews, q.as_str()),
        reviewed_merged: matching_section(&s.reviewed_merged, q.as_str()),
    }
}

/// A query keeps no more rows than there are, so clearing it can only add some.
pub proof fn clearing_the_query_only_adds(view: ViewKind, s: Sections, query: Seq<char>)
    ensures
        all_targets(view, s, query).len() <= all_targets(view, s, Seq::empty()).len(),
{
    let some = target_groups(view, s, query);
    let all = target_groups(view, s, Seq::empty());
    assert forall|i: int| 0 <= i < some.len() implies (#[trigger] some[i]).len()
        <= all[i].len() by {
        fewer_links(s.prs, query);
        fewer_links(s.queue, query);
        fewer_links(s.merged, query);
        fewer_links(s.reviews, query);
        fewer_links(s.reviewed_merged, query);
        match s.commits {
            Some(c) => {
                the_empty_query_keeps_all(c.releases@);
                c.releases@.lemma_filter_len(|r: Release| matches(r.words(), query));
            },
            None => {},
        }
    }
    shorter_groups(some, all);
}

proof fn fewer_links<T: Searchable>(rows: Option<Vec<T>>, query: Seq<char>)
    ensures
        section_links(rows, query).len() <= section_links(rows, Seq::empty()).len(),
{
    match rows {
        Some(r) => {
            the_empty_query_keeps_all(r@);
            r@.lemma_filter_len(|x: T| matches(x.words(), query));
        },
        None => {},
    }
}

proof fn shorter_groups(a: Seq<Seq<Seq<char>>>, b: Seq<Seq<Seq<char>>>)
    requires
        a.len() == b.len(),
        forall|i: int| 0 <= i < a.len() ==> (#[trigger] a[i]).len() <= b[i].len(),
    ensures
        joined(a).len() <= joined(b).len(),
    decreases a.len(),
{
    if a.len() > 0 {
        assert(a[0].len() <= b[0].len());
        assert forall|i: int| 0 <= i < a.drop_first().len() implies (
        #[trigger] a.drop_first()[i]).len() <= b.drop_first()[i].len() by {
            assert(a[i + 1].len() <= b[i + 1].len());
        }
        shorter_groups(a.drop_first(), b.drop_first());
    }
}

/// An empty query keeps every row.
pub proof fn the_empty_query_keeps_all<T: Searchable>(rows: Seq<T>)
    ensures
        kept(rows, Seq::empty()) == rows,
    decreases rows.len(),
{
    reveal(Seq::filter);
    if rows.len() > 0 {
        the_empty_query_keeps_all(rows.drop_last());
        assert(rows.drop_last().push(rows.last()) =~= rows);
    }
}

/// Where the rows of a section lead.
pub open spec fn row_links<T: Searchable>(rows: Option<Vec<T>>) -> Seq<Seq<char>> {
    match rows {
        Some(rows) => links(rows@),
        None => Seq::empty(),
    }
}

/// With an empty query a section leads where its rows lead.
pub(crate) proof fn all_links<T: Searchable>(rows: Option<Vec<T>>)
    ensures
        section_links(rows, Seq::empty()) == row_links(rows),
{
    if rows is Some {
        the_empty_query_keeps_all(rows->0@);
    }
}

/// Two groups, one after the other.
pub(crate) proof fn two_groups(a: Seq<Seq<char>>, b: Seq<Seq<char>>)
    ensures
        joined(seq![a, b]) == a + b,
{
    let empty = Seq::<Seq<Seq<char>>>::empty();
    assert(seq![a, b].drop_first() =~= seq![b]);
    assert(seq![b].drop_first() =~= empty);
    assert(joined(empty) =~= Seq::empty());
    assert(joined(seq![b]) =~= b);
}

/// Four groups, one after the other.
pub(crate) proof fn four_groups(
    a: Seq<Seq<char>>,
    b: Seq<Seq<char>>,
    c: Seq<Seq<char>>,
    d: Seq<Seq<char>>,
)
    ensures
        joined(seq![a, b, c, d]) == a + (b + (c + d)),
{
    assert(seq![a, b, c, d].drop_first() =~= seq![b, c, d]);
    assert(seq![b, c, d].drop_first() =~= seq![c, d]);
    two_groups(c, d);
    assert(joined(seq![b, c, d]) == b + (c + d));
}

/// What a section keeps leads where its matching rows lead.
proof fn kept_section_links<T: Searchable>(
    out: Option<Vec<T>>,
    rows: Option<Vec<T>>,
    query: Seq<char>,
)
    requires
        kept_of(out, rows, query),
    ensures
        section_links(out, Seq::empty()) == section_links(rows, query),
{
    match out {
        Some(o) => {
            the_empty_query_keeps_all(o@);
        },
        None => {},
    }
}

/// The rows that a search keeps and the rows that the cursor visits while it
/// applies are the same, in the same order.
pub proof fn filter_and_targets_stay_in_lockstep(
    view: ViewKind,
    out: Sections,
    s: Sections,
    query: Seq<char>,
)
    requires
        is_filtered(out, s, query),
    ensures
        target_groups(view, out, Seq::empty()) == target_groups(view, s, query),
        all_targets(view, out, Seq::empty()) == all_targets(view, s, query),
{
    kept_section_links(out.prs, s.prs, query);
    kept_section_links(out.queue, s.queue, query);
    kept_section_links(out.merged, s.merged, query);
    kept_section_links(out.reviews, s.reviews, query);
    kept_section_links(out.reviewed_merged, s.reviewed_merged, query);
    match out.commits {
        Some(o) => {
            the_empty_query_keeps_all(o.releases@);
            assert(shipment_links(out.commits, Seq::empty()) =~= shipment_links(
                s.commits,
                query,
            ));
        },
        None => {},
    }
    assert(target_groups(view, out, Seq::empty()) =~= target_groups(view, s, query));
}

/// Whether a key moves the cursor.
pub open spec fn is_movement(action: Wait) -> bool {
    match action {
        Wait::Top | Wait::Bottom | Wait::Up | Wait::Down | Wait::HalfUp | Wait::HalfDown => true,
        _ => false,
    }
}

/// The row above by `step`, but not above the first.
pub open spec fn raised(i: int, step: int) -> int {
    if i < step {
        0
    } else {
        i - step
    }
}

/// The row below by `step`, but not below the last.
pub open spec fn lowered(i: int, step: int, len: int) -> int {
    if i + step < len - 1 {
        i + step
    } else {
        len - 1
    }
}

/// Where a key moves the cursor in a list of `len` rows. Without a cursor, a
/// move enters at the top, but that to the bottom at the last row.
pub open spec fn destination(action: Wait, sel: Option<usize>, len: int, half: int) -> int {
    let step = if half < 1 {
        1
    } else {
        half
    };
    match action {
        Wait::Bottom => len - 1,
        Wait::Up => if sel is Some {
            raised(sel->0 as int, 1)
        } else {
            0
        },
        Wait::Down => if sel is Some {
            lowered(sel->0 as int, 1, len)
        } else {
            0
        },
        Wait::HalfUp => if sel is Some {
            raised(sel->0 as int, step)
        } else {
            0
        },
        Wait::HalfDown => if sel is Some {
            lowered(sel->0 as int, step, len)
        } else {
            0
        },
        _ => 0,
    }
}

/// The new selection after a key against a list of `len` rows (`half` is the
/// half-page step). Keys that are no movement leave it unchanged.
pub fn moved(action: Wait, sel: Option<usize>, len: usize, half: usize) -> (r: Option<usize>)
    ensures
        len == 0 ==> r is None,
        len > 0 && is_movement(action) ==> r is Some && r->0 == destination(
            action,
            sel,
            len as int,
            half as int,
        ),
        len > 0 && !is_movement(action) ==> r == sel,
{
    if len == 0 {
        return None;
    }
    let step: usize = if half < 1 {
        1
    } else {
        half
    };
    match action {
        Wait::Top => Some(0),
        Wait::Bottom => Some(len - 1),
        Wait::Up => Some(up(sel, 1)),
        Wait::Down => Some(down(sel, 1, len)),
        Wait::HalfUp => Some(up(sel, step)),
        Wait::HalfDown => Some(down(sel, step, len)),
        _ => sel,
    }
}

/// The row above by `step`; the first without a cursor.
fn up(sel: Option<usize>, step: usize) -> (r: usize)
    ensures
        r == (if sel is Some {
            raised(sel->0 as int, step as int)
        } else {
            0
        }),
{
    match sel {
        Some(i) => if i < step {
            0
        } else {
            i - step
        },
        None => 0,
    }
}

/// The row below by `step`; the first without a cursor.
fn down(sel: Option<usize>, step: usize, len: usize) -> (r: usize)
    requires
        len > 0,
    ensures
        r == (if sel is Some {
            lowered(sel->0 as int, step as int, len as int)
        } else {
            0
        }),
{
    match sel {
        Some(i) => if i < len - 1 && step < len - 1 - i {
            i + step
        } else {
            len - 1
        },
        None => 0,
    }
}

/// A selection kept inside a list that may have shrunk.
pub open spec fn clamped(sel: Option<usize>, len: int) -> Option<int> {
    if sel is Some && len > 0 {
        Some(
            if sel->0 < len {
                sel->0 as int
            } else {
                len - 1
            },
        )
    } else {
        None
    }
}

/// Keeps a selection inside a list after a refresh: drops it when the list is
/// empty, else pins it to the last row if it fell off the end.
pub fn clamp(sel: Option<usize>, len: usize) -> (r: Option<usize>)
    ensures
        (match r {
            Some(i) => Some(i as int),
            None => None,
        }) == clamped(sel, len as int),
{
    match sel {
        Some(i) => if len == 0 {
            None
        } else if i < len {
            Some(i)
        } else {
            Some(len - 1)
        },
        None => None,
    }
}

/// However the cursor moves in a list that has rows, it stays on one of them,
/// where it was on one or did not show; clamping leaves such a cursor alone.
pub proof fn the_cursor_stays_on_a_row(action: Wait, sel: Option<usize>, len: int, half: int)
    requires
        len > 0,
        sel is Some ==> sel->0 < len,
    ensures
        is_movement(action) ==> 0 <= destination(action, sel, len, half) < len,
        clamped(sel, len) == (match sel {
            Some(i) => Some(i as int),
            None => None,
        }),
{
}

/// A clamped cursor is on a row of the list.
pub proof fn clamping_lands_on_a_row(sel: Option<usize>, len: int)
    ensures
        clamped(sel, len) matches Some(i) ==> 0 <= i < len,
        clamped(sel, len) is Some <==> sel is Some && len > 0,
{
}

} // verus!
