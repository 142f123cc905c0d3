//! Required checks only: the paged queries that ask which checks of a commit are
//! required for its PR, and what is counted of the replies.

use crate::github::{no_members, JsonView, Variable, Variables};
use crate::model::{clone_opt, earlier, opt_string, PrNode, QueueEntryNode};
use crate::status;
use crate::status::{context_lamp, run_lamp, Checks, Lamp};
use crate::table::{indices, indices_are_the_shown, ints};
use crate::text::{
    concat, dec, decimal, same, sorts_before, text_before, text_before_irreflexive,
    text_before_total, text_before_transitive,
};
use vstd::prelude::*;

verus! {

/// What the required checks of a commit say: how many light each lamp, and when
/// the first of them started.
pub struct RequiredSummary {
    pub checks: Checks,
    pub build_started_at: Option<String>,
}

/// A summary with its start as characters.
#[verifier::ext_equal]
pub struct SummaryView {
    pub checks: Checks,
    pub started: Option<Seq<char>>,
}

impl View for RequiredSummary {
    type V = SummaryView;

    open spec fn view(&self) -> SummaryView {
        SummaryView { checks: self.checks, started: opt_string(self.build_started_at) }
    }
}

/// The summary of no checks.
pub open spec fn no_checks() -> SummaryView {
    SummaryView { checks: Checks { fail: 0, running: 0, pass: 0 }, started: None }
}

impl Default for RequiredSummary {
    fn default() -> (s: Self)
        ensures
            s@ == no_checks(),
    {
        RequiredSummary { checks: Checks { fail: 0, running: 0, pass: 0 }, build_started_at: None }
    }
}

impl Clone for RequiredSummary {
    fn clone(&self) -> (s: Self)
        ensures
            s == *self,
    {
        RequiredSummary {
            checks: self.checks,
            build_started_at: clone_opt(&self.build_started_at),
        }
    }
}

/// A commit, and the PR that its checks are or are not required for.
pub struct RequiredTarget {
    pub pull_request_number: i64,
    pub commit_id: String,
}

/// The commit of a reply.
pub struct RequiredCommit {
    pub status_check_rollup: Option<RequiredRollup>,
}

/// The checks of a commit.
pub struct RequiredRollup {
    pub contexts: RequiredContexts,
}

/// One page of checks.
pub struct RequiredContexts {
    pub page_info: RequiredPageInfo,
    pub nodes: Vec<RequiredContext>,
}

/// Whether another page follows, and where it starts.
pub struct RequiredPageInfo {
    pub has_next_page: bool,
    pub end_cursor: Option<String>,
}

/// One check, and whether it is required.
pub enum RequiredContext {
    CheckRun {
        required: bool,
        status: String,
        conclusion: Option<String>,
        started_at: Option<String>,
    },
    StatusContext { required: bool, state: String },
}

/// Counts with one more on a lamp.
pub open spec fn bump(c: Checks, l: Option<Lamp>) -> Checks {
    match l {
        Some(Lamp::Fail) => Checks { fail: (c.fail + 1) as u64, ..c },
        Some(Lamp::Running) => Checks { running: (c.running + 1) as u64, ..c },
        Some(Lamp::Pass) => Checks { pass: (c.pass + 1) as u64, ..c },
        None => c,
    }
}

/// A summary with one more check. A check that is not required changes nothing;
/// a check run counts by its conclusion, or by its status while it has none.
pub open spec fn with_context(s: SummaryView, c: RequiredContext) -> SummaryView {
    match c {
        RequiredContext::CheckRun { required, status, conclusion, started_at } => if required {
            let state = match conclusion {
                Some(t) => t@,
                None => status@,
            };
            SummaryView {
                checks: bump(s.checks, run_lamp(state)),
                started: earlier(s.started, opt_string(started_at)),
            }
        } else {
            s
        },
        RequiredContext::StatusContext { required, state } => if required {
            SummaryView { checks: bump(s.checks, context_lamp(state@)), ..s }
        } else {
            s
        },
    }
}

/// A summary with several more checks.
pub open spec fn with_contexts(s: SummaryView, cs: Seq<RequiredContext>) -> SummaryView
    decreases cs.len(),
{
    if cs.len() == 0 {
        s
    } else {
        with_context(with_contexts(s, cs.drop_last()), cs.last())
    }
}

/// Whether `n` more checks can be counted.
pub open spec fn has_room(c: Checks, n: int) -> bool {
    forall|lamp: Lamp| #[trigger] c.count(lamp) + n <= u64::MAX
}

impl RequiredContext {
    /// Counts this check in a summary, if it is required.
    pub fn add_to(&self, summary: &mut RequiredSummary)
        requires
            has_room(old(summary).checks, 1),
        ensures
            final(summary)@ == with_context(old(summary)@, *self),
    {
        match self {
            RequiredContext::CheckRun { required, status, conclusion, started_at } => {
                if *required {
                    let l: Option<Lamp> = match conclusion {
                        Some(c) => status::check_run_lamp(c.as_str()),
                        None => status::check_run_lamp(status.as_str()),
                    };
                    add_one(&mut summary.checks, l);
                    match started_at {
                        Some(t) => {
                            let sooner: bool = match &summary.build_started_at {
                                Some(b) => sorts_before(t.as_str(), b.as_str()),
                                None => true,
                            };
                            if sooner {
                                summary.build_started_at = Some(t.clone());
                            }
                        },
                        None => {},
                    }
                }
            },
            RequiredContext::StatusContext { required, state } => {
                if *required {
                    add_one(&mut summary.checks, status::status_context_lamp(state.as_str()));
                }
            },
        }
    }
}

/// Counts one more check on a lamp.
fn add_one(checks: &mut Checks, l: Option<Lamp>)
    requires
        has_room(*old(checks), 1),
    ensures
        *final(checks) == bump(*old(checks), l),
{
    let ghost before = *checks;
    proof {
        match l {
            Some(lamp) => {
                assert(before.count(lamp) + 1 <= u64::MAX);
            },
            None => {},
        }
    }
    checks.add(l, 1);
    proof {
        assert(checks.count(Lamp::Fail) == checks.fail && before.count(Lamp::Fail) == before.fail);
        assert(checks.count(Lamp::Running) == checks.running && before.count(Lamp::Running)
            == before.running);
        assert(checks.count(Lamp::Pass) == checks.pass && before.count(Lamp::Pass) == before.pass);
    }
}

/// A check that is not required changes no summary.
pub proof fn only_required_checks_count(s: SummaryView, c: RequiredContext)
    requires
        match c {
            RequiredContext::CheckRun { required, .. } => !required,
            RequiredContext::StatusContext { required, .. } => !required,
        },
    ensures
        with_context(s, c) == s,
{
}

/// The lamp that a check lights; none where it is not required or in a state that
/// lights none. A check run's conclusion decides over its status.
pub open spec fn lamp_of(c: RequiredContext) -> Option<Lamp> {
    match c {
        RequiredContext::CheckRun { required, status, conclusion, .. } => if required {
            run_lamp(
                match conclusion {
                    Some(t) => t@,
                    None => status@,
                },
            )
        } else {
            None
        },
        RequiredContext::StatusContext { required, state } => if required {
            context_lamp(state@)
        } else {
            None
        },
    }
}

/// When a check began; never where it is not a required check run that did.
pub open spec fn start_of(c: RequiredContext) -> Option<Seq<char>> {
    match c {
        RequiredContext::CheckRun { required, started_at, .. } => if required {
            opt_string(started_at)
        } else {
            None
        },
        RequiredContext::StatusContext { .. } => None,
    }
}

/// How many of the checks light a lamp.
pub open spec fn lit(cs: Seq<RequiredContext>, lamp: Lamp) -> int
    decreases cs.len(),
{
    if cs.len() == 0 {
        0
    } else {
        lit(cs.drop_last(), lamp) + (if lamp_of(cs.last()) == Some(lamp) {
            1int
        } else {
            0
        })
    }
}

/// A summary counts its checks: each raises the lamp that it lights by one, and
/// no other.
pub proof fn a_summary_counts_its_checks(s: SummaryView, cs: Seq<RequiredContext>, lamp: Lamp)
    requires
        has_room(s.checks, cs.len() as int),
    ensures
        with_contexts(s, cs).checks.count(lamp) == s.checks.count(lamp) + lit(cs, lamp),
        0 <= lit(cs, lamp) <= cs.len(),
    decreases cs.len(),
{
    if cs.len() > 0 {
        let less = cs.drop_last();
        assert forall|l: Lamp| #[trigger] s.checks.count(l) + less.len() <= u64::MAX by {
            assert(s.checks.count(l) + cs.len() <= u64::MAX);
        }
        a_summary_counts_its_checks(s, less, lamp);
        let mid = with_contexts(s, less);
        assert(with_contexts(s, cs).checks == bump(mid.checks, lamp_of(cs.last())));
        match lamp_of(cs.last()) {
            Some(l) => {
                a_summary_counts_its_checks(s, less, l);
                assert(s.checks.count(l) + cs.len() <= u64::MAX);
            },
            None => {},
        }
    }
}

/// The build of a summary begins with the earliest of its checks: one began just
/// then and none before, or none began at all.
pub proof fn a_build_begins_with_its_first_check(cs: Seq<RequiredContext>)
    ensures
        match with_contexts(no_checks(), cs).started {
            Some(t) => {
                &&& exists|i: int| 0 <= i < cs.len() && start_of(#[trigger] cs[i]) == Some(t)
                &&& forall|i: int|
                    0 <= i < cs.len() ==> (start_of(#[trigger] cs[i]) matches Some(u)
                        ==> !text_before(u, t))
            },
            None => forall|i: int| 0 <= i < cs.len() ==> start_of(#[trigger] cs[i]) is None,
        },
    decreases cs.len(),
{
    if cs.len() > 0 {
        let less = cs.drop_last();
        let n = cs.len() - 1;
        a_build_begins_with_its_first_check(less);
        let before = with_contexts(no_checks(), less).started;
        let after = with_contexts(no_checks(), cs).started;
        assert(after == earlier(before, start_of(cs[n])));
        match after {
            Some(t) => {
                if after == before {
                    let i = choose|i: int|
                        0 <= i < less.len() && start_of(#[trigger] less[i]) == Some(t);
                    assert(cs[i] == less[i]);
                }
                assert forall|i: int| 0 <= i < cs.len() implies (start_of(
                    #[trigger] cs[i],
                ) matches Some(u) ==> !text_before(u, t)) by {
                    if i < n {
                        assert(less[i] == cs[i]);
                        match (before, start_of(cs[i])) {
                            (Some(x), Some(u)) => {
                                if after != before && text_before(u, t) {
                                    text_before_transitive(u, t, x);
                                }
                            },
                            _ => {},
                        }
                    } else {
                        text_before_irreflexive(t);
                    }
                }
            },
            None => {
                assert forall|i: int| 0 <= i < cs.len() implies start_of(
                    #[trigger] cs[i],
                ) is None by {
                    if i < n {
                        assert(less[i] == cs[i]);
                    }
                }
            },
        }
    }
}

/// Of two texts just one sorts before the other, or they are equal.
proof fn one_sorts_first(x: Seq<char>, y: Seq<char>)
    ensures
        text_before(x, y) || text_before(y, x) || x == y,
        !(text_before(x, y) && text_before(y, x)),
{
    if !text_before(x, y) && !text_before(y, x) {
        text_before_total(x, y);
    }
    if text_before(x, y) && text_before(y, x) {
        text_before_transitive(x, y, x);
        text_before_irreflexive(x);
    }
}

/// Of three moments the earliest is the same, whichever of two is seen first.
proof fn earlier_commutes(
    a: Option<Seq<char>>,
    b: Option<Seq<char>>,
    c: Option<Seq<char>>,
)
    ensures
        earlier(earlier(a, b), c) == earlier(earlier(a, c), b),
{
    match (b, c) {
        (Some(x), Some(y)) => {
            one_sorts_first(x, y);
            match a {
                Some(z) => {
                    one_sorts_first(x, z);
                    one_sorts_first(y, z);
                    if text_before(x, y) && text_before(y, z) {
                        text_before_transitive(x, y, z);
                    }
                    if text_before(y, x) && text_before(x, z) {
                        text_before_transitive(y, x, z);
                    }
                    if text_before(x, z) && text_before(z, y) {
                        text_before_transitive(x, z, y);
                    }
                    if text_before(y, z) && text_before(z, x) {
                        text_before_transitive(y, z, x);
                    }
                },
                None => {},
            }
        },
        _ => {},
    }
}

/// Two checks give the same summary in either order.
proof fn two_checks_commute(s: SummaryView, x: RequiredContext, y: RequiredContext)
    ensures
        with_context(with_context(s, x), y) == with_context(with_context(s, y), x),
{
    earlier_commutes(s.started, start_of(x), start_of(y));
}

/// A check may as well be counted last.
proof fn a_check_may_come_last(s: SummaryView, cs: Seq<RequiredContext>, i: int)
    requires
        0 <= i < cs.len(),
    ensures
        with_contexts(s, cs) == with_context(with_contexts(s, cs.remove(i)), cs[i]),
    decreases cs.len(),
{
    let n = cs.len() - 1;
    if i == n {
        assert(cs.remove(i) =~= cs.drop_last());
    } else {
        let less = cs.drop_last();
        a_check_may_come_last(s, less, i);
        assert(cs.remove(i).drop_last() =~= less.remove(i));
        assert(cs.remove(i).last() == cs.last());
        two_checks_commute(with_contexts(s, less.remove(i)), cs[i], cs.last());
    }
}

/// The order of the checks does not matter: the same checks in any order give the
/// same summary.
pub proof fn the_order_of_checks_does_not_matter(
    s: SummaryView,
    a: Seq<RequiredContext>,
    b: Seq<RequiredContext>,
)
    requires
        a.to_multiset() == b.to_multiset(),
    ensures
        with_contexts(s, a) == with_contexts(s, b),
    decreases a.len(),
{
    broadcast use vstd::seq_lib::group_to_multiset_ensures;

    assert(a.to_multiset().len() == a.len());
    assert(b.to_multiset().len() == b.len());
    if a.len() > 0 {
        let x = a.last();
        assert(a.contains(x)) by {
            assert(a[a.len() - 1] == x);
        }
        assert(b.to_multiset().count(x) > 0);
        assert(b.contains(x));
        let i = choose|i: int| 0 <= i < b.len() && b[i] == x;
        a_check_may_come_last(s, b, i);
        assert(a.remove(a.len() - 1) =~= a.drop_last());
        assert(a.drop_last().to_multiset() =~= a.to_multiset().remove(x));
        assert(b.remove(i).to_multiset() =~= b.to_multiset().remove(x));
        the_order_of_checks_does_not_matter(s, a.drop_last(), b.remove(i));
    }
}

/// Pages add up: a summary of one page after another is that of both as one.
pub proof fn pages_add_up(s: SummaryView, a: Seq<RequiredContext>, b: Seq<RequiredContext>)
    ensures
        with_contexts(with_contexts(s, a), b) == with_contexts(s, a + b),
    decreases b.len(),
{
    if b.len() == 0 {
        assert(a + b =~= a);
    } else {
        pages_add_up(s, a, b.drop_last());
        assert((a + b).drop_last() =~= a + b.drop_last());
    }
}

proof fn contexts_use_room(s: SummaryView, cs: Seq<RequiredContext>, n: int)
    requires
        has_room(s.checks, cs.len() + n),
        0 <= n,
    ensures
        has_room(with_contexts(s, cs).checks, n),
    decreases cs.len(),
{
    if cs.len() > 0 {
        contexts_use_room(s, cs.drop_last(), n + 1);
        let mid = with_contexts(s, cs.drop_last()).checks;
        assert forall|lamp: Lamp| #[trigger]
            with_contexts(s, cs).checks.count(lamp) + n <= u64::MAX by {
            assert(mid.count(lamp) + (n + 1) <= u64::MAX);
        }
    }
}

/// Counts a page of checks in a summary.
fn add_all(contexts: &Vec<RequiredContext>, summary: &mut RequiredSummary)
    requires
        has_room(old(summary).checks, contexts@.len() as int),
    ensures
        final(summary)@ == with_contexts(old(summary)@, contexts@),
{
    let ghost before = summary@;
    let mut i: usize = 0;
    assert(contexts@.take(0) =~= Seq::empty());
    while i < contexts.len()
        invariant
            i <= contexts@.len(),
            has_room(before.checks, contexts@.len() as int),
            summary@ == with_contexts(before, contexts@.take(i as int)),
        decreases contexts@.len() - i,
    {
        assert(contexts@.take(i + 1).drop_last() =~= contexts@.take(i as int));
        assert(contexts@.take(i + 1).last() == contexts@[i as int]);
        proof {
            assert forall|lamp: Lamp| #[trigger]
                before.checks.count(lamp) + (contexts@.take(i as int).len() + 1) <= u64::MAX by {
                assert(before.checks.count(lamp) + contexts@.len() <= u64::MAX);
            }
            contexts_use_room(before, contexts@.take(i as int), 1);
        }
        contexts[i].add_to(summary);
        i += 1;
    }
    assert(contexts@.take(contexts@.len() as int) =~= contexts@);
}

/// A commit whose checks are still being asked for: which of the targets it is,
/// and where its next page starts.
pub struct PendingRequired {
    pub target: usize,
    pub pull_request_number: i64,
    pub commit_id: String,
    pub after: Option<String>,
}

/// A pending commit as characters.
#[verifier::ext_equal]
pub struct PendingView {
    pub target: int,
    pub number: int,
    pub commit: Seq<char>,
    pub after: Option<Seq<char>>,
}

impl View for PendingRequired {
    type V = PendingView;

    open spec fn view(&self) -> PendingView {
        PendingView {
            target: self.target as int,
            number: self.pull_request_number as int,
            commit: self.commit_id@,
            after: opt_string(self.after),
        }
    }
}

/// Several pending commits.
pub open spec fn pending_view(p: Seq<PendingRequired>) -> Seq<PendingView> {
    Seq::new(p.len(), |i: int| p[i]@)
}

/// Several summaries.
pub open spec fn summaries_view(s: Seq<RequiredSummary>) -> Seq<SummaryView> {
    Seq::new(s.len(), |i: int| s[i]@)
}

/// The variable declarations of one pending commit.
pub open spec fn declaration(alias: nat) -> Seq<char> {
    "$commit"@ + decimal(alias) + ": ID!, $pull"@ + decimal(alias) + ": Int!, $after"@ + decimal(
        alias,
    ) + ": String"@
}

/// The variable declarations of the first `n` pending commits.
pub open spec fn declarations(n: nat) -> Seq<char>
    decreases n,
{
    if n == 0 {
        Seq::empty()
    } else if n == 1 {
        declaration(0)
    } else {
        declarations((n - 1) as nat) + ", "@ + declaration((n - 1) as nat)
    }
}

pub const FIELD_COMMIT: &'static str = ": node(id: $commit";

pub const FIELD_AFTER: &'static str = r#") {
  ... on Commit {
    statusCheckRollup {
      contexts(first: 100, after: $after"#;

pub const FIELD_RUN: &'static str = r#") {
        pageInfo { hasNextPage endCursor }
        nodes {
          __typename
          ... on CheckRun {
            required: isRequired(pullRequestNumber: $pull"#;

pub const FIELD_STATUS: &'static str = r#")
            status conclusion startedAt
          }
          ... on StatusContext {
            required: isRequired(pullRequestNumber: $pull"#;

pub const FIELD_END: &'static str = r#")
            state
          }
        }
      }
    }
  }
}
"#;

/// The aliased lookup of one pending commit.
pub open spec fn field(alias: nat) -> Seq<char> {
    "c"@ + decimal(alias) + FIELD_COMMIT@ + decimal(alias) + FIELD_AFTER@ + decimal(alias)
        + FIELD_RUN@ + decimal(alias) + FIELD_STATUS@ + decimal(alias) + FIELD_END@
}

/// The aliased lookups of the first `n` pending commits.
pub open spec fn fields(n: nat) -> Seq<char>
    decreases n,
{
    if n == 0 {
        Seq::empty()
    } else {
        fields((n - 1) as nat) + field((n - 1) as nat)
    }
}

/// The query that asks for the next page of each of `n` pending commits.
pub open spec fn query_text(n: nat) -> Seq<char> {
    "query("@ + declarations(n) + ") {\n"@ + fields(n) + "}"@
}

/// The variables of the pending commits.
pub open spec fn query_variables(pending: Seq<PendingView>) -> Map<Seq<char>, JsonView>
    decreases pending.len(),
{
    if pending.len() == 0 {
        no_members()
    } else {
        let alias = (pending.len() - 1) as nat;
        let item = pending.last();
        query_variables(pending.drop_last()).insert(
            "commit"@ + decimal(alias),
            JsonView::Text(item.commit),
        ).insert("pull"@ + decimal(alias), JsonView::Number(item.number)).insert(
            "after"@ + decimal(alias),
            match item.after {
                Some(c) => JsonView::Text(c),
                None => JsonView::Null,
            },
        )
    }
}

/// The query that asks for the next page of every pending commit, and its
/// variables: one aliased commit lookup per pending commit.
pub fn required_query(pending: &[PendingRequired]) -> (r: (String, Variables))
    ensures
        r.0@ == query_text(pending@.len()),
        r.1@ == query_variables(pending_view(pending@)),
{
    let ghost all = pending_view(pending@);
    let mut declared: String = String::new();
    let mut body: String = String::new();
    let mut variables: Variables = Variables::new();
    let mut i: usize = 0;
    assert(declared@ =~= Seq::empty());
    assert(body@ =~= Seq::empty());
    assert(all.take(0) =~= Seq::empty());
    while i < pending.len()
        invariant
            i <= pending@.len(),
            all == pending_view(pending@),
            declared@ == declarations(i as nat),
            body@ == fields(i as nat),
            variables@ == query_variables(all.take(i as int)),
        decreases pending@.len() - i,
    {
        let item: &PendingRequired = &pending[i];
        let alias: String = dec(i as u64);
        assert(all.take(i + 1).drop_last() =~= all.take(i as int));
        assert(all.take(i + 1).last() == item@);
        let mut one: String = "$commit".to_owned();
        one.append(alias.as_str());
        one.append(": ID!, $pull");
        one.append(alias.as_str());
        one.append(": Int!, $after");
        one.append(alias.as_str());
        one.append(": String");
        assert(one@ == declaration(i as nat));
        if i > 0 {
            declared.append(", ");
        }
        declared.append(one.as_str());
        assert(i == 0 ==> declared@ =~= declaration(0));
        let mut lookup: String = "c".to_owned();
        lookup.append(alias.as_str());
        lookup.append(FIELD_COMMIT);
        lookup.append(alias.as_str());
        lookup.append(FIELD_AFTER);
        lookup.append(alias.as_str());
        lookup.append(FIELD_RUN);
        lookup.append(alias.as_str());
        lookup.append(FIELD_STATUS);
        lookup.append(alias.as_str());
        lookup.append(FIELD_END);
        assert(lookup@ == field(i as nat));
        body.append(lookup.as_str());
        variables.set_text(concat("commit", alias.as_str()).as_str(), item.commit_id.as_str());
        variables.set(
            concat("pull", alias.as_str()).as_str(),
            Variable::Number(item.pull_request_number),
        );
        let after: Variable = match &item.after {
            Some(c) => Variable::Text(c.clone()),
            None => Variable::Null,
        };
        variables.set(concat("after", alias.as_str()).as_str(), after);
        i += 1;
    }
    assert(all.take(pending@.len() as int) =~= all);
    let mut query: String = "query(".to_owned();
    query.append(declared.as_str());
    query.append(") {\n");
    query.append(body.as_str());
    query.append("}");
    (query, variables)
}

/// Why the required checks could not be read.
#[derive(Clone, Copy, Debug, PartialEq, Eq, Structural)]
pub enum RequiredError {
    /// The reply lacks a commit that was asked for.
    Omitted(usize),
    /// A commit that was asked for does not exist any more.
    Unavailable(usize),
    /// More pages follow, but the reply does not say where.
    NoCursor,
}

impl RequiredError {
    /// What the error says.
    pub fn message(&self) -> (m: String)
        ensures
            m@ == (match self {
                RequiredError::Omitted(alias) => "required-check response omitted c"@ + decimal(
                    *alias as nat,
                ),
                RequiredError::Unavailable(alias) => "required-check commit c"@ + decimal(
                    *alias as nat,
                ) + " was unavailable"@,
                RequiredError::NoCursor => "required-check page had no end cursor"@,
            }),
    {
        match self {
            RequiredError::Omitted(alias) => concat(
                "required-check response omitted c",
                dec(*alias as u64).as_str(),
            ),
            RequiredError::Unavailable(alias) => concat(
                concat("required-check commit c", dec(*alias as u64).as_str()).as_str(),
                " was unavailable",
            ),
            RequiredError::NoCursor => "required-check page had no end cursor".to_owned(),
        }
    }
}

/// A reply: for each alias the commit, or nothing where there is none.
pub type RequiredReply = Vec<(String, Option<RequiredCommit>)>;

/// The answer to an alias: the first entry under its name.
pub open spec fn answer(data: Seq<(String, Option<RequiredCommit>)>, key: Seq<char>) -> Option<
    Option<RequiredCommit>,
>
    decreases data.len(),
{
    if data.len() == 0 {
        None
    } else if data[0].0@ == key {
        Some(data[0].1)
    } else {
        answer(data.drop_first(), key)
    }
}

/// The answer to an alias.
fn find_answer<'a>(data: &'a RequiredReply, key: &str) -> (r: Option<&'a Option<RequiredCommit>>)
    ensures
        match r {
            Some(c) => answer(data@, key@) == Some(*c),
            None => answer(data@, key@) is None,
        },
{
    let mut i: usize = 0;
    assert(data@.skip(0) =~= data@);
    while i < data.len()
        invariant
            i <= data@.len(),
            answer(data@, key@) == answer(data@.skip(i as int), key@),
        decreases data@.len() - i,
    {
        assert(data@.skip(i as int)[0] == data@[i as int]);
        assert(data@.skip(i as int).drop_first() =~= data@.skip(i + 1));
        if same(data[i].0.as_str(), key) {
            return Some(&data[i].1);
        }
        i += 1;
    }
    None
}

/// How far the required checks of a set of commits have been read.
pub struct RequiredFetch {
    pub summaries: Vec<RequiredSummary>,
    pub pending: Vec<PendingRequired>,
}

/// A fetch as summaries and pending commits.
#[verifier::ext_equal]
pub struct FetchView {
    pub summaries: Seq<SummaryView>,
    pub pending: Seq<PendingView>,
}

impl View for RequiredFetch {
    type V = FetchView;

    open spec fn view(&self) -> FetchView {
        FetchView {
            summaries: summaries_view(self.summaries@),
            pending: pending_view(self.pending@),
        }
    }
}

impl FetchView {
    /// Every pending commit is one of the targets, and none is pending twice.
    pub open spec fn valid(self) -> bool {
        &&& forall|i: int|
            0 <= i < self.pending.len() ==> 0 <= (#[trigger] self.pending[i]).target
                < self.summaries.len()
        &&& forall|i: int, j: int|
            0 <= i < j < self.pending.len() ==> (#[trigger] self.pending[i]).target
                != (#[trigger] self.pending[j]).target
    }

    /// What one answer makes of a fetch: its checks are counted, and the commit
    /// stays pending where another page follows.
    pub open spec fn step(
        self,
        item: PendingView,
        alias: int,
        answered: Option<Option<RequiredCommit>>,
    ) -> Result<FetchView, RequiredError> {
        match answered {
            None => Err(RequiredError::Omitted(alias as usize)),
            Some(None) => Err(RequiredError::Unavailable(alias as usize)),
            Some(Some(commit)) => match commit.status_check_rollup {
                None => Ok(self),
                Some(rollup) => {
                    let counted = self.summaries.update(
                        item.target,
                        with_contexts(self.summaries[item.target], rollup.contexts.nodes@),
                    );
                    if !rollup.contexts.page_info.has_next_page {
                        Ok(FetchView { summaries: counted, pending: self.pending })
                    } else {
                        match rollup.contexts.page_info.end_cursor {
                            None => Err(RequiredError::NoCursor),
                            Some(c) => Ok(
                                FetchView {
                                    summaries: counted,
                                    pending: self.pending.push(
                                        PendingView { after: Some(c@), ..item },
                                    ),
                                },
                            ),
                        }
                    }
                },
            },
        }
    }

    /// What the answers to the first `k` pending commits make of a fetch.
    pub open spec fn absorbed(self, data: Seq<(String, Option<RequiredCommit>)>, k: int) -> Result<
        FetchView,
        RequiredError,
    >
        decreases k,
    {
        if k <= 0 {
            Ok(FetchView { summaries: self.summaries, pending: Seq::empty() })
        } else {
            match self.absorbed(data, k - 1) {
                Err(e) => Err(e),
                Ok(so_far) => so_far.step(
                    self.pending[k - 1],
                    k - 1,
                    answer(data, "c"@ + decimal((k - 1) as nat)),
                ),
            }
        }
    }

    /// Whether every count has room for any page of the reply.
    pub open spec fn has_room(self, data: Seq<(String, Option<RequiredCommit>)>) -> bool {
        forall|i: int, key: Seq<char>|
            #![trigger self.summaries[i], answer(data, key)]
            0 <= i < self.summaries.len() ==> (answer(data, key) matches Some(Some(commit)) ==> (
            commit.status_check_rollup matches Some(rollup) ==> has_room(
                self.summaries[i].checks,
                rollup.contexts.nodes@.len() as int,
            )))
    }
}

/// The page that a reply holds of a pending commit; none where the commit has no
/// checks.
pub open spec fn page(data: Seq<(String, Option<RequiredCommit>)>, alias: int) -> Option<
    RequiredContexts,
> {
    match answer(data, "c"@ + decimal(alias as nat)) {
        Some(Some(commit)) => match commit.status_check_rollup {
            Some(rollup) => Some(rollup.contexts),
            None => None,
        },
        _ => None,
    }
}

/// A summary with the checks of a page.
pub open spec fn with_page(s: SummaryView, page: Option<RequiredContexts>) -> SummaryView {
    match page {
        Some(contexts) => with_contexts(s, contexts.nodes@),
        None => s,
    }
}

/// Whether `next` is what is asked for after a page: the same commit, from where
/// that page ends on.
pub open spec fn follows(next: PendingView, item: PendingView, page: Option<RequiredContexts>) -> bool {
    &&& page is Some
    &&& page->0.page_info.has_next_page
    &&& page->0.page_info.end_cursor is Some
    &&& next == (PendingView { after: Some(page->0.page_info.end_cursor->0@), ..item })
}

/// A reply adds no summary and drops none.
proof fn a_reply_keeps_the_targets(
    f: FetchView,
    data: Seq<(String, Option<RequiredCommit>)>,
    k: int,
)
    requires
        f.valid(),
        k <= f.pending.len(),
        f.absorbed(data, k) is Ok,
    ensures
        f.absorbed(data, k)->Ok_0.summaries.len() == f.summaries.len(),
    decreases k,
{
    if k > 0 {
        a_reply_keeps_the_targets(f, data, k - 1);
        assert(0 <= f.pending[k - 1].target < f.summaries.len());
    }
}

/// What one more answer adds: its page is counted, and the commit is asked for
/// again where another page follows.
proof fn one_more_answer(f: FetchView, data: Seq<(String, Option<RequiredCommit>)>, k: int)
    requires
        f.valid(),
        0 < k <= f.pending.len(),
        f.absorbed(data, k) is Ok,
    ensures
        f.absorbed(data, k - 1) is Ok,
        ({
            let before = f.absorbed(data, k - 1)->Ok_0;
            let next = f.absorbed(data, k)->Ok_0;
            let item = f.pending[k - 1];
            let more = page(data, k - 1) is Some && page(data, k - 1)->0.page_info.has_next_page;
            &&& next.summaries == before.summaries.update(
                item.target,
                with_page(before.summaries[item.target], page(data, k - 1)),
            )
            &&& more ==> next.pending.len() == before.pending.len() + 1
                && next.pending.drop_last() == before.pending && follows(
                next.pending.last(),
                item,
                page(data, k - 1),
            )
            &&& !more ==> next.pending == before.pending
        }),
{
    let before = f.absorbed(data, k - 1)->Ok_0;
    let next = f.absorbed(data, k)->Ok_0;
    let item = f.pending[k - 1];
    a_reply_keeps_the_targets(f, data, k - 1);
    assert(0 <= item.target < f.summaries.len());
    assert(before.summaries.update(item.target, before.summaries[item.target])
        =~= before.summaries);
    if next.pending.len() > before.pending.len() {
        assert(next.pending.drop_last() =~= before.pending);
    }
}

/// A reply counts each of its pages once, for the commit that it is a page of,
/// and leaves every other summary as it was.
pub proof fn a_reply_counts_its_pages(
    f: FetchView,
    data: Seq<(String, Option<RequiredCommit>)>,
    k: int,
)
    requires
        f.valid(),
        0 <= k <= f.pending.len(),
        f.absorbed(data, k) is Ok,
    ensures
        ({
            let next = f.absorbed(data, k)->Ok_0;
            &&& next.summaries.len() == f.summaries.len()
            &&& forall|i: int|
                0 <= i < k ==> next.summaries[(#[trigger] f.pending[i]).target] == with_page(
                    f.summaries[f.pending[i].target],
                    page(data, i),
                )
            &&& forall|t: int|
                0 <= t < f.summaries.len() && (forall|i: int|
                    0 <= i < k ==> (#[trigger] f.pending[i]).target != t)
                    ==> #[trigger] next.summaries[t] == f.summaries[t]
        }),
    decreases k,
{
    if k > 0 {
        one_more_answer(f, data, k);
        a_reply_counts_its_pages(f, data, k - 1);
        let before = f.absorbed(data, k - 1)->Ok_0;
        let next = f.absorbed(data, k)->Ok_0;
        let item = f.pending[k - 1];
        assert forall|i: int| 0 <= i < k implies next.summaries[(
        #[trigger] f.pending[i]).target] == with_page(
            f.summaries[f.pending[i].target],
            page(data, i),
        ) by {
            if i < k - 1 {
                assert(f.pending[i].target != item.target);
            } else {
                assert(before.summaries[item.target] == f.summaries[item.target]);
            }
        }
        assert forall|t: int|
            0 <= t < f.summaries.len() && (forall|i: int|
                0 <= i < k ==> (#[trigger] f.pending[i]).target
                    != t) implies #[trigger] next.summaries[t] == f.summaries[t] by {
            assert(item.target != t);
            assert(before.summaries[t] == f.summaries[t]);
        }
    }
}

/// What is asked for next are just the commits that have another page, each from
/// where its last page ends on; so a commit that is done is never asked for again.
pub proof fn only_commits_with_another_page_stay(
    f: FetchView,
    data: Seq<(String, Option<RequiredCommit>)>,
    k: int,
)
    requires
        f.valid(),
        0 <= k <= f.pending.len(),
        f.absorbed(data, k) is Ok,
    ensures
        ({
            let next = f.absorbed(data, k)->Ok_0;
            &&& forall|j: int|
                0 <= j < next.pending.len() ==> exists|i: int|
                    0 <= i < k && follows(
                        #[trigger] next.pending[j],
                        #[trigger] f.pending[i],
                        page(data, i),
                    )
            &&& forall|i: int|
                0 <= i < k && page(data, i) is Some && page(data, i)->0.page_info.has_next_page
                    ==> exists|j: int|
                    0 <= j < next.pending.len() && follows(
                        #[trigger] next.pending[j],
                        #[trigger] f.pending[i],
                        page(data, i),
                    )
        }),
    decreases k,
{
    if k > 0 {
        one_more_answer(f, data, k);
        only_commits_with_another_page_stay(f, data, k - 1);
        let before = f.absorbed(data, k - 1)->Ok_0;
        let next = f.absorbed(data, k)->Ok_0;
        let n = before.pending.len() as int;
        assert forall|j: int| 0 <= j < n implies next.pending[j] == before.pending[j] by {
            if next.pending.len() > n {
                assert(next.pending.drop_last()[j] == next.pending[j]);
            }
        }
        assert forall|j: int| 0 <= j < next.pending.len() implies exists|i: int|
            0 <= i < k && follows(
                #[trigger] next.pending[j],
                #[trigger] f.pending[i],
                page(data, i),
            ) by {
            if j < n {
                let i = choose|i: int|
                    0 <= i < k - 1 && follows(
                        #[trigger] before.pending[j],
                        #[trigger] f.pending[i],
                        page(data, i),
                    );
                assert(follows(next.pending[j], f.pending[i], page(data, i)));
            } else {
                assert(follows(next.pending[j], f.pending[k - 1], page(data, k - 1)));
            }
        }
        assert forall|i: int|
            0 <= i < k && page(data, i) is Some && page(
                data,
                i,
            )->0.page_info.has_next_page implies exists|j: int|
            0 <= j < next.pending.len() && follows(
                #[trigger] next.pending[j],
                #[trigger] f.pending[i],
                page(data, i),
            ) by {
            if i < k - 1 {
                let j = choose|j: int|
                    0 <= j < before.pending.len() && follows(
                        #[trigger] before.pending[j],
                        #[trigger] f.pending[i],
                        page(data, i),
                    );
                assert(follows(next.pending[j], f.pending[i], page(data, i)));
            } else {
                assert(follows(next.pending[n], f.pending[i], page(data, i)));
            }
        }
    }
}

impl RequiredFetch {
    /// A fetch that has read nothing yet.
    pub fn start(targets: &Vec<RequiredTarget>) -> (r: Self)
        ensures
            r@.valid(),
            r@.summaries == Seq::new(targets@.len(), |i: int| no_checks()),
            r@.pending == Seq::new(
                targets@.len(),
                |i: int|
                    PendingView {
                        target: i,
                        number: targets@[i].pull_request_number as int,
                        commit: targets@[i].commit_id@,
                        after: None,
                    },
            ),
    {
        let mut summaries: Vec<RequiredSummary> = Vec::new();
        let mut pending: Vec<PendingRequired> = Vec::new();
        let mut i: usize = 0;
        while i < targets.len()
            invariant
                i <= targets@.len(),
                summaries@.len() == i,
                pending@.len() == i,
                forall|j: int| 0 <= j < i ==> (#[trigger] summaries@[j])@ == no_checks(),
                forall|j: int|
                    0 <= j < i ==> (#[trigger] pending@[j])@ == (PendingView {
                        target: j,
                        number: targets@[j].pull_request_number as int,
                        commit: targets@[j].commit_id@,
                        after: None,
                    }),
            decreases targets@.len() - i,
        {
            summaries.push(
                RequiredSummary {
                    checks: Checks { fail: 0, running: 0, pass: 0 },
                    build_started_at: None,
                },
            );
            pending.push(
                PendingRequired {
                    target: i,
                    pull_request_number: targets[i].pull_request_number,
                    commit_id: targets[i].commit_id.clone(),
                    after: None,
                },
            );
            i += 1;
        }
        let r = RequiredFetch { summaries, pending };
        assert(r@.summaries =~= Seq::new(targets@.len(), |i: int| no_checks()));
        r
    }

    /// Whether every page has been read.
    pub fn is_done(&self) -> (r: bool)
        ensures
            r == (self@.pending.len() == 0),
    {
        self.pending.len() == 0
    }

    /// Takes in the reply to the query for the pending commits. What is left
    /// pending are the commits that have another page.
    pub fn absorb(self, data: &RequiredReply) -> (r: Result<RequiredFetch, RequiredError>)
        requires
            self@.valid(),
            self@.has_room(data@),
        ensures
            match r {
                Ok(next) => next@.valid() && self@.absorbed(data@, self@.pending.len() as int)
                    == Ok::<FetchView, RequiredError>(next@) && next@.summaries.len()
                    == self@.summaries.len(),
                Err(e) => self@.absorbed(data@, self@.pending.len() as int) == Err::<
                    FetchView,
                    RequiredError,
                >(e),
            },
    {
        let ghost before = self@;
        let RequiredFetch { summaries, pending } = self;
        let mut summaries: Vec<RequiredSummary> = summaries;
        let mut next: Vec<PendingRequired> = Vec::new();
        let mut k: usize = 0;
        assert(pending_view(next@) =~= Seq::empty());
        assert forall|j: int| 0 <= j < pending@.len() implies (#[trigger] pending@[j]).target
            < summaries@.len() by {
            assert(before.pending[j] == pending@[j]@);
        }
        while k < pending.len()
            invariant
                k <= pending@.len(),
                self@ == before,
                forall|j: int|
                    0 <= j < pending@.len() ==> (#[trigger] pending@[j]).target < summaries@.len(),
                before.valid(),
                before.has_room(data@),
                before.pending == pending_view(pending@),
                summaries@.len() == before.summaries.len(),
                before.absorbed(data@, k as int) == Ok::<FetchView, RequiredError>(
                    FetchView {
                        summaries: summaries_view(summaries@),
                        pending: pending_view(next@),
                    },
                ),
                forall|j: int|
                    k <= j < pending@.len() ==> summaries@[(
                    #[trigger] pending@[j]).target as int]@
                        == before.summaries[pending@[j].target as int],
                forall|i: int|
                    0 <= i < next@.len() ==> (#[trigger] next@[i]).target < summaries@.len(),
                forall|i: int, j: int|
                    0 <= i < j < next@.len() ==> (#[trigger] next@[i]).target != (
                    #[trigger] next@[j]).target,
                forall|i: int, j: int|
                    0 <= i < next@.len() && k <= j < pending@.len() ==> (
                    #[trigger] next@[i]).target != (#[trigger] pending@[j]).target,
            decreases pending@.len() - k,
        {
            let item: &PendingRequired = &pending[k];
            assert(before.pending[k as int] == item@);
            let alias: String = concat("c", dec(k as u64).as_str());
            let commit: &RequiredCommit = match find_answer(data, alias.as_str()) {
                None => {
                    proof {
                        before.failing(data@, k as int + 1, pending@.len() as int);
                    }
                    return Err(RequiredError::Omitted(k));
                },
                Some(None) => {
                    proof {
                        before.failing(data@, k as int + 1, pending@.len() as int);
                    }
                    return Err(RequiredError::Unavailable(k));
                },
                Some(Some(commit)) => commit,
            };
            match &commit.status_check_rollup {
                None => {},
                Some(rollup) => {
                    let ghost old_views = summaries_view(summaries@);
                    let mut summary: RequiredSummary = summaries[item.target].clone();
                    proof {
                        assert(before.summaries[item.target as int] == summary@);
                        assert(answer(data@, alias@) == Some(Some(*commit)));
                        assert(has_room(summary.checks, rollup.contexts.nodes@.len() as int));
                        assert forall|j: int| k < j < pending@.len() implies (
                        #[trigger] pending@[j]).target != item.target by {
                            assert(before.pending[j] == pending@[j]@);
                        }
                    }
                    add_all(&rollup.contexts.nodes, &mut summary);
                    let ghost counted = summary@;
                    summaries.set(item.target, summary);
                    assert(summaries_view(summaries@) =~= old_views.update(
                        item.target as int,
                        counted,
                    ));
                    if rollup.contexts.page_info.has_next_page {
                        match &rollup.contexts.page_info.end_cursor {
                            None => {
                                proof {
                                    before.failing(data@, k as int + 1, pending@.len() as int);
                                }
                                return Err(RequiredError::NoCursor);
                            },
                            Some(c) => {
                                let ghost old_next = pending_view(next@);
                                let again = PendingRequired {
                                    target: item.target,
                                    pull_request_number: item.pull_request_number,
                                    commit_id: item.commit_id.clone(),
                                    after: Some(c.clone()),
                                };
                                next.push(again);
                                assert(pending_view(next@) =~= old_next.push(again@));
                            },
                        }
                    }
                },
            }
            k += 1;
        }
        let r = RequiredFetch { summaries, pending: next };
        assert(r@ == (FetchView {
            summaries: summaries_view(summaries@),
            pending: pending_view(next@),
        }));
        Ok(r)
    }
}

impl FetchView {
    /// An answer that cannot be used ends the fetch, whatever follows it.
    proof fn failing(self, data: Seq<(String, Option<RequiredCommit>)>, k: int, n: int)
        requires
            0 <= k <= n,
            self.absorbed(data, k) is Err,
        ensures
            self.absorbed(data, n) == self.absorbed(data, k),
        decreases n - k,
    {
        if k < n {
            self.failing(data, k, n - 1);
        }
    }
}

/// The PRs that have a commit to ask about.
pub open spec fn with_commit(nodes: Seq<PrNode>) -> Seq<bool> {
    Seq::new(nodes.len(), |i: int| nodes[i].commits.nodes@.len() > 0)
}

/// The queue entries that have a speculative commit to ask about.
pub open spec fn with_head(nodes: Seq<QueueEntryNode>) -> Seq<bool> {
    Seq::new(nodes.len(), |i: int| nodes[i].head_commit is Some)
}

/// What to ask about the open PRs: the last commit of each that has one.
pub fn mine_targets(nodes: &Vec<PrNode>) -> (r: (Vec<usize>, Vec<RequiredTarget>))
    ensures
        ints(r.0@) == indices(with_commit(nodes@)),
        r.1@.len() == r.0@.len(),
        forall|k: int|
            0 <= k < r.0@.len() ==> (#[trigger] r.0@[k]) < nodes@.len()
                && r.1@[k].pull_request_number == nodes@[r.0@[k] as int].number
                && r.1@[k].commit_id@ == nodes@[r.0@[k] as int].commits.nodes@[0].commit.id@,
{
    let ghost flags = with_commit(nodes@);
    let mut at: Vec<usize> = Vec::new();
    let mut targets: Vec<RequiredTarget> = Vec::new();
    let mut i: usize = 0;
    assert(flags.take(0) =~= Seq::empty());
    assert(ints(at@) =~= Seq::empty());
    while i < nodes.len()
        invariant
            i <= nodes@.len(),
            flags == with_commit(nodes@),
            ints(at@) == indices(flags.take(i as int)),
            targets@.len() == at@.len(),
            forall|k: int|
                0 <= k < at@.len() ==> (#[trigger] at@[k]) < nodes@.len()
                    && targets@[k].pull_request_number == nodes@[at@[k] as int].number
                    && targets@[k].commit_id@
                    == nodes@[at@[k] as int].commits.nodes@[0].commit.id@,
        decreases nodes@.len() - i,
    {
        assert(flags.take(i + 1).drop_last() =~= flags.take(i as int));
        if nodes[i].commits.nodes.len() > 0 {
            let ghost before = ints(at@);
            at.push(i);
            assert(ints(at@) =~= before.push(i as int));
            targets.push(
                RequiredTarget {
                    pull_request_number: nodes[i].number,
                    commit_id: nodes[i].commits.nodes[0].commit.id.clone(),
                },
            );
        }
        i += 1;
    }
    assert(flags.take(nodes@.len() as int) =~= flags);
    (at, targets)
}

/// What to ask about the merge queue: the speculative commit of each entry that
/// has one.
pub fn queue_targets(nodes: &Vec<QueueEntryNode>) -> (r: (Vec<usize>, Vec<RequiredTarget>))
    ensures
        ints(r.0@) == indices(with_head(nodes@)),
        r.1@.len() == r.0@.len(),
        forall|k: int|
            0 <= k < r.0@.len() ==> (#[trigger] r.0@[k]) < nodes@.len()
                && r.1@[k].pull_request_number == nodes@[r.0@[k] as int].pull_request.number
                && r.1@[k].commit_id@ == nodes@[r.0@[k] as int].head_commit->0.id@,
{
    let ghost flags = with_head(nodes@);
    let mut at: Vec<usize> = Vec::new();
    let mut targets: Vec<RequiredTarget> = Vec::new();
    let mut i: usize = 0;
    assert(flags.take(0) =~= Seq::empty());
    assert(ints(at@) =~= Seq::empty());
    while i < nodes.len()
        invariant
            i <= nodes@.len(),
            flags == with_head(nodes@),
            ints(at@) == indices(flags.take(i as int)),
            targets@.len() == at@.len(),
            forall|k: int|
                0 <= k < at@.len() ==> (#[trigger] at@[k]) < nodes@.len()
                    && targets@[k].pull_request_number
                    == nodes@[at@[k] as int].pull_request.number && targets@[k].commit_id@
                    == nodes@[at@[k] as int].head_commit->0.id@,
        decreases nodes@.len() - i,
    {
        assert(flags.take(i + 1).drop_last() =~= flags.take(i as int));
        match &nodes[i].head_commit {
            Some(commit) => {
                let ghost before = ints(at@);
                at.push(i);
                assert(ints(at@) =~= before.push(i as int));
                targets.push(
                    RequiredTarget {
                        pull_request_number: nodes[i].pull_request.number,
                        commit_id: commit.id.clone(),
                    },
                );
            },
            None => {},
        }
        i += 1;
    }
    assert(flags.take(nodes@.len() as int) =~= flags);
    (at, targets)
}

/// Whether the positions are distinct ones of `n`.
pub open spec fn distinct_below(at: Seq<usize>, n: int) -> bool {
    &&& forall|k: int| 0 <= k < at.len() ==> #[trigger] at[k] < n
    &&& forall|j: int, k: int| 0 <= j < k < at.len() ==> #[trigger] at[j] != #[trigger] at[k]
}

/// Gives each of the PRs at the listed positions its required checks.
pub fn attach_mine(nodes: &mut Vec<PrNode>, at: &Vec<usize>, summaries: &Vec<RequiredSummary>)
    requires
        at@.len() == summaries@.len(),
        distinct_below(at@, old(nodes)@.len() as int),
    ensures
        final(nodes)@.len() == old(nodes)@.len(),
        forall|k: int|
            0 <= k < at@.len() ==> final(nodes)@[(#[trigger] at@[k]) as int] == (PrNode {
                required_checks: Some(summaries@[k].checks),
                ..old(nodes)@[at@[k] as int]
            }),
        forall|i: int|
            0 <= i < old(nodes)@.len() && !ints(at@).contains(i) ==> #[trigger] final(nodes)@[i]
                == old(nodes)@[i],
{
    let ghost before = nodes@;
    let mut k: usize = 0;
    while k < at.len()
        invariant
            k <= at@.len() == summaries@.len(),
            nodes@.len() == before.len(),
            distinct_below(at@, before.len() as int),
            forall|j: int|
                0 <= j < k ==> nodes@[(#[trigger] at@[j]) as int] == (PrNode {
                    required_checks: Some(summaries@[j].checks),
                    ..before[at@[j] as int]
                }),
            forall|j: int|
                k <= j < at@.len() ==> nodes@[(#[trigger] at@[j]) as int] == before[at@[j] as int],
            forall|i: int|
                0 <= i < before.len() && !ints(at@).contains(i) ==> #[trigger] nodes@[i]
                    == before[i],
        decreases at@.len() - k,
    {
        let i: usize = at[k];
        assert(ints(at@)[k as int] == i);
        assert(ints(at@).contains(i as int));
        nodes[i].required_checks = Some(summaries[k].checks);
        k += 1;
    }
}

/// Gives each of the queue entries at the listed positions its required checks.
pub fn attach_queue(
    nodes: &mut Vec<QueueEntryNode>,
    at: &Vec<usize>,
    summaries: &Vec<RequiredSummary>,
)
    requires
        at@.len() == summaries@.len(),
        distinct_below(at@, old(nodes)@.len() as int),
    ensures
        final(nodes)@.len() == old(nodes)@.len(),
        forall|k: int|
            0 <= k < at@.len() ==> final(nodes)@[(#[trigger] at@[k]) as int] == (QueueEntryNode {
                required: Some(summaries@[k]),
                ..old(nodes)@[at@[k] as int]
            }),
        forall|i: int|
            0 <= i < old(nodes)@.len() && !ints(at@).contains(i) ==> #[trigger] final(nodes)@[i]
                == old(nodes)@[i],
{
    let ghost before = nodes@;
    let mut k: usize = 0;
    while k < at.len()
        invariant
            k <= at@.len() == summaries@.len(),
            nodes@.len() == before.len(),
            distinct_below(at@, before.len() as int),
            forall|j: int|
                0 <= j < k ==> nodes@[(#[trigger] at@[j]) as int] == (QueueEntryNode {
                    required: Some(summaries@[j]),
                    ..before[at@[j] as int]
                }),
            forall|j: int|
                k <= j < at@.len() ==> nodes@[(#[trigger] at@[j]) as int] == before[at@[j] as int],
            forall|i: int|
                0 <= i < before.len() && !ints(at@).contains(i) ==> #[trigger] nodes@[i]
                    == before[i],
        decreases at@.len() - k,
    {
        let i: usize = at[k];
        assert(ints(at@)[k as int] == i);
        assert(ints(at@).contains(i as int));
        nodes[i].required = Some(summaries[k].clone());
        k += 1;
    }
}

/// The last commit of every PR that has one is asked about, once and in order, and
/// of no other.
pub proof fn every_commit_is_asked_about(nodes: Vec<PrNode>, r: (Vec<usize>, Vec<RequiredTarget>))
    requires
        call_ensures(mine_targets, (&nodes,), r),
    ensures
        r.1@.len() == r.0@.len(),
        forall|i: int|
            0 <= i < nodes@.len() ==> ((#[trigger] nodes@[i]).commits.nodes@.len() > 0 <==> ints(
                r.0@,
            ).contains(i)),
        forall|j: int, k: int|
            0 <= j < k < r.0@.len() ==> (#[trigger] r.0@[j]) < (#[trigger] r.0@[k]),
        forall|k: int|
            0 <= k < r.0@.len() ==> (#[trigger] r.0@[k]) < nodes@.len() && {
                let node = nodes@[r.0@[k] as int];
                &&& node.commits.nodes@.len() > 0
                &&& r.1@[k].pull_request_number == node.number
                &&& r.1@[k].commit_id@ == node.commits.nodes@[0].commit.id@
            },
{
    let flags = with_commit(nodes@);
    indices_are_the_shown(flags);
    positions_are_flagged(r.0@, flags);
    assert forall|i: int| 0 <= i < nodes@.len() implies ((
    #[trigger] nodes@[i]).commits.nodes@.len() > 0 <==> ints(r.0@).contains(i)) by {
        assert(flags[i] == (nodes@[i].commits.nodes@.len() > 0));
    }
}

/// The speculative commit of every queue entry that has one is asked about, once
/// and in order, and of no other.
pub proof fn every_speculative_commit_is_asked_about(
    nodes: Vec<QueueEntryNode>,
    r: (Vec<usize>, Vec<RequiredTarget>),
)
    requires
        call_ensures(queue_targets, (&nodes,), r),
    ensures
        r.1@.len() == r.0@.len(),
        forall|i: int|
            0 <= i < nodes@.len() ==> ((#[trigger] nodes@[i]).head_commit is Some <==> ints(
                r.0@,
            ).contains(i)),
        forall|j: int, k: int|
            0 <= j < k < r.0@.len() ==> (#[trigger] r.0@[j]) < (#[trigger] r.0@[k]),
        forall|k: int|
            0 <= k < r.0@.len() ==> (#[trigger] r.0@[k]) < nodes@.len() && {
                let node = nodes@[r.0@[k] as int];
                &&& node.head_commit is Some
                &&& r.1@[k].pull_request_number == node.pull_request.number
                &&& r.1@[k].commit_id@ == node.head_commit->0.id@
            },
{
    let flags = with_head(nodes@);
    indices_are_the_shown(flags);
    positions_are_flagged(r.0@, flags);
    assert forall|i: int| 0 <= i < nodes@.len() implies ((
    #[trigger] nodes@[i]).head_commit is Some <==> ints(r.0@).contains(i)) by {
        assert(flags[i] == (nodes@[i].head_commit is Some));
    }
}

/// The positions of flags are those of the flags that are set, in order.
proof fn positions_are_flagged(at: Seq<usize>, flags: Seq<bool>)
    requires
        ints(at) == indices(flags),
    ensures
        forall|i: int| 0 <= i < flags.len() ==> (#[trigger] flags[i] <==> ints(at).contains(i)),
        forall|j: int, k: int|
            0 <= j < k < at.len() ==> (#[trigger] at[j]) < (#[trigger] at[k]),
        forall|k: int| 0 <= k < at.len() ==> (#[trigger] at[k]) < flags.len() && flags[at[k] as int],
{
    indices_are_the_shown(flags);
    assert forall|i: int| 0 <= i < flags.len() implies (#[trigger] flags[i] <==> ints(at).contains(
        i,
    )) by {
        if ints(at).contains(i) {
            let k = choose|k: int| 0 <= k < ints(at).len() && ints(at)[k] == i;
            assert(indices(flags)[k] == i);
        }
    }
    assert forall|j: int, k: int| 0 <= j < k < at.len() implies (#[trigger] at[j]) < (
    #[trigger] at[k]) by {
        assert(ints(at)[j] == at[j] && ints(at)[k] == at[k]);
        assert(indices(flags)[j] < indices(flags)[k]);
    }
    assert forall|k: int| 0 <= k < at.len() implies (#[trigger] at[k]) < flags.len()
        && flags[at[k] as int] by {
        assert(ints(at)[k] == at[k]);
        assert(indices(flags)[k] == at[k]);
    }
}

} // verus!
