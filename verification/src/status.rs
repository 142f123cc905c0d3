//! The status palette: every glyph and color that the dashboard draws for
//! mergeability, approval, conflicts, the check semaphore and review state.

use crate::surface::{Color, Style};
use crate::text::{same, same_opt};
use vstd::prelude::*;

verus! {

pub const GREEN: Color = (166, 227, 161);

pub const RED: Color = (243, 139, 168);

pub const YELLOW: Color = (249, 226, 175);

pub const MAUVE: Color = (203, 166, 247);

pub const PEACH: Color = (250, 179, 135);

pub const BLUE: Color = (137, 180, 250);

pub const TEAL: Color = (148, 226, 213);

pub const LAVENDER: Color = (180, 190, 254);

/// Marks a row that changed since the last refresh.
pub const PINK: Color = (245, 194, 231);

/// The muted accent of the help legend.
pub const OVERLAY: Color = (147, 153, 178);

/// The background of the selected row.
pub const SURFACE: Color = (69, 71, 90);

/// Coarse CI and merge state of an open PR. No row shows it: it is what the
/// bell compares, so that a finishing job does not ring but a flip from red to
/// green does.
#[derive(Copy, Clone, Debug, PartialEq, Eq, Structural)]
pub enum Status {
    Conflicts,
    Fail,
    Pending,
    Pass,
}

/// Whether a PR has an approval: it answers only "did a human say yes?".
#[derive(Copy, Clone, Debug, PartialEq, Eq, Structural)]
pub enum Approval {
    /// Somebody approved it.
    Approved,
    /// Nobody has approved it yet.
    Pending,
}

/// Approval states in legend order.
pub const APPROVAL_ORDER: [Approval; 2] = [Approval::Approved, Approval::Pending];

/// Whether anybody's latest opinionated review is an approval. A later
/// change request does not undo it.
pub fn approval_of(latest_reviews: &[&str]) -> (a: Approval)
    ensures
        a == (if exists|i: int|
            0 <= i < latest_reviews@.len() && #[trigger] latest_reviews@[i]@ == "APPROVED"@ {
            Approval::Approved
        } else {
            Approval::Pending
        }),
{
    let mut i: usize = 0;
    while i < latest_reviews.len()
        invariant
            i <= latest_reviews@.len(),
            forall|j: int|
                0 <= j < i ==> #[trigger] latest_reviews@[j]@ != "APPROVED"@,
        decreases latest_reviews@.len() - i,
    {
        if same(latest_reviews[i], "APPROVED") {
            return Approval::Approved;
        }
        i += 1;
    }
    Approval::Pending
}

/// Glyph and color of an approval state.
#[verifier::allow_in_spec]
pub fn approval_style(a: Approval) -> (char, Color)
    returns
        (match a {
            Approval::Approved => ('\u{f00c}', GREEN),
            Approval::Pending => ('\u{f05e}', YELLOW),
        }),
{
    match a {
        Approval::Approved => ('\u{f00c}', GREEN),
        Approval::Pending => ('\u{f05e}', YELLOW),
    }
}

/// ASCII letter of an approval state.
#[verifier::allow_in_spec]
pub fn approval_ascii(a: Approval) -> char
    returns
        (match a {
            Approval::Approved => 'y',
            Approval::Pending => 'n',
        }),
{
    match a {
        Approval::Approved => 'y',
        Approval::Pending => 'n',
    }
}

/// The approval glyph to show: the letter in ASCII mode, else the icon.
#[verifier::allow_in_spec]
pub fn approval_glyph(a: Approval, ascii: bool) -> char
    returns
        (if ascii {
            approval_ascii(a)
        } else {
            approval_style(a).0
        }),
{
    if ascii {
        approval_ascii(a)
    } else {
        approval_style(a).0
    }
}

/// One-line meaning of an approval state.
#[verifier::allow_in_spec]
pub fn approval_meaning(a: Approval) -> &'static str
    returns
        (match a {
            Approval::Approved => "somebody approved it",
            Approval::Pending => "nobody has approved it yet",
        }),
{
    match a {
        Approval::Approved => "somebody approved it",
        Approval::Pending => "nobody has approved it yet",
    }
}

/// Whether the merge fields of a PR report a conflict with its base branch.
pub open spec fn conflicting(
    merge_state: Option<Seq<char>>,
    mergeable: Option<Seq<char>>,
) -> bool {
    mergeable == Some("CONFLICTING"@) || merge_state == Some("DIRTY"@)
}

/// The characters of an optional text.
pub open spec fn opt_text(t: Option<&str>) -> Option<Seq<char>> {
    match t {
        Some(s) => Some(s@),
        None => None,
    }
}

/// Whether a PR conflicts with its base branch. The two fields are computed
/// together and one can land first, so a conflict that either reports counts.
pub fn conflicts_of(merge_state: Option<&str>, mergeable: Option<&str>) -> (r: bool)
    ensures
        r == conflicting(opt_text(merge_state), opt_text(mergeable)),
{
    same_opt(mergeable, "CONFLICTING") || same_opt(merge_state, "DIRTY")
}

/// The marker of a conflicting PR, in front of its title.
#[verifier::allow_in_spec]
pub fn conflict_marker(ascii: bool) -> char
    returns
        (if ascii {
            '!'
        } else {
            '\u{f127}'
        }),
{
    if ascii {
        '!'
    } else {
        '\u{f127}'
    }
}

/// One-line meaning of the conflict marker.
pub const CONFLICT_MEANING: &'static str = "before a title: conflicts with the base branch \u{2014} needs a rebase";

/// Whether a PR can be merged: the leading glyph of an open PR.
#[derive(Copy, Clone, Debug, PartialEq, Eq, Structural)]
pub enum Mergeable {
    /// Nothing holds the merge.
    Ready,
    /// Reviews, required checks, the base branch or draft state hold it.
    Blocked,
    /// It conflicts with its base branch.
    Conflicts,
    /// GitHub has not said.
    Unknown,
}

/// Mergeability states in legend order.
pub const MERGEABLE_ORDER: [Mergeable; 4] = [
    Mergeable::Ready,
    Mergeable::Blocked,
    Mergeable::Conflicts,
    Mergeable::Unknown,
];

/// The mergeability that the two merge fields of a PR spell out.
pub open spec fn mergeability(
    merge_state: Option<Seq<char>>,
    mergeable: Option<Seq<char>>,
) -> Mergeable {
    if conflicting(merge_state, mergeable) {
        Mergeable::Conflicts
    } else if merge_state == Some("CLEAN"@) || merge_state == Some("HAS_HOOKS"@) || merge_state
        == Some("UNSTABLE"@) {
        Mergeable::Ready
    } else if merge_state == Some("BLOCKED"@) || merge_state == Some("BEHIND"@) || merge_state
        == Some("DRAFT"@) {
        Mergeable::Blocked
    } else {
        Mergeable::Unknown
    }
}

/// Whether a PR can be merged, from its `mergeStateStatus` and `mergeable`
/// fields.
pub fn mergeable_of(merge_state: Option<&str>, mergeable: Option<&str>) -> (m: Mergeable)
    ensures
        m == mergeability(opt_text(merge_state), opt_text(mergeable)),
{
    if conflicts_of(merge_state, mergeable) {
        Mergeable::Conflicts
    } else if same_opt(merge_state, "CLEAN") || same_opt(merge_state, "HAS_HOOKS") || same_opt(
        merge_state,
        "UNSTABLE",
    ) {
        Mergeable::Ready
    } else if same_opt(merge_state, "BLOCKED") || same_opt(merge_state, "BEHIND") || same_opt(
        merge_state,
        "DRAFT",
    ) {
        Mergeable::Blocked
    } else {
        Mergeable::Unknown
    }
}

/// A PR reads as conflicting exactly where one of its merge fields says so.
pub proof fn conflicts_and_mergeability_agree(
    merge_state: Option<Seq<char>>,
    mergeable: Option<Seq<char>>,
)
    ensures
        mergeability(merge_state, mergeable) == Mergeable::Conflicts <==> conflicting(
            merge_state,
            mergeable,
        ),
{
}

/// Glyph and color of a mergeability state.
#[verifier::allow_in_spec]
pub fn mergeable_style(m: Mergeable) -> (char, Color)
    returns
        (match m {
            Mergeable::Ready => ('\u{f058}', GREEN),
            Mergeable::Blocked => ('\u{f05e}', YELLOW),
            Mergeable::Conflicts => ('\u{f127}', RED),
            Mergeable::Unknown => ('\u{f059}', OVERLAY),
        }),
{
    match m {
        Mergeable::Ready => ('\u{f058}', GREEN),
        Mergeable::Blocked => ('\u{f05e}', YELLOW),
        Mergeable::Conflicts => ('\u{f127}', RED),
        Mergeable::Unknown => ('\u{f059}', OVERLAY),
    }
}

/// ASCII letter of a mergeability state.
#[verifier::allow_in_spec]
pub fn mergeable_ascii(m: Mergeable) -> char
    returns
        (match m {
            Mergeable::Ready => 'y',
            Mergeable::Blocked => 'n',
            Mergeable::Conflicts => '!',
            Mergeable::Unknown => '?',
        }),
{
    match m {
        Mergeable::Ready => 'y',
        Mergeable::Blocked => 'n',
        Mergeable::Conflicts => '!',
        Mergeable::Unknown => '?',
    }
}

/// The mergeability glyph to show: the letter in ASCII mode, else the icon.
#[verifier::allow_in_spec]
pub fn mergeable_glyph(m: Mergeable, ascii: bool) -> char
    returns
        (if ascii {
            mergeable_ascii(m)
        } else {
            mergeable_style(m).0
        }),
{
    if ascii {
        mergeable_ascii(m)
    } else {
        mergeable_style(m).0
    }
}

/// One-line meaning of a mergeability state.
#[verifier::allow_in_spec]
pub fn mergeable_meaning(m: Mergeable) -> &'static str
    returns
        (match m {
            Mergeable::Ready => "ready to merge",
            Mergeable::Blocked => "blocked: reviews, required checks, behind the base, or draft",
            Mergeable::Conflicts => "conflicts with the base branch",
            Mergeable::Unknown => "mergeability not known yet",
        }),
{
    match m {
        Mergeable::Ready => "ready to merge",
        Mergeable::Blocked => "blocked: reviews, required checks, behind the base, or draft",
        Mergeable::Conflicts => "conflicts with the base branch",
        Mergeable::Unknown => "mergeability not known yet",
    }
}

/// How far your review of a PR is. A pending request beats a quiet
/// "updated" or "reviewed".
#[derive(Copy, Clone, Debug, PartialEq, Eq, Structural)]
pub enum ReviewState {
    /// Review requested from you; you haven't reviewed yet.
    Awaiting,
    /// Requested again after you reviewed.
    ReReview,
    /// You reviewed, and there are new commits since.
    Updated,
    /// You reviewed; nothing new and no pending request.
    Reviewed,
}

/// Review states in legend order, most actionable first.
pub const REVIEW_ORDER: [ReviewState; 4] = [
    ReviewState::Awaiting,
    ReviewState::ReReview,
    ReviewState::Updated,
    ReviewState::Reviewed,
];

/// Glyph and color of a review state.
#[verifier::allow_in_spec]
pub fn review_style(s: ReviewState) -> (char, Color)
    returns
        (match s {
            ReviewState::Awaiting => ('\u{F06E}', YELLOW),
            ReviewState::ReReview => ('\u{F021}', PEACH),
            ReviewState::Updated => ('\u{F0AA}', BLUE),
            ReviewState::Reviewed => ('\u{F00C}', GREEN),
        }),
{
    match s {
        ReviewState::Awaiting => ('\u{F06E}', YELLOW),
        ReviewState::ReReview => ('\u{F021}', PEACH),
        ReviewState::Updated => ('\u{F0AA}', BLUE),
        ReviewState::Reviewed => ('\u{F00C}', GREEN),
    }
}

/// ASCII letter of a review state.
#[verifier::allow_in_spec]
pub fn review_ascii(s: ReviewState) -> char
    returns
        (match s {
            ReviewState::Awaiting => 'a',
            ReviewState::ReReview => '@',
            ReviewState::Updated => '^',
            ReviewState::Reviewed => 'v',
        }),
{
    match s {
        ReviewState::Awaiting => 'a',
        ReviewState::ReReview => '@',
        ReviewState::Updated => '^',
        ReviewState::Reviewed => 'v',
    }
}

/// The review glyph to show: the letter in ASCII mode, else the icon.
#[verifier::allow_in_spec]
pub fn review_glyph(s: ReviewState, ascii: bool) -> char
    returns
        (if ascii {
            review_ascii(s)
        } else {
            review_style(s).0
        }),
{
    if ascii {
        review_ascii(s)
    } else {
        review_style(s).0
    }
}

/// One-line meaning of a review state.
#[verifier::allow_in_spec]
pub fn review_meaning(s: ReviewState) -> &'static str
    returns
        (match s {
            ReviewState::Awaiting => "review requested from you",
            ReviewState::ReReview => "re-review requested after you reviewed",
            ReviewState::Updated => "updated since your review \u{2014} new commits",
            ReviewState::Reviewed => "you've reviewed; nothing pending",
        }),
{
    match s {
        ReviewState::Awaiting => "review requested from you",
        ReviewState::ReReview => "re-review requested after you reviewed",
        ReviewState::Updated => "updated since your review \u{2014} new commits",
        ReviewState::Reviewed => "you've reviewed; nothing pending",
    }
}

/// No review letter is also a letter of an open PR, and no two states of one
/// kind share a letter: in ASCII mode every letter reads in one way.
pub proof fn letters_are_distinct(
    r: ReviewState,
    s: ReviewState,
    a: Approval,
    b: Approval,
    m: Mergeable,
    n: Mergeable,
)
    ensures
        review_ascii(r) != approval_ascii(a),
        review_ascii(r) != mergeable_ascii(m),
        review_ascii(r) != conflict_marker(true),
        approval_ascii(a) != conflict_marker(true),
        r != s ==> review_ascii(r) != review_ascii(s),
        a != b ==> approval_ascii(a) != approval_ascii(b),
        m != n ==> mergeable_ascii(m) != mergeable_ascii(n),
{
}

/// The style of text in a palette color.
pub fn fg(color: Color) -> (s: Style)
    ensures
        s == (Style {
            fg: Some(color),
            bold: false,
            faint: false,
            italic: false,
            underline: false,
            link: None,
        }),
        s@ == crate::surface::colored(color),
{
    Style::new().fg(color)
}

/// The three lamps of the check semaphore.
#[derive(Copy, Clone, Debug, PartialEq, Eq, Structural)]
pub enum Lamp {
    Fail,
    Running,
    Pass,
}

/// The color of a lamp: red, yellow or green.
#[verifier::allow_in_spec]
pub fn lamp_color(l: Lamp) -> Color
    returns
        (match l {
            Lamp::Fail => RED,
            Lamp::Running => YELLOW,
            Lamp::Pass => GREEN,
        }),
{
    match l {
        Lamp::Fail => RED,
        Lamp::Running => YELLOW,
        Lamp::Pass => GREEN,
    }
}

/// How many check runs sit on each lamp.
#[derive(Copy, Clone, Debug, PartialEq, Eq, Structural)]
pub struct Checks {
    pub fail: u64,
    pub running: u64,
    pub pass: u64,
}

impl Default for Checks {
    fn default() -> (c: Self)
        ensures
            c == (Checks { fail: 0, running: 0, pass: 0 }),
    {
        Checks { fail: 0, running: 0, pass: 0 }
    }
}

impl Checks {
    /// Whether no lamp counts a run.
    pub fn is_empty(self) -> (r: bool)
        ensures
            r == (self.fail == 0 && self.running == 0 && self.pass == 0),
    {
        self.fail == 0 && self.running == 0 && self.pass == 0
    }

    /// The count on a lamp.
    pub open spec fn count(self, l: Lamp) -> u64 {
        match l {
            Lamp::Fail => self.fail,
            Lamp::Running => self.running,
            Lamp::Pass => self.pass,
        }
    }

    /// The count on one lamp.
    pub fn on(self, l: Lamp) -> (n: u64)
        ensures
            n == self.count(l),
    {
        match l {
            Lamp::Fail => self.fail,
            Lamp::Running => self.running,
            Lamp::Pass => self.pass,
        }
    }

    /// Adds `count` runs to a lamp; runs in a state that lights none are not
    /// counted.
    pub fn add(&mut self, l: Option<Lamp>, count: u64)
        requires
            l matches Some(lamp) ==> old(self).count(lamp) + count <= u64::MAX,
        ensures
            l is None ==> *final(self) == *old(self),
            forall|lamp: Lamp| #[trigger]
                final(self).count(lamp) == old(self).count(lamp) + (if l == Some(lamp) {
                    count as int
                } else {
                    0
                }),
    {
        match l {
            Some(Lamp::Fail) => {
                self.fail = self.fail + count;
            },
            Some(Lamp::Running) => {
                self.running = self.running + count;
            },
            Some(Lamp::Pass) => {
                self.pass = self.pass + count;
            },
            None => {},
        }
    }
}

/// The lamp of a check run state.
pub open spec fn run_lamp(state: Seq<char>) -> Option<Lamp> {
    if state == "FAILURE"@ || state == "TIMED_OUT"@ || state == "CANCELLED"@ || state
        == "ACTION_REQUIRED"@ || state == "STARTUP_FAILURE"@ {
        Some(Lamp::Fail)
    } else if state == "QUEUED"@ || state == "IN_PROGRESS"@ || state == "PENDING"@ || state
        == "WAITING"@ || state == "REQUESTED"@ {
        Some(Lamp::Running)
    } else if state == "SUCCESS"@ || state == "NEUTRAL"@ || state == "SKIPPED"@ || state
        == "COMPLETED"@ {
        Some(Lamp::Pass)
    } else {
        None
    }
}

/// Which lamp a `CheckRunState` lights up. `STALE` lights none: it neither
/// blocks a merge nor is still running.
pub fn check_run_lamp(state: &str) -> (l: Option<Lamp>)
    ensures
        l == run_lamp(state@),
{
    if same(state, "FAILURE") || same(state, "TIMED_OUT") || same(state, "CANCELLED") || same(
        state,
        "ACTION_REQUIRED",
    ) || same(state, "STARTUP_FAILURE") {
        Some(Lamp::Fail)
    } else if same(state, "QUEUED") || same(state, "IN_PROGRESS") || same(state, "PENDING")
        || same(state, "WAITING") || same(state, "REQUESTED") {
        Some(Lamp::Running)
    } else if same(state, "SUCCESS") || same(state, "NEUTRAL") || same(state, "SKIPPED") || same(
        state,
        "COMPLETED",
    ) {
        Some(Lamp::Pass)
    } else {
        None
    }
}

/// The lamp of a legacy commit status state.
pub open spec fn context_lamp(state: Seq<char>) -> Option<Lamp> {
    if state == "ERROR"@ || state == "FAILURE"@ {
        Some(Lamp::Fail)
    } else if state == "PENDING"@ || state == "EXPECTED"@ {
        Some(Lamp::Running)
    } else if state == "SUCCESS"@ {
        Some(Lamp::Pass)
    } else {
        None
    }
}

/// Which lamp a legacy commit-status `StatusState` lights up.
pub fn status_context_lamp(state: &str) -> (l: Option<Lamp>)
    ensures
        l == context_lamp(state@),
{
    if same(state, "ERROR") || same(state, "FAILURE") {
        Some(Lamp::Fail)
    } else if same(state, "PENDING") || same(state, "EXPECTED") {
        Some(Lamp::Running)
    } else if same(state, "SUCCESS") {
        Some(Lamp::Pass)
    } else {
        None
    }
}

/// Which check run states light which lamp: each lamp has its own states, no
/// state lights two, and all other states light none.
pub proof fn a_check_run_lights_its_lamp(state: Seq<char>)
    ensures
        run_lamp(state) == Some(Lamp::Fail) <==> failing_runs().contains(state),
        run_lamp(state) == Some(Lamp::Running) <==> running_runs().contains(state),
        run_lamp(state) == Some(Lamp::Pass) <==> passing_runs().contains(state),
{
    reveal_strlit("FAILURE");
    reveal_strlit("TIMED_OUT");
    reveal_strlit("CANCELLED");
    reveal_strlit("ACTION_REQUIRED");
    reveal_strlit("STARTUP_FAILURE");
    reveal_strlit("QUEUED");
    reveal_strlit("IN_PROGRESS");
    reveal_strlit("PENDING");
    reveal_strlit("WAITING");
    reveal_strlit("REQUESTED");
    reveal_strlit("SUCCESS");
    reveal_strlit("NEUTRAL");
    reveal_strlit("SKIPPED");
    reveal_strlit("COMPLETED");
    if running_runs().contains(state) {
        assert(state[0] == 'Q' || state[0] == 'I' || state[0] == 'P' || state[0] == 'W' || state[0]
            == 'R');
        assert(!failing_runs().contains(state));
    }
    if passing_runs().contains(state) {
        assert(state.len() == 7 || state.len() == 9);
        assert(state[1] == 'U' || state[1] == 'E' || state[1] == 'K' || state[1] == 'O');
        assert(state[2] == 'C' || state[2] == 'U' || state[2] == 'I' || state[2] == 'M');
        assert(!failing_runs().contains(state));
        assert(!running_runs().contains(state));
    }
}

/// Which commit status states light which lamp: each lamp has its own states, no
/// state lights two, and all other states light none.
pub proof fn a_commit_status_lights_its_lamp(state: Seq<char>)
    ensures
        context_lamp(state) == Some(Lamp::Fail) <==> failing_statuses().contains(state),
        context_lamp(state) == Some(Lamp::Running) <==> running_statuses().contains(state),
        context_lamp(state) == Some(Lamp::Pass) <==> passing_statuses().contains(state),
{
    reveal_strlit("ERROR");
    reveal_strlit("FAILURE");
    reveal_strlit("PENDING");
    reveal_strlit("EXPECTED");
    reveal_strlit("SUCCESS");
    if running_statuses().contains(state) {
        assert(state.len() == 8 || state[0] == 'P');
    }
    if passing_statuses().contains(state) {
        assert(state.len() == 7 && state[0] == 'S');
    }
}

/// The states of a check run that failed.
pub open spec fn failing_runs() -> Set<Seq<char>> {
    set![
        "FAILURE"@,
        "TIMED_OUT"@,
        "CANCELLED"@,
        "ACTION_REQUIRED"@,
        "STARTUP_FAILURE"@,
    ]
}

/// The states of a check run that is not done.
pub open spec fn running_runs() -> Set<Seq<char>> {
    set!["QUEUED"@, "IN_PROGRESS"@, "PENDING"@, "WAITING"@, "REQUESTED"@]
}

/// The states of a check run that holds nothing up.
pub open spec fn passing_runs() -> Set<Seq<char>> {
    set!["SUCCESS"@, "NEUTRAL"@, "SKIPPED"@, "COMPLETED"@]
}

/// The states of a commit status that failed.
pub open spec fn failing_statuses() -> Set<Seq<char>> {
    set!["ERROR"@, "FAILURE"@]
}

/// The states of a commit status that is not done.
pub open spec fn running_statuses() -> Set<Seq<char>> {
    set!["PENDING"@, "EXPECTED"@]
}

/// The states of a commit status that passed.
pub open spec fn passing_statuses() -> Set<Seq<char>> {
    set!["SUCCESS"@]
}

/// The coarse bell key of an open PR: conflicts before failing checks before
/// running ones before passed ones, and nothing where there is none of these.
#[verifier::allow_in_spec]
pub fn derive_status(conflicts: bool, c: Checks) -> Option<Status>
    returns
        (if conflicts {
            Some(Status::Conflicts)
        } else if c.fail > 0 {
            Some(Status::Fail)
        } else if c.running > 0 {
            Some(Status::Pending)
        } else if c.pass > 0 {
            Some(Status::Pass)
        } else {
            None
        }),
{
    if conflicts {
        return Some(Status::Conflicts);
    }
    if c.fail > 0 {
        return Some(Status::Fail);
    }
    if c.running > 0 {
        return Some(Status::Pending);
    }
    if c.pass > 0 {
        return Some(Status::Pass);
    }
    None
}

/// A finishing job does not ring: the status looks only at which lamps are lit,
/// so two semaphores that light the same lamps have the same status. It is that of
/// the worst lamp: with a failing check nothing else matters but a conflict, and a
/// conflict goes before every check.
pub proof fn the_status_is_that_of_the_worst_lamp(
    conflicts: bool,
    a: Checks,
    b: Checks,
    x: Option<Status>,
    y: Option<Status>,
)
    requires
        call_ensures(derive_status, (conflicts, a), x),
        call_ensures(derive_status, (conflicts, b), y),
    ensures
        (a.fail > 0 <==> b.fail > 0) && (a.running > 0 <==> b.running > 0) && (a.pass > 0 <==> b.pass
            > 0) ==> x == y,
        conflicts ==> x == Some(Status::Conflicts),
        !conflicts && a.fail > 0 ==> x == Some(Status::Fail),
        !conflicts && a.fail == 0 && a.running > 0 ==> x == Some(Status::Pending),
        !conflicts && a.fail == 0 && a.running == 0 && a.pass > 0 ==> x == Some(Status::Pass),
        !conflicts && a.fail == 0 && a.running == 0 && a.pass == 0 ==> x is None,
{
}

/// Each lamp has a count and a color of its own, and a semaphore is empty just
/// where all three counts are zero.
pub proof fn each_lamp_has_its_own_count(c: Checks, l: Lamp, m: Lamp, n: u64, k: u64, empty: bool)
    requires
        call_ensures(Checks::on, (c, l), n),
        call_ensures(Checks::on, (c, m), k),
        call_ensures(Checks::is_empty, (c,), empty),
    ensures
        l is Fail ==> n == c.fail,
        l is Running ==> n == c.running,
        l is Pass ==> n == c.pass,
        l == m ==> n == k,
        empty ==> n == 0 && k == 0,
        c.fail > 0 || c.running > 0 || c.pass > 0 ==> !empty,
        c.fail == 0 && c.running == 0 && c.pass == 0 ==> empty,
        lamp_color(Lamp::Fail) != lamp_color(Lamp::Running),
        lamp_color(Lamp::Running) != lamp_color(Lamp::Pass),
        lamp_color(Lamp::Fail) != lamp_color(Lamp::Pass),
{
}

/// Every state has a glyph and a color of its own, the color saying how good it
/// is: green is good, yellow waits, red needs you; what is not known is muted.
pub proof fn colors_say_how_good_a_state_is(
    m: Mergeable,
    n: Mergeable,
    r: ReviewState,
    q: ReviewState,
)
    ensures
        m != n ==> mergeable_style(m).0 != mergeable_style(n).0 && mergeable_style(m).1
            != mergeable_style(n).1,
        r != q ==> review_style(r).0 != review_style(q).0 && review_style(r).1
            != review_style(q).1,
        mergeable_style(m).1 == GREEN <==> m is Ready,
        mergeable_style(m).1 == YELLOW <==> m is Blocked,
        mergeable_style(m).1 == RED <==> m is Conflicts,
        mergeable_style(m).1 == OVERLAY <==> m is Unknown,
        mergeable_ascii(m) == 'y' <==> m is Ready,
        mergeable_ascii(m) == 'n' <==> m is Blocked,
        mergeable_ascii(m) == '!' <==> m is Conflicts,
        mergeable_ascii(m) == '?' <==> m is Unknown,
        review_style(r).1 == GREEN <==> r is Reviewed,
        mergeable_glyph(m, true) == mergeable_ascii(m),
        mergeable_glyph(m, false) == mergeable_style(m).0,
        review_glyph(r, true) == review_ascii(r),
        review_glyph(r, false) == review_style(r).0,
{
}

/// The orders of the legends name every state once.
pub proof fn the_legend_names_every_state(m: Mergeable, r: ReviewState, a: Approval)
    ensures
        exists|i: int| 0 <= i < MERGEABLE_ORDER@.len() && #[trigger] MERGEABLE_ORDER@[i] == m,
        exists|i: int| 0 <= i < REVIEW_ORDER@.len() && #[trigger] REVIEW_ORDER@[i] == r,
        exists|i: int| 0 <= i < APPROVAL_ORDER@.len() && #[trigger] APPROVAL_ORDER@[i] == a,
        forall|i: int, j: int|
            0 <= i < j < MERGEABLE_ORDER@.len() ==> #[trigger] MERGEABLE_ORDER@[i]
                != #[trigger] MERGEABLE_ORDER@[j],
        forall|i: int, j: int|
            0 <= i < j < REVIEW_ORDER@.len() ==> #[trigger] REVIEW_ORDER@[i]
                != #[trigger] REVIEW_ORDER@[j],
{
    assert(MERGEABLE_ORDER@[0] == Mergeable::Ready && MERGEABLE_ORDER@[1] == Mergeable::Blocked);
    assert(MERGEABLE_ORDER@[2] == Mergeable::Conflicts && MERGEABLE_ORDER@[3]
        == Mergeable::Unknown);
    assert(REVIEW_ORDER@[0] == ReviewState::Awaiting && REVIEW_ORDER@[1] == ReviewState::ReReview);
    assert(REVIEW_ORDER@[2] == ReviewState::Updated && REVIEW_ORDER@[3] == ReviewState::Reviewed);
    assert(APPROVAL_ORDER@[0] == Approval::Approved && APPROVAL_ORDER@[1] == Approval::Pending);
}

} // verus!
