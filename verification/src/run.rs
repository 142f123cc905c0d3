//! How a run goes: what kind of run it is, how the one that shows a single frame
//! waits for its data, and how a watch goes from fetching to waiting and back.

use crate::term::Wait;
use crate::watch::Flow;
use vstd::prelude::*;

verus! {

/// The kinds of run.
#[derive(Copy, Clone, Debug, PartialEq, Eq, Structural)]
pub enum Mode {
    /// Show synthetic data once.
    Demo,
    /// Log in and verify the token.
    Login,
    /// Fetch, write the frame to the output, and leave.
    Piped,
    /// Show a loading frame until the data is there, then leave the dashboard on
    /// the terminal.
    Once,
    /// Watch.
    Watch,
}

/// Which kind of run was asked for. The demo needs no login; a login run ends
/// after it; and without a terminal there is nothing to watch.
#[verifier::allow_in_spec]
pub fn mode_of(demo: bool, login: bool, interactive: bool, once: bool) -> Mode
    returns
        (if demo {
            Mode::Demo
        } else if login {
            Mode::Login
        } else if !interactive {
            Mode::Piped
        } else if once {
            Mode::Once
        } else {
            Mode::Watch
        }),
{
    if demo {
        Mode::Demo
    } else if login {
        Mode::Login
    } else if !interactive {
        Mode::Piped
    } else if once {
        Mode::Once
    } else {
        Mode::Watch
    }
}

/// How far a fetch is.
#[derive(Copy, Clone, Debug, PartialEq, Eq, Structural)]
pub enum Progress {
    /// Still running.
    Running,
    /// The data is there.
    Done,
    /// It failed.
    Failed,
    /// It ended without a result.
    Stopped,
}

/// What to do next while a single frame is fetched.
#[derive(Copy, Clone, Debug, PartialEq, Eq, Structural)]
pub enum Next {
    /// Look for input.
    Poll,
    /// Show the dashboard and leave it on the terminal.
    Show,
    /// Restore the terminal and report the error.
    Report,
    /// Restore the terminal and report that the fetch ended without a result.
    ReportStopped,
    /// Wipe the loading frame; nothing is left behind.
    Wipe,
}

/// What to do once it is known how far the fetch is. Its end counts before any
/// key.
#[verifier::allow_in_spec]
pub fn after_progress(p: Progress) -> Next
    returns
        (match p {
            Progress::Running => Next::Poll,
            Progress::Done => Next::Show,
            Progress::Failed => Next::Report,
            Progress::Stopped => Next::ReportStopped,
        }),
{
    match p {
        Progress::Running => Next::Poll,
        Progress::Done => Next::Show,
        Progress::Failed => Next::Report,
        Progress::Stopped => Next::ReportStopped,
    }
}

/// Whether a key aborts a fetch for a single frame: the quit keys and the escape
/// key do.
#[verifier::allow_in_spec]
pub fn aborts(key: Wait) -> bool
    returns
        (key == Wait::Quit || key == Wait::Cancel),
{
    key == Wait::Quit || key == Wait::Cancel
}

/// What to do after a batch of keys: one that aborts the fetch ends it.
pub fn after_keys(keys: &Vec<Wait>) -> (n: Next)
    ensures
        n == (if exists|i: int| 0 <= i < keys@.len() && aborts(#[trigger] keys@[i]) {
            Next::Wipe
        } else {
            Next::Poll
        }),
        n == Next::Wipe <==> keys@.contains(Wait::Quit) || keys@.contains(Wait::Cancel),
{
    let mut i: usize = 0;
    while i < keys.len()
        invariant
            i <= keys@.len(),
            forall|j: int| 0 <= j < i ==> !aborts(#[trigger] keys@[j]),
        decreases keys@.len() - i,
    {
        if aborts(keys[i]) {
            assert(keys@.contains(keys@[i as int]));
            return Next::Wipe;
        }
        i += 1;
    }
    Next::Poll
}

/// What a watch is doing.
#[derive(Copy, Clone, Debug, PartialEq, Eq, Structural)]
pub enum Phase {
    /// A fetch is in flight.
    Fetching,
    /// The time to the next refresh is running.
    Waiting,
    /// The watch is over.
    Over,
}

/// How a watch goes on after an event. A quit key ends it at once; a refresh key
/// cuts the wait short, and is ignored while a fetch is in flight.
#[verifier::allow_in_spec]
pub fn after_event(phase: Phase, flow: Flow) -> Phase
    returns
        (match (phase, flow) {
            (Phase::Over, _) => Phase::Over,
            (_, Flow::Quit) => Phase::Over,
            (Phase::Waiting, Flow::Refresh) => Phase::Fetching,
            (p, _) => p,
        }),
{
    match (phase, flow) {
        (Phase::Over, _) => Phase::Over,
        (_, Flow::Quit) => Phase::Over,
        (Phase::Waiting, Flow::Refresh) => Phase::Fetching,
        (p, _) => p,
    }
}

/// How a watch goes on once it is known how far its fetch is: a fetch that ended,
/// whichever way, is followed by the wait for the next one.
#[verifier::allow_in_spec]
pub fn after_fetch(p: Progress) -> Phase
    returns
        (match p {
            Progress::Running => Phase::Fetching,
            _ => Phase::Waiting,
        }),
{
    match p {
        Progress::Running => Phase::Fetching,
        _ => Phase::Waiting,
    }
}

/// How a watch goes on when no event came: the wait is over once its time is.
#[verifier::allow_in_spec]
pub fn after_quiet(phase: Phase, timed_out: bool) -> Phase
    returns
        (if phase == Phase::Waiting && timed_out {
            Phase::Fetching
        } else {
            phase
        }),
{
    if phase == Phase::Waiting && timed_out {
        Phase::Fetching
    } else {
        phase
    }
}

/// A quit key ends the watch from every phase, a refresh key never starts a
/// second fetch, and a watch that is over stays over.
pub proof fn a_watch_ends_only_by_a_quit_key(phase: Phase, flow: Flow)
    ensures
        after_event(phase, Flow::Quit) == Phase::Over,
        after_event(Phase::Over, flow) == Phase::Over,
        after_event(Phase::Fetching, Flow::Refresh) == Phase::Fetching,
        after_event(phase, flow) == Phase::Over ==> phase == Phase::Over || flow == Flow::Quit,
{
}

/// The demo goes before everything, a login before what needs a terminal, and
/// without a terminal there is neither a single frame on it nor a watch.
pub proof fn each_flag_has_its_run(demo: bool, login: bool, interactive: bool, once: bool, m: Mode)
    requires
        call_ensures(mode_of, (demo, login, interactive, once), m),
    ensures
        m == Mode::Demo <==> demo,
        m == Mode::Login <==> login && !demo,
        m == Mode::Piped <==> !demo && !login && !interactive,
        m == Mode::Once <==> !demo && !login && interactive && once,
        m == Mode::Watch <==> !demo && !login && interactive && !once,
{
}

/// A fetch for a single frame ends in one way for each way the fetch ends, and
/// goes on while it runs.
pub proof fn each_end_has_its_outcome(p: Progress, n: Next, phase: Phase)
    requires
        call_ensures(after_progress, (p,), n),
        call_ensures(after_fetch, (p,), phase),
    ensures
        n == Next::Poll <==> p is Running,
        n == Next::Show <==> p is Done,
        n == Next::Report <==> p is Failed,
        n == Next::ReportStopped <==> p is Stopped,
        phase == Phase::Fetching <==> p is Running,
        phase != Phase::Over,
{
}

/// One key among many aborts: a batch with one more key aborts if and only if it
/// did before or that key is a quit key or the escape key.
pub proof fn one_key_aborts(a: Vec<Wait>, b: Vec<Wait>, key: Wait, x: Next, y: Next)
    requires
        b@ == a@.push(key),
        call_ensures(after_keys, (&a,), x),
        call_ensures(after_keys, (&b,), y),
    ensures
        y == Next::Wipe <==> x == Next::Wipe || key is Quit || key is Cancel,
        a@.len() == 0 ==> x == Next::Poll,
        x == Next::Wipe || x == Next::Poll,
{
    assert(b@[a@.len() as int] == key);
    assert(b@.contains(key));
    assert forall|k: Wait| #[trigger] a@.contains(k) implies b@.contains(k) by {
        let i = choose|i: int| 0 <= i < a@.len() && a@[i] == k;
        assert(b@[i] == k);
    }
    assert forall|k: Wait| #[trigger] b@.contains(k) implies a@.contains(k) || k == key by {
        let i = choose|i: int| 0 <= i < b@.len() && b@[i] == k;
        if i < a@.len() {
            assert(a@[i] == k);
        }
    }
}

/// A wait ends when its time is up or at a refresh key, and only a wait does: a
/// fetch goes on, and what is over stays over.
pub proof fn only_a_wait_runs_out(phase: Phase, timed_out: bool, q: Phase, r: Phase)
    requires
        call_ensures(after_quiet, (phase, timed_out), q),
        call_ensures(after_event, (phase, Flow::Refresh), r),
    ensures
        phase is Waiting ==> (q == Phase::Fetching <==> timed_out) && r == Phase::Fetching,
        phase is Waiting && !timed_out ==> q == phase,
        !(phase is Waiting) ==> q == phase && r == phase,
        after_event(phase, Flow::Continue) == phase,
{
}

} // verus!
