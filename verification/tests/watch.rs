use prowl::cli::ViewKind;
use prowl::demo::demo_sections;
use prowl::run::{
    after_event, after_fetch, after_keys, after_progress, after_quiet, mode_of, Mode, Next, Phase,
    Progress,
};
use prowl::sections::Sections;
use prowl::term::{
    action_of, classify, classify_search, search_action_of, Input, Key, KeyCode, SearchAction,
    Wait, ALT, CTRL,
};
use prowl::watch::{half_page, markdown, Effect, Flow, Watch};

fn sections() -> Sections {
    demo_sections(1_700_000_000)
}

fn watch() -> Watch {
    Watch::start(ViewKind::Mine, Some(sections()))
}

fn typed(c: char) -> Input {
    Input::Press(Key {
        code: KeyCode::Char(c),
        modifiers: 0,
        text: Some(c.to_string()),
    })
}

fn code(code: KeyCode) -> Input {
    Input::Press(Key {
        code,
        modifiers: 0,
        text: None,
    })
}

fn ctrl(c: char) -> Input {
    Input::Press(Key {
        code: KeyCode::Char(c),
        modifiers: CTRL,
        text: None,
    })
}

#[test]
fn keys_are_classified_by_their_bindings() {
    let cases = [
        (typed('q'), Wait::Quit),
        (typed('Q'), Wait::Quit),
        (ctrl('c'), Wait::Quit),
        (code(KeyCode::Escape), Wait::Cancel),
        (typed('r'), Wait::Refresh),
        (typed('R'), Wait::Refresh),
        (typed('?'), Wait::ToggleHelp),
        (code(KeyCode::Tab), Wait::SwitchView),
        (code(KeyCode::Enter), Wait::Open),
        (typed('y'), Wait::CopyLink),
        (typed('Y'), Wait::CopySection),
        (typed('/'), Wait::Search),
        (ctrl('z'), Wait::Suspend),
        (typed('j'), Wait::Down),
        (code(KeyCode::Down), Wait::Down),
        (typed('k'), Wait::Up),
        (code(KeyCode::Up), Wait::Up),
        (typed('g'), Wait::Top),
        (typed('G'), Wait::Bottom),
        (ctrl('d'), Wait::HalfDown),
        (ctrl('u'), Wait::HalfUp),
        (typed('x'), Wait::Ignore),
        (Input::Resize(80, 24), Wait::Resize(80, 24)),
        (Input::Other, Wait::Ignore),
    ];
    for (input, expected) in cases {
        assert_eq!(classify(&input), expected, "{input:?}");
    }
}

#[test]
fn quitting_comes_before_every_other_binding() {
    let Input::Press(q) = typed('q') else {
        unreachable!()
    };
    let mut bindings = q.bindings();
    assert!(bindings.quit && !bindings.refresh);
    bindings.refresh = true;
    assert_eq!(action_of(bindings), Wait::Quit);
}

#[test]
fn keys_are_text_while_the_prompt_is_open() {
    let cases = [
        (typed('q'), SearchAction::Char('q')),
        (typed('?'), SearchAction::Char('?')),
        (code(KeyCode::Space), SearchAction::Char(' ')),
        (code(KeyCode::Backspace), SearchAction::Backspace),
        (code(KeyCode::Enter), SearchAction::Enter),
        (code(KeyCode::Escape), SearchAction::Esc),
        (ctrl('z'), SearchAction::Suspend),
        (ctrl('c'), SearchAction::Ignore),
        (code(KeyCode::Tab), SearchAction::Ignore),
        (Input::Resize(80, 24), SearchAction::Resize(80, 24)),
        (Input::Other, SearchAction::Ignore),
    ];
    for (input, expected) in cases {
        assert_eq!(classify_search(&input), expected, "{input:?}");
    }
    assert_eq!(
        search_action_of(KeyCode::Char('a'), ALT, false),
        SearchAction::Ignore
    );
}

#[test]
fn help_views_and_movement_repaint() {
    let mut w = watch();
    assert_eq!(
        w.handle_event(&typed('?'), 2),
        (Flow::Continue, Effect::Repaint)
    );
    assert!(w.ui.show_help);
    assert_eq!(
        w.handle_event(&typed('j'), 2),
        (Flow::Continue, Effect::Repaint)
    );
    assert_eq!(w.ui.selected, Some(0));
    // Moving up from the first row changes nothing, so nothing is painted.
    assert_eq!(
        w.handle_event(&typed('k'), 2),
        (Flow::Continue, Effect::Rest)
    );
    w.handle_event(&code(KeyCode::Tab), 2);
    assert_eq!(w.ui.view, ViewKind::Reviews);
    assert_eq!(w.ui.selected, None);
    w.handle_event(&code(KeyCode::Tab), 2);
    assert_eq!(w.ui.view, ViewKind::Mine);
    assert_eq!(
        w.handle_event(&Input::Resize(100, 30), 2),
        (Flow::Continue, Effect::Resize(100, 30))
    );
    assert_eq!(
        w.handle_event(&ctrl('z'), 2),
        (Flow::Continue, Effect::Suspend)
    );
    assert_eq!(w.handle_event(&typed('r'), 2).0, Flow::Refresh);
    assert_eq!(w.handle_event(&typed('q'), 2).0, Flow::Quit);
}

#[test]
fn the_cursor_appears_only_by_moving() {
    for c in ['?', 'y', 'Y', 'r', 'q', '/', 'x'] {
        let mut w = watch();
        w.handle_event(&typed(c), 2);
        assert_eq!(w.ui.selected, None, "{c}");
    }
    let mut w = watch();
    w.handle_event(&typed('/'), 2);
    for input in [typed('j'), code(KeyCode::Backspace), code(KeyCode::Enter)] {
        w.handle_event(&input, 2);
        assert_eq!(w.ui.selected, None, "{input:?}");
    }
    w.handle_event(&typed('j'), 2);
    assert_eq!(w.ui.selected, Some(0));
}

#[test]
fn nothing_is_painted_before_there_is_data() {
    let mut w = Watch::start(ViewKind::Mine, None);
    assert_eq!(
        w.handle_event(&typed('?'), 2),
        (Flow::Continue, Effect::Rest)
    );
    w.handle_event(&typed('j'), 2);
    assert_eq!(w.ui.selected, None);
    assert_eq!(
        w.handle_event(&typed('Y'), 2),
        (Flow::Continue, Effect::Rest)
    );
}

#[test]
fn the_selected_link_is_opened_and_copied() {
    let mut w = watch();
    // No cursor, no link.
    assert_eq!(w.handle(Wait::Open, 2), (Flow::Continue, Effect::Rest));
    assert_eq!(w.handle(Wait::CopyLink, 2), (Flow::Continue, Effect::Rest));
    w.handle(Wait::Down, 2);
    w.handle(Wait::Down, 2);
    let url = "https://github.com/caarlos0/prowl/pull/127".to_string();
    assert_eq!(
        w.handle(Wait::Open, 2),
        (Flow::Continue, Effect::Open(url.clone()))
    );
    assert_eq!(
        w.handle(Wait::CopyLink, 2),
        (Flow::Continue, Effect::Copy(url))
    );
}

#[test]
fn a_section_is_copied_as_a_markdown_list() {
    let mut w = watch();
    let list = |numbers: &[i64]| {
        numbers
            .iter()
            .map(|n| format!("- https://github.com/caarlos0/prowl/pull/{n}"))
            .collect::<Vec<_>>()
            .join("\n")
    };
    // With no cursor yet, the first section that has rows.
    assert_eq!(
        w.handle(Wait::CopySection, 2).1,
        Effect::Copy(list(&[128, 127, 125, 124, 120]))
    );
    // The cursor on the sixth row is in the merge queue.
    w.ui.selected = Some(5);
    assert_eq!(
        w.handle(Wait::CopySection, 2).1,
        Effect::Copy(list(&[118, 131, 117]))
    );
    // A filter leaves only the matching rows.
    w.ui.selected = None;
    w.ui.search = "nix".to_string();
    assert_eq!(
        w.handle(Wait::CopySection, 2).1,
        Effect::Copy(list(&[124]))
    );
    w.ui.search = "zzz".to_string();
    assert_eq!(w.handle(Wait::CopySection, 2).1, Effect::Rest);
    assert_eq!(markdown(&vec!["a", "b"]), "- a\n- b");
    assert_eq!(markdown(&vec![]), "");
}

#[test]
fn searching_filters_live_and_escape_clears_before_it_quits() {
    let mut w = watch();
    w.handle(Wait::Down, 2);
    w.handle_event(&typed('/'), 2);
    assert!(w.ui.searching);
    for c in ['n', 'q', 'i'] {
        assert_eq!(
            w.handle_event(&typed(c), 2),
            (Flow::Continue, Effect::Repaint)
        );
    }
    assert_eq!(w.ui.search, "nqi");
    assert_eq!(w.ui.selected, None);
    w.handle_event(&code(KeyCode::Backspace), 2);
    assert_eq!(w.ui.search, "nq");
    w.handle_event(&code(KeyCode::Enter), 2);
    assert!(!w.ui.searching);
    assert_eq!(w.ui.search, "nq");
    // The first escape clears the filter, the second quits.
    assert_eq!(w.handle_event(&code(KeyCode::Escape), 2).0, Flow::Continue);
    assert_eq!(w.ui.search, "");
    assert_eq!(w.handle_event(&code(KeyCode::Escape), 2).0, Flow::Quit);
    // In the prompt it closes the prompt.
    w.handle_event(&typed('/'), 2);
    w.handle_event(&typed('x'), 2);
    assert_eq!(w.handle_event(&code(KeyCode::Escape), 2).0, Flow::Continue);
    assert!(!w.ui.searching && w.ui.search.is_empty());
    // It drops the cursor, which speaks of the rows that the search kept.
    w.ui.search = "x".to_string();
    w.ui.searching = true;
    w.ui.selected = Some(2);
    assert_eq!(
        w.handle_event(&code(KeyCode::Escape), 2),
        (Flow::Continue, Effect::Repaint)
    );
    assert_eq!((w.ui.search.as_str(), w.ui.searching), ("", false));
    assert_eq!(w.ui.selected, None);
    // Taking back from an empty query leaves it empty.
    assert_eq!(w.handle_search(SearchAction::Backspace).0, Flow::Continue);
    assert_eq!(w.ui.search, "");
}

#[test]
fn the_bell_is_silent_on_the_first_refresh() {
    let mut w = Watch::start(ViewKind::Mine, Some(sections()));
    assert!(!w.apply(sections(), true, false));
    assert!(w.apply(sections(), true, false));
    assert!(!w.apply(sections(), false, false));
    assert!(!w.apply(sections(), true, true));
}

#[test]
fn a_refresh_keeps_the_cursor_in_range() {
    let mut w = watch();
    w.handle(Wait::Bottom, 2);
    assert_eq!(w.ui.selected, Some(16));
    let mut fewer = sections();
    fewer.commits = None;
    fewer.merged = None;
    w.apply(fewer, false, true);
    assert_eq!(w.ui.selected, Some(7));
    w.apply(Sections::empty(), false, true);
    assert_eq!(w.ui.selected, None);
}

#[test]
fn hidden_sections_leave_the_cursor_on_its_link() {
    let mut w = watch();
    w.handle_event(&typed('G'), 2);
    let last = w.ui.selected.unwrap();
    let merged = sections().merged.unwrap().len();
    let ships = 1 + sections().commits.unwrap().releases.len();
    w.ui.selected = Some(last - ships);
    // The last of the merged PRs stays selected when the queue goes.
    w.refit(Sections {
        queue: None,
        commits: None,
        ..sections()
    });
    let open = sections().prs.unwrap().len();
    assert_eq!(w.ui.selected, Some(open + merged - 1));
    // Where its row goes too, so does the cursor.
    w.refit(Sections {
        queue: None,
        merged: None,
        commits: None,
        ..sections()
    });
    assert_eq!(w.ui.selected, None);
    assert!(w.last_good.is_some());
}

#[test]
fn a_failed_refresh_keeps_the_data_and_shows_one_line() {
    let mut w = watch();
    w.show_error("boom\ndetails");
    assert_eq!(w.last_error, "boom");
    assert!(w.last_good.is_some());
    assert_eq!(w.open_failed("no browser"), Effect::Repaint);
    assert_eq!(w.last_error, "open failed: no browser");
    w.apply(sections(), false, false);
    assert_eq!(w.last_error, "");
}

#[test]
fn half_a_page_is_at_least_one_row() {
    assert_eq!(half_page(None), 10);
    assert_eq!(half_page(Some(0)), 1);
    assert_eq!(half_page(Some(1)), 1);
    assert_eq!(half_page(Some(41)), 20);
}

#[test]
fn the_kind_of_run_depends_on_the_flags_and_the_terminal() {
    assert_eq!(mode_of(true, true, true, true), Mode::Demo);
    assert_eq!(mode_of(false, true, false, true), Mode::Login);
    assert_eq!(mode_of(false, false, false, false), Mode::Piped);
    assert_eq!(mode_of(false, false, true, true), Mode::Once);
    assert_eq!(mode_of(false, false, true, false), Mode::Watch);
}

#[test]
fn a_single_frame_waits_for_its_data_or_an_abort_key() {
    assert_eq!(after_progress(Progress::Running), Next::Poll);
    assert_eq!(after_progress(Progress::Done), Next::Show);
    assert_eq!(after_progress(Progress::Failed), Next::Report);
    assert_eq!(after_progress(Progress::Stopped), Next::ReportStopped);
    assert_eq!(after_keys(&vec![]), Next::Poll);
    assert_eq!(after_keys(&vec![Wait::Down, Wait::Refresh]), Next::Poll);
    assert_eq!(after_keys(&vec![Wait::Down, Wait::Cancel]), Next::Wipe);
    assert_eq!(after_keys(&vec![Wait::Quit, Wait::Down]), Next::Wipe);
    assert_eq!(after_keys(&vec![Wait::Down, Wait::Quit]), Next::Wipe);
}

#[test]
fn a_refresh_key_is_ignored_while_a_fetch_is_in_flight() {
    assert_eq!(after_event(Phase::Fetching, Flow::Refresh), Phase::Fetching);
    assert_eq!(after_event(Phase::Waiting, Flow::Refresh), Phase::Fetching);
    assert_eq!(after_event(Phase::Waiting, Flow::Continue), Phase::Waiting);
    for phase in [Phase::Fetching, Phase::Waiting, Phase::Over] {
        assert_eq!(after_event(phase, Flow::Quit), Phase::Over);
    }
    assert_eq!(after_fetch(Progress::Running), Phase::Fetching);
    assert_eq!(after_fetch(Progress::Done), Phase::Waiting);
    assert_eq!(after_fetch(Progress::Stopped), Phase::Waiting);
    assert_eq!(after_quiet(Phase::Waiting, true), Phase::Fetching);
    assert_eq!(after_quiet(Phase::Waiting, false), Phase::Waiting);
    assert_eq!(after_quiet(Phase::Fetching, true), Phase::Fetching);
}
