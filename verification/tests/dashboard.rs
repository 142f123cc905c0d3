use prowl::changes::Changes;
use prowl::cli::ViewKind;
use prowl::commits::{Bucket, CommitStats, Count, Release};
use prowl::dashboard::{
    height_bound, paint_bottom, paint_dashboard, paint_mine, paint_reviews, short_error,
    view_tables, Times, Ui,
};
use prowl::demo::{demo_sections, FIRST_SECOND, LAST_SECOND, OLDEST};
use prowl::nav::targets;
use prowl::prs::PrRow;
use prowl::render::OUTPUT_WIDTH;
use prowl::screen::render_to_string;
use prowl::sections::Sections;
use prowl::shipments::paint_commits;
use prowl::status::{Checks, Mergeable};
use prowl::surface::Profile as Colors;
use std::collections::HashSet;
use uncurses::buffer::TextBuffer;
use uncurses::color::Profile;
use uncurses::text::Encode;

/// The times of sections without a row that has one.
fn no_times() -> Times {
    Times {
        queue_waits: vec![],
        queue_builds: vec![],
        queue_eta: None,
        merged_ages: vec![],
        release_ages: vec![],
        review_ages: vec![],
        reviewed_ages: vec![],
    }
}

/// What goes with the demo sections.
fn times(s: &Sections) -> Times {
    let texts = |n: usize, unit: &str| (0..n).map(|i| format!("{}{unit}", i + 1)).collect::<Vec<_>>();
    let q = s.queue.as_ref().unwrap();
    Times {
        queue_waits: texts(q.len(), "m"),
        queue_builds: q
            .iter()
            .map(|r| r.build_started_at.as_ref().map(|_| "8m".to_string()))
            .collect(),
        queue_eta: Some("11m".to_string()),
        merged_ages: texts(s.merged.as_ref().unwrap().len(), "d"),
        release_ages: s
            .commits
            .as_ref()
            .unwrap()
            .releases
            .iter()
            .map(|_| Some("5d".to_string()))
            .collect(),
        review_ages: texts(s.reviews.as_ref().unwrap().len(), "h"),
        reviewed_ages: texts(s.reviewed_merged.as_ref().unwrap().len(), "d"),
    }
}

/// Paint a dashboard onto an offscreen buffer and read it back as plain text.
fn body_of(sections: &Sections, times: Times, ui: &Ui) -> String {
    let mut canvas = TextBuffer::new(OUTPUT_WIDTH as u16, 64);
    let (used, _) = paint_dashboard(
        &mut canvas,
        sections,
        &times,
        ui,
        &Changes::default(),
        "",
        None,
        false,
        true,
        false,
    );
    canvas.resize(OUTPUT_WIDTH as u16, used.max(1));
    canvas.display_with(Profile::Disabled).to_string()
}

fn body(sections: &Sections, ui: &Ui) -> String {
    body_of(sections, no_times(), ui)
}

/// A `Ui` for the given view with nothing selected and no filter.
fn ui(view: ViewKind) -> Ui {
    Ui {
        view,
        show_help: false,
        selected: None,
        search: String::new(),
        searching: false,
    }
}

fn pr(n: i64) -> PrRow {
    PrRow {
        number: n,
        is_draft: false,
        title: format!("pr {n}"),
        branch: String::new(),
        mergeable: Mergeable::Unknown,
        status: None,
        checks: Checks::default(),
        unresolved: 0,
        unresolved_capped: false,
        queue: None,
        url: format!("https://pr/{n}"),
        updated_at: None,
    }
}

#[test]
fn empty_sections_still_show_their_headers_then_a_placeholder() {
    let sections = Sections {
        prs: Some(vec![]),
        queue: Some(vec![]),
        merged: Some(vec![]),
        ..Sections::empty()
    };
    let body = body(&sections, &ui(ViewKind::Mine));

    // Each section header is present even though it has no rows...
    assert!(body.contains("My open PRs (0)"));
    assert!(body.contains("Merge Queue (0)"));
    assert!(body.contains("My merged PRs (0)"));
    // ...and the placeholder follows the header on the next line.
    let after = |title: &str, msg: &str| {
        let h = body.find(title).expect("header present");
        let p = body.find(msg).expect("placeholder present");
        assert!(p > h, "placeholder for {title} should follow its header");
    };
    after("My open PRs (0)", "No open PRs.");
    after("Merge Queue (0)", "No merge queue.");
    after("My merged PRs (0)", "No recent merged PRs.");
}

#[test]
fn queue_header_shows_next_eta() {
    let sections = Sections {
        queue: Some(vec![]),
        queue_next_eta: Some(11 * 60),
        ..Sections::empty()
    };
    let eta = Times {
        queue_eta: Some("11m".to_string()),
        ..no_times()
    };
    let body = body_of(&sections, eta, &ui(ViewKind::Mine));
    assert!(body.contains("Merge Queue (0)"));
    assert!(body.contains("~11m to merge"));
}

#[test]
fn reviews_view_renders_its_own_sections() {
    let sections = Sections {
        reviews: Some(vec![]),
        reviewed_merged: Some(vec![]),
        ..Sections::empty()
    };
    let body = body(&sections, &ui(ViewKind::Reviews));
    // The Reviews view shows its two headers (not the Mine ones).
    assert!(body.contains("Reviews (0)"));
    assert!(body.contains("Reviewed & merged (0)"));
    assert!(!body.contains("My open PRs"));
}

#[test]
fn selection_places_the_caret_on_the_chosen_row() {
    let sections = Sections {
        prs: Some(vec![pr(1), pr(2)]),
        ..Sections::empty()
    };
    // No selection -> no caret anywhere (the glanceable default).
    let caret = '>';
    let none = body(&sections, &ui(ViewKind::Mine));
    assert!(!none.contains(caret));
    // Selecting the second row draws exactly one caret, on that row.
    let sel = body(
        &sections,
        &Ui {
            selected: Some(1),
            ..ui(ViewKind::Mine)
        },
    );
    assert_eq!(sel.matches(caret).count(), 1);
    let caret_at = sel.find(caret).unwrap();
    assert!(caret_at < sel.find("#2").unwrap());
    assert!(caret_at > sel.find("#1").unwrap());
}

#[test]
fn every_selected_row_of_a_view_gets_one_caret() {
    let sections = demo_sections(1_700_000_000);
    for (view, rows) in [(ViewKind::Mine, 5 + 3 + 4 + 5), (ViewKind::Reviews, 4 + 2)] {
        let plain = body_of(&sections, times(&sections), &ui(view));
        assert!(!plain.contains('>'));
        let mut seen = HashSet::new();
        for i in 0..rows {
            let at = Ui {
                selected: Some(i),
                ..ui(view)
            };
            let out = body_of(&sections, times(&sections), &at);
            let line = out.lines().position(|l| l.contains('>')).unwrap();
            assert_eq!(out.matches('>').count(), 1);
            assert!(seen.insert(line), "two rows share a line");
        }
    }
}

#[test]
fn the_caret_is_on_the_selected_link() {
    let sections = demo_sections(1_700_000_000);
    for view in [ViewKind::Mine, ViewKind::Reviews] {
        for (i, link) in targets(view, &sections, "").iter().enumerate() {
            let at = Ui {
                selected: Some(i),
                ..ui(view)
            };
            let out = body_of(&sections, times(&sections), &at);
            let line = out.lines().find(|l| l.contains('>')).unwrap();
            let name = match link.rsplit_once("/pull/") {
                Some((_, number)) => format!("#{number} "),
                None if link.contains("...") => "upcoming:".to_string(),
                None => format!("{}:", link.rsplit_once('/').unwrap().1),
            };
            assert!(line.contains(&name), "{link} on {line}");
        }
    }
}

#[test]
fn the_tables_of_a_view_are_those_of_its_sections() {
    let sections = demo_sections(1_700_000_000);
    let of = |view: ViewKind, branch: bool| {
        view_tables(
            &sections,
            &times(&sections),
            view,
            &Changes::default(),
            true,
            branch,
        )
    };
    let sizes = |view: ViewKind| of(view, false).iter().map(|t| t.rows.len()).collect::<Vec<_>>();
    assert_eq!(sizes(ViewKind::Mine), [5, 3, 4]);
    assert_eq!(sizes(ViewKind::Reviews), [4, 2]);
    for view in [ViewKind::Mine, ViewKind::Reviews] {
        assert!(of(view, true).iter().all(|t| t.header.contains(&"BRANCH")));
        assert!(of(view, false).iter().all(|t| !t.header.contains(&"BRANCH")));
    }
    // A section that is empty or was not fetched has none.
    let few = Sections {
        prs: Some(vec![]),
        merged: Some(vec![]),
        ..Sections::empty()
    };
    let none = view_tables(
        &few,
        &no_times(),
        ViewKind::Mine,
        &Changes::default(),
        true,
        false,
    );
    assert!(none.is_empty());
}

#[test]
fn labels_end_together() {
    let sections = demo_sections(1_700_000_000);
    let out = body_of(&sections, times(&sections), &ui(ViewKind::Mine));
    let from = out.lines().position(|l| l.contains("My Shipments")).unwrap();
    let ends: HashSet<usize> = out
        .lines()
        .skip(from + 1)
        .filter_map(|l| l.find(':'))
        .collect();
    assert_eq!(ends.len(), 1);
}

#[test]
fn shipments_show_counts_totals_and_ages() {
    let stats = CommitStats {
        available: true,
        upcoming: None,
        releases: vec![Release {
            tag: "v1.0".to_string(),
            bucket: Bucket {
                count: Count {
                    mine: 7,
                    capped: true,
                },
                url: "https://rel/1".to_string(),
            },
            published_at: Some("2026-01-01T00:00:00Z".to_string()),
        }],
    };
    let mut canvas = TextBuffer::new(60, 4);
    let next = paint_commits(
        &mut canvas,
        &stats,
        &vec![Some("5d".to_string())],
        Some(0),
        true,
        0,
    );
    assert_eq!(next, 3);
    let out = canvas.display_with(Profile::Disabled).to_string();
    let lines: Vec<&str> = out.lines().map(str::trim_end).collect();
    assert!(lines[0].contains("My Shipments (7+)"));
    // A missing upcoming bucket has no link, so the first stop is the release.
    assert_eq!(lines[1], "  upcoming: \u{2014}");
    assert_eq!(lines[2], ">     v1.0: 7+   5d");

    let mut canvas = TextBuffer::new(60, 2);
    let gone = CommitStats::unavailable();
    assert_eq!(paint_commits(&mut canvas, &gone, &vec![], None, true, 0), 1);
    let out = canvas.display_with(Profile::Disabled).to_string();
    assert!(out.contains("Commit stats unavailable."));
}

#[test]
fn the_dashboard_stays_below_its_bound() {
    let sections = demo_sections(1_700_000_000);
    for view in [ViewKind::Mine, ViewKind::Reviews] {
        for show_help in [false, true] {
            let shown = Ui {
                show_help,
                search: "pr".to_string(),
                ..ui(view)
            };
            let bound = height_bound(&sections, &shown);
            let mut canvas = TextBuffer::new(80, bound);
            let (used, _) = paint_dashboard(
                &mut canvas,
                &sections,
                &times(&sections),
                &shown,
                &Changes::default(),
                "boom",
                Some(("5m", false)),
                false,
                true,
                false,
            );
            assert!(used <= bound, "{used} rows, bound {bound}");
        }
    }
}

#[test]
fn the_bottom_lists_help_search_error_and_footer() {
    let searching = Ui {
        show_help: true,
        search: "abc".to_string(),
        searching: true,
        ..ui(ViewKind::Mine)
    };
    let mut canvas = TextBuffer::new(100, 20);
    let (used, caret) = paint_bottom(
        &mut canvas,
        &searching,
        2,
        "boom",
        Some(("5m", false)),
        false,
        true,
        true,
        0,
    );
    let out = canvas.display_with(Profile::Disabled).to_string();
    let at = |text: &str| out.lines().position(|l| l.contains(text)).unwrap();
    assert!(at("Help") < at("/abc"));
    assert_eq!(at("error: boom"), at("/abc") + 2);
    assert_eq!(at("r refresh"), at("error: boom") + 2);
    assert_eq!(at("r refresh") + 1, usize::from(used));
    let caret = caret.unwrap();
    assert_eq!(usize::from(caret.y), at("/abc"));
    assert_eq!(caret.x, 4);
    // The legend may come last instead; it takes the same room.
    let mut canvas = TextBuffer::new(100, 20);
    let (below, caret) = paint_bottom(
        &mut canvas,
        &searching,
        2,
        "boom",
        Some(("5m", false)),
        false,
        false,
        true,
        0,
    );
    assert_eq!(below, used);
    assert_eq!(caret.unwrap().y, 0);
    let out = canvas.display_with(Profile::Disabled).to_string();
    let at = |text: &str| out.lines().position(|l| l.contains(text)).unwrap();
    assert_eq!((at("/abc"), at("error: boom"), at("r refresh")), (0, 2, 4));
    assert_eq!(at("Help"), 6);
    // Nothing to say takes no room.
    let mut canvas = TextBuffer::new(10, 2);
    let (used, caret) = paint_bottom(
        &mut canvas,
        &ui(ViewKind::Mine),
        0,
        "",
        None,
        false,
        true,
        true,
        0,
    );
    assert_eq!(used, 0);
    assert!(caret.is_none());
}

#[test]
fn a_filter_shows_only_matching_rows() {
    let sections = demo_sections(1_700_000_000);
    let filtered = Ui {
        search: "nix flake".to_string(),
        ..ui(ViewKind::Mine)
    };
    let mut buf = None;
    let shown = filtered.shown(&sections, &mut buf);
    assert_eq!(shown.prs.as_ref().unwrap().len(), 1);
    assert_eq!(shown.prs.as_ref().unwrap()[0].number, 124);
    assert!(shown.queue.as_ref().unwrap().is_empty());
    let mut buf = None;
    let all = ui(ViewKind::Mine);
    assert_eq!(all.shown(&sections, &mut buf).prs.as_ref().unwrap().len(), 5);
}

#[test]
fn one_shot_output_shows_the_help_unless_told_not_to() {
    let once = Ui::once(ViewKind::Reviews, false);
    assert!(once.show_help);
    assert_eq!(once.view, ViewKind::Reviews);
    assert!(once.selected.is_none() && once.search.is_empty() && !once.searching);
    assert!(!Ui::once(ViewKind::Mine, true).show_help);
}

#[test]
fn a_rendered_dashboard_is_cropped_to_its_content() {
    let sections = demo_sections(1_700_000_000);
    let changes = Changes {
        status_changed: HashSet::from([127]),
        newly_merged: HashSet::from([119]),
    };
    let plain = render_to_string(
        &sections,
        &times(&sections),
        &Ui::once(ViewKind::Mine, true),
        &changes,
        None,
        true,
        false,
        Colors::Disabled,
    );
    assert!(!plain.contains('\x1b'));
    for title in [
        "My open PRs (5)",
        "Merge Queue (3)",
        "~11m to merge",
        "My merged PRs (4)",
        "My Shipments (77+)",
    ] {
        assert!(plain.contains(title), "{title}");
    }
    let changed = plain.lines().find(|l| l.contains("#127")).unwrap();
    assert!(changed.starts_with('>'));
    assert!(plain.lines().all(|l| l.chars().count() <= OUTPUT_WIDTH));
    let styled = render_to_string(
        &sections,
        &times(&sections),
        &Ui::once(ViewKind::Reviews, false),
        &Changes::default(),
        Some(("5m", false)),
        false,
        false,
        Colors::TrueColor,
    );
    assert!(styled.contains("\x1b]8;id="));
    assert!(styled.contains("Reviews"));
    assert!(styled.contains("reviews"));
}

#[test]
fn each_view_paints_where_it_is_told_to() {
    let sections = demo_sections(1_700_000_000);
    let mut canvas = TextBuffer::new(100, 60);
    let next = paint_mine(
        &mut canvas,
        &sections,
        &times(&sections),
        &Changes::default(),
        None,
        true,
        true,
        3,
    );
    let out = canvas.display_with(Profile::Disabled).to_string();
    let lines: Vec<&str> = out.split("\r\n").collect();
    assert!(lines[..3].iter().all(|l| l.trim().is_empty()));
    assert!(lines[3].contains("My open PRs (5)"));
    assert!(out.contains("BRANCH"));
    // Header, table header, rows and a blank row for each section; the
    // shipments have a header, one row more than releases, and a blank row.
    assert_eq!(next, 3 + (5 + 3) + (3 + 3) + (4 + 3) + (4 + 3));

    let mut canvas = TextBuffer::new(100, 30);
    let next = paint_reviews(
        &mut canvas,
        &sections,
        &times(&sections),
        None,
        true,
        true,
        0,
    );
    assert_eq!(next, (4 + 3) + (2 + 3));
    let out = canvas.display_with(Profile::Disabled).to_string();
    assert!(out.contains("BRANCH"));
}

#[test]
fn errors_are_cut_to_one_short_line() {
    assert_eq!(short_error("boom"), "boom");
    assert_eq!(short_error("first\nsecond"), "first");
    assert_eq!(short_error("first\r\nsecond"), "first");
    assert_eq!(short_error(""), "");
    let long = "é".repeat(121);
    let cut = short_error(&long);
    assert_eq!(cut.chars().count(), 120);
    assert!(cut.ends_with('\u{2026}'));
    let exact = "x".repeat(120);
    assert_eq!(short_error(&exact), exact);
}

#[test]
fn demo_data_is_dated_before_now() {
    // Any clock that can be dated does, also one before 1970.
    let old = demo_sections(0);
    let first = &old.prs.as_ref().unwrap()[0];
    assert_eq!(first.updated_at.as_deref(), Some("1969-12-31T23:55:00Z"));
    for now in [FIRST_SECOND + OLDEST, LAST_SECOND] {
        assert_eq!(demo_sections(now).prs.unwrap().len(), 5);
    }
    let s = demo_sections(1_700_000_000);
    // 300 seconds before 2023-11-14T22:13:20Z.
    let first = &s.prs.as_ref().unwrap()[0];
    assert_eq!(first.number, 128);
    assert_eq!(first.updated_at.as_deref(), Some("2023-11-14T22:08:20Z"));
    assert_eq!(first.url, "https://github.com/caarlos0/prowl/pull/128");
    assert_eq!(s.queue_next_eta, Some(660));
    let queue = s.queue.as_ref().unwrap();
    assert!(queue[0].mine && !queue[1].mine);
    assert!(queue[2].build_started_at.is_none());
    let merged = s.merged.as_ref().unwrap();
    assert!(merged[0].release.is_none());
    assert_eq!(merged[2].release.as_ref().unwrap().tag, "v0.4.0");
    assert_eq!(s.commits.as_ref().unwrap().releases.len(), 4);
    assert_eq!(s.reviews.as_ref().unwrap().len(), 4);
    assert_eq!(s.reviewed_merged.as_ref().unwrap().len(), 2);
}
