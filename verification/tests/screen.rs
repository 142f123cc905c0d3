use prowl::changes::Changes;
use prowl::cli::ViewKind;
use prowl::dashboard::{Times, Ui};
use prowl::demo::demo_sections;
use prowl::render::{Cell, Table, MIN_WIDTH};
use prowl::screen::{
    any_compact, fit, follow, hide_count, hide_sections, min_columns, min_rows, paint_frame,
    paint_screen, paint_too_small, plan_rows, tables_fit, Fit,
};
use prowl::sections::Sections;
use uncurses::buffer::TextBuffer;
use uncurses::color::Profile;
use uncurses::text::Encode;

fn ui(view: ViewKind, show_help: bool) -> Ui {
    Ui {
        view,
        show_help,
        selected: None,
        search: String::new(),
        searching: false,
    }
}

fn table(number: &str) -> Table {
    Table {
        header: vec!["", "PR", "TITLE", "BRANCH", "AUTHOR"],
        rows: vec![vec![
            Cell::plain(" "),
            Cell::plain(number),
            Cell::plain("a title"),
            Cell::plain("a-branch"),
            Cell::plain("monalisa"),
        ]],
    }
}

/// The times of sections without a row that has one.
fn no_times() -> Times {
    Times {
        queue_waits: vec![],
        queue_builds: vec![],
        queue_eta: None,
        merged_ages: vec![],
        release_ages: vec![],
        review_ages: vec![],
        reviewed_ages: vec![],
    }
}

#[test]
fn parts_are_hidden_from_the_first_until_the_rest_fits() {
    assert_eq!(hide_count(5, &[4, 3, 2], 14), Some(0));
    assert_eq!(hide_count(5, &[4, 3, 2], 13), Some(1));
    assert_eq!(hide_count(5, &[4, 3, 2], 10), Some(1));
    assert_eq!(hide_count(5, &[4, 3, 2], 9), Some(2));
    assert_eq!(hide_count(5, &[4, 3, 2], 5), Some(3));
    assert_eq!(hide_count(5, &[4, 3, 2], 4), None);
    // A part of no rows is not hidden for nothing.
    assert_eq!(hide_count(5, &[0, 3], 8), Some(0));
}

#[test]
fn sections_go_in_order_and_the_open_one_never() {
    let s = || demo_sections(1_700_000_000);
    let full = ui(ViewKind::Mine, true);
    let footer = Some(("5m", false));
    let open = min_rows(&s(), &full, "", footer);
    // Tabs and a blank row, header, table header, five rows, a blank row, footer.
    assert_eq!(open, 2 + 8 + 1);
    assert_eq!(plan_rows(&s(), &full, "", footer, open - 1), None);
    assert_eq!(plan_rows(&s(), &full, "", footer, open), Some(4));
    assert_eq!(plan_rows(&s(), &full, "", footer, 500), Some(0));
    let mut before = 4;
    for rows in open..80 {
        let k = plan_rows(&s(), &full, "", footer, rows).unwrap();
        assert!(k <= before);
        before = k;
    }
    assert_eq!(before, 0);
    let hidden = |k| {
        let left = hide_sections(s(), ViewKind::Mine, k);
        (
            left.commits.is_none(),
            left.queue.is_none(),
            left.merged.is_none(),
            left.prs.is_none(),
        )
    };
    assert_eq!(hidden(0), (false, false, false, false));
    assert_eq!(hidden(1), (false, false, false, false));
    assert_eq!(hidden(2), (true, false, false, false));
    assert_eq!(hidden(3), (true, true, false, false));
    assert_eq!(hidden(4), (true, true, true, false));
    let left = hide_sections(s(), ViewKind::Reviews, 2);
    assert!(left.reviewed_merged.is_none() && left.reviews.is_some());
}

#[test]
fn an_error_and_a_search_need_rows_too() {
    let s = Sections {
        prs: Some(vec![]),
        ..Sections::empty()
    };
    let footer = Some(("5m", false));
    let plain = ui(ViewKind::Mine, false);
    let base = min_rows(&s, &plain, "", footer);
    assert_eq!(min_rows(&s, &plain, "boom", footer), base + 2);
    let searching = Ui {
        searching: true,
        ..ui(ViewKind::Mine, false)
    };
    assert_eq!(min_rows(&s, &searching, "boom", footer), base + 4);
}

#[test]
fn narrow_and_short_terminals_are_too_small() {
    let one = table("#1");
    let wide = table("#12345678901234567890");
    let canvas = TextBuffer::new(40, 10);
    assert!(tables_fit(&canvas, &[&one]));
    assert_eq!(min_columns(&canvas, &[]), MIN_WIDTH);
    assert!(min_columns(&canvas, &[&one, &wide]) > MIN_WIDTH);
    // Enough room, but a wider terminal would show the author.
    let narrow = TextBuffer::new(26, 10);
    assert!(any_compact(&narrow, &[&one]));
    assert_eq!(fit(&narrow, Some(0), &[&one], 9), Fit::Shown(0, true));
    let roomy = TextBuffer::new(200, 10);
    assert!(!any_compact(&roomy, &[&one]));
    assert_eq!(fit(&roomy, Some(0), &[&one], 9), Fit::Shown(0, false));
    // Hidden parts are more to show.
    assert_eq!(fit(&roomy, Some(2), &[&one], 9), Fit::Shown(2, true));
    // Too few rows, or too few columns.
    assert_eq!(
        fit(&roomy, None, &[], 9),
        Fit::TooSmall(MIN_WIDTH, 9)
    );
    let tiny = TextBuffer::new(MIN_WIDTH - 1, 10);
    assert_eq!(fit(&tiny, Some(0), &[], 9), Fit::TooSmall(MIN_WIDTH, 9));
    let small = TextBuffer::new(MIN_WIDTH, 10);
    let need = min_columns(&small, &[&wide]);
    assert_eq!(fit(&small, Some(0), &[&wide], 9), Fit::TooSmall(need, 9));
    let enough = TextBuffer::new(need, 10);
    assert!(tables_fit(&enough, &[&wide]));
}

#[test]
fn a_terminal_that_is_too_small_says_what_it_needs() {
    let mut canvas = TextBuffer::new(60, 2);
    paint_too_small(&mut canvas, 24, 11);
    let out = canvas.display_with(Profile::Disabled).to_string();
    assert!(out.starts_with("Terminal too small (need 24x11)"));
}

#[test]
fn the_asked_columns_are_just_enough() {
    let wide = table("#12345678901234567890123456789012345678901234567890123456789");
    let narrow = table("#1");
    for tables in [vec![&narrow], vec![&wide], vec![&narrow, &wide], vec![]] {
        for columns in 1..140 {
            let s = TextBuffer::new(columns, 5);
            let asked = min_columns(&s, &tables);
            let shown = matches!(fit(&s, Some(0), &tables, 9), Fit::Shown(_, _));
            assert_eq!(shown, columns >= asked, "{columns} of {asked}");
        }
    }
}

#[test]
fn a_wide_surface_shows_everything() {
    let narrow = table("#1");
    assert!(any_compact(&TextBuffer::new(26, 5), &[&narrow]));
    for columns in [200, 300, 1000] {
        let s = TextBuffer::new(columns, 5);
        assert!(!any_compact(&s, &[&narrow]));
        assert!(matches!(fit(&s, Some(0), &[&narrow], 9), Fit::Shown(0, false)));
    }
}

#[test]
fn the_cursor_follows_its_link() {
    let before = vec!["a", "b", "c"];
    assert_eq!(follow(Some(2), &before, &vec!["c", "b"]), Some(0));
    assert_eq!(follow(Some(1), &before, &vec!["c", "b"]), Some(1));
    assert_eq!(follow(Some(0), &before, &vec!["c", "b"]), None);
    assert_eq!(follow(None, &before, &vec!["c", "b"]), None);
    assert_eq!(follow(Some(3), &before, &vec!["c", "b"]), None);
    assert_eq!(follow(Some(0), &before, &before.clone()), Some(0));
    // Of two rows with one link, the cursor stays on its own.
    let twice = vec!["a", "b", "a"];
    assert_eq!(follow(Some(2), &twice, &twice.clone()), Some(2));
    assert_eq!(follow(Some(2), &twice, &vec!["b", "a"]), Some(1));
}

#[test]
fn a_frame_is_the_dashboard_or_says_what_it_needs() {
    let s = Sections {
        prs: Some(vec![]),
        ..Sections::empty()
    };
    let helped = ui(ViewKind::Mine, true);
    let paint = |columns: u16, rows: u16, hidden: Option<usize>| {
        let mut screen = TextBuffer::new(columns, rows);
        let caret = paint_frame(
            &mut screen,
            &s,
            &no_times(),
            &helped,
            &Changes::default(),
            "",
            ("5m", false),
            hidden,
            6,
            true,
            false,
        );
        assert!(caret.is_none());
        screen.display_with(Profile::Disabled).to_string()
    };
    let whole = paint(90, 30, Some(0));
    assert!(whole.contains("My open PRs (0)") && whole.contains("Help"));
    assert!(!whole.contains("resize for more"));
    // The help legend is the first part to go.
    let less = paint(90, 6, Some(1));
    assert!(less.contains("My open PRs (0)") && !less.contains("Help"));
    assert!(less.contains("+ resize for more"));
    let need = format!("Terminal too small (need {MIN_WIDTH}x6)");
    assert!(paint(90, 3, None).starts_with(&need));
    assert!(paint(MIN_WIDTH - 1, 30, Some(0)).starts_with("Terminal too small"));
}

#[test]
fn the_footer_is_glued_to_the_last_row() {
    let s = Sections {
        prs: Some(vec![]),
        ..Sections::empty()
    };
    let searching = Ui {
        search: "abc".to_string(),
        searching: true,
        ..ui(ViewKind::Mine, false)
    };
    let times = no_times();
    let mut screen = TextBuffer::new(90, 20);
    let caret = paint_screen(
        &mut screen,
        &s,
        &times,
        &searching,
        &Changes::default(),
        "",
        ("5m", false),
        true,
        true,
        false,
    );
    let out = screen.display_with(Profile::Disabled).to_string();
    let lines: Vec<&str> = out.lines().collect();
    assert!(lines[0].contains("my PRs"));
    assert!(lines[2].contains("My open PRs (0)"));
    assert!(lines[19].starts_with("+ resize for more"));
    assert!(lines[17].starts_with("/abc"));
    let caret = caret.unwrap();
    assert_eq!((caret.x, caret.y), (4, 17));
}
