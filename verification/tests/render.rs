use prowl::chrome::{paint_help, paint_tabs};
use prowl::cli::ViewKind;
use prowl::render::{
    change_marker, compose, help_height, highlight_row, lamp_cell, link_params, paint_dim_at,
    paint_footer, paint_header, paint_search_prompt, paint_table, paint_table_aligned,
    render_table, select_marker, table_alignment, table_fits, table_layout, table_required_width,
    truncate, Cell, Table, MIN_WIDTH, OUTPUT_WIDTH,
};
use prowl::status::{mergeable_style, Lamp, Mergeable, BLUE, LAVENDER, RED, SURFACE};
use prowl::surface::Style;
use prowl::table::{table_fits_aligned, table_is_compact, table_is_compact_aligned};
use uncurses::buffer::TextBuffer;
use uncurses::color::Profile;
use uncurses::text::{Encode, TextSurface};

/// Paint `f` into a fresh buffer and return its encoded form at `profile`.
fn encode(width: u16, height: u16, profile: Profile, f: impl FnOnce(&mut TextBuffer)) -> String {
    let mut canvas = TextBuffer::new(width, height);
    f(&mut canvas);
    let mut out = Vec::new();
    canvas.encode_with(&mut out, profile).unwrap();
    String::from_utf8(out).unwrap()
}

/// Paint one text row per line of `lines` into a buffer of that height.
fn buf(lines: &[&str]) -> (TextBuffer, u16) {
    let mut b = TextBuffer::new(8, lines.len().max(1) as u16);
    for (y, l) in lines.iter().enumerate() {
        b.set_str((0, y as u16), l, None);
    }
    (b, lines.len() as u16)
}

/// Compose onto a `rows`-tall screen and read the result back as trimmed rows.
fn screen_rows(body: &[&str], bottom: &[&str], rows: u16, caret: Option<u16>) -> Vec<String> {
    let (mut b, bh) = buf(body);
    let (mut bot, both) = buf(bottom);
    let mut screen = TextBuffer::new(8, rows);
    compose(&mut screen, &mut b, bh, &mut bot, both, rows, caret);
    let mut out: Vec<String> = screen
        .display_with(Profile::Disabled)
        .to_string()
        .lines()
        .map(|l| l.trim_end().to_string())
        .collect();
    // The display drops trailing all-blank rows; the buffer still has them.
    out.resize(rows as usize, String::new());
    out
}

#[test]
fn compose_pins_the_bottom_block_to_the_last_rows() {
    // A short body is padded out so the footer lands on the last row.
    assert_eq!(
        screen_rows(&["a", "b"], &["footer"], 6, None),
        ["a", "b", "", "", "", "footer"]
    );
}

#[test]
fn compose_scrolls_the_body_to_keep_the_caret_in_view() {
    let body: Vec<String> = (0..20).map(|i| i.to_string()).collect();
    let body: Vec<&str> = body.iter().map(String::as_str).collect();
    // 6 rows, one of them the footer, leaves 5 for the body.
    let five = |caret| screen_rows(&body, &["footer"], 6, caret);

    // With no selection the body starts at the top...
    assert_eq!(five(None), ["0", "1", "2", "3", "4", "footer"]);
    // ...a caret past the fold scrolls into view, centered...
    assert_eq!(five(Some(10)), ["8", "9", "10", "11", "12", "footer"]);
    // ...and the last row can't scroll past the end of the body.
    assert_eq!(five(Some(19)), ["15", "16", "17", "18", "19", "footer"]);
}

#[test]
fn compose_reports_the_rows_cut_from_the_bottom_block() {
    let (mut b, bh) = buf(&["body"]);
    let mut at = |rows| {
        let (mut bot, both) = buf(&["help", "search", "footer"]);
        let mut screen = TextBuffer::new(8, rows);
        compose(&mut screen, &mut b, bh, &mut bot, both, rows, None)
    };
    // Room for everything: nothing is cut, so a position in the block maps
    // straight onto `top + y`.
    assert_eq!(at(5), (2, 0));
    // Too short: the head goes. The search prompt (block row 1) is still
    // drawn, now at screen row `top + 1 - cut`.
    let (top, cut) = at(2);
    assert_eq!((top, cut), (0, 1));
    assert_eq!(top + (1 - cut), 0);
    // Shorter still: only the footer survives and the prompt is gone, which
    // the caller detects as `y < cut`.
    let (_, cut) = at(1);
    assert_eq!(cut, 2);
    assert!(1 < cut);
}

#[test]
fn compose_keeps_the_footer_when_the_bottom_block_overflows() {
    // Too short for both: the body goes, and the bottom block is cut from
    // the start so its last lines — down to the footer — stay.
    assert_eq!(
        screen_rows(&["a", "b"], &["h1", "h2", "footer"], 2, None),
        ["h2", "footer"]
    );
}

#[test]
fn compose_never_panics_and_always_keeps_the_footer() {
    // Degenerate shapes must not panic and must never drop the tail of the
    // bottom block, where the footer lives.
    let bodies: [&[&str]; 4] = [&[], &["a"], &["a", "b", "c", "d", "e", "f"], &["x", "", ""]];
    let bottoms: [&[&str]; 3] = [&[], &["f"], &["h1", "h2", "h3", "f"]];
    for body in bodies {
        for bottom in bottoms {
            for rows in 1..12u16 {
                for caret in [None, Some(0), Some(1), Some(5), Some(100)] {
                    let out = screen_rows(body, bottom, rows, caret);
                    assert_eq!(out.len(), rows as usize, "{body:?}/{bottom:?}/{rows}");
                    if let Some(footer) = bottom.last() {
                        assert!(out.contains(&(*footer).to_string()));
                    }
                }
            }
        }
    }
}

#[test]
fn search_prompt_reports_the_caret_and_paints_none() {
    let mut canvas = TextBuffer::new(40, 1);
    let (next, caret) = paint_search_prompt(&mut canvas, "café", 1, false, 0);
    assert_eq!(next, 1);
    // Just past `/café` — width, not byte length.
    assert_eq!(caret.x, 5);
    let mut out = Vec::new();
    canvas.encode_with(&mut out, Profile::TrueColor).unwrap();
    let s = String::from_utf8(out).unwrap();
    assert!(s.contains("/café"));
    assert!(s.contains("(1 match)"));
    // No painted stand-in cursor: nothing is reverse-video.
    assert!(!s.contains("\x1b[7m"));
}

#[test]
fn plain_table_aligns_and_pads() {
    let table = Table {
        header: vec!["PR", "TITLE"],
        rows: vec![
            vec![Cell::plain("#1"), Cell::plain("short")],
            vec![Cell::plain("#42"), Cell::plain("x")],
        ],
    };
    let out = encode(20, 3, Profile::Disabled, |b| {
        paint_table(b, &table, true, 0);
    });
    // Header, then two rows; columns line up by display width, no escapes.
    assert_eq!(out, "PR   TITLE\r\n#1   short\r\n#42  x");
}

#[test]
fn padding_uses_display_width_for_glyphs() {
    // The check-circle glyph is one display column but several bytes; the
    // following column must still line up by display width.
    let glyph = mergeable_style(Mergeable::Ready).0;
    let table = Table {
        header: vec!["ST", "PR"],
        rows: vec![
            vec![Cell::plain(&glyph.to_string()), Cell::plain("#1")],
            vec![Cell::plain("xx"), Cell::plain("#2")],
        ],
    };
    let out = encode(10, 3, Profile::Disabled, |b| {
        paint_table(b, &table, true, 0);
    });
    let lines: Vec<&str> = out.split("\r\n").collect();
    let col = |line: &str| line.find('#').map_or("", |i| &line[..i]).chars().count();
    // The "#" starts at the same display column on both rows.
    assert_eq!(col(lines[1]), col(lines[2]));
}

#[test]
fn styled_url_is_an_osc8_hyperlink() {
    let table = Table {
        header: vec!["URL"],
        rows: vec![vec![Cell::link("https://x/1", "https://x/1")]],
    };
    let out = encode(12, 2, Profile::TrueColor, |b| {
        paint_table(b, &table, false, 0);
    });
    // OSC-8 framing: the opener carries a per-URL `id=` param, the closer is
    // empty; dim + underline SGR.
    assert!(out.contains("\x1b]8;id="));
    assert!(out.contains(";https://x/1\x1b\\"));
    assert!(out.contains("\x1b]8;;\x1b\\"));
    assert!(out.contains("\x1b[2;4m"));
}

#[test]
fn link_params_is_a_7_hex_char_id() {
    let p = link_params("https://github.com/o/r/pull/42");
    let id = p.strip_prefix("id=").expect("id= prefix");
    assert_eq!(id.len(), 7);
    assert!(id.chars().all(|c| c.is_ascii_hexdigit()));
}

#[test]
fn disabled_profile_drops_styling_and_links() {
    let table = Table {
        header: vec!["URL"],
        rows: vec![vec![Cell::link("https://x/1", "https://x/1")]],
    };
    let out = encode(12, 2, Profile::Disabled, |b| {
        paint_table(b, &table, false, 0);
    });
    assert!(!out.contains('\x1b'));
    assert!(out.contains("https://x/1"));
}

#[test]
fn footer_is_plain_or_styled_key_hints() {
    let plain = encode(80, 1, Profile::Disabled, |b| {
        paint_footer(b, "5m", false, false, true, 0);
    });
    assert_eq!(
        plain,
        "r refresh (every 5m) - tab switch view - enter open - y copy - / search - ? help"
    );

    // While a refresh is in flight the refresh hint says so instead.
    let refreshing = encode(80, 1, Profile::Disabled, |b| {
        paint_footer(b, "5m", true, false, true, 0);
    });
    assert!(refreshing.starts_with("r refreshing"));

    let styled = encode(80, 1, Profile::TrueColor, |b| {
        paint_footer(b, "5m", false, false, false, 0);
    });
    assert!(styled.contains("refresh (every 5m)"));
    assert!(styled.contains("help"));
    // Bold key accent (combined with the muted color) and a dim label.
    assert!(styled.contains("\x1b[1;"));
    assert!(styled.contains("\x1b[2m"));

    let compact = encode(80, 1, Profile::Disabled, |b| {
        paint_footer(b, "5m", false, true, true, 0);
    });
    assert!(compact.starts_with("+ resize for more - r refresh"));

    for width in MIN_WIDTH..80 {
        let plain = encode(width, 1, Profile::Disabled, |b| {
            paint_footer(b, "5m", false, false, true, 0);
        });
        assert!(plain.chars().count() <= usize::from(width));
        assert!(plain.starts_with('r'));

        let constrained = encode(width, 1, Profile::Disabled, |b| {
            paint_footer(b, "5m", false, true, true, 0);
        });
        assert!(constrained.chars().count() <= usize::from(width));
        assert!(constrained.starts_with('+'));
    }

    let compact_refreshing = encode(80, 1, Profile::TrueColor, |b| {
        paint_footer(b, "5m", true, true, false, 0);
    });
    assert!(compact_refreshing.starts_with("\x1b[1;"));
    assert!(compact_refreshing.contains("\x1b[2mresize for more - r\x1b[m \x1b[2mrefreshing"));
}

#[test]
fn truncate_marks_cut_with_ellipsis() {
    assert_eq!(truncate("short", 10, false), "short");
    assert_eq!(truncate("hello world", 8, false), "hello w\u{22ef}");
    assert_eq!(truncate("hello world", 8, true), "hello...");
}

#[test]
fn title_and_branch_fill_the_available_width() {
    let long = "x".repeat(200);
    let table = Table {
        header: vec!["", "PR", "TITLE", "BRANCH", "BASE"],
        rows: vec![vec![
            Cell::plain(" "),
            Cell::plain("#1"),
            Cell::plain(&long),
            Cell::plain("feature/a-very-long-branch"),
            Cell::plain("main"),
        ]],
    };
    let mut canvas = TextBuffer::new(OUTPUT_WIDTH as u16, 2);
    paint_table(&mut canvas, &table, false, 0);
    let out = canvas.display_with(Profile::Disabled).to_string();
    for line in out.split("\r\n") {
        assert!(
            line.chars().count() <= OUTPUT_WIDTH,
            "line exceeds surface width"
        );
    }
    // The long title was truncated with an ellipsis.
    assert!(out.contains('\u{22ef}'));
}

#[test]
fn narrow_tables_hide_detail_columns_before_branch() {
    let table = Table {
        header: vec!["", "PR", "TITLE", "BRANCH", "AUTHOR", "UPDATED"],
        rows: vec![vec![
            Cell::plain(" "),
            Cell::plain("#1"),
            Cell::plain("a title"),
            Cell::plain("feature/one"),
            Cell::plain("monalisa"),
            Cell::plain("2h"),
        ]],
    };

    let out = encode(24, 2, Profile::Disabled, |b| {
        paint_table(b, &table, true, 0);
    });
    assert!(out.contains("TITLE"));
    assert!(out.contains("BRANCH"));
    assert!(!out.contains("AUTHOR"));
    assert!(!out.contains("UPDATED"));
}

#[test]
fn title_stays_larger_than_branch_at_minimum_width() {
    let table = Table {
        header: vec!["", "PR", "TITLE", "BRANCH"],
        rows: vec![vec![
            Cell::plain(" "),
            Cell::plain("#1"),
            Cell::plain("short"),
            Cell::plain("feature/a-long-branch"),
        ]],
    };
    let canvas = TextBuffer::new(MIN_WIDTH, 2);
    let layout = table_layout(&canvas, &table, None).expect("minimum width should fit");
    let title = layout
        .columns
        .iter()
        .position(|&column| table.header[column] == "TITLE")
        .expect("title column");
    let branch = layout
        .columns
        .iter()
        .position(|&column| table.header[column] == "BRANCH")
        .expect("branch column");
    assert!(layout.widths[title] > layout.widths[branch]);
}

#[test]
fn mandatory_columns_can_report_terminal_too_small() {
    let table = Table {
        header: vec!["PR", "TITLE", "BRANCH"],
        rows: vec![vec![
            Cell::plain("#12345678901234567890"),
            Cell::plain("title"),
            Cell::plain("branch"),
        ]],
    };
    let canvas = TextBuffer::new(MIN_WIDTH, 2);
    assert!(!table_fits(&canvas, &table));
    let alignment = table_alignment(&canvas, &[&table]);
    assert!(table_required_width(&canvas, &table, &alignment) > MIN_WIDTH);
}

#[test]
fn alignment_keeps_pr_title_and_branch_starts_equal() {
    let table = |marker: &'static str, number: &str, title: &str, branch: &str, tail: &'static str| {
        Table {
            header: vec!["", marker, "PR", "TITLE", "BRANCH", tail],
            rows: vec![vec![
                Cell::plain(" "),
                Cell::plain(" "),
                Cell::plain(number),
                Cell::plain(title),
                Cell::plain(branch),
                Cell::plain("x"),
            ]],
        }
    };
    let first = table("", "#1", "first title", "b/first", "FAIL");
    let second = table("#", "#200", "second title", "b/second", "AUTHOR");
    let third = table("", "#30", "third title", "b/third", "MERGED");
    let mut canvas = TextBuffer::new(80, 6);
    let alignment = table_alignment(&canvas, &[&first, &second, &third]);
    paint_table_aligned(&mut canvas, &first, &alignment, true, 0);
    paint_table_aligned(&mut canvas, &second, &alignment, true, 2);
    paint_table_aligned(&mut canvas, &third, &alignment, true, 4);

    let output = canvas.display_with(Profile::Disabled).to_string();
    let lines: Vec<&str> = output.lines().collect();
    let starts = |line: &str, values: [&str; 3]| {
        values.map(|value| line.find(value).expect("painted cell"))
    };
    assert_eq!(
        starts(lines[1], ["#1", "first title", "b/first"]),
        starts(lines[3], ["#200", "second title", "b/second"])
    );
    assert_eq!(
        starts(lines[1], ["#1", "first title", "b/first"]),
        starts(lines[5], ["#30", "third title", "b/third"])
    );
}

#[test]
fn aligned_tables_show_their_branches_together() {
    let table = |number: &str, branch: &str| Table {
        header: vec!["", "PR", "TITLE", "BRANCH", "AUTHOR"],
        rows: vec![vec![
            Cell::plain(" "),
            Cell::plain(number),
            Cell::plain("a title"),
            Cell::plain(branch),
            Cell::plain("monalisa"),
        ]],
    };
    let first = table("#1", "b/one");
    let second = table("#12345", "feature/a-much-longer-branch");
    let mut seen = [false, false];
    for width in 10..80 {
        let canvas = TextBuffer::new(width, 4);
        let alignment = table_alignment(&canvas, &[&first, &second]);
        let layouts = [&first, &second].map(|t| table_layout(&canvas, t, Some(&alignment)));
        let [Some(a), Some(b)] = layouts else {
            continue;
        };
        let shown = a.columns.contains(&3);
        assert_eq!(shown, b.columns.contains(&3), "width {width}");
        seen[usize::from(shown)] = true;
        // The columns left of the title are as wide as the widest of both.
        assert_eq!(a.widths[..2], [1, 6]);
        assert_eq!(a.widths[..2], b.widths[..2]);
        if shown {
            assert_eq!(a.widths[2], b.widths[2], "width {width}");
        }
    }
    assert_eq!(seen, [true, true]);
}

#[test]
fn alignment_keeps_the_check_semaphore_at_the_right() {
    let open = Table {
        header: vec!["", "", "PR", "TITLE", "THREADS", "FAIL", "RUN", "PASS"],
        rows: vec![],
    };
    let queue = Table {
        header: vec![
            "", "#", "PR", "TITLE", "AUTHOR", "WAIT", "BUILD", "FAIL", "RUN", "PASS",
        ],
        rows: vec![],
    };
    let mut canvas = TextBuffer::new(80, 2);
    let alignment = table_alignment(&canvas, &[&open, &queue]);
    paint_table_aligned(&mut canvas, &open, &alignment, true, 0);
    paint_table_aligned(&mut canvas, &queue, &alignment, true, 1);

    let output = canvas.display_with(Profile::Disabled).to_string();
    let lines: Vec<&str> = output.lines().collect();
    let starts = |line: &str| {
        ["FAIL", "RUN", "PASS"].map(|value| line.find(value).expect("semaphore column"))
    };
    assert_eq!(starts(lines[0]), starts(lines[1]));
}

#[test]
fn responsive_layout_hides_the_whole_check_semaphore() {
    let table = Table {
        header: vec!["", "PR", "TITLE", "THREADS", "FAIL", "RUN", "PASS"],
        rows: vec![vec![
            Cell::plain(" "),
            Cell::plain("#1"),
            Cell::plain("a title"),
            Cell::plain("0"),
            Cell::plain("1"),
            Cell::plain("2"),
            Cell::plain("3"),
        ]],
    };
    for width in MIN_WIDTH..=80 {
        let output = encode(width, 2, Profile::Disabled, |canvas| {
            paint_table(canvas, &table, true, 0);
        });
        let shown = ["FAIL", "RUN", "PASS"].map(|header| output.contains(header));
        assert!(
            shown.iter().all(|&value| value == shown[0]),
            "partial semaphore at width {width}: {shown:?}"
        );
    }
}

/// A table of one row with the optional details.
fn wide_table() -> Table {
    Table {
        header: vec!["", "PR", "TITLE", "BRANCH", "AUTHOR", "UPDATED"],
        rows: vec![vec![
            Cell::plain(" "),
            Cell::plain("#1"),
            Cell::plain("a title"),
            Cell::plain("feature/one"),
            Cell::plain("monalisa"),
            Cell::plain("2h"),
        ]],
    }
}

#[test]
fn a_wider_surface_never_shows_fewer_columns() {
    let table = wide_table();
    let mut before = 0;
    for width in MIN_WIDTH..=80 {
        let canvas = TextBuffer::new(width, 2);
        let layout = table_layout(&canvas, &table, None).unwrap();
        assert!(layout.columns.len() >= before);
        before = layout.columns.len();
        // The columns and what separates them never exceed the surface.
        let total: usize = layout.widths.iter().sum::<usize>() + 2 * (layout.widths.len() - 1);
        assert!(total <= usize::from(width));
    }
    assert_eq!(before, table.header.len());
}

#[test]
fn a_table_fits_exactly_where_its_required_width_does() {
    let table = wide_table();
    for width in 1..40u16 {
        let canvas = TextBuffer::new(width, 2);
        let alignment = table_alignment(&canvas, &[&table]);
        let need = table_required_width(&canvas, &table, &alignment);
        assert_eq!(table_fits_aligned(&canvas, &table, &alignment), need <= width);
    }
}

#[test]
fn a_table_is_compact_until_everything_is_shown() {
    let table = wide_table();
    let narrow = TextBuffer::new(30, 2);
    assert!(table_is_compact(&narrow, &table));
    let wide = TextBuffer::new(200, 2);
    assert!(!table_is_compact(&wide, &table));
    let alignment = table_alignment(&wide, &[&table]);
    assert!(!table_is_compact_aligned(&wide, &table, &alignment));
}

#[test]
fn tables_render_to_text_with_or_without_style() {
    let table = Table {
        header: vec!["PR", "TITLE"],
        rows: vec![vec![
            Cell::pr(7, "https://x/7", Style::new().fg(BLUE)),
            Cell::plain("t"),
        ]],
    };
    assert_eq!(render_table(&table, false), "PR  TITLE\r\n#7  t");
    let styled = render_table(&table, true);
    assert!(styled.contains("38;2;137;180;250"));
    assert!(styled.contains(";https://x/7\x1b\\"));
}

#[test]
fn different_links_have_different_ids() {
    assert_ne!(link_params("https://x/1"), link_params("https://x/2"));
    assert_eq!(link_params("https://x/1"), link_params("https://x/1"));
}

#[test]
fn headers_carry_a_count_and_a_note() {
    let ascii = encode(60, 1, Profile::Disabled, |b| {
        let next = paint_header(b, "Title", RED, Some("3"), Some("note"), true, 0);
        assert_eq!(next, 1);
    });
    assert!(ascii.contains("Title (3)"));
    assert!(ascii.contains("note"));
    let bare = encode(60, 1, Profile::Disabled, |b| {
        paint_header(b, "Title", RED, None, None, true, 0);
    });
    assert!(!bare.contains('('));
}

#[test]
fn dim_text_is_indented() {
    let out = encode(20, 1, Profile::Disabled, |b| {
        assert_eq!(paint_dim_at(b, "hello", 3, 0), 1);
    });
    assert_eq!(out, "   hello");
    let styled = encode(20, 1, Profile::TrueColor, |b| {
        paint_dim_at(b, "hello", 0, 0);
    });
    assert!(styled.starts_with("\x1b[2mhello"));
}

#[test]
fn markers_honor_the_ascii_toggle() {
    assert_eq!(change_marker(false, true).text, " ");
    assert_eq!(change_marker(true, true).text, ">");
    assert_eq!(change_marker(true, false).text, "\u{25b8}");
    assert_eq!(select_marker(true).text, ">");
    assert_eq!(select_marker(false).text, "\u{276f}");
    assert_eq!(select_marker(false).style.fg, Some(LAVENDER));
    assert_eq!(lamp_cell(0, Lamp::Fail).text, "0");
    assert!(lamp_cell(0, Lamp::Fail).style.faint);
    assert_eq!(lamp_cell(3, Lamp::Fail).style.fg, Some(RED));
    assert!(lamp_cell(3, Lamp::Fail).style.bold);
}

#[test]
fn highlighting_a_row_keeps_its_text() {
    let out = encode(4, 2, Profile::TrueColor, |b| {
        b.set_str((0, 0), "ab", None);
        b.set_str((0, 1), "cd", None);
        highlight_row(b, 1);
    });
    let lines: Vec<&str> = out.split("\r\n").collect();
    assert_eq!(lines[0], "ab");
    let bg = format!("48;2;{};{};{}", SURFACE.0, SURFACE.1, SURFACE.2);
    assert!(lines[1].contains(&bg), "{out:?}");
    assert!(lines[1].contains("cd"));
}

#[test]
fn tabs_name_both_views_and_mark_the_active_one() {
    let tabs = |view| {
        encode(40, 1, Profile::Disabled, |b| {
            assert_eq!(paint_tabs(b, view, true, 0), 1);
        })
    };
    let mine = tabs(ViewKind::Mine);
    let reviews = tabs(ViewKind::Reviews);
    assert!(mine.contains("my PRs") && mine.contains("reviews"));
    assert_ne!(mine, reviews);
}

#[test]
fn the_help_legend_is_as_tall_as_it_says() {
    for view in [ViewKind::Mine, ViewKind::Reviews] {
        let mut canvas = TextBuffer::new(120, 20);
        let used = paint_help(&mut canvas, view, true, 0);
        assert_eq!(usize::from(used), help_height(view));
        // The widest surface shows it too.
        let mut canvas = TextBuffer::new(u16::MAX, 8);
        let next = paint_help(&mut canvas, view, false, 3);
        assert_eq!(usize::from(next), 3 + help_height(view));
        let out = canvas.display_with(Profile::Disabled).to_string();
        assert!(out.contains("Help"));
    }
}

#[test]
fn a_prompt_counts_its_matches() {
    for (matches, text) in [(0, "(0 matches)"), (1, "(1 match)"), (12, "(12 matches)")] {
        let out = encode(40, 1, Profile::Disabled, |b| {
            paint_search_prompt(b, "q", matches, true, 0);
        });
        assert!(out.contains(text), "{out}");
    }
}
