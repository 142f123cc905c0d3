use prowl::status::{
    approval_ascii, approval_glyph, approval_meaning, approval_of, approval_style, check_run_lamp,
    conflict_marker, conflicts_of, derive_status, fg, lamp_color, mergeable_ascii, mergeable_glyph,
    mergeable_meaning, mergeable_of, mergeable_style, review_ascii, review_glyph, review_meaning,
    review_style, status_context_lamp, Approval, Checks, Lamp, Mergeable, ReviewState, Status,
    APPROVAL_ORDER, BLUE, GREEN, MERGEABLE_ORDER, PEACH, RED, REVIEW_ORDER, YELLOW,
};

/// Build a `Checks` from (fail, running, pass).
fn checks(fail: u64, running: u64, pass: u64) -> Checks {
    Checks { fail, running, pass }
}

#[test]
fn conflicts_come_from_either_field() {
    // Both fields agree.
    assert!(conflicts_of(Some("DIRTY"), Some("CONFLICTING")));
    // They are computed by the same job and one can land first, so a
    // conflict reported by either one counts.
    assert!(conflicts_of(Some("UNKNOWN"), Some("CONFLICTING")));
    assert!(conflicts_of(Some("DIRTY"), None));
    // Everything that holds a merge for another reason is not a conflict:
    // those reasons have their own columns.
    for state in ["CLEAN", "BLOCKED", "BEHIND", "UNSTABLE", "DRAFT", "HAS_HOOKS"] {
        assert!(!conflicts_of(Some(state), Some("MERGEABLE")), "{state}");
    }
    assert!(!conflicts_of(Some("UNKNOWN"), None));
    assert!(!conflicts_of(None, None));
}

#[test]
fn the_conflict_marker_honors_the_ascii_toggle() {
    assert_eq!(conflict_marker(true), '!');
    assert_eq!(conflict_marker(false), '\u{f127}');
}

#[test]
fn approval_palette_glyphs_colors_and_letters() {
    assert_eq!(approval_style(Approval::Approved), ('\u{f00c}', GREEN));
    assert_eq!(approval_style(Approval::Pending), ('\u{f05e}', YELLOW));
    assert_eq!(approval_ascii(Approval::Approved), 'y');
    assert_eq!(approval_ascii(Approval::Pending), 'n');
    // The ASCII toggle picks the letter; otherwise the glyph.
    assert_eq!(approval_glyph(Approval::Approved, true), 'y');
    assert_eq!(approval_glyph(Approval::Approved, false), '\u{f00c}');
}

#[test]
fn one_approval_is_enough_and_a_change_request_does_not_undo_it() {
    assert_eq!(approval_of(&[]), Approval::Pending);
    assert_eq!(approval_of(&["APPROVED"]), Approval::Approved);
    assert_eq!(approval_of(&["CHANGES_REQUESTED"]), Approval::Pending);
    // A change request leaves the approval standing: the THREADS column
    // reports what is still open, so the glyph keeps its one meaning.
    assert_eq!(
        approval_of(&["APPROVED", "CHANGES_REQUESTED"]),
        Approval::Approved
    );
    assert_eq!(
        approval_of(&["CHANGES_REQUESTED", "APPROVED"]),
        Approval::Approved
    );
}

#[test]
fn review_letters_are_distinct_from_the_open_pr_letters() {
    let letters: Vec<char> = APPROVAL_ORDER
        .iter()
        .map(|a| approval_ascii(*a))
        .chain([conflict_marker(true)])
        .collect();
    for r in REVIEW_ORDER {
        assert!(
            !letters.contains(&review_ascii(r)),
            "review letter for {r:?} collides with an open-PR letter"
        );
    }
}

#[test]
fn check_run_states_map_to_lamps() {
    for red in [
        "FAILURE",
        "TIMED_OUT",
        "CANCELLED",
        "ACTION_REQUIRED",
        "STARTUP_FAILURE",
    ] {
        assert_eq!(check_run_lamp(red), Some(Lamp::Fail), "{red}");
    }
    for yellow in ["QUEUED", "IN_PROGRESS", "PENDING", "WAITING", "REQUESTED"] {
        assert_eq!(check_run_lamp(yellow), Some(Lamp::Running), "{yellow}");
    }
    for green in ["SUCCESS", "NEUTRAL", "SKIPPED", "COMPLETED"] {
        assert_eq!(check_run_lamp(green), Some(Lamp::Pass), "{green}");
    }
    // STALE blocks nothing and isn't running, so it lights no lamp.
    assert_eq!(check_run_lamp("STALE"), None);
    assert_eq!(check_run_lamp("WHATEVER"), None);
}

#[test]
fn status_context_states_map_to_lamps() {
    assert_eq!(status_context_lamp("ERROR"), Some(Lamp::Fail));
    assert_eq!(status_context_lamp("FAILURE"), Some(Lamp::Fail));
    assert_eq!(status_context_lamp("PENDING"), Some(Lamp::Running));
    assert_eq!(status_context_lamp("EXPECTED"), Some(Lamp::Running));
    assert_eq!(status_context_lamp("SUCCESS"), Some(Lamp::Pass));
    assert_eq!(status_context_lamp("WHATEVER"), None);
}

#[test]
fn adding_counts_fills_the_right_lamp() {
    let mut c = Checks::default();
    assert!(c.is_empty());
    c.add(Some(Lamp::Fail), 2);
    c.add(Some(Lamp::Running), 3);
    c.add(Some(Lamp::Pass), 10);
    c.add(None, 99); // an unmapped state is dropped
    assert_eq!(c, checks(2, 3, 10));
    assert_eq!(c.on(Lamp::Fail), 2);
    assert_eq!(c.on(Lamp::Running), 3);
    assert_eq!(c.on(Lamp::Pass), 10);
    assert!(!c.is_empty());
}

#[test]
fn lamp_colors_are_a_semaphore() {
    assert_eq!(lamp_color(Lamp::Fail), RED);
    assert_eq!(lamp_color(Lamp::Running), YELLOW);
    assert_eq!(lamp_color(Lamp::Pass), GREEN);
}

#[test]
fn precedence_is_respected() {
    // Conflicts beat failing checks.
    assert_eq!(
        derive_status(true, checks(2, 1, 5)),
        Some(Status::Conflicts)
    );
    // Fail beats running.
    assert_eq!(derive_status(false, checks(1, 3, 5)), Some(Status::Fail));
    // Running beats pass.
    assert_eq!(derive_status(false, checks(0, 3, 5)), Some(Status::Pending));
    // All green.
    assert_eq!(derive_status(false, checks(0, 0, 5)), Some(Status::Pass));
    // No checks at all -> nothing to report.
    assert_eq!(derive_status(false, Checks::default()), None);
}

#[test]
fn review_palette_glyphs_colors_and_letters() {
    assert_eq!(review_style(ReviewState::Awaiting), ('\u{F06E}', YELLOW));
    assert_eq!(review_style(ReviewState::ReReview), ('\u{F021}', PEACH));
    assert_eq!(review_style(ReviewState::Updated), ('\u{F0AA}', BLUE));
    assert_eq!(review_style(ReviewState::Reviewed), ('\u{F00C}', GREEN));
    assert_eq!(review_ascii(ReviewState::Awaiting), 'a');
    assert_eq!(review_ascii(ReviewState::ReReview), '@');
    assert_eq!(review_ascii(ReviewState::Updated), '^');
    assert_eq!(review_ascii(ReviewState::Reviewed), 'v');
    // The ASCII toggle picks the letter; otherwise the glyph.
    assert_eq!(review_glyph(ReviewState::Updated, true), '^');
    assert_eq!(review_glyph(ReviewState::Updated, false), '\u{F0AA}');
}

#[test]
fn mergeability_letters_follow_the_order_of_the_legend() {
    let letters: Vec<char> = MERGEABLE_ORDER.iter().map(|m| mergeable_ascii(*m)).collect();
    assert_eq!(letters, ['y', 'n', '!', '?']);
    // No two of them look the same, in either form.
    for (i, a) in MERGEABLE_ORDER.iter().enumerate() {
        for b in &MERGEABLE_ORDER[i + 1..] {
            assert_ne!(mergeable_glyph(*a, false), mergeable_glyph(*b, false));
            assert_ne!(mergeable_glyph(*a, true), mergeable_glyph(*b, true));
            assert_ne!(mergeable_meaning(*a), mergeable_meaning(*b));
        }
    }
    assert_eq!(mergeable_style(Mergeable::Ready).1, GREEN);
}

#[test]
fn mergeability_comes_from_both_fields() {
    assert_eq!(
        mergeable_of(Some("CLEAN"), Some("MERGEABLE")),
        Mergeable::Ready
    );
    for held in ["BLOCKED", "BEHIND", "DRAFT"] {
        assert_eq!(
            mergeable_of(Some(held), Some("MERGEABLE")),
            Mergeable::Blocked,
            "{held}"
        );
    }
    assert_eq!(
        mergeable_of(Some("UNKNOWN"), Some("CONFLICTING")),
        Mergeable::Conflicts
    );
    assert_eq!(mergeable_of(Some("DIRTY"), None), Mergeable::Conflicts);
    assert_eq!(mergeable_of(None, None), Mergeable::Unknown);
    // A conflict is reported by both readings or by neither.
    for state in [None, Some("DIRTY"), Some("CLEAN"), Some("UNKNOWN")] {
        for merge in [None, Some("CONFLICTING"), Some("MERGEABLE")] {
            assert_eq!(
                conflicts_of(state, merge),
                mergeable_of(state, merge) == Mergeable::Conflicts
            );
        }
    }
}

#[test]
fn every_state_has_a_meaning() {
    assert_ne!(
        approval_meaning(Approval::Approved),
        approval_meaning(Approval::Pending)
    );
    assert_eq!(
        review_meaning(ReviewState::ReReview),
        "re-review requested after you reviewed"
    );
    assert_eq!(fg(RED).fg, Some(RED));
}
