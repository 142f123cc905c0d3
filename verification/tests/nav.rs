use prowl::cli::ViewKind;
use prowl::commits::{Bucket, CommitStats, Count, Release};
use prowl::merged::MergedRow;
use prowl::nav::{clamp, filter, moved, section_at, targets};
use prowl::prs::PrRow;
use prowl::queue::QueueRow;
use prowl::reviews::{ReviewRow, ReviewedMergedRow};
use prowl::sections::Sections;
use prowl::status::{Checks, Mergeable, ReviewState};
use prowl::term::Wait;

fn pr(n: i64) -> PrRow {
    PrRow {
        number: n,
        is_draft: false,
        title: format!("pr {n}"),
        branch: format!("b/{n}"),
        mergeable: Mergeable::Ready,
        status: None,
        checks: Checks::default(),
        unresolved: 0,
        unresolved_capped: false,
        queue: None,
        url: format!("https://pr/{n}"),
        updated_at: None,
    }
}

fn queued(n: i64) -> QueueRow {
    QueueRow {
        position: n,
        number: n,
        author: "me".into(),
        title: format!("q {n}"),
        branch: String::new(),
        url: format!("https://q/{n}"),
        mine: true,
        enqueued_at: None,
        build_started_at: None,
        checks: Checks::default(),
    }
}

fn merged(n: i64) -> MergedRow {
    MergedRow {
        number: n,
        title: format!("m {n}"),
        branch: String::new(),
        url: format!("https://m/{n}"),
        release: None,
        merged_at: None,
    }
}

fn bucket(url: &str) -> Bucket {
    Bucket {
        count: Count {
            mine: 1,
            capped: false,
        },
        url: url.into(),
    }
}

fn review() -> ReviewRow {
    ReviewRow {
        number: 1,
        is_draft: false,
        title: "r".into(),
        branch: String::new(),
        author: "a".into(),
        url: "https://rev/1".into(),
        state: ReviewState::Awaiting,
        updated_at: None,
    }
}

fn reviewed() -> ReviewedMergedRow {
    ReviewedMergedRow {
        number: 2,
        title: "rm".into(),
        branch: String::new(),
        author: "a".into(),
        url: "https://revm/2".into(),
        merged_at: None,
    }
}

fn empty() -> Sections {
    Sections::empty()
}

#[test]
fn mine_targets_follow_render_order() {
    let mut s = empty();
    s.prs = Some(vec![pr(1), pr(2)]);
    s.queue = Some(vec![queued(3)]);
    s.merged = Some(vec![merged(4)]);
    s.commits = Some(CommitStats {
        available: true,
        upcoming: Some(bucket("https://up")),
        releases: vec![Release {
            tag: "v1".into(),
            bucket: bucket("https://rel/v1"),
            published_at: None,
        }],
    });
    assert_eq!(
        targets(ViewKind::Mine, &s, ""),
        vec![
            "https://pr/1",
            "https://pr/2",
            "https://q/3",
            "https://m/4",
            "https://up",
            "https://rel/v1",
        ]
    );
}

#[test]
fn unavailable_or_urlless_shipments_are_skipped() {
    let mut s = empty();
    s.prs = Some(vec![pr(1)]);
    // No "upcoming" commits and stats marked unavailable -> no shipment targets.
    s.commits = Some(CommitStats {
        available: false,
        upcoming: None,
        releases: vec![],
    });
    assert_eq!(targets(ViewKind::Mine, &s, ""), vec!["https://pr/1"]);
}

#[test]
fn reviews_targets_follow_render_order() {
    let mut s = empty();
    s.reviews = Some(vec![review()]);
    s.reviewed_merged = Some(vec![reviewed()]);
    assert_eq!(
        targets(ViewKind::Reviews, &s, ""),
        vec!["https://rev/1", "https://revm/2"]
    );
}

#[test]
fn query_filters_targets_by_number_title_author_and_tag() {
    let mut s = empty();
    s.prs = Some(vec![pr(1), pr(2)]); // titles "pr 1" / "pr 2"
    s.queue = Some(vec![queued(3)]); // author "me"
    s.merged = Some(vec![merged(4)]);
    s.commits = Some(CommitStats {
        available: true,
        upcoming: Some(bucket("https://up")),
        releases: vec![Release {
            tag: "v1.5.0".into(),
            bucket: bucket("https://rel/v1"),
            published_at: None,
        }],
    });
    // Number substring hits the matching PR only.
    assert_eq!(targets(ViewKind::Mine, &s, "#2"), vec!["https://pr/2"]);
    // Author (case-insensitive) hits the queue row.
    assert_eq!(targets(ViewKind::Mine, &s, "ME"), vec!["https://q/3"]);
    // Release tag hits the release; "upcoming" hits the upcoming bucket.
    assert_eq!(targets(ViewKind::Mine, &s, "v1.5"), vec!["https://rel/v1"]);
    assert_eq!(targets(ViewKind::Mine, &s, "upcoming"), vec!["https://up"]);
    // No match -> empty.
    assert!(targets(ViewKind::Mine, &s, "zzz").is_empty());
}

#[test]
fn filter_keeps_matching_rows_in_lockstep_with_targets() {
    let mut s = empty();
    s.prs = Some(vec![pr(1), pr(2)]);
    s.merged = Some(vec![merged(4)]);
    let f = filter(&s, "#2");
    assert_eq!(f.prs.as_ref().unwrap().len(), 1);
    assert_eq!(f.prs.as_ref().unwrap()[0].number, 2);
    assert!(f.merged.as_ref().unwrap().is_empty());
    // The filtered sections' targets equal the query-filtered targets.
    assert_eq!(
        targets(ViewKind::Mine, &f, ""),
        targets(ViewKind::Mine, &s, "#2")
    );
}

#[test]
fn section_at_returns_the_whole_section_under_the_cursor() {
    let mut s = empty();
    s.prs = Some(vec![pr(1), pr(2)]);
    s.queue = Some(vec![queued(3)]);
    s.merged = Some(vec![merged(4), merged(5)]);
    s.commits = Some(CommitStats {
        available: true,
        upcoming: Some(bucket("https://up")),
        releases: vec![Release {
            tag: "v1".into(),
            bucket: bucket("https://rel/v1"),
            published_at: None,
        }],
    });
    // Indices 0-1 are the open PRs, 2 the queue, 3-4 merged, 5-6 shipments.
    let at = |i| section_at(ViewKind::Mine, &s, "", i);
    assert_eq!(at(0), vec!["https://pr/1", "https://pr/2"]);
    assert_eq!(at(1), vec!["https://pr/1", "https://pr/2"]);
    assert_eq!(at(2), vec!["https://q/3"]);
    assert_eq!(at(4), vec!["https://m/4", "https://m/5"]);
    assert_eq!(at(6), vec!["https://up", "https://rel/v1"]);
    // Past the end there's no section.
    assert!(at(7).is_empty());
}

#[test]
fn section_at_skips_empty_sections_and_honors_the_filter() {
    let mut s = empty();
    // No open PRs: index 0 must land on the first *non-empty* section, so a
    // `Y` with no selection copies the queue rather than nothing.
    s.prs = Some(vec![]);
    s.queue = Some(vec![queued(3)]);
    s.merged = Some(vec![merged(4)]);
    assert_eq!(section_at(ViewKind::Mine, &s, "", 0), vec!["https://q/3"]);

    // The filter applies to the section's contents too: only matching rows.
    let mut s = empty();
    s.prs = Some(vec![pr(1), pr(2)]);
    assert_eq!(
        section_at(ViewKind::Mine, &s, "#2", 0),
        vec!["https://pr/2"]
    );
    assert!(section_at(ViewKind::Mine, &s, "zzz", 0).is_empty());
}

#[test]
fn section_at_groups_the_reviews_view() {
    let mut s = empty();
    s.reviews = Some(vec![review()]);
    s.reviewed_merged = Some(vec![reviewed()]);
    assert_eq!(
        section_at(ViewKind::Reviews, &s, "", 0),
        vec!["https://rev/1"]
    );
    assert_eq!(
        section_at(ViewKind::Reviews, &s, "", 1),
        vec!["https://revm/2"]
    );
}

#[test]
fn movement_enters_and_clamps() {
    // From no selection, a down-ish move enters at the top; Bottom at the end.
    assert_eq!(moved(Wait::Down, None, 5, 2), Some(0));
    assert_eq!(moved(Wait::Up, None, 5, 2), Some(0));
    assert_eq!(moved(Wait::Bottom, None, 5, 2), Some(4));
    // Stepping is clamped to the ends.
    assert_eq!(moved(Wait::Down, Some(4), 5, 2), Some(4));
    assert_eq!(moved(Wait::Up, Some(0), 5, 2), Some(0));
    assert_eq!(moved(Wait::HalfDown, Some(0), 5, 2), Some(2));
    assert_eq!(moved(Wait::HalfUp, Some(4), 5, 2), Some(2));
    assert_eq!(moved(Wait::Top, Some(3), 5, 2), Some(0));
    // An empty list has nothing to select; non-movement keys are inert.
    assert_eq!(moved(Wait::Down, Some(0), 0, 2), None);
    assert_eq!(moved(Wait::Open, Some(1), 5, 2), Some(1));
}

#[test]
fn clamp_pins_or_drops() {
    assert_eq!(clamp(Some(9), 5), Some(4));
    assert_eq!(clamp(Some(2), 5), Some(2));
    assert_eq!(clamp(Some(0), 0), None);
    assert_eq!(clamp(None, 5), None);
}

#[test]
fn the_cursor_never_leaves_the_list() {
    let keys = [
        Wait::Down,
        Wait::Up,
        Wait::Top,
        Wait::Bottom,
        Wait::HalfDown,
        Wait::HalfUp,
    ];
    for key in keys {
        for len in 1..6usize {
            for sel in 0..len {
                let next = moved(key, Some(sel), len, 2).unwrap();
                assert!(next < len);
            }
        }
    }
    // Steps that would leave the range of numbers stop at the ends too.
    assert_eq!(moved(Wait::HalfDown, Some(1), 3, usize::MAX), Some(2));
    assert_eq!(moved(Wait::HalfUp, Some(1), 3, usize::MAX), Some(0));
}

#[test]
fn an_uppercase_query_finds_what_a_lowercase_one_does() {
    let mut s = empty();
    s.prs = Some(vec![pr(1), pr(2)]);
    let lower = targets(ViewKind::Mine, &s, "pr 2");
    assert_eq!(lower, ["https://pr/2"]);
    assert_eq!(targets(ViewKind::Mine, &s, "PR 2"), lower);
    // Folding reaches beyond ASCII.
    s.prs.as_mut().unwrap()[0].title = "ÉCLAIR".into();
    assert_eq!(targets(ViewKind::Mine, &s, "éclair"), ["https://pr/1"]);
}

#[test]
fn clearing_the_query_brings_every_row_back() {
    let mut s = empty();
    s.prs = Some(vec![pr(1), pr(2), pr(12)]);
    let all = targets(ViewKind::Mine, &s, "");
    for query in ["1", "2", "#12", "zzz"] {
        for url in targets(ViewKind::Mine, &s, query) {
            assert!(all.contains(&url));
        }
    }
    assert_eq!(filter(&s, "").prs.unwrap().len(), 3);
}
