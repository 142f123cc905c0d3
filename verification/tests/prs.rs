use prowl::model::{
    Commit, CommitNode, Commits, OpinionatedReviews, PrNode, QueueEntry, ReviewThread,
    ReviewThreads, Rollup, RollupCounts, StateCount,
};
use prowl::prs::{build_rows, to_table, without_drafts, without_queued};
use prowl::status::{Checks, Mergeable, Status, BLUE, PEACH};
use std::collections::HashSet;

/// A PR node with the given merge state and per-state check-run counts.
fn pr(number: i64, mergeable: &str, state: &str, runs: &[(&str, u64)]) -> PrNode {
    PrNode {
        number,
        title: format!("PR {number}"),
        url: format!("https://x/{number}"),
        mergeable: Some(mergeable.to_string()),
        merge_state_status: Some(state.to_string()),
        is_draft: false,
        updated_at: None,
        head_ref_name: Some(format!("branch-{number}")),
        latest_opinionated_reviews: OpinionatedReviews::default(),
        merge_queue_entry: None,
        review_threads: ReviewThreads {
            total_count: 0,
            nodes: vec![],
        },
        commits: Commits {
            nodes: vec![CommitNode {
                commit: Commit {
                    id: format!("commit-{number}"),
                    status_check_rollup: Some(Rollup {
                        contexts: RollupCounts {
                            check_runs: runs
                                .iter()
                                .map(|(state, count)| StateCount {
                                    state: (*state).to_string(),
                                    count: *count,
                                })
                                .collect(),
                            status_contexts: vec![],
                        },
                    }),
                },
            }],
        },
        required_checks: None,
    }
}

#[test]
fn sorts_by_updated_at_then_derives_checks_and_mergeability() {
    let mut a = pr(10, "MERGEABLE", "BLOCKED", &[("SUCCESS", 8)]);
    a.updated_at = Some("2026-06-19T10:00:00Z".to_string());
    let mut b = pr(
        42,
        "CONFLICTING",
        "DIRTY",
        &[("FAILURE", 2), ("IN_PROGRESS", 1), ("SUCCESS", 3)],
    );
    b.updated_at = Some("2026-06-19T09:00:00Z".to_string());
    // #10 was updated more recently than #42, so it sorts first despite the
    // lower number.
    let rows = build_rows(vec![a, b]);
    assert_eq!(rows[0].number, 10);
    assert_eq!(rows[0].mergeable, Mergeable::Blocked);
    assert_eq!(
        rows[0].checks,
        Checks {
            fail: 0,
            running: 0,
            pass: 8
        }
    );
    assert_eq!(rows[0].status, Some(Status::Pass));
    assert_eq!(rows[1].number, 42);
    assert_eq!(rows[1].mergeable, Mergeable::Conflicts);
    assert_eq!(
        rows[1].checks,
        Checks {
            fail: 2,
            running: 1,
            pass: 3
        }
    );
    assert_eq!(rows[1].status, Some(Status::Conflicts));
}

#[test]
fn counts_unresolved_review_threads() {
    let mut p = pr(1, "MERGEABLE", "CLEAN", &[]);
    p.review_threads = ReviewThreads {
        total_count: 3,
        nodes: vec![
            ReviewThread { is_resolved: true },
            ReviewThread { is_resolved: false },
            ReviewThread { is_resolved: false },
        ],
    };
    let rows = build_rows(vec![p]);
    assert_eq!(rows[0].unresolved, 2);
    assert!(!rows[0].unresolved_capped);
}

#[test]
fn flags_a_truncated_review_thread_page() {
    let mut p = pr(1, "MERGEABLE", "CLEAN", &[]);
    // The server reports 120 threads but we only fetched one page of 100.
    p.review_threads = ReviewThreads {
        total_count: 120,
        nodes: (0..100)
            .map(|_| ReviewThread { is_resolved: false })
            .collect(),
    };
    let rows = build_rows(vec![p]);
    assert_eq!(rows[0].unresolved, 100);
    assert!(rows[0].unresolved_capped);
    let table = to_table(&rows, true, &HashSet::new(), false);
    // Last column is THREADS; the `+` says "at least this many".
    assert_eq!(table.rows[0].last().unwrap().text, "100+");
}

#[test]
fn a_commit_without_a_rollup_has_no_checks() {
    let mut p = pr(1, "MERGEABLE", "CLEAN", &[]);
    p.commits.nodes[0].commit.status_check_rollup = None;
    let rows = build_rows(vec![p]);
    assert!(rows[0].checks.is_empty());
    assert_eq!(rows[0].status, None);
}

#[test]
fn queue_entry_becomes_position_and_state() {
    let mut p = pr(1, "MERGEABLE", "CLEAN", &[("SUCCESS", 1)]);
    p.merge_queue_entry = Some(QueueEntry {
        position: 3,
        state: "QUEUED".to_string(),
    });
    let rows = build_rows(vec![p]);
    assert_eq!(rows[0].queue, Some((3, "QUEUED".to_string())));
}

#[test]
fn without_queued_drops_prs_in_the_merge_queue() {
    let mut queued = pr(1, "MERGEABLE", "CLEAN", &[("SUCCESS", 1)]);
    queued.merge_queue_entry = Some(QueueEntry {
        position: 1,
        state: "QUEUED".to_string(),
    });
    let open = pr(2, "MERGEABLE", "CLEAN", &[("SUCCESS", 1)]);
    // #1 is queued, #2 isn't — only #2 remains in the open-PRs list.
    let rows = without_queued(build_rows(vec![queued, open]));
    assert_eq!(rows.iter().map(|r| r.number).collect::<Vec<_>>(), [2]);
}

#[test]
fn semaphore_shows_all_three_counts() {
    let rows = build_rows(vec![pr(
        1,
        "MERGEABLE",
        "CLEAN",
        &[
            ("FAILURE", 2),
            ("QUEUED", 1),
            ("IN_PROGRESS", 2),
            ("SUCCESS", 9),
        ],
    )]);
    let table = to_table(&rows, true, &HashSet::new(), false);
    // ..., FAIL, RUN, PASS, THREADS
    let tail: Vec<&str> = table.rows[0][4..].iter().map(|c| c.text.as_str()).collect();
    assert_eq!(tail, ["2", "3", "9", "0"]);
}

#[test]
fn rows_of_the_same_moment_come_highest_number_first() {
    let moment = Some("2026-06-19T10:00:00Z".to_string());
    let nodes: Vec<PrNode> = [3, 12, 7]
        .into_iter()
        .map(|n| PrNode {
            updated_at: moment.clone(),
            ..pr(n, "MERGEABLE", "CLEAN", &[])
        })
        .collect();
    let numbers: Vec<i64> = build_rows(nodes).iter().map(|r| r.number).collect();
    assert_eq!(numbers, [12, 7, 3]);
    // A PR that was never updated comes last.
    let undated = pr(99, "MERGEABLE", "CLEAN", &[]);
    let dated = PrNode {
        updated_at: moment,
        ..pr(1, "MERGEABLE", "CLEAN", &[])
    };
    let numbers: Vec<i64> = build_rows(vec![undated, dated])
        .iter()
        .map(|r| r.number)
        .collect();
    assert_eq!(numbers, [1, 99]);
}

#[test]
fn drafts_are_dimmed_or_hidden() {
    let draft = PrNode {
        is_draft: true,
        ..pr(1, "MERGEABLE", "DRAFT", &[])
    };
    let rows = build_rows(vec![draft, pr(2, "MERGEABLE", "CLEAN", &[])]);
    let table = to_table(&rows, true, &HashSet::new(), false);
    assert_eq!(rows[0].number, 2);
    assert_eq!(table.rows[0][2].style.fg, Some(BLUE));
    assert!(table.rows[1][2].style.faint);
    let left = without_drafts(rows);
    assert_eq!(left.iter().map(|r| r.number).collect::<Vec<_>>(), [2]);
}

#[test]
fn changed_rows_are_marked_and_the_branch_is_shown_on_request() {
    let mut p = pr(7, "MERGEABLE", "CLEAN", &[("SUCCESS", 1)]);
    p.review_threads = ReviewThreads {
        total_count: 1,
        nodes: vec![ReviewThread { is_resolved: false }],
    };
    let rows = build_rows(vec![p]);
    let plain = to_table(&rows, true, &HashSet::new(), false);
    assert_eq!(
        plain.header,
        ["", "", "PR", "TITLE", "FAIL", "RUN", "PASS", "THREADS"]
    );
    assert_eq!(plain.rows[0][0].text, " ");
    assert_eq!(plain.rows[0][1].text, "y");
    assert_eq!(plain.rows[0][2].text, "#7");
    let link = plain.rows[0][2].style.link.as_ref().unwrap();
    assert_eq!(link.url, "https://x/7");
    assert_eq!(plain.rows[0][7].style.fg, Some(PEACH));

    let marked = to_table(&rows, true, &HashSet::from([7]), true);
    assert_eq!(marked.header[4], "BRANCH");
    assert_eq!(marked.rows[0][0].text, ">");
    assert_eq!(marked.rows[0][4].text, "branch-7");
}

#[test]
fn required_checks_replace_the_totals_of_the_rollup() {
    let mut p = pr(1, "MERGEABLE", "CLEAN", &[("FAILURE", 9)]);
    p.required_checks = Some(Checks {
        fail: 0,
        running: 1,
        pass: 2,
    });
    let rows = build_rows(vec![p]);
    assert_eq!(rows[0].checks.running, 1);
    assert_eq!(rows[0].status, Some(Status::Pending));
}
