use prowl::changes::{Changes, Tracker};
use prowl::cli::ViewKind;
use prowl::commits::{CommitStats, ReleaseMap, ReleaseRef};
use prowl::fetch::{assemble, fetch_plan, wanted, Fetched, Shows, Taste};
use prowl::merged::MergedRow;
use prowl::model::{
    Commits, Login, MergedNode, MyReview, MyReviews, OpinionatedReviews, PrNode, QueueEntry,
    QueueEntryNode, QueuePr, ReviewCommit, ReviewCommitNode, ReviewCommits, ReviewPrNode,
    ReviewSearch, ReviewThreads, ReviewsData,
};
use prowl::prs::PrRow;
use prowl::status::{Checks, Mergeable, ReviewState, Status, BLUE, YELLOW};
use prowl::{queue, reviews};

const ALL: Shows = Shows {
    mine: true,
    queue: true,
    merged: true,
    shipments: true,
};

const TASTE: Taste = Taste {
    show_queue: true,
    no_draft: false,
    merged_limit: 10,
};

fn login(name: &str) -> Option<Login> {
    Some(Login {
        login: name.to_string(),
    })
}

fn pr(number: i64) -> PrNode {
    PrNode {
        number,
        title: format!("pr {number}"),
        url: format!("https://pr/{number}"),
        mergeable: None,
        merge_state_status: None,
        is_draft: false,
        updated_at: None,
        head_ref_name: None,
        latest_opinionated_reviews: OpinionatedReviews::default(),
        merge_queue_entry: None,
        review_threads: ReviewThreads {
            total_count: 0,
            nodes: vec![],
        },
        commits: Commits { nodes: vec![] },
        required_checks: None,
    }
}

fn queued(position: i64, number: i64, author: Option<Login>) -> QueueEntryNode {
    QueueEntryNode {
        position,
        enqueued_at: Some("2026-06-19T11:00:00Z".to_string()),
        head_commit: None,
        pull_request: QueuePr {
            number,
            title: format!("q {number}"),
            url: format!("https://q/{number}"),
            head_ref_name: Some(format!("b/{number}")),
            author,
        },
        required: None,
    }
}

fn merged(number: i64, at: &str) -> MergedNode {
    MergedNode {
        number,
        title: format!("m {number}"),
        url: format!("https://m/{number}"),
        head_ref_name: None,
        author: login("erin"),
        merged_at: Some(at.to_string()),
    }
}

fn review(number: i64, committed: &str, submitted: &[&str]) -> ReviewPrNode {
    ReviewPrNode {
        number,
        title: format!("r {number}"),
        url: format!("https://r/{number}"),
        head_ref_name: None,
        is_draft: false,
        updated_at: None,
        author: login("monalisa"),
        commits: ReviewCommits {
            nodes: vec![ReviewCommitNode {
                commit: ReviewCommit {
                    committed_date: Some(committed.to_string()),
                },
            }],
        },
        reviews: MyReviews {
            nodes: submitted
                .iter()
                .map(|s| MyReview {
                    submitted_at: Some((*s).to_string()),
                })
                .collect(),
        },
    }
}

fn data(requested: Vec<ReviewPrNode>, reviewed: Vec<ReviewPrNode>) -> ReviewsData {
    ReviewsData {
        requested: ReviewSearch { nodes: requested },
        reviewed: ReviewSearch { nodes: reviewed },
    }
}

fn nothing() -> Fetched {
    Fetched {
        me: "me".to_string(),
        releases: None,
        merged: vec![],
        queue: vec![],
        queue_next_eta: None,
        mine: vec![],
        reviews: data(vec![], vec![]),
        reviewed_merged: vec![],
    }
}

#[test]
fn the_queue_comes_in_order_and_flags_your_entries() {
    let rows = queue::build_rows(
        vec![
            queued(2, 102, login("octocat")),
            queued(1, 101, login("me")),
            queued(3, 103, None),
        ],
        "me",
    );
    assert_eq!(
        rows.iter().map(|r| r.position).collect::<Vec<_>>(),
        [1, 2, 3]
    );
    assert!(rows[0].mine && !rows[1].mine && !rows[2].mine);
    assert_eq!(rows[0].branch, "b/101");
    // A gone account is a ghost, and never yours.
    assert_eq!(rows[2].author, "ghost");
    let ghosts = queue::build_rows(vec![queued(1, 1, None)], "ghost");
    assert!(!ghosts[0].mine);
    // The largest and smallest positions order too.
    let ends = queue::build_rows(
        vec![queued(i64::MAX, 1, None), queued(i64::MIN, 2, None)],
        "me",
    );
    assert_eq!(ends[0].number, 2);
}

#[test]
fn the_queue_table_shows_waits_builds_and_the_semaphore() {
    let rows = queue::build_rows(
        vec![queued(1, 101, login("me")), queued(2, 102, login("hubot"))],
        "me",
    );
    let waits = ["12m".to_string(), "3m".to_string()];
    let builds = [Some("8m".to_string()), None];
    let table = queue::to_table(&rows, false, &waits, &builds);
    assert_eq!(
        table.header,
        ["", "#", "PR", "TITLE", "AUTHOR", "WAIT", "BUILD", "FAIL", "RUN", "PASS"]
    );
    let texts = |i: usize| -> Vec<&str> {
        table.rows[i].iter().map(|c| c.text.as_str()).collect()
    };
    assert_eq!(
        texts(0),
        [" ", "1", "#101", "q 101", "me", "12m", "8m", "0", "0", "0"]
    );
    assert_eq!(
        texts(1),
        [" ", "2", "#102", "q 102", "hubot", "3m", "\u{2014}", "0", "0", "0"]
    );
    assert_eq!(table.rows[0][2].style.fg, Some(YELLOW));
    assert_eq!(table.rows[1][2].style.fg, Some(BLUE));
    let branches = queue::to_table(&rows, true, &waits, &builds);
    assert_eq!(branches.header[4], "BRANCH");
    assert_eq!(branches.rows[0][4].text, "b/101");
}

#[test]
fn review_states_say_what_is_owed() {
    let early = "2026-06-01T00:00:00Z";
    let late = "2026-06-02T00:00:00Z";
    assert_eq!(
        reviews::state_of(&review(1, early, &[]), true),
        ReviewState::Awaiting
    );
    assert_eq!(
        reviews::state_of(&review(1, early, &[late]), true),
        ReviewState::ReReview
    );
    assert_eq!(
        reviews::state_of(&review(1, late, &[early]), false),
        ReviewState::Updated
    );
    // The latest review counts, wherever it stands.
    assert_eq!(
        reviews::state_of(
            &review(1, "2026-06-01T12:00:00Z", &[late, early]),
            false
        ),
        ReviewState::Reviewed
    );
    let mut bare = review(1, early, &[]);
    bare.commits.nodes.clear();
    assert_eq!(reviews::state_of(&bare, false), ReviewState::Reviewed);
}

#[test]
fn a_pr_of_both_searches_is_listed_once() {
    let early = "2026-06-01T00:00:00Z";
    let late = "2026-06-02T00:00:00Z";
    let rows = reviews::build_open_rows(data(
        vec![review(102, early, &[late]), review(101, early, &[])],
        vec![
            review(104, early, &[late]),
            review(102, early, &[late]),
            review(103, late, &[early]),
        ],
    ));
    assert_eq!(
        rows.iter().map(|r| (r.number, r.state)).collect::<Vec<_>>(),
        [
            (101, ReviewState::Awaiting),
            (102, ReviewState::ReReview),
            (103, ReviewState::Updated),
            (104, ReviewState::Reviewed),
        ]
    );
    let ages: Vec<String> = (0..4).map(|i| format!("{i}h")).collect();
    let table = reviews::open_to_table(&rows, true, false, &ages);
    assert_eq!(
        table.header,
        ["", "", "PR", "TITLE", "AUTHOR", "UPDATED"]
    );
    let glyphs: Vec<&str> = table.rows.iter().map(|r| r[1].text.as_str()).collect();
    assert_eq!(glyphs, ["a", "@", "^", "v"]);
    assert_eq!(table.rows[0][1].style.fg, Some(YELLOW));
    assert_eq!(table.rows[2][5].text, "2h");
    let branches = reviews::open_to_table(&rows, false, true, &ages);
    assert_eq!(branches.header[4], "BRANCH");
}

#[test]
fn reviewed_prs_come_most_recently_merged_first() {
    let nodes = vec![
        merged(202, "2026-06-01T00:00:00Z"),
        merged(201, "2026-06-02T00:00:00Z"),
        MergedNode {
            author: None,
            ..merged(203, "2026-05-01T00:00:00Z")
        },
    ];
    let rows = reviews::build_merged_rows(nodes, 2);
    assert_eq!(
        rows.iter().map(|r| r.number).collect::<Vec<_>>(),
        [201, 202]
    );
    assert_eq!(rows[0].author, "erin");
    let table = reviews::merged_to_table(&rows, false, &["1d".to_string(), "2d".to_string()]);
    assert_eq!(table.header, ["", "", "PR", "TITLE", "AUTHOR", "MERGED"]);
    assert_eq!(table.rows[1][5].text, "2d");
    let limited = |n: usize| {
        let nodes = (1..=5).map(|i| merged(i, &format!("2026-06-0{i}T00:00:00Z"))).collect();
        reviews::build_merged_rows(nodes, n)
    };
    let all = limited(9);
    assert_eq!(all.len(), 5);
    for n in 0..=5 {
        assert!(limited(n).iter().map(|r| r.number).eq(all[..n].iter().map(|r| r.number)));
    }
    let ghost = reviews::build_merged_rows(
        vec![MergedNode {
            author: None,
            ..merged(1, "2026-05-01T00:00:00Z")
        }],
        5,
    );
    assert_eq!(ghost[0].author, "ghost");
}

#[test]
fn a_watch_wants_both_views_and_a_single_frame_one() {
    assert_eq!(wanted(true, ViewKind::Mine), (true, true));
    assert_eq!(wanted(false, ViewKind::Mine), (true, false));
    assert_eq!(wanted(false, ViewKind::Reviews), (false, true));
}

#[test]
fn only_what_is_shown_is_fetched() {
    let all = fetch_plan(ALL, true, true);
    assert!(all.releases && all.merged && all.queue && all.mine && all.shipments && all.reviews);
    let mine = Shows {
        merged: false,
        shipments: false,
        ..ALL
    };
    let plan = fetch_plan(mine, true, false);
    assert!(!plan.releases && plan.queue && plan.mine && !plan.reviews);
    // Either of the two sections that need them fetches the releases.
    assert!(fetch_plan(Shows { merged: false, ..ALL }, true, false).releases);
    assert!(fetch_plan(Shows { shipments: false, ..ALL }, true, false).releases);
    let none = fetch_plan(ALL, false, false);
    assert!(!none.releases && !none.merged && !none.mine && !none.queue && !none.shipments);
}

#[test]
fn a_queued_pr_is_listed_in_one_place() {
    let mut in_queue = pr(1);
    in_queue.merge_queue_entry = Some(QueueEntry {
        position: 1,
        state: "QUEUED".to_string(),
    });
    let draft = PrNode {
        is_draft: true,
        ..pr(3)
    };
    let got = || Fetched {
        mine: vec![
            PrNode {
                merge_queue_entry: Some(QueueEntry {
                    position: 1,
                    state: "QUEUED".to_string(),
                }),
                ..pr(1)
            },
            pr(2),
            PrNode {
                is_draft: true,
                ..pr(3)
            },
        ],
        ..nothing()
    };
    let numbers = |taste: Taste| -> Vec<i64> {
        let plan = fetch_plan(ALL, true, true);
        let s = assemble(plan, taste, got());
        s.prs.unwrap().iter().map(|r| r.number).collect()
    };
    assert_eq!(numbers(TASTE), [3, 2]);
    assert_eq!(
        numbers(Taste {
            show_queue: false,
            ..TASTE
        }),
        [3, 2, 1]
    );
    assert_eq!(
        numbers(Taste {
            no_draft: true,
            ..TASTE
        }),
        [2]
    );
    assert!(in_queue.merge_queue_entry.is_some() && draft.is_draft);
}

#[test]
fn sections_are_made_of_what_came_back() {
    let mut releases = ReleaseMap::new();
    releases.insert(
        9,
        ReleaseRef {
            tag: "v1".to_string(),
            url: "https://rel/v1".to_string(),
        },
    );
    let stats = CommitStats {
        available: true,
        upcoming: None,
        releases: vec![],
    };
    let got = Fetched {
        releases: Some((stats, releases)),
        merged: vec![merged(9, "2026-06-01T00:00:00Z")],
        queue: vec![queued(1, 5, login("me"))],
        queue_next_eta: Some(660),
        reviews: data(
            vec![
                review(7, "2026-06-01T00:00:00Z", &[]),
                ReviewPrNode {
                    is_draft: true,
                    ..review(8, "2026-06-01T00:00:00Z", &[])
                },
            ],
            vec![],
        ),
        reviewed_merged: vec![merged(6, "2026-06-01T00:00:00Z")],
        ..nothing()
    };
    let taste = Taste {
        no_draft: true,
        ..TASTE
    };
    let s = assemble(fetch_plan(ALL, true, true), taste, got);
    assert_eq!(s.merged.unwrap()[0].release.as_ref().unwrap().tag, "v1");
    assert!(s.queue.unwrap()[0].mine);
    assert_eq!(s.queue_next_eta, Some(660));
    assert!(s.commits.unwrap().available);
    let open = s.reviews.unwrap();
    assert_eq!(open.len(), 1);
    assert_eq!(open[0].number, 7);
    assert_eq!(s.reviewed_merged.unwrap()[0].number, 6);
    assert!(s.prs.unwrap().is_empty());
}

#[test]
fn unreadable_releases_do_not_fail_a_refresh() {
    let got = Fetched {
        merged: vec![merged(9, "2026-06-01T00:00:00Z")],
        ..nothing()
    };
    let s = assemble(fetch_plan(ALL, true, false), TASTE, got);
    assert!(!s.commits.unwrap().available);
    assert!(s.merged.unwrap()[0].release.is_none());
    assert!(s.reviews.is_none() && s.reviewed_merged.is_none());
    // A queue without entries has no estimate.
    let idle = Fetched {
        queue_next_eta: Some(660),
        ..nothing()
    };
    let s = assemble(fetch_plan(ALL, true, false), TASTE, idle);
    assert!(s.queue.unwrap().is_empty());
    assert_eq!(s.queue_next_eta, None);
    // What is not wanted is switched off.
    let off = assemble(fetch_plan(ALL, false, true), TASTE, nothing());
    assert!(off.prs.is_none() && off.queue.is_none() && off.merged.is_none());
    assert!(off.commits.is_none() && off.queue_next_eta.is_none());
}

fn row(number: i64, status: Option<Status>) -> PrRow {
    PrRow {
        number,
        is_draft: false,
        title: String::new(),
        branch: String::new(),
        mergeable: Mergeable::Ready,
        status,
        checks: Checks::default(),
        unresolved: 0,
        unresolved_capped: false,
        queue: None,
        url: String::new(),
        updated_at: None,
    }
}

fn merged_row(number: i64) -> MergedRow {
    MergedRow {
        number,
        title: String::new(),
        branch: String::new(),
        url: String::new(),
        release: None,
        merged_at: None,
    }
}

#[test]
fn a_flipped_status_and_a_new_merge_are_changes() {
    let before = Tracker::build(
        Some(&[
            row(1, Some(Status::Fail)),
            row(2, None),
            row(3, Some(Status::Pass)),
        ]),
        Some(&[merged_row(10)]),
    );
    let after = Tracker::build(
        Some(&[
            row(1, Some(Status::Pass)),
            row(2, None),
            row(4, Some(Status::Fail)),
        ]),
        Some(&[merged_row(11), merged_row(10)]),
    );
    let changes = after.diff(&before);
    let mut flipped: Vec<i64> = changes.status_changed.iter().copied().collect();
    flipped.sort();
    // A PR that is new or gone has no status to compare.
    assert_eq!(flipped, [1]);
    assert_eq!(
        changes.newly_merged.iter().copied().collect::<Vec<_>>(),
        [11]
    );
    assert!(changes.any());
}

#[test]
fn the_same_rows_change_nothing() {
    let build = || {
        Tracker::build(
            Some(&[row(1, Some(Status::Fail)), row(2, None)]),
            Some(&[merged_row(10)]),
        )
    };
    let changes = build().diff(&build());
    assert!(!changes.any());
    assert!(!Changes::default().any());
    // A section that is switched off lists nothing.
    let off = Tracker::build(None, None);
    assert!(off.statuses.is_empty() && off.merged.is_empty());
    assert!(!off.diff(&build()).any());
    let merge = Changes {
        newly_merged: [3].into_iter().collect(),
        ..Changes::default()
    };
    assert!(merge.any());
}
