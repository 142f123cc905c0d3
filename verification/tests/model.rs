use prowl::github::Repo;
use prowl::model::{
    merged_query, merged_request, merged_search, mine_request, mine_search, queue_next_eta,
    queue_nodes, queue_reply, queue_request, reviewed_merged_search, reviews_request, reviews_searches, Login,
    MergeQueue, OpinionatedReview, OpinionatedReviews, PrNode, QueueCommit, QueueContext,
    QueueContexts, QueueData, QueueEntries, QueueEntryNode, QueuePr, QueueRepo, QueueRollup,
    ReviewThreads, Commits, StateCount, MINE_QUERY, QUEUE_QUERY, REVIEWS_QUERY,
};
use prowl::required::{
    attach_mine, attach_queue, mine_targets, queue_targets, required_query, PendingRequired,
    RequiredCommit, RequiredContext, RequiredContexts, RequiredError, RequiredFetch,
    RequiredPageInfo, RequiredReply, RequiredRollup, RequiredSummary, RequiredTarget,
};
use prowl::status::{Approval, Checks};

fn repo() -> Repo {
    Repo {
        owner: "octo".to_string(),
        name: "repo".to_string(),
    }
}

fn entry(number: i64, head: Option<QueueCommit>) -> QueueEntryNode {
    QueueEntryNode {
        position: 1,
        enqueued_at: None,
        head_commit: head,
        pull_request: QueuePr {
            number,
            title: format!("q {number}"),
            url: format!("https://q/{number}"),
            head_ref_name: None,
            author: Some(Login {
                login: "octocat".to_string(),
            }),
        },
        required: None,
    }
}

fn commit(id: &str, runs: &[(&str, u64)], starts: &[Option<&str>]) -> QueueCommit {
    QueueCommit {
        id: id.to_string(),
        status_check_rollup: Some(QueueRollup {
            contexts: QueueContexts {
                check_runs: runs
                    .iter()
                    .map(|(state, count)| StateCount {
                        state: (*state).to_string(),
                        count: *count,
                    })
                    .collect(),
                status_contexts: vec![StateCount {
                    state: "SUCCESS".to_string(),
                    count: 1,
                }],
                nodes: starts
                    .iter()
                    .map(|s| QueueContext {
                        started_at: s.map(str::to_string),
                    })
                    .collect(),
            },
        }),
    }
}

fn page(nodes: Vec<RequiredContext>, next: bool, cursor: Option<&str>) -> RequiredCommit {
    RequiredCommit {
        status_check_rollup: Some(RequiredRollup {
            contexts: RequiredContexts {
                page_info: RequiredPageInfo {
                    has_next_page: next,
                    end_cursor: cursor.map(str::to_string),
                },
                nodes,
            },
        }),
    }
}

fn status(state: &str) -> RequiredContext {
    RequiredContext::StatusContext {
        required: true,
        state: state.to_string(),
    }
}

fn target(number: i64) -> RequiredTarget {
    RequiredTarget {
        pull_request_number: number,
        commit_id: format!("commit-{number}"),
    }
}

#[test]
fn every_pr_query_requests_the_head_branch() {
    assert!(QUEUE_QUERY.contains("headRefName"));
    assert!(MINE_QUERY.contains("headRefName"));
    assert!(merged_query(20).contains("headRefName"));
    assert!(REVIEWS_QUERY.contains("headRefName"));
}

#[test]
fn required_contexts_count_only_required_checks() {
    let mut summary = RequiredSummary::default();
    for context in [
        RequiredContext::CheckRun {
            required: true,
            status: "COMPLETED".to_string(),
            conclusion: Some("FAILURE".to_string()),
            started_at: Some("2026-08-28T11:00:00Z".to_string()),
        },
        RequiredContext::CheckRun {
            required: true,
            status: "IN_PROGRESS".to_string(),
            conclusion: None,
            started_at: Some("2026-08-28T10:00:00Z".to_string()),
        },
        RequiredContext::CheckRun {
            required: false,
            status: "COMPLETED".to_string(),
            conclusion: Some("SUCCESS".to_string()),
            started_at: Some("2026-08-28T09:00:00Z".to_string()),
        },
        RequiredContext::StatusContext {
            required: true,
            state: "SUCCESS".to_string(),
        },
    ] {
        context.add_to(&mut summary);
    }

    assert_eq!(
        summary.checks,
        Checks {
            fail: 1,
            running: 1,
            pass: 1,
        }
    );
    assert_eq!(
        summary.build_started_at.as_deref(),
        Some("2026-08-28T10:00:00Z")
    );
}

#[test]
fn the_order_of_checks_does_not_matter() {
    let run = |required: bool, conclusion: Option<&str>, started_at: Option<&str>| {
        RequiredContext::CheckRun {
            required,
            status: "QUEUED".to_string(),
            conclusion: conclusion.map(str::to_string),
            started_at: started_at.map(str::to_string),
        }
    };
    let checks = [
        run(true, Some("FAILURE"), Some("2026-08-28T11:00:00Z")),
        run(true, None, Some("2026-08-28T10:00:00Z")),
        run(true, Some("STALE"), None),
        run(false, Some("SUCCESS"), Some("2026-08-28T09:00:00Z")),
        status("SUCCESS"),
    ];
    for a in 0..5 {
        for b in 0..5 {
            // Every rotation of the list, with two of its checks swapped.
            let mut order: Vec<usize> = (0..5).map(|i| (i + a) % 5).collect();
            order.swap(0, b);
            let mut summary = RequiredSummary::default();
            for i in order {
                checks[i].add_to(&mut summary);
            }
            assert_eq!(
                summary.checks,
                Checks {
                    fail: 1,
                    running: 1,
                    pass: 1,
                }
            );
            assert_eq!(
                summary.build_started_at.as_deref(),
                Some("2026-08-28T10:00:00Z")
            );
        }
    }
    // Where no required check began, no build did.
    let mut summary = RequiredSummary::default();
    for i in [2, 3, 4] {
        checks[i].add_to(&mut summary);
    }
    assert_eq!(summary.build_started_at, None);
}

#[test]
fn required_query_uses_commit_id_and_pr_number_variables() {
    let pending = [PendingRequired {
        target: 0,
        pull_request_number: 42,
        commit_id: "COMMIT_ID".to_string(),
        after: Some("CURSOR".to_string()),
    }];
    let (query, variables) = required_query(&pending);

    assert!(query.contains("isRequired(pullRequestNumber: $pull0)"));
    assert!(query.contains("contexts(first: 100, after: $after0)"));
    assert_eq!(variables.object["commit0"], "COMMIT_ID");
    assert_eq!(variables.object["pull0"], 42);
    assert_eq!(variables.object["after0"], "CURSOR");
}

#[test]
fn required_query_numbers_its_aliases() {
    let pending: Vec<PendingRequired> = (0..2)
        .map(|i| PendingRequired {
            target: i,
            pull_request_number: 10 + i as i64,
            commit_id: format!("id-{i}"),
            after: None,
        })
        .collect();
    let (query, variables) = required_query(&pending);
    let expected = "query($commit0: ID!, $pull0: Int!, $after0: String, $commit1: ID!, $pull1: Int!, $after1: String) {\n";
    assert!(query.starts_with(expected), "{query}");
    assert!(query.contains("c0: node(id: $commit0)"));
    assert!(query.contains("c1: node(id: $commit1)"));
    assert!(query.ends_with('}'));
    assert_eq!(variables.object.len(), 6);
    assert!(variables.object["after1"].is_null());
    assert_eq!(variables.object["pull1"], 11);
}

#[test]
fn a_required_fetch_follows_pages_until_none_is_left() {
    let fetch = RequiredFetch::start(&vec![target(1), target(2)]);
    assert!(!fetch.is_done());
    assert_eq!(fetch.pending.len(), 2);
    let reply: RequiredReply = vec![
        (
            "c1".to_string(),
            Some(page(vec![status("FAILURE")], false, None)),
        ),
        (
            "c0".to_string(),
            Some(page(vec![status("SUCCESS")], true, Some("next"))),
        ),
    ];
    let fetch = fetch.absorb(&reply).ok().unwrap();
    assert!(!fetch.is_done());
    assert_eq!(fetch.pending.len(), 1);
    assert_eq!(fetch.pending[0].target, 0);
    assert_eq!(fetch.pending[0].after.as_deref(), Some("next"));
    // The second page is the only alias of the next query.
    let reply: RequiredReply = vec![(
        "c0".to_string(),
        Some(page(vec![status("PENDING")], false, None)),
    )];
    let fetch = fetch.absorb(&reply).ok().unwrap();
    assert!(fetch.is_done());
    assert_eq!(fetch.summaries[0].checks.pass, 1);
    assert_eq!(fetch.summaries[0].checks.running, 1);
    assert_eq!(fetch.summaries[1].checks.fail, 1);
    // Nothing asked for is done at once.
    assert!(RequiredFetch::start(&vec![]).is_done());
}

#[test]
fn a_broken_required_reply_says_what_is_wrong() {
    let start = || RequiredFetch::start(&vec![target(1)]);
    let error = |reply: RequiredReply| match start().absorb(&reply) {
        Ok(_) => panic!("the reply should be refused"),
        Err(e) => e.message(),
    };
    assert_eq!(error(vec![]), "required-check response omitted c0");
    assert_eq!(
        error(vec![("c0".to_string(), None)]),
        "required-check commit c0 was unavailable"
    );
    assert_eq!(
        error(vec![("c0".to_string(), Some(page(vec![], true, None)))]),
        "required-check page had no end cursor"
    );
    assert_eq!(
        RequiredError::Omitted(12).message(),
        "required-check response omitted c12"
    );
    // A commit without checks is no error.
    let none = RequiredCommit {
        status_check_rollup: None,
    };
    let done = start()
        .absorb(&vec![("c0".to_string(), Some(none))])
        .ok()
        .unwrap();
    assert!(done.is_done());
    assert!(done.summaries[0].checks.is_empty());
}

#[test]
fn required_summaries_reach_the_prs_they_belong_to() {
    let mut nodes: Vec<QueueEntryNode> = vec![
        entry(1, None),
        entry(2, Some(commit("two", &[("FAILURE", 3)], &[]))),
    ];
    let (at, targets) = queue_targets(&nodes);
    assert_eq!(at, [1]);
    assert_eq!(targets[0].commit_id, "two");
    assert_eq!(targets[0].pull_request_number, 2);
    let summary = RequiredSummary {
        checks: Checks {
            fail: 0,
            running: 0,
            pass: 1,
        },
        build_started_at: Some("2026-01-01T00:00:00Z".to_string()),
    };
    attach_queue(&mut nodes, &at, &vec![summary]);
    assert!(nodes[0].required.is_none());
    assert_eq!(nodes[1].checks().pass, 1);
    assert_eq!(nodes[1].checks().fail, 0);
    assert_eq!(
        nodes[1].build_started_at().as_deref(),
        Some("2026-01-01T00:00:00Z")
    );

    let mut prs = vec![pr_node()];
    let (at, targets) = mine_targets(&prs);
    assert!(at.is_empty() && targets.is_empty());
    attach_mine(&mut prs, &at, &vec![]);
    assert!(prs[0].required_checks.is_none());
}

fn pr_node() -> PrNode {
    PrNode {
        number: 1,
        title: String::new(),
        url: String::new(),
        mergeable: None,
        merge_state_status: None,
        is_draft: false,
        updated_at: None,
        head_ref_name: None,
        latest_opinionated_reviews: OpinionatedReviews {
            nodes: vec![
                OpinionatedReview {
                    state: "CHANGES_REQUESTED".to_string(),
                },
                OpinionatedReview {
                    state: "APPROVED".to_string(),
                },
            ],
        },
        merge_queue_entry: None,
        review_threads: ReviewThreads {
            total_count: 0,
            nodes: vec![],
        },
        commits: Commits { nodes: vec![] },
        required_checks: None,
    }
}

#[test]
fn a_pr_node_knows_its_approval() {
    let mut node = pr_node();
    assert_eq!(node.approval(), Approval::Approved);
    assert!(node.checks().is_empty());
    node.latest_opinionated_reviews.nodes.pop();
    assert_eq!(node.approval(), Approval::Pending);
}

#[test]
fn queue_checks_and_build_start_come_from_the_speculative_commit() {
    let node = entry(
        1,
        Some(commit(
            "c",
            &[("FAILURE", 1), ("IN_PROGRESS", 3), ("SUCCESS", 6)],
            &[
                None,
                Some("2026-06-19T11:59:00Z"),
                Some("2026-06-19T11:58:00Z"),
            ],
        )),
    );
    // A passing commit status is folded into the same semaphore.
    assert_eq!(
        node.checks(),
        Checks {
            fail: 1,
            running: 3,
            pass: 7
        }
    );
    assert_eq!(
        node.build_started_at().as_deref(),
        Some("2026-06-19T11:58:00Z")
    );
    assert!(entry(2, None).checks().is_empty());
    assert!(entry(2, None).build_started_at().is_none());
}

#[test]
fn a_missing_queue_has_no_entries() {
    let data = |queue: Option<MergeQueue>| QueueData {
        repository: Some(QueueRepo { merge_queue: queue }),
    };
    assert!(queue_nodes(QueueData { repository: None }).is_empty());
    assert!(queue_nodes(data(None)).is_empty());
    assert_eq!(queue_next_eta(&data(None)), None);
    let full = data(Some(MergeQueue {
        next_entry_estimated_time_to_merge: Some(660),
        entries: QueueEntries {
            nodes: vec![entry(5, None)],
        },
    }));
    assert_eq!(queue_next_eta(&full), Some(660));
    assert_eq!(queue_nodes(full).len(), 1);
}

#[test]
fn an_empty_queue_has_no_estimate() {
    let data = |nodes: Vec<QueueEntryNode>| QueueData {
        repository: Some(QueueRepo {
            merge_queue: Some(MergeQueue {
                next_entry_estimated_time_to_merge: Some(660),
                entries: QueueEntries { nodes },
            }),
        }),
    };
    let (nodes, eta) = queue_reply(data(vec![]));
    assert!(nodes.is_empty());
    assert_eq!(eta, None);
    let (nodes, eta) = queue_reply(data(vec![entry(5, None)]));
    assert_eq!(nodes.len(), 1);
    assert_eq!(eta, Some(660));
    let missing = QueueData {
        repository: Some(QueueRepo { merge_queue: None }),
    };
    let (nodes, eta) = queue_reply(missing);
    assert!(nodes.is_empty() && eta.is_none());
    let (nodes, eta) = queue_reply(QueueData { repository: None });
    assert!(nodes.is_empty() && eta.is_none());
}

#[test]
fn page_sizes_stay_between_one_and_a_hundred() {
    assert!(merged_query(0).contains("first: 1,"));
    assert!(merged_query(20).contains("first: 20,"));
    assert!(merged_query(1000).contains("first: 100,"));
}

#[test]
fn searches_name_the_repo_and_the_viewer() {
    assert_eq!(
        merged_search(&repo(), "me", "2026-01-01"),
        "repo:octo/repo is:pr is:merged author:me merged:>=2026-01-01 sort:updated-desc"
    );
    assert_eq!(
        reviewed_merged_search(&repo(), "me", "2026-01-01"),
        "repo:octo/repo is:pr is:merged reviewed-by:me -author:me merged:>=2026-01-01 sort:updated-desc"
    );
    let (requested, reviewed) = reviews_searches(&repo(), "me", "user-review-requested");
    assert_eq!(
        requested,
        "repo:octo/repo is:pr is:open user-review-requested:me -author:me archived:false sort:updated-desc"
    );
    assert_eq!(
        reviewed,
        "repo:octo/repo is:pr is:open reviewed-by:me -author:me archived:false sort:updated-desc"
    );
    assert!(mine_search(&repo(), "me").starts_with("repo:octo/repo is:pr is:open"));
}

#[test]
fn requests_carry_their_variables() {
    let r = reviews_request(&repo(), "me", "review-requested");
    assert_eq!(r.query, REVIEWS_QUERY);
    assert_eq!(r.variables.object["me"], "me");
    let (requested, reviewed) = reviews_searches(&repo(), "me", "review-requested");
    assert_eq!(r.variables.object["requested"], requested.as_str());
    assert_eq!(r.variables.object["reviewed"], reviewed.as_str());
    let q = queue_request(&repo());
    assert_eq!(q.variables.object["owner"], "octo");
    assert_eq!(q.variables.object["name"], "repo");
    let m = mine_request(&repo(), "me");
    assert_eq!(m.query, MINE_QUERY);
    assert_eq!(m.variables.object.len(), 1);
    let g = merged_request(&repo(), "me", "2026-01-01", 7);
    assert_eq!(g.query, merged_query(7));
    assert_eq!(
        g.variables.object["q"],
        merged_search(&repo(), "me", "2026-01-01").as_str()
    );
}
