use prowl::commits::{ReleaseMap, ReleaseRef};
use prowl::merged::{build_rows, to_table};
use prowl::model::MergedNode;
use std::collections::HashSet;

fn node(number: i64, merged_at: &str) -> MergedNode {
    MergedNode {
        number,
        title: format!("PR {number}"),
        url: format!("https://x/{number}"),
        head_ref_name: Some(format!("branch-{number}")),
        author: None,
        merged_at: Some(merged_at.to_string()),
    }
}

fn ages(n: usize) -> Vec<String> {
    (0..n).map(|i| format!("{i}h")).collect()
}

#[test]
fn sorts_by_merged_at_desc_and_caps() {
    let rows = build_rows(
        vec![
            node(1, "2026-06-10T00:00:00Z"),
            node(2, "2026-06-18T00:00:00Z"),
            node(3, "2026-06-14T00:00:00Z"),
        ],
        2,
        &ReleaseMap::new(),
    );
    assert_eq!(rows.len(), 2);
    assert_eq!(rows[0].number, 2);
    assert_eq!(rows[0].branch, "branch-2");
    assert_eq!(rows[1].number, 3);
    assert!(
        !to_table(&rows, true, &HashSet::new(), false, &ages(2))
            .header
            .contains(&"BRANCH")
    );
    assert!(
        to_table(&rows, true, &HashSet::new(), true, &ages(2))
            .header
            .contains(&"BRANCH")
    );
}

#[test]
fn a_smaller_limit_lists_the_first_rows() {
    let rows = |limit: usize| {
        let mut nodes: Vec<MergedNode> = ["03", "01", "05", "05", "02"]
            .iter()
            .enumerate()
            .map(|(i, day)| node(i as i64, &format!("2026-06-{day}T00:00:00Z")))
            .collect();
        nodes[1].head_ref_name = None;
        build_rows(nodes, limit, &ReleaseMap::new())
    };
    let all = rows(100);
    assert_eq!(all.len(), 5);
    assert!(rows(0).is_empty());
    for limit in 0..=5 {
        assert_eq!(rows(limit), all[..limit]);
    }
}

#[test]
fn annotates_release_from_map() {
    let mut releases = ReleaseMap::new();
    releases.insert(
        2,
        ReleaseRef {
            tag: "v1.2.0".to_string(),
            url: "https://x/releases/tag/v1.2.0".to_string(),
        },
    );
    let rows = build_rows(
        vec![
            node(1, "2026-06-10T00:00:00Z"),
            node(2, "2026-06-18T00:00:00Z"),
        ],
        10,
        &releases,
    );
    // #2 shipped in v1.2.0; #1 hasn't shipped yet.
    assert_eq!(rows[0].number, 2);
    assert_eq!(rows[0].release.as_ref().unwrap().tag, "v1.2.0");
    assert!(rows[1].release.is_none());
}

#[test]
fn the_table_links_releases_and_shows_ages() {
    let mut releases = ReleaseMap::new();
    releases.insert(
        2,
        ReleaseRef {
            tag: "v1".to_string(),
            url: "https://x/v1".to_string(),
        },
    );
    let rows = build_rows(
        vec![
            node(1, "2026-06-10T00:00:00Z"),
            node(2, "2026-06-18T00:00:00Z"),
        ],
        10,
        &releases,
    );
    let table = to_table(&rows, true, &HashSet::from([1]), false, &ages(2));
    assert_eq!(
        table.header,
        ["", "", "PR", "TITLE", "RELEASE", "MERGED"]
    );
    let texts: Vec<Vec<&str>> = table
        .rows
        .iter()
        .map(|r| r.iter().map(|c| c.text.as_str()).collect())
        .collect();
    assert_eq!(texts[0], [" ", " ", "#2", "PR 2", "v1", "0h"]);
    assert_eq!(texts[1], [">", " ", "#1", "PR 1", "\u{2014}", "1h"]);
    let link = table.rows[0][4].style.link.as_ref().unwrap();
    assert_eq!(link.url, "https://x/v1");
}

#[test]
fn a_limit_of_none_lists_nothing() {
    let rows = build_rows(
        vec![node(1, "2026-06-10T00:00:00Z")],
        0,
        &ReleaseMap::new(),
    );
    assert!(rows.is_empty());
    assert!(build_rows(vec![], 5, &ReleaseMap::new()).is_empty());
}
