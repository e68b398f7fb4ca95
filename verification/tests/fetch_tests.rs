use release_tracker::github::{
    next_page_url, per_page, plan_after_page, Comparison, ComparisonAccumulator, ComparisonError,
    GitHubComparisonKind, GithubCommit, GithubFile,
};

fn commit(sha: &str, message: &str) -> GithubCommit {
    GithubCommit { sha: sha.to_string(), message: message.to_string() }
}

fn file(name: &str) -> GithubFile {
    GithubFile { filename: name.to_string() }
}

#[test]
fn page_sizes_match_the_fetch_kind() {
    assert_eq!(per_page(&GitHubComparisonKind::Full), 100);
    assert_eq!(per_page(&GitHubComparisonKind::JustAllFiles), 1);
}

#[test]
fn accumulator_merges_pages_in_order() {
    let mut acc = ComparisonAccumulator::new();
    acc.absorb_page(Comparison {
        total_commits: 3,
        commits: vec![commit("a", "first"), commit("b", "second")],
        files: Some(vec![file("x.txt")]),
    });
    // Every page reports the same authoritative total here.
    acc.absorb_page(Comparison {
        total_commits: 3,
        commits: vec![commit("c", "third")],
        files: None,
    });
    let done = acc.finish(&GitHubComparisonKind::Full).unwrap();
    assert_eq!(done.total_commits, 3);
    assert_eq!(done.commits.len(), 3);
    assert_eq!(done.commits[0].sha, "a");
    assert_eq!(done.commits[1].sha, "b");
    assert_eq!(done.commits[2].sha, "c");
    let files = done.files.unwrap();
    assert_eq!(files.len(), 1);
    assert_eq!(files[0].filename, "x.txt");
}

#[test]
fn full_fetch_with_count_mismatch_fails_naming_both_counts() {
    let mut acc = ComparisonAccumulator::new();
    acc.absorb_page(Comparison {
        total_commits: 5,
        commits: vec![commit("a", "first"), commit("b", "second")],
        files: Some(vec![]),
    });
    let err = acc.finish(&GitHubComparisonKind::Full).unwrap_err();
    match &err {
        ComparisonError::IncompleteComparison { expected, actual } => {
            assert_eq!(*expected, 5);
            assert_eq!(*actual, 2);
        }
        other => panic!("unexpected error: {:?}", other),
    }
    let message = err.message();
    assert_eq!(
        message,
        "incomplete full comparison: total_commits = 5 but commits retrieved = 2"
    );
}

#[test]
fn total_commits_is_taken_from_the_first_page() {
    // A later page reporting a different total does not replace the first
    // page's authoritative count.
    let mut acc = ComparisonAccumulator::new();
    acc.absorb_page(Comparison {
        total_commits: 2,
        commits: vec![commit("a", "first")],
        files: Some(vec![]),
    });
    acc.absorb_page(Comparison {
        total_commits: 999,
        commits: vec![commit("b", "second")],
        files: None,
    });
    let done = acc.finish(&GitHubComparisonKind::Full).unwrap();
    assert_eq!(done.total_commits, 2);

    // And the completeness check compares against the first page's total.
    let mut acc = ComparisonAccumulator::new();
    acc.absorb_page(Comparison {
        total_commits: 1,
        commits: vec![commit("a", "first")],
        files: None,
    });
    acc.absorb_page(Comparison {
        total_commits: 2,
        commits: vec![commit("b", "second")],
        files: None,
    });
    let err = acc.finish(&GitHubComparisonKind::Full).unwrap_err();
    match err {
        ComparisonError::IncompleteComparison { expected, actual } => {
            assert_eq!(expected, 1);
            assert_eq!(actual, 2);
        }
        other => panic!("unexpected error: {:?}", other),
    }
}

#[test]
fn files_only_fetch_tolerates_count_mismatch() {
    let mut acc = ComparisonAccumulator::new();
    acc.absorb_page(Comparison {
        total_commits: 5,
        commits: vec![commit("a", "first")],
        files: Some(vec![file("x.txt")]),
    });
    let done = acc.finish(&GitHubComparisonKind::JustAllFiles).unwrap();
    assert_eq!(done.total_commits, 5);
    assert_eq!(done.commits.len(), 1);
}

#[test]
fn next_page_url_follows_the_next_relation() {
    let header = "<https://api.github.com/repositories/1/compare?page=2>; rel=\"next\", <https://api.github.com/repositories/1/compare?page=7>; rel=\"last\"";
    let next = next_page_url(header).unwrap();
    assert_eq!(next.as_deref(), Some("https://api.github.com/repositories/1/compare?page=2"));
}

#[test]
fn next_page_url_reports_no_next_relation() {
    let header = "<https://api.github.com/repositories/1/compare?page=1>; rel=\"prev\", <https://api.github.com/repositories/1/compare?page=2>; rel=\"last\"";
    let next = next_page_url(header).unwrap();
    assert!(next.is_none());
}

#[test]
fn malformed_link_header_is_a_hard_failure() {
    let err = next_page_url("<https://example.com/no-rel-parameter>").unwrap_err();
    assert!(matches!(err, ComparisonError::MalformedLinkHeader));
    assert_eq!(err.message(), "could not parse `Link` header");
}

#[test]
fn files_only_fetch_stops_after_the_first_page() {
    let plan = plan_after_page(&GitHubComparisonKind::JustAllFiles, None).unwrap();
    assert!(plan.is_none());
    let header = "<https://api.github.com/repositories/1/compare?page=2>; rel=\"next\"".to_string();
    let plan = plan_after_page(&GitHubComparisonKind::JustAllFiles, Some(header.as_str())).unwrap();
    assert!(plan.is_none());
}

#[test]
fn full_fetch_requires_a_link_header() {
    let err = plan_after_page(&GitHubComparisonKind::Full, None).unwrap_err();
    assert!(matches!(err, ComparisonError::MissingLinkHeader));
    assert_eq!(err.message(), "no `Link` header in the response");
}

#[test]
fn full_fetch_follows_the_next_link_until_none_remains() {
    let header = "<https://api.github.com/repositories/1/compare?page=3>; rel=\"next\"".to_string();
    let plan = plan_after_page(&GitHubComparisonKind::Full, Some(header.as_str())).unwrap();
    assert_eq!(plan.as_deref(), Some("https://api.github.com/repositories/1/compare?page=3"));
    let last = "<https://api.github.com/repositories/1/compare?page=1>; rel=\"first\"".to_string();
    let plan = plan_after_page(&GitHubComparisonKind::Full, Some(last.as_str())).unwrap();
    assert!(plan.is_none());
}
