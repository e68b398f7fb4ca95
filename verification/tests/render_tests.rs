use release_tracker::platform::Platform;
use release_tracker::post::{Commit, Post};

fn commit_markdown(platform: Platform, full_message: &str, sha: &str) -> String {
    Commit::new(platform, full_message, sha).markdown_text(0)
}

#[test]
fn one_line_message_renders_without_detail_block() {
    assert_eq!(
        commit_markdown(Platform::Android, "Test commit.", "abcdef"),
        "- Test commit. [[1]](https://github.com/signalapp/Signal-Android/commit/abcdef)\n"
    );
}

#[test]
fn two_line_message_renders_indented_detail_block() {
    assert_eq!(
        commit_markdown(Platform::Android, "Test commit.\nAnother line.", "abcdef"),
        "- Test commit. [[1]](https://github.com/signalapp/Signal-Android/commit/abcdef)\n\n    Another line."
    );
}

#[test]
fn three_line_message_joins_detail_lines_with_indentation() {
    assert_eq!(
        commit_markdown(
            Platform::Android,
            "Test commit.\nAnother line.\nAnd another line.",
            "abcdef"
        ),
        "- Test commit. [[1]](https://github.com/signalapp/Signal-Android/commit/abcdef)\n\n    Another line.\n    And another line."
    );
}

#[test]
fn co_author_trailer_line_is_removed() {
    assert_eq!(
        commit_markdown(Platform::Android, "Test commit.\nCo-Authored-By: user", "abcdef"),
        "- Test commit. [[1]](https://github.com/signalapp/Signal-Android/commit/abcdef)\n"
    );
}

#[test]
fn reverts_commit_line_is_removed() {
    assert_eq!(
        commit_markdown(
            Platform::Android,
            "Revert \"Test commit\".\nThis reverts commit fedcba.",
            "abcdef"
        ),
        "- Revert \"Test commit\". [[1]](https://github.com/signalapp/Signal-Android/commit/abcdef)\n"
    );
}

#[test]
fn trailer_in_headline_position_leaves_placeholder() {
    assert_eq!(
        commit_markdown(Platform::Android, "Co-Authored-By: user", "abcdef"),
        "- *Empty commit message* [[1]](https://github.com/signalapp/Signal-Android/commit/abcdef)\n"
    );
}

#[test]
fn one_commit_post_renders_unwrapped_and_singular() {
    let post = Post::new(
        Platform::Android,
        "v1.2.3",
        "v1.2.4",
        vec![Commit::new(Platform::Android, "Test commit.", "abcdef")],
    );
    assert_eq!(
        post.markdown_text(),
        "## :tada: - New Version: 1.2.4
(Not Yet) Available via [Firebase App Distribution](https://community.signalusers.org/t/17538)

[quote]
1 new commit since 1.2.3:

- Test commit. [[1]](https://github.com/signalapp/Signal-Android/commit/abcdef)


---
Gathered from [signalapp/Signal-Android](https://github.com/signalapp/Signal-Android/compare/v1.2.3...v1.2.4)
[/quote]"
    );
}

#[test]
fn two_commit_post_renders_plural_with_blank_line_separation() {
    let post = Post::new(
        Platform::Android,
        "v1.2.3",
        "v1.2.4",
        vec![
            Commit::new(Platform::Android, "Test commit.", "abcdef"),
            Commit::new(Platform::Android, "Bump version to 1.2.4", "abc123"),
        ],
    );
    assert_eq!(
        post.markdown_text(),
        "## :tada: - New Version: 1.2.4
(Not Yet) Available via [Firebase App Distribution](https://community.signalusers.org/t/17538)

[quote]
2 new commits since 1.2.3:

- Test commit. [[1]](https://github.com/signalapp/Signal-Android/commit/abcdef)

- Bump version to 1.2.4 [[2]](https://github.com/signalapp/Signal-Android/commit/abc123)


---
Gathered from [signalapp/Signal-Android](https://github.com/signalapp/Signal-Android/compare/v1.2.3...v1.2.4)
[/quote]"
    );
}

fn repeated_commits(n: usize) -> Vec<Commit> {
    let mut commits = Vec::new();
    for _ in 0..n {
        commits.push(Commit::new(Platform::Android, "Test commit.", "abcdef"));
    }
    commits
}

#[test]
fn twenty_commits_render_unwrapped() {
    let post = Post::new(Platform::Android, "v1.2.3", "v1.2.4", repeated_commits(20));
    let text = post.markdown_text();
    assert!(!text.contains("[details=\"Show commits\"]"));
    assert!(!text.contains("[/details]"));
    assert!(text.contains("20 new commits since 1.2.3:"));
    assert!(text.contains("[[20]]"));
}

#[test]
fn twenty_one_commits_render_wrapped_with_continuous_ordinals() {
    let mut commits = repeated_commits(20);
    commits.push(Commit::new(Platform::Android, "Bump version to 1.2.4", "abc123"));
    let post = Post::new(Platform::Android, "v1.2.3", "v1.2.4", commits);
    let expected = "## :tada: - New Version: 1.2.4
(Not Yet) Available via [Firebase App Distribution](https://community.signalusers.org/t/17538)

[quote]
21 new commits since 1.2.3:

[details=\"Show commits\"]

- Test commit. [[1]](https://github.com/signalapp/Signal-Android/commit/abcdef)

- Test commit. [[2]](https://github.com/signalapp/Signal-Android/commit/abcdef)

- Test commit. [[3]](https://github.com/signalapp/Signal-Android/commit/abcdef)

- Test commit. [[4]](https://github.com/signalapp/Signal-Android/commit/abcdef)

- Test commit. [[5]](https://github.com/signalapp/Signal-Android/commit/abcdef)

- Test commit. [[6]](https://github.com/signalapp/Signal-Android/commit/abcdef)

- Test commit. [[7]](https://github.com/signalapp/Signal-Android/commit/abcdef)

- Test commit. [[8]](https://github.com/signalapp/Signal-Android/commit/abcdef)

- Test commit. [[9]](https://github.com/signalapp/Signal-Android/commit/abcdef)

- Test commit. [[10]](https://github.com/signalapp/Signal-Android/commit/abcdef)

- Test commit. [[11]](https://github.com/signalapp/Signal-Android/commit/abcdef)

- Test commit. [[12]](https://github.com/signalapp/Signal-Android/commit/abcdef)

- Test commit. [[13]](https://github.com/signalapp/Signal-Android/commit/abcdef)

- Test commit. [[14]](https://github.com/signalapp/Signal-Android/commit/abcdef)

- Test commit. [[15]](https://github.com/signalapp/Signal-Android/commit/abcdef)

- Test commit. [[16]](https://github.com/signalapp/Signal-Android/commit/abcdef)

- Test commit. [[17]](https://github.com/signalapp/Signal-Android/commit/abcdef)

- Test commit. [[18]](https://github.com/signalapp/Signal-Android/commit/abcdef)

- Test commit. [[19]](https://github.com/signalapp/Signal-Android/commit/abcdef)

- Test commit. [[20]](https://github.com/signalapp/Signal-Android/commit/abcdef)

- Bump version to 1.2.4 [[21]](https://github.com/signalapp/Signal-Android/commit/abc123)


[/details]

---
Gathered from [signalapp/Signal-Android](https://github.com/signalapp/Signal-Android/compare/v1.2.3...v1.2.4)
[/quote]";
    assert_eq!(post.markdown_text(), expected);
}

#[test]
fn rendering_twice_gives_byte_identical_output() {
    let build = || {
        Post::new(
            Platform::Desktop,
            "v7.10.0-beta.1",
            "v7.11.0-beta.2",
            vec![
                Commit::new(Platform::Desktop, "Fix a bug.\nDetails here.", "0123ab"),
                Commit::new(Platform::Desktop, "Add a feature.", "4567cd"),
            ],
        )
    };
    let first = build().markdown_text();
    let second = build().markdown_text();
    assert_eq!(first, second);
    assert_eq!(first.as_bytes(), second.as_bytes());
}

#[test]
fn only_the_leading_version_prefix_is_stripped_for_display() {
    let post = Post::new(
        Platform::Android,
        "v1.2.3",
        "v1.2.3-dev",
        vec![Commit::new(Platform::Android, "Test commit.", "abcdef")],
    );
    let text = post.markdown_text();
    assert!(text.starts_with("## :tada: - New Version: 1.2.3-dev\n"));
    // The comparison URL keeps the raw tags.
    assert!(text.contains("compare/v1.2.3...v1.2.3-dev)"));
}

#[test]
fn desktop_post_has_empty_availability_notice() {
    let post = Post::new(
        Platform::Desktop,
        "v7.0.0-beta.1",
        "v7.0.0-beta.2",
        vec![Commit::new(Platform::Desktop, "Test commit.", "abcdef")],
    );
    let text = post.markdown_text();
    assert!(text.starts_with("## :tada: - New Version: 7.0.0-beta.2\n\n[quote]\n"));
    assert!(text.contains(
        "Gathered from [signalapp/Signal-Desktop](https://github.com/signalapp/Signal-Desktop/compare/v7.0.0-beta.1...v7.0.0-beta.2)"
    ));
}

#[test]
fn platform_urls_are_constructed_exactly() {
    assert_eq!(
        Platform::Android.github_api_tags_url(),
        "https://api.github.com/repos/signalapp/Signal-Android/tags"
    );
    assert_eq!(
        Platform::Desktop.github_api_tags_url(),
        "https://api.github.com/repos/signalapp/Signal-Desktop/tags"
    );
    assert_eq!(
        Platform::Android.github_api_comparison_url("v1.2.3", "v1.2.4", 2, 100),
        "https://api.github.com/repos/signalapp/Signal-Android/compare/v1.2.3...v1.2.4?page=2&per_page=100"
    );
    assert_eq!(
        Platform::Desktop.github_commit_url("abcdef"),
        "https://github.com/signalapp/Signal-Desktop/commit/abcdef"
    );
    let version = release_tracker::version::version_from_tag("v7.11.0-beta.2").unwrap();
    assert_eq!(
        Platform::Desktop.discourse_topic_slug_url(&version),
        "https://community.signalusers.org/t/beta-feedback-for-the-upcoming-desktop-7-11-release.json"
    );
}
