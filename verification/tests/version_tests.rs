use release_tracker::platform::Platform;
use release_tracker::text::{parse_u64_dec, parse_u64_plus};
use release_tracker::version::{exact_version_string_from_tag, version_from_tag, version_lt, Ord3};

#[test]
fn tag_with_and_without_prefix_parse_to_the_same_version() {
    let a = version_from_tag("v1.2.3").unwrap();
    let b = version_from_tag("1.2.3").unwrap();
    assert_eq!(a.major, b.major);
    assert_eq!(a.minor, b.minor);
    assert_eq!(a.patch, b.patch);
    assert_eq!(a.pre, b.pre);
    assert_eq!(a.build, b.build);
    assert_eq!(a.major, 1);
    assert_eq!(a.minor, 2);
    assert_eq!(a.patch, 3);
    assert_eq!(a.pre, "");
    assert_eq!(a.build, "");
}

#[test]
fn four_component_tag_parses_with_extra_build_component() {
    let v = version_from_tag("v1.2.3.4").unwrap();
    assert_eq!(v.major, 1);
    assert_eq!(v.minor, 2);
    assert_eq!(v.patch, 3);
    assert_eq!(v.build, "4");
    let w = version_from_tag("1.2.3.4").unwrap();
    assert_eq!(w.build, "4");
}

#[test]
fn beta_tag_parses_with_prerelease() {
    let v = version_from_tag("v1.2.3-beta.1").unwrap();
    assert_eq!(v.pre, "beta.1");
    assert_eq!(v.build, "");
    let w = version_from_tag("1.2.3.4-beta").unwrap();
    assert_eq!(w.pre, "beta");
    assert_eq!(w.build, "4");
}

#[test]
fn unparsable_tag_fails_with_the_raw_tag() {
    let e = version_from_tag("").unwrap_err();
    assert_eq!(e.tag, "");
    let e = version_from_tag("hello world").unwrap_err();
    assert_eq!(e.tag, "hello world");
}

#[test]
fn version_order_follows_semantic_precedence() {
    let lt = |a: &str, b: &str| {
        version_lt(&version_from_tag(a).unwrap(), &version_from_tag(b).unwrap())
    };
    assert!(lt("1.2.3", "1.2.4"));
    assert!(lt("1.2.3", "1.3.0"));
    assert!(lt("1.2.3", "2.0.0"));
    assert!(!lt("1.2.3", "1.2.3"));
    assert!(!lt("1.2.4", "1.2.3"));
    // A pre-release precedes the real release.
    assert!(lt("1.2.3-beta.1", "1.2.3"));
    assert!(!lt("1.2.3", "1.2.3-beta.1"));
    // Numeric pre-release identifiers compare numerically.
    assert!(lt("1.2.3-beta.9", "1.2.3-beta.10"));
    // Fewer pre-release identifiers compare smaller.
    assert!(lt("1.2.3-beta", "1.2.3-beta.1"));
    // Build metadata is the final tiebreak.
    assert!(lt("1.2.3.4", "1.2.3.5"));
    assert!(lt("1.2.3", "1.2.3.4"));
}

#[test]
fn should_post_version_applies_platform_policy() {
    let plain = version_from_tag("v6.0.1").unwrap();
    let four = version_from_tag("v6.0.1.2").unwrap();
    let beta = version_from_tag("v6.0.1-beta.1").unwrap();

    // Android excludes versions carrying a build component.
    assert!(Platform::Android.should_post_version(&plain));
    assert!(!Platform::Android.should_post_version(&four));

    // Desktop requires the beta marker in the pre-release label.
    assert!(Platform::Desktop.should_post_version(&beta));
    assert!(!Platform::Desktop.should_post_version(&plain));
    assert!(!Platform::Desktop.should_post_version(&four));
}

#[test]
fn exact_version_string_strips_only_the_leading_prefix() {
    assert_eq!(exact_version_string_from_tag("v1.2.3"), "1.2.3");
    assert_eq!(exact_version_string_from_tag("1.2.3"), "1.2.3");
    assert_eq!(exact_version_string_from_tag("v1.2.3-dev"), "1.2.3-dev");
    assert_eq!(exact_version_string_from_tag("vv7v"), "v7v");
}

#[test]
fn parse_u64_dec_accepts_digits_only() {
    assert_eq!(parse_u64_dec("0"), Some(0));
    assert_eq!(parse_u64_dec("12345"), Some(12345));
    assert_eq!(parse_u64_dec("18446744073709551615"), Some(u64::MAX));
    assert_eq!(parse_u64_dec("18446744073709551616"), None);
    assert_eq!(parse_u64_dec(""), None);
    assert_eq!(parse_u64_dec("12a"), None);
    assert_eq!(parse_u64_dec("-1"), None);
    assert_eq!(parse_u64_dec("+42"), None);
}

#[test]
fn parse_u64_plus_accepts_an_optional_leading_plus() {
    assert_eq!(parse_u64_plus("42"), Some(42));
    assert_eq!(parse_u64_plus("+42"), Some(42));
    assert_eq!(parse_u64_plus("+"), None);
    assert_eq!(parse_u64_plus("++1"), None);
    assert_eq!(parse_u64_plus("-1"), None);
    assert_eq!(parse_u64_plus(""), None);
}

#[test]
fn version_order_agrees_with_the_semver_crate() {
    let tags = [
        "v1.2.3",
        "1.2.3",
        "v1.2.4",
        "v1.3.0",
        "v2.0.0",
        "v1.2.3.4",
        "v1.2.3.5",
        "v1.2.3.10",
        "v1.2.3.04",
        "v1.2.3-beta",
        "v1.2.3-beta.1",
        "v1.2.3-beta.2",
        "v1.2.3-beta.10",
        "v1.2.3-alpha.7",
        "v1.2.3-rc.1.2",
        "v1.2.3.4-beta",
    ];
    for a in tags {
        for b in tags {
            let mine_a = version_from_tag(a).unwrap();
            let mine_b = version_from_tag(b).unwrap();
            let theirs_a = lenient_semver::parse(a).unwrap();
            let theirs_b = lenient_semver::parse(b).unwrap();
            assert_eq!(
                version_lt(&mine_a, &mine_b),
                theirs_a < theirs_b,
                "order disagrees for {a} vs {b}"
            );
        }
    }
}
