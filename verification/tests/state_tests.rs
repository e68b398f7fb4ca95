use release_tracker::github::Tag;
use release_tracker::localization::LocalizationChange;
use release_tracker::platform::Platform;
use release_tracker::publisher::{
    advanced_platform_state, next_tag_to_post, publish_outcome, topic_id_from_posts, PublishError,
    TopicPost,
};
use release_tracker::state::{
    platform_state_eq, Completeness, PlatformState, State, StateController, StateError,
};
use release_tracker::version::version_from_tag;

fn tag(name: &str) -> Tag {
    Tag { name: name.to_string() }
}

fn platform_state(previous: &str, last: &str) -> PlatformState {
    PlatformState {
        last_posted_tag_previous_release: tag(previous),
        last_posted_tag: tag(last),
        last_post_number: Some(17),
        posted_archiving_message: false,
        localization_changes_completeness: Completeness::Complete,
        localization_changes: vec![LocalizationChange { language_code: "de".to_string() }],
    }
}

fn valid_state() -> State {
    State {
        android: platform_state("v6.0.0", "v6.1.0"),
        desktop: platform_state("v7.0.0-beta.1", "v7.0.0-beta.2"),
    }
}

#[test]
fn a_valid_record_loads_and_reads_back() {
    let controller = StateController::from_state(valid_state()).unwrap();
    let android = controller.platform_state(Platform::Android);
    assert_eq!(android.last_posted_tag.name, "v6.1.0");
    assert_eq!(android.last_posted_tag_previous_release.name, "v6.0.0");
    let desktop = controller.platform_state(Platform::Desktop);
    assert_eq!(desktop.last_posted_tag.name, "v7.0.0-beta.2");
}

#[test]
fn reversed_version_order_fails_the_whole_load() {
    let mut state = valid_state();
    state.desktop = platform_state("v7.0.0-beta.2", "v7.0.0-beta.1");
    let err = StateController::from_state(state).unwrap_err();
    assert!(matches!(err, StateError::OrderViolation { platform: Platform::Desktop }));
}

#[test]
fn equal_versions_fail_the_load() {
    let mut state = valid_state();
    state.android = platform_state("v6.1.0", "v6.1.0");
    let err = StateController::from_state(state).unwrap_err();
    assert!(matches!(err, StateError::OrderViolation { platform: Platform::Android }));
}

#[test]
fn unparsable_tag_fails_the_load_with_the_raw_tag() {
    let mut state = valid_state();
    state.android = platform_state("junk tag", "v6.1.0");
    let err = StateController::from_state(state).unwrap_err();
    match err {
        StateError::UnparsableTag { platform, tag } => {
            assert!(matches!(platform, Platform::Android));
            assert_eq!(tag, "junk tag");
        }
        other => panic!("unexpected error: {:?}", other),
    }
}

#[test]
fn an_absent_record_is_a_distinct_fatal_error() {
    let err = StateController::from_loaded(None).unwrap_err();
    assert!(matches!(err, StateError::MissingState));
    assert!(StateController::from_loaded(Some(valid_state())).is_ok());
}

#[test]
fn updating_with_an_equal_value_asks_for_no_write() {
    let mut controller = StateController::from_state(valid_state()).unwrap();
    let same = platform_state("v6.0.0", "v6.1.0");
    let persist = controller.set_platform_state(Platform::Android, same);
    assert!(!persist);
    // The content is unchanged either way.
    assert_eq!(
        controller.platform_state(Platform::Android).last_posted_tag.name,
        "v6.1.0"
    );
}

#[test]
fn updating_with_a_changed_value_asks_for_a_write() {
    let mut controller = StateController::from_state(valid_state()).unwrap();
    let advanced = platform_state("v6.1.0", "v6.2.0");
    let persist = controller.set_platform_state(Platform::Android, advanced);
    assert!(persist);
    assert_eq!(
        controller.platform_state(Platform::Android).last_posted_tag.name,
        "v6.2.0"
    );
    // The other platform is untouched.
    assert_eq!(
        controller.platform_state(Platform::Desktop).last_posted_tag.name,
        "v7.0.0-beta.2"
    );
}

#[test]
fn platform_state_equality_is_content_equality() {
    let a = platform_state("v6.0.0", "v6.1.0");
    let b = platform_state("v6.0.0", "v6.1.0");
    assert!(platform_state_eq(&a, &b));
    let mut c = platform_state("v6.0.0", "v6.1.0");
    c.last_post_number = None;
    assert!(!platform_state_eq(&a, &c));
    let mut d = platform_state("v6.0.0", "v6.1.0");
    d.localization_changes = vec![LocalizationChange { language_code: "fr".to_string() }];
    assert!(!platform_state_eq(&a, &d));
}

#[test]
fn topic_id_comes_from_the_first_post() {
    assert_eq!(topic_id_from_posts(&vec![]), None);
    let posts = vec![TopicPost { topic_id: 42 }, TopicPost { topic_id: 7 }];
    assert_eq!(topic_id_from_posts(&posts), Some(42));
}

#[test]
fn a_response_without_a_post_number_is_a_failed_publish() {
    assert_eq!(publish_outcome(Some(99)), Ok(99));
    assert_eq!(publish_outcome(None), Err(PublishError::NoPostNumber));
}

#[test]
fn the_first_qualifying_remote_tag_is_chosen() {
    let last = version_from_tag("v6.1.0").unwrap();
    let tags = vec![
        tag("not a version"),
        tag("v6.3.0.1"), // build component: excluded on Android
        tag("v6.3.0"),
        tag("v6.2.0"), // also qualifies, but comes later
    ];
    let chosen = next_tag_to_post(Platform::Android, &tags, &last).unwrap();
    assert_eq!(chosen.name, "v6.3.0");
}

#[test]
fn no_qualifying_tag_means_no_announcement() {
    let last = version_from_tag("v6.1.0").unwrap();
    let tags = vec![tag("v6.1.0"), tag("v6.0.0"), tag("v6.2.0.3")];
    assert!(next_tag_to_post(Platform::Android, &tags, &last).is_none());
}

#[test]
fn state_advances_only_the_tag_pair_and_post_number() {
    let current = platform_state("v6.0.0", "v6.1.0");
    let advanced = advanced_platform_state(current, tag("v6.2.0"), 1234);
    assert_eq!(advanced.last_posted_tag_previous_release.name, "v6.1.0");
    assert_eq!(advanced.last_posted_tag.name, "v6.2.0");
    assert_eq!(advanced.last_post_number, Some(1234));
    assert!(!advanced.posted_archiving_message);
    assert!(matches!(advanced.localization_changes_completeness, Completeness::Complete));
    assert_eq!(advanced.localization_changes.len(), 1);
}
