//! The publishing decisions: which freshly observed tag, if any, to announce
//! next; how the forum's answers are read; and how a platform's state
//! advances once a post succeeded. The network calls themselves are the
//! caller's concern.

use vstd::prelude::*;

use crate::github::Tag;
use crate::platform::{spec_should_post_version, Platform};
use crate::state::PlatformState;
use crate::version::{lenient_parse, spec_version_lt, version_from_tag, version_lt, Version};

verus! {

/// One post of a forum topic, as the topic-lookup endpoint reports it; only
/// the topic identifier is consumed.
#[derive(Debug)]
pub struct TopicPost {
    pub topic_id: u64,
}

/// The topic to post into: the first post's topic identifier, or none when
/// the topic has no posts.
pub fn topic_id_from_posts(posts: &Vec<TopicPost>) -> (r: Option<u64>)
    ensures
        posts@.len() == 0 ==> r is None,
        posts@.len() > 0 ==> r == Some(posts@[0].topic_id),
{
    if posts.len() == 0 {
        None
    } else {
        Some(posts[0].topic_id)
    }
}

/// A forum response that lacks a post number: the publish failed, and state
/// must not advance.
#[derive(Debug, Clone, Copy, PartialEq, Eq, Structural)]
pub enum PublishError {
    NoPostNumber,
}

/// Read the forum's answer to a posting request: the post number on success;
/// its absence is a failed publish, reported distinctly from any transport
/// failure.
pub fn publish_outcome(post_number: Option<u64>) -> (r: Result<u64, PublishError>)
    ensures
        post_number matches Some(n) ==> r == Ok::<u64, PublishError>(n),
        post_number is None ==> r == Err::<u64, PublishError>(PublishError::NoPostNumber),
{
    match post_number {
        Some(n) => Ok(n),
        None => Err(PublishError::NoPostNumber),
    }
}

/// Does a freshly observed tag qualify for announcement: it parses as a
/// version, the platform's policy admits that version, and it is strictly
/// newer than the last posted one.
pub open spec fn spec_tag_qualifies(p: Platform, tag: Seq<char>, last: crate::version::VersionSpec) -> bool {
    match lenient_parse(tag) {
        Some(v) => spec_should_post_version(p, v) && spec_version_lt(last, v),
        None => false,
    }
}

/// The first remote tag, in the order the remote API listed them, that
/// qualifies for announcement against the last posted version; none when no
/// tag qualifies. Tags that do not parse as versions never qualify.
pub fn next_tag_to_post(platform: Platform, remote_tags: &Vec<Tag>, last_posted: &Version) -> (r:
    Option<Tag>)
    ensures
        r matches Some(t) ==> exists|i: int|
            0 <= i < remote_tags@.len() && #[trigger] remote_tags@[i]@ == t@
                && spec_tag_qualifies(platform, t@, last_posted@) && forall|j: int|
                0 <= j < i ==> !spec_tag_qualifies(platform, remote_tags@[j]@, last_posted@),
        r is None ==> forall|i: int|
            0 <= i < remote_tags@.len() ==> !spec_tag_qualifies(
                platform,
                remote_tags@[i]@,
                last_posted@,
            ),
{
    let mut i: usize = 0;
    while i < remote_tags.len()
        invariant
            i <= remote_tags@.len(),
            forall|j: int|
                0 <= j < i ==> !spec_tag_qualifies(platform, remote_tags@[j]@, last_posted@),
        decreases remote_tags@.len() - i,
    {
        let tag = &remote_tags[i];
        match version_from_tag(tag.name.as_str()) {
            Ok(v) => {
                if platform.should_post_version(&v) && version_lt(last_posted, &v) {
                    let found = Tag { name: tag.name.clone() };
                    assert(found@ == remote_tags@[i as int]@);
                    assert(spec_tag_qualifies(platform, found@, last_posted@));
                    return Some(found);
                }
            },
            Err(_) => {},
        }
        i += 1;
    }
    None
}

/// The platform's state after a successful publish: the last posted tag
/// becomes the previous release, the announced tag becomes the last posted
/// one, and the returned post number is recorded; everything else is kept.
pub fn advanced_platform_state(current: PlatformState, new_tag: Tag, post_number: u64) -> (r:
    PlatformState)
    ensures
        r@.last_posted_tag_previous_release == current@.last_posted_tag,
        r@.last_posted_tag == new_tag@,
        r@.last_post_number == Some(post_number),
        r@.posted_archiving_message == current@.posted_archiving_message,
        r@.localization_changes_completeness == current@.localization_changes_completeness,
        r@.localization_changes == current@.localization_changes,
{
    PlatformState {
        last_posted_tag_previous_release: current.last_posted_tag,
        last_posted_tag: new_tag,
        last_post_number: Some(post_number),
        posted_archiving_message: current.posted_archiving_message,
        localization_changes_completeness: current.localization_changes_completeness,
        localization_changes: current.localization_changes,
    }
}

} // verus!
