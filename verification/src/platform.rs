//! Per-platform policy: which remote repository to query, which versions
//! qualify for announcement, URL construction, and platform-specific display
//! text. Pure string construction and predicates, no network.

use vstd::prelude::*;

use crate::localization::LocalizationChange;
use crate::text::{contains_seq, matches_at, str_contains_sub, u64_to_dec, dec_digits};
use crate::version::VersionSpec;

verus! {

/// The closed set of platforms this tracker knows about.
#[derive(Debug, Clone, Copy, PartialEq, Eq, Structural)]
pub enum Platform {
    Android,
    Desktop,
}

/// The platform's display name, as it appears in repository names and posts.
pub open spec fn spec_platform_name(p: Platform) -> Seq<char> {
    match p {
        Platform::Android => "Android"@,
        Platform::Desktop => "Desktop"@,
    }
}

/// The platform's name in lower case, as used in forum topic slugs.
pub open spec fn spec_platform_name_lower(p: Platform) -> Seq<char> {
    match p {
        Platform::Android => "android"@,
        Platform::Desktop => "desktop"@,
    }
}

/// The tag-listing endpoint of the platform's source repository.
pub open spec fn spec_tags_url(p: Platform) -> Seq<char> {
    match p {
        Platform::Android => "https://api.github.com/repos/signalapp/Signal-Android/tags"@,
        Platform::Desktop => "https://api.github.com/repos/signalapp/Signal-Desktop/tags"@,
    }
}

/// The paginated comparison endpoint between two tags.
pub open spec fn spec_api_comparison_url(
    p: Platform,
    old: Seq<char>,
    new: Seq<char>,
    page: u64,
    per_page: u64,
) -> Seq<char> {
    "https://api.github.com/repos/signalapp/Signal-"@ + spec_platform_name(p) + "/compare/"@ + old
        + "..."@ + new + "?page="@ + dec_digits(page as nat) + "&per_page="@ + dec_digits(
        per_page as nat,
    )
}

/// The human-readable comparison page between two tags.
pub open spec fn spec_comparison_url(p: Platform, old: Seq<char>, new: Seq<char>) -> Seq<char> {
    "https://github.com/signalapp/Signal-"@ + spec_platform_name(p) + "/compare/"@ + old + "..."@
        + new
}

/// The human-readable page of one commit.
pub open spec fn spec_commit_url(p: Platform, sha: Seq<char>) -> Seq<char> {
    "https://github.com/signalapp/Signal-"@ + spec_platform_name(p) + "/commit/"@ + sha
}

/// The static per-platform suffix appended to rendered posts (may be empty).
pub open spec fn spec_availability_notice(p: Platform) -> Seq<char> {
    match p {
        Platform::Android => "\n(Not Yet) Available via [Firebase App Distribution](https://community.signalusers.org/t/17538)"@,
        Platform::Desktop => ""@,
    }
}

/// The forum topic-lookup URL for a version's beta-feedback topic.
pub open spec fn spec_topic_slug_url(p: Platform, v: VersionSpec) -> Seq<char> {
    "https://community.signalusers.org/t/beta-feedback-for-the-upcoming-"@
        + spec_platform_name_lower(p) + "-"@ + dec_digits(v.major as nat) + "-"@ + dec_digits(
        v.minor as nat,
    ) + "-release.json"@
}

/// Does a version qualify for announcement on this platform? Android excludes
/// versions carrying a build label (a fourth numeric component parses into the
/// build label under the lenient grammar); Desktop requires a pre-release
/// label containing the beta marker.
pub open spec fn spec_should_post_version(p: Platform, v: VersionSpec) -> bool {
    match p {
        Platform::Android => v.build.len() == 0,
        Platform::Desktop => contains_seq(v.pre, "beta"@),
    }
}

impl Platform {
    /// The platform's display name.
    pub fn name(&self) -> (r: &'static str)
        ensures
            r@ == spec_platform_name(*self),
    {
        match self {
            Platform::Android => "Android",
            Platform::Desktop => "Desktop",
        }
    }

    /// The platform's name in lower case.
    pub fn name_lower(&self) -> (r: &'static str)
        ensures
            r@ == spec_platform_name_lower(*self),
    {
        match self {
            Platform::Android => "android",
            Platform::Desktop => "desktop",
        }
    }

    /// The tag-listing endpoint of the platform's source repository.
    pub fn github_api_tags_url(&self) -> (r: &'static str)
        ensures
            r@ == spec_tags_url(*self),
    {
        match self {
            Platform::Android => "https://api.github.com/repos/signalapp/Signal-Android/tags",
            Platform::Desktop => "https://api.github.com/repos/signalapp/Signal-Desktop/tags",
        }
    }

    /// The comparison endpoint between `old` and `new`, for one page.
    pub fn github_api_comparison_url(&self, old: &str, new: &str, page: u64, per_page: u64) -> (r:
        String)
        ensures
            r@ == spec_api_comparison_url(*self, old@, new@, page, per_page),
    {
        let mut r = String::new();
        r.append("https://api.github.com/repos/signalapp/Signal-");
        r.append(self.name());
        r.append("/compare/");
        r.append(old);
        r.append("...");
        r.append(new);
        r.append("?page=");
        let page_str = u64_to_dec(page);
        r.append(page_str.as_str());
        r.append("&per_page=");
        let per_page_str = u64_to_dec(per_page);
        r.append(per_page_str.as_str());
        proof {
            assert(r@ =~= spec_api_comparison_url(*self, old@, new@, page, per_page));
        }
        r
    }

    /// The human-readable comparison page between `old` and `new`.
    pub fn github_comparison_url(&self, old: &str, new: &str) -> (r: String)
        ensures
            r@ == spec_comparison_url(*self, old@, new@),
    {
        let mut r = String::new();
        r.append("https://github.com/signalapp/Signal-");
        r.append(self.name());
        r.append("/compare/");
        r.append(old);
        r.append("...");
        r.append(new);
        proof {
            assert(r@ =~= spec_comparison_url(*self, old@, new@));
        }
        r
    }

    /// The human-readable page of the commit named by `sha`.
    pub fn github_commit_url(&self, sha: &str) -> (r: String)
        ensures
            r@ == spec_commit_url(*self, sha@),
    {
        let mut r = String::new();
        r.append("https://github.com/signalapp/Signal-");
        r.append(self.name());
        r.append("/commit/");
        r.append(sha);
        proof {
            assert(r@ =~= spec_commit_url(*self, sha@));
        }
        r
    }

    /// The static per-platform suffix appended to rendered posts.
    pub fn availability_notice(&self) -> (r: &'static str)
        ensures
            r@ == spec_availability_notice(*self),
    {
        match self {
            Platform::Android => "\n(Not Yet) Available via [Firebase App Distribution](https://community.signalusers.org/t/17538)",
            Platform::Desktop => "",
        }
    }

    /// The forum topic-lookup URL for a version's beta-feedback topic.
    pub fn discourse_topic_slug_url(&self, version: &crate::version::Version) -> (r: String)
        ensures
            r@ == spec_topic_slug_url(*self, version@),
    {
        let mut r = String::new();
        r.append("https://community.signalusers.org/t/beta-feedback-for-the-upcoming-");
        r.append(self.name_lower());
        r.append("-");
        let major_str = u64_to_dec(version.major);
        r.append(major_str.as_str());
        r.append("-");
        let minor_str = u64_to_dec(version.minor);
        r.append(minor_str.as_str());
        r.append("-release.json");
        proof {
            assert(r@ =~= spec_topic_slug_url(*self, version@));
        }
        r
    }

    /// Does a version qualify for announcement on this platform? This is the
    /// sole gate on which tags are ever eligible for publication.
    pub fn should_post_version(&self, version: &crate::version::Version) -> (r: bool)
        ensures
            r == spec_should_post_version(*self, version@),
    {
        match self {
            Platform::Android => version.build.as_str().unicode_len() == 0,
            Platform::Desktop => str_contains_sub(version.pre.as_str(), "beta"),
        }
    }

    /// Classify a changed file path as a localization change, or none if the
    /// path is not a localization file for this platform.
    pub fn localization_change(&self, filename: &str) -> (r: Option<LocalizationChange>)
        ensures
            match r {
                Some(ch) => spec_classify_localization(*self, filename@) == Some(ch.language_code@),
                None => spec_classify_localization(*self, filename@) is None,
            },
    {
        let prefix = self.localization_prefix();
        let suffix = self.localization_suffix();
        let n = filename.unicode_len();
        let plen = prefix.unicode_len();
        let slen = suffix.unicode_len();
        if n <= plen {
            return None;
        }
        if n - plen <= slen {
            return None;
        }
        if !matches_at(filename, prefix, 0) {
            proof {
                assert(filename@.take(plen as int) =~= filename@.subrange(0, plen as int));
            }
            return None;
        }
        if !matches_at(filename, suffix, n - slen) {
            proof {
                assert(filename@.skip(n - slen) =~= filename@.subrange(
                    n - slen,
                    filename@.len() as int,
                ));
            }
            return None;
        }
        let code = filename.substring_char(plen, n - slen).to_owned();
        proof {
            assert(filename@.take(plen as int) =~= filename@.subrange(0, plen as int));
            assert(filename@.skip(n - slen) =~= filename@.subrange(
                n - slen,
                filename@.len() as int,
            ));
        }
        Some(LocalizationChange { language_code: code })
    }

    /// The path prefix of this platform's localization files.
    pub fn localization_prefix(&self) -> (r: &'static str)
        ensures
            r@ == spec_localization_prefix(*self),
    {
        match self {
            Platform::Android => "app/src/main/res/values-",
            Platform::Desktop => "_locales/",
        }
    }

    /// The path suffix of this platform's localization files.
    pub fn localization_suffix(&self) -> (r: &'static str)
        ensures
            r@ == spec_localization_suffix(*self),
    {
        match self {
            Platform::Android => "/strings.xml",
            Platform::Desktop => "/messages.json",
        }
    }
}

/// The path prefix of a platform's localization files.
pub open spec fn spec_localization_prefix(p: Platform) -> Seq<char> {
    match p {
        Platform::Android => "app/src/main/res/values-"@,
        Platform::Desktop => "_locales/"@,
    }
}

/// The path suffix of a platform's localization files.
pub open spec fn spec_localization_suffix(p: Platform) -> Seq<char> {
    match p {
        Platform::Android => "/strings.xml"@,
        Platform::Desktop => "/messages.json"@,
    }
}

/// The language code of a changed localization file: the non-empty middle of
/// a path of the form `<prefix><code><suffix>`, or none for any other path.
pub open spec fn spec_classify_localization(p: Platform, path: Seq<char>) -> Option<Seq<char>> {
    let pre = spec_localization_prefix(p);
    let suf = spec_localization_suffix(p);
    if path.len() > pre.len() + suf.len() && path.take(pre.len() as int) == pre && path.skip(
        path.len() - suf.len(),
    ) == suf {
        Some(path.subrange(pre.len() as int, path.len() - suf.len()))
    } else {
        None
    }
}

} // verus!

