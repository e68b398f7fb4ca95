//! The changelog renderer: commits plus tag metadata become deterministic
//! markdown. Commit messages are sanitized line by line, long commit lists are
//! wrapped in a collapsible section, and the whole post is a pure function of
//! its inputs, so rendering the same inputs twice gives byte-identical text.

use vstd::prelude::*;

use crate::platform::{
    spec_availability_notice, spec_commit_url, spec_comparison_url, spec_platform_name, Platform,
};
use crate::text::{
    contains_seq, dec_digits, join_strings, join_strings_from, join_with, spec_split, split_char,
    str_contains_sub, strip_leading_char, usize_to_dec, views_of, without_leading,
};

verus! {

/// A line survives sanitization unless it carries a co-author trailer or the
/// revert boilerplate.
pub open spec fn line_kept(line: Seq<char>) -> bool {
    !contains_seq(line, "Co-Authored-By"@) && !contains_seq(line, "This reverts commit"@)
}

/// The message split into lines, with the dropped lines removed; the rule
/// looks at line content, not position.
pub open spec fn spec_sanitized_lines(message: Seq<char>) -> Seq<Seq<char>> {
    spec_split(message, '\n').filter(|l: Seq<char>| line_kept(l))
}

/// One commit prepared for rendering: the platform it belongs to, the
/// sanitized message lines, and the commit SHA.
#[derive(Debug)]
pub struct Commit {
    pub platform: Platform,
    pub message_lines: Vec<String>,
    pub sha: String,
}

/// The mathematical model of a prepared commit.
pub struct CommitView {
    pub platform: Platform,
    pub message_lines: Seq<Seq<char>>,
    pub sha: Seq<char>,
}

impl View for Commit {
    type V = CommitView;

    open spec fn view(&self) -> CommitView {
        CommitView {
            platform: self.platform,
            message_lines: views_of(self.message_lines@),
            sha: self.sha@,
        }
    }
}

/// The headline of a rendered commit: its first surviving message line, or a
/// placeholder when none survives.
pub open spec fn spec_headline(lines: Seq<Seq<char>>) -> Seq<char> {
    if lines.len() == 0 {
        "*Empty commit message*"@
    } else {
        lines[0]
    }
}

/// The indented detail block of a rendered commit: the surviving lines after
/// the headline, each indented four spaces, preceded by a blank line; empty
/// when no such line exists.
pub open spec fn spec_details(lines: Seq<Seq<char>>) -> Seq<char> {
    if lines.len() >= 2 {
        "\n    "@ + join_with(lines.skip(1), "\n    "@)
    } else {
        Seq::empty()
    }
}

/// One rendered commit entry: the headline, a 1-based ordinal linking to the
/// commit page, and the detail block.
pub open spec fn spec_commit_markdown(c: CommitView, index: int) -> Seq<char> {
    "- "@ + spec_headline(c.message_lines) + " [["@ + dec_digits((index + 1) as nat) + "]]("@
        + spec_commit_url(c.platform, c.sha) + ")\n"@ + spec_details(c.message_lines)
}

impl Commit {
    /// Prepare a commit for rendering: split the full message into lines and
    /// drop every line carrying a co-author trailer or revert boilerplate.
    pub fn new(platform: Platform, full_message: &str, sha: &str) -> (r: Commit)
        ensures
            r.platform == platform,
            r@.message_lines == spec_sanitized_lines(full_message@),
            r@.sha == sha@,
    {
        let lines = split_char(full_message, '\n');
        let ghost all = views_of(lines@);
        let mut rest = lines;
        let total = rest.len();
        let mut kept: Vec<String> = Vec::new();
        let mut i: usize = 0;
        proof {
            reveal(Seq::filter);
            assert(all.take(0) =~= Seq::<Seq<char>>::empty());
            assert(views_of(kept@) =~= Seq::<Seq<char>>::empty());
            assert(views_of(rest@) =~= all.skip(0));
        }
        while rest.len() > 0
            invariant
                i + rest@.len() == total,
                total == all.len(),
                views_of(rest@) == all.skip(i as int),
                views_of(kept@) == all.take(i as int).filter(|l: Seq<char>| line_kept(l)),
            decreases rest@.len(),
        {
            let ghost prev_rest = rest@;
            let ghost prev_kept = kept@;
            let line = rest.remove(0);
            proof {
                assert(views_of(prev_rest)[0] == all[i as int]);
                assert(line@ == all[i as int]);
                assert(views_of(rest@) =~= views_of(prev_rest).skip(1));
                assert(views_of(prev_rest).skip(1) =~= all.skip(i + 1));
                reveal(Seq::filter);
                assert(all.take(i + 1).drop_last() =~= all.take(i as int));
                assert(all.take(i + 1).last() == all[i as int]);
            }
            let keep = !str_contains_sub(line.as_str(), "Co-Authored-By") && !str_contains_sub(
                line.as_str(),
                "This reverts commit",
            );
            if keep {
                kept.push(line);
                proof {
                    reveal(Seq::filter);
                    assert(views_of(kept@) =~= views_of(prev_kept).push(all[i as int]));
                    assert(all.take(i + 1).filter(|l: Seq<char>| line_kept(l)) == all.take(
                        i as int,
                    ).filter(|l: Seq<char>| line_kept(l)).push(all[i as int]));
                }
            } else {
                proof {
                    reveal(Seq::filter);
                    assert(all.take(i + 1).filter(|l: Seq<char>| line_kept(l)) == all.take(
                        i as int,
                    ).filter(|l: Seq<char>| line_kept(l)));
                }
            }
            i += 1;
        }
        proof {
            assert(all.take(all.len() as int) =~= all);
        }
        Commit { platform, message_lines: kept, sha: sha.to_owned() }
    }

    /// Render this commit as one markdown list entry. `index` is 0-based; the
    /// rendered ordinal is 1-based.
    pub fn markdown_text(&self, index: usize) -> (r: String)
        requires
            index < usize::MAX,
        ensures
            r@ == spec_commit_markdown(self@, index as int),
    {
        let mut r = String::new();
        r.append("- ");
        if self.message_lines.len() == 0 {
            r.append("*Empty commit message*");
        } else {
            r.append(self.message_lines[0].as_str());
        }
        r.append(" [[");
        let ordinal = usize_to_dec(index + 1);
        r.append(ordinal.as_str());
        r.append("]](");
        let url = self.platform.github_commit_url(self.sha.as_str());
        r.append(url.as_str());
        r.append(")\n");
        if self.message_lines.len() >= 2 {
            r.append("\n    ");
            let details = join_strings_from(&self.message_lines, 1, "\n    ");
            r.append(details.as_str());
            proof {
                assert(views_of(self.message_lines@).skip(1) == self@.message_lines.skip(1));
            }
        }
        proof {
            assert(r@ =~= spec_commit_markdown(self@, index as int));
        }
        r
    }
}

/// A forum post announcing one new release: the platform, the tag pair, and
/// the commits between them, in retrieval order.
#[derive(Debug)]
pub struct Post {
    pub platform: Platform,
    pub previous_tag: String,
    pub new_tag: String,
    pub commits: Vec<Commit>,
}

/// The mathematical model of a post.
pub struct PostView {
    pub platform: Platform,
    pub previous_tag: Seq<char>,
    pub new_tag: Seq<char>,
    pub commits: Seq<CommitView>,
}

impl View for Post {
    type V = PostView;

    open spec fn view(&self) -> PostView {
        PostView {
            platform: self.platform,
            previous_tag: self.previous_tag@,
            new_tag: self.new_tag@,
            commits: self.commits@.map_values(|c: Commit| c@),
        }
    }
}

/// The rendered entries of the commits, in order, with 1-based ordinals
/// continuing across any collapsible-section boundary.
pub open spec fn spec_commit_entries(commits: Seq<CommitView>) -> Seq<Seq<char>> {
    commits.map(|i: int, c: CommitView| spec_commit_markdown(c, i))
}

/// How many commits at most render without the collapsible wrapper.
pub open spec fn collapse_threshold() -> int {
    20
}

/// The full markdown text of a post: a heading naming the new version plus
/// the platform's availability notice, a quote block stating the commit count
/// since the previous version, the commit entries joined with blank lines
/// (wrapped in a collapsible section when there are more than twenty), a
/// horizontal rule, and an attribution line with the comparison URL. The tags
/// are displayed with the leading version-prefix character removed.
pub open spec fn spec_post_markdown(p: PostView) -> Seq<char> {
    let new_version = without_leading(p.new_tag, 'v');
    let previous_version = without_leading(p.previous_tag, 'v');
    let n = p.commits.len() as int;
    let entries = join_with(spec_commit_entries(p.commits), "\n"@);
    let prefix = if n > collapse_threshold() {
        "[details=\"Show commits\"]\n\n"@
    } else {
        ""@
    };
    let postfix = if n > collapse_threshold() {
        "\n\n[/details]"@
    } else {
        ""@
    };
    let count_word = if n == 1 {
        " new commit since "@
    } else {
        " new commits since "@
    };
    "## :tada: - New Version: "@ + new_version + spec_availability_notice(p.platform)
        + "\n\n[quote]\n"@ + dec_digits(n as nat) + count_word + previous_version + ":\n\n"@
        + prefix + entries + postfix + "\n\n---\nGathered from [signalapp/Signal-"@
        + spec_platform_name(p.platform) + "]("@ + spec_comparison_url(
        p.platform,
        p.previous_tag,
        p.new_tag,
    ) + ")\n[/quote]"@
}

/// Law: rendering is deterministic and idempotent. The rendered text is a
/// function of the post's model alone, so two renderings of posts with equal
/// content are byte-identical.
pub proof fn lemma_render_deterministic(p1: PostView, p2: PostView, r1: Seq<char>, r2: Seq<char>)
    requires
        p1 == p2,
        r1 == spec_post_markdown(p1),
        r2 == spec_post_markdown(p2),
    ensures
        r1 == r2,
{
}

impl Post {
    /// Assemble a post from its parts.
    pub fn new(platform: Platform, previous_tag: &str, new_tag: &str, commits: Vec<Commit>) -> (r:
        Post)
        ensures
            r.platform == platform,
            r@.previous_tag == previous_tag@,
            r@.new_tag == new_tag@,
            r@.commits == commits@.map_values(|c: Commit| c@),
    {
        Post {
            platform,
            previous_tag: previous_tag.to_owned(),
            new_tag: new_tag.to_owned(),
            commits,
        }
    }

    /// Render the post. The text is a pure function of the post's fields, so
    /// rendering identical inputs yields byte-identical output.
    #[verifier::rlimit(60)]
    pub fn markdown_text(&self) -> (r: String)
        ensures
            r@ == spec_post_markdown(self@),
    {
        let ghost entries_spec = spec_commit_entries(self@.commits);
        let mut entries: Vec<String> = Vec::new();
        let mut i: usize = 0;
        proof {
            assert(views_of(entries@) =~= entries_spec.take(0));
        }
        while i < self.commits.len()
            invariant
                i <= self.commits@.len(),
                entries_spec == spec_commit_entries(self@.commits),
                self@.commits == self.commits@.map_values(|c: Commit| c@),
                views_of(entries@) == entries_spec.take(i as int),
            decreases self.commits@.len() - i,
        {
            let ghost prev = entries@;
            let entry = self.commits[i].markdown_text(i);
            entries.push(entry);
            proof {
                assert(self@.commits[i as int] == self.commits@[i as int]@);
                assert(entries_spec[i as int] == spec_commit_markdown(
                    self@.commits[i as int],
                    i as int,
                ));
                assert(views_of(entries@) =~= views_of(prev).push(entries_spec[i as int]));
                assert(entries_spec.take(i + 1) =~= entries_spec.take(i as int).push(
                    entries_spec[i as int],
                ));
            }
            i += 1;
        }
        proof {
            assert(entries_spec.take(self.commits@.len() as int) =~= entries_spec);
        }
        let joined = join_strings(&entries, "\n");

        let new_version = strip_leading_char(self.new_tag.as_str(), 'v');
        let previous_version = strip_leading_char(self.previous_tag.as_str(), 'v');
        let count = self.commits.len();
        let count_str = usize_to_dec(count);
        let comparison_url = self.platform.github_comparison_url(
            self.previous_tag.as_str(),
            self.new_tag.as_str(),
        );

        let mut r = String::new();
        r.append("## :tada: - New Version: ");
        r.append(new_version.as_str());
        r.append(self.platform.availability_notice());
        r.append("\n\n[quote]\n");
        r.append(count_str.as_str());
        if count == 1 {
            r.append(" new commit since ");
        } else {
            r.append(" new commits since ");
        }
        r.append(previous_version.as_str());
        r.append(":\n\n");
        let ghost r_head = r@;
        proof {
            assert(r_head =~= "## :tada: - New Version: "@ + without_leading(self@.new_tag, 'v')
                + spec_availability_notice(self@.platform) + "\n\n[quote]\n"@ + dec_digits(
                self@.commits.len() as nat,
            ) + (if self@.commits.len() == 1 {
                " new commit since "@
            } else {
                " new commits since "@
            }) + without_leading(self@.previous_tag, 'v') + ":\n\n"@);
        }
        if count > 20 {
            r.append("[details=\"Show commits\"]\n\n");
        }
        r.append(joined.as_str());
        if count > 20 {
            r.append("\n\n[/details]");
        }
        r.append("\n\n---\nGathered from [signalapp/Signal-");
        r.append(self.platform.name());
        r.append("](");
        r.append(comparison_url.as_str());
        r.append(")\n[/quote]");
        proof {
            let p = self@;
            let n = p.commits.len() as int;
            let entries = join_with(spec_commit_entries(p.commits), "\n"@);
            let prefix = if n > collapse_threshold() {
                "[details=\"Show commits\"]\n\n"@
            } else {
                ""@
            };
            let postfix = if n > collapse_threshold() {
                "\n\n[/details]"@
            } else {
                ""@
            };
            let tail = "\n\n---\nGathered from [signalapp/Signal-"@ + spec_platform_name(p.platform)
                + "]("@ + spec_comparison_url(p.platform, p.previous_tag, p.new_tag) + ")\n[/quote]"@;
            reveal_strlit("");
            assert(""@.len() == 0);
            assert(joined@ == entries);
            assert(r@ =~= r_head + prefix + entries + postfix + tail);
            assert(spec_post_markdown(p) =~= r_head + prefix + entries + postfix + tail);
            assert(r@ == spec_post_markdown(p));
        }
        r
    }
}

} // verus!
