//! The comparison between two release tags as the code-hosting API reports
//! it: the data model, the page accumulator for the paginated fetch, the
//! pagination-link handling, and the completeness check that makes a partial
//! result a hard failure.

use vstd::prelude::*;

use crate::text::{dec_digits, u64_to_dec};

verus! {

/// A release tag name as reported by the remote repository.
#[derive(Debug, Clone)]
pub struct Tag {
    pub name: String,
}

impl View for Tag {
    type V = Seq<char>;

    open spec fn view(&self) -> Seq<char> {
        self.name@
    }
}

/// One commit of a comparison: the full message and the commit SHA.
#[derive(Debug)]
pub struct GithubCommit {
    pub sha: String,
    pub message: String,
}

/// The mathematical model of a commit record.
pub struct GithubCommitView {
    pub sha: Seq<char>,
    pub message: Seq<char>,
}

impl View for GithubCommit {
    type V = GithubCommitView;

    open spec fn view(&self) -> GithubCommitView {
        GithubCommitView { sha: self.sha@, message: self.message@ }
    }
}

/// One changed file of a comparison.
#[derive(Debug)]
pub struct GithubFile {
    pub filename: String,
}

impl View for GithubFile {
    type V = Seq<char>;

    open spec fn view(&self) -> Seq<char> {
        self.filename@
    }
}

/// The result of diffing two tags: the authoritative total commit count
/// reported by the remote API, the commits retrieved, and optionally the
/// changed files.
#[derive(Debug)]
pub struct Comparison {
    pub total_commits: usize,
    pub commits: Vec<GithubCommit>,
    pub files: Option<Vec<GithubFile>>,
}

/// The views of a sequence of changed files.
pub open spec fn file_views(s: Seq<GithubFile>) -> Seq<Seq<char>> {
    s.map_values(|f: GithubFile| f@)
}

/// How much of a comparison to retrieve.
#[derive(Debug, Clone, Copy, PartialEq, Eq, Structural)]
pub enum GitHubComparisonKind {
    /// Full comparison including all commits and files.
    Full,
    /// A comparison that only includes 1 commit, but includes all files
    /// (the remote API returns all files on the first page).
    /// `total_commits` still reports the total number of commits.
    JustAllFiles,
}

/// The page size to request: up to 100 commits per page for a full fetch,
/// a single commit per page when only the files are wanted.
pub fn per_page(kind: &GitHubComparisonKind) -> (r: u64)
    ensures
        kind is Full ==> r == 100,
        kind is JustAllFiles ==> r == 1,
{
    match kind {
        GitHubComparisonKind::Full => 100,
        GitHubComparisonKind::JustAllFiles => 1,
    }
}

/// Why retrieving a comparison failed.
#[derive(Debug)]
pub enum ComparisonError {
    /// The response carried no pagination `Link` header where one was needed.
    MissingLinkHeader,
    /// The pagination `Link` header could not be parsed.
    MalformedLinkHeader,
    /// Fewer or more commits were accumulated than the remote API reported.
    IncompleteComparison { expected: usize, actual: usize },
}

/// The diagnostic text of a comparison error, naming the expected and actual
/// counts for an incomplete comparison.
pub open spec fn spec_comparison_error_message(e: ComparisonError) -> Seq<char> {
    match e {
        ComparisonError::MissingLinkHeader => "no `Link` header in the response"@,
        ComparisonError::MalformedLinkHeader => "could not parse `Link` header"@,
        ComparisonError::IncompleteComparison { expected, actual } => {
            "incomplete full comparison: total_commits = "@ + dec_digits(expected as nat)
                + " but commits retrieved = "@ + dec_digits(actual as nat)
        },
    }
}

impl ComparisonError {
    /// Render the error for logging.
    pub fn message(&self) -> (r: String)
        ensures
            r@ == spec_comparison_error_message(*self),
    {
        match self {
            ComparisonError::MissingLinkHeader => {
                let r = "no `Link` header in the response".to_owned();
                r
            },
            ComparisonError::MalformedLinkHeader => {
                let r = "could not parse `Link` header".to_owned();
                r
            },
            ComparisonError::IncompleteComparison { expected, actual } => {
                let mut r = String::new();
                r.append("incomplete full comparison: total_commits = ");
                let e_str = u64_to_dec(*expected as u64);
                r.append(e_str.as_str());
                r.append(" but commits retrieved = ");
                let a_str = u64_to_dec(*actual as u64);
                r.append(a_str.as_str());
                proof {
                    assert(r@ =~= spec_comparison_error_message(*self));
                }
                r
            },
        }
    }
}

/// Commits and files gathered so far across the pages of one comparison.
#[derive(Debug)]
pub struct ComparisonAccumulator {
    pub total_commits: usize,
    pub first_page_seen: bool,
    pub commits: Vec<GithubCommit>,
    pub files: Vec<GithubFile>,
}

impl ComparisonAccumulator {
    /// An empty accumulator, before the first page.
    pub fn new() -> (r: ComparisonAccumulator)
        ensures
            r.total_commits == 0,
            !r.first_page_seen,
            r.commits@ == Seq::<GithubCommit>::empty(),
            r.files@ == Seq::<GithubFile>::empty(),
    {
        ComparisonAccumulator {
            total_commits: 0,
            first_page_seen: false,
            commits: Vec::new(),
            files: Vec::new(),
        }
    }

    /// Absorb one response page: its commits and files are appended, and the
    /// authoritative total is the one the first page reported; later pages do
    /// not replace it.
    pub fn absorb_page(&mut self, page: Comparison)
        ensures
            final(self).first_page_seen,
            final(self).total_commits == if old(self).first_page_seen {
                old(self).total_commits
            } else {
                page.total_commits
            },
            final(self).commits@ == old(self).commits@ + page.commits@,
            final(self).files@ == old(self).files@ + (match page.files {
                Some(f) => f@,
                None => Seq::<GithubFile>::empty(),
            }),
    {
        if !self.first_page_seen {
            self.total_commits = page.total_commits;
            self.first_page_seen = true;
        }
        let mut page_commits = page.commits;
        self.commits.append(&mut page_commits);
        match page.files {
            Some(mut f) => {
                self.files.append(&mut f);
            },
            None => {
                proof {
                    assert(self.files@ =~= self.files@ + Seq::<GithubFile>::empty());
                }
            },
        }
    }

    /// Close the accumulation. For a full fetch the number of commits actually
    /// retrieved must equal the total the first page reported; a mismatch is a
    /// hard failure naming both counts, never a partial result.
    pub fn finish(self, kind: &GitHubComparisonKind) -> (r: Result<Comparison, ComparisonError>)
        ensures
            (r is Ok) == !(kind is Full && self.total_commits != self.commits@.len()),
            r matches Ok(c) ==> {
                &&& c.total_commits == self.total_commits
                &&& c.commits@ == self.commits@
                &&& c.files matches Some(f) && f@ == self.files@
            },
            r matches Err(e) ==> e matches ComparisonError::IncompleteComparison {
                expected,
                actual,
            } && expected == self.total_commits && actual == self.commits@.len(),
    {
        if matches!(kind, GitHubComparisonKind::Full) && self.total_commits != self.commits.len() {
            return Err(
                ComparisonError::IncompleteComparison {
                    expected: self.total_commits,
                    actual: self.commits.len(),
                },
            );
        }
        Ok(
            Comparison {
                total_commits: self.total_commits,
                commits: self.commits,
                files: Some(self.files),
            },
        )
    }
}

/// What the pagination `Link` header names: the map from relation name to
/// target URL, or nothing where the header does not parse.
pub uninterp spec fn link_relations(s: Seq<char>) -> Option<Map<Seq<char>, Seq<char>>>;

/// Relies on `parse_link_header::parse_with_rel`: the relation map parsed
/// from a header value is a function of that value alone, though the order in
/// which this wrapper hands the entries out is not.
#[verifier::external_body]
fn parse_link_rels(header: &str) -> (r: Option<Vec<(String, String)>>)
    ensures
        (r is Some) == (link_relations(header@) is Some),
        r matches Some(pairs) ==> {
            &&& forall|i: int|
                0 <= i < pairs@.len() ==> link_relations(header@).unwrap().contains_key(
                    #[trigger] pairs@[i].0@,
                ) && link_relations(header@).unwrap()[pairs@[i].0@] == pairs@[i].1@
            &&& forall|k: Seq<char>|
                link_relations(header@).unwrap().contains_key(k) ==> exists|i: int|
                    0 <= i < pairs@.len() && #[trigger] pairs@[i].0@ == k
        },
{
    match parse_link_header::parse_with_rel(header) {
        Ok(map) => Some(map.into_iter().map(|(rel, link)| (rel, link.raw_uri)).collect()),
        Err(_) => None,
    }
}

/// The URL of the next page named by a pagination `Link` header, if any; a
/// header that does not parse is a hard failure.
pub fn next_page_url(header: &str) -> (r: Result<Option<String>, ComparisonError>)
    ensures
        (r is Ok) == (link_relations(header@) is Some),
        r matches Ok(Some(u)) ==> link_relations(header@).unwrap().contains_key("next"@)
            && u@ == link_relations(header@).unwrap()["next"@],
        r matches Ok(None) ==> !link_relations(header@).unwrap().contains_key("next"@),
        r matches Err(e) ==> e is MalformedLinkHeader,
{
    match parse_link_rels(header) {
        None => Err(ComparisonError::MalformedLinkHeader),
        Some(pairs) => {
            let needle = "next".to_owned();
            let mut i: usize = 0;
            while i < pairs.len()
                invariant
                    i <= pairs@.len(),
                    needle@ == "next"@,
                    link_relations(header@) is Some,
                    forall|j: int| 0 <= j < i ==> #[trigger] pairs@[j].0@ != "next"@,
                    forall|j: int|
                        0 <= j < pairs@.len() ==> link_relations(
                            header@,
                        ).unwrap().contains_key(#[trigger] pairs@[j].0@) && link_relations(
                            header@,
                        ).unwrap()[pairs@[j].0@] == pairs@[j].1@,
                    forall|k: Seq<char>|
                        link_relations(header@).unwrap().contains_key(k) ==> exists|j: int|
                            0 <= j < pairs@.len() && #[trigger] pairs@[j].0@ == k,
                decreases pairs@.len() - i,
            {
                if pairs[i].0 == needle {
                    let url = pairs[i].1.clone();
                    return Ok(Some(url));
                }
                i += 1;
            }
            Ok(None)
        },
    }
}

/// Decide what follows one retrieved page: stop after the first page when only
/// the files are wanted; otherwise follow the `next` link, stop when there is
/// none, and fail when the header is missing or malformed.
pub fn plan_after_page(kind: &GitHubComparisonKind, link_header: Option<&str>) -> (r: Result<
    Option<String>,
    ComparisonError,
>)
    ensures
        kind is JustAllFiles ==> r matches Ok(None),
        kind is Full ==> match link_header {
            None => r matches Err(e) && e is MissingLinkHeader,
            Some(h) => {
                &&& (r is Ok) == (link_relations(h@) is Some)
                &&& r matches Ok(Some(u)) ==> link_relations(h@).unwrap().contains_key("next"@)
                    && u@ == link_relations(h@).unwrap()["next"@]
                &&& r matches Ok(None) ==> !link_relations(h@).unwrap().contains_key("next"@)
                &&& r matches Err(e) ==> e is MalformedLinkHeader
            },
        },
{
    match kind {
        GitHubComparisonKind::JustAllFiles => Ok(None),
        GitHubComparisonKind::Full => {
            match link_header {
                None => Err(ComparisonError::MissingLinkHeader),
                Some(h) => next_page_url(h),
            }
        },
    }
}

} // verus!
