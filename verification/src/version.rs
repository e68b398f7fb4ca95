//! Semantic versions as plain values, parsed leniently from release tags, with
//! a verified precedence comparison (major, minor, patch, then pre-release,
//! then build metadata as the final tiebreak).

use vstd::prelude::*;

use crate::text::{all_digits, spec_split, split_char};

verus! {

/// A parsed semantic version. `pre` and `build` hold the raw pre-release and
/// build-metadata labels (empty when absent).
#[derive(Debug, Clone)]
pub struct Version {
    pub major: u64,
    pub minor: u64,
    pub patch: u64,
    pub pre: String,
    pub build: String,
}

/// The mathematical model of a version.
pub struct VersionSpec {
    pub major: u64,
    pub minor: u64,
    pub patch: u64,
    pub pre: Seq<char>,
    pub build: Seq<char>,
}

impl View for Version {
    type V = VersionSpec;

    open spec fn view(&self) -> VersionSpec {
        VersionSpec {
            major: self.major,
            minor: self.minor,
            patch: self.patch,
            pre: self.pre@,
            build: self.build@,
        }
    }
}

/// What the lenient version grammar makes of a tag string: `None` where the
/// tag does not parse. A fourth numeric component and other non-conforming
/// trailers end up in the build label.
pub uninterp spec fn lenient_parse(s: Seq<char>) -> Option<VersionSpec>;

/// The error returned for a tag that does not parse as a version; it carries
/// the raw tag so the failure can be diagnosed.
#[derive(Debug, Clone)]
pub struct VersionParseError {
    pub tag: String,
}

/// Relies on `lenient_semver::parse`: the parsed version is a function of the
/// input string alone, and parsing either yields a version or an error,
/// without panicking.
#[verifier::external_body]
fn lenient_parse_version(tag: &str) -> (r: Option<Version>)
    ensures
        (r is Some) == (lenient_parse(tag@) is Some),
        r matches Some(v) ==> lenient_parse(tag@) == Some(v@),
{
    match lenient_semver::parse(tag) {
        Ok(v) => Some(
            Version {
                major: v.major,
                minor: v.minor,
                patch: v.patch,
                pre: v.pre.as_str().to_owned(),
                build: v.build.as_str().to_owned(),
            },
        ),
        Err(_) => None,
    }
}

/// Parse a release tag into a version under the lenient grammar; an
/// unparsable tag is rejected with the raw tag in the error, never coerced.
pub fn version_from_tag(tag: &str) -> (r: Result<Version, VersionParseError>)
    ensures
        (r is Ok) == (lenient_parse(tag@) is Some),
        r matches Ok(v) ==> lenient_parse(tag@) == Some(v@),
        r matches Err(e) ==> e.tag@ == tag@,
{
    match lenient_parse_version(tag) {
        Some(v) => Ok(v),
        None => Err(VersionParseError { tag: tag.to_owned() }),
    }
}

/// The tag as a display version string: the leading version-prefix character
/// `v` removed, if present.
pub fn exact_version_string_from_tag(tag: &str) -> (r: String)
    ensures
        r@ == crate::text::without_leading(tag@, 'v'),
{
    crate::text::strip_leading_char(tag, 'v')
}

/// Three-way comparison outcome.
#[derive(Debug, Clone, Copy, PartialEq, Eq, Structural)]
pub enum Ord3 {
    Lt,
    Eq,
    Gt,
}

/// The second comparison breaks a tie left by the first.
pub open spec fn ord3_then(a: Ord3, b: Ord3) -> Ord3 {
    if a is Eq {
        b
    } else {
        a
    }
}

/// Three-way comparison of integers.
pub open spec fn cmp_int(a: int, b: int) -> Ord3 {
    if a < b {
        Ord3::Lt
    } else if a == b {
        Ord3::Eq
    } else {
        Ord3::Gt
    }
}

/// Lexicographic comparison of character sequences by code point, which
/// coincides with byte-wise comparison of their UTF-8 encodings.
pub open spec fn lex_cmp(a: Seq<char>, b: Seq<char>) -> Ord3
    decreases a.len(),
{
    if a.len() == 0 && b.len() == 0 {
        Ord3::Eq
    } else if a.len() == 0 {
        Ord3::Lt
    } else if b.len() == 0 {
        Ord3::Gt
    } else if (a[0] as int) < (b[0] as int) {
        Ord3::Lt
    } else if (a[0] as int) > (b[0] as int) {
        Ord3::Gt
    } else {
        lex_cmp(a.drop_first(), b.drop_first())
    }
}

/// `s` without its leading zero characters.
pub open spec fn strip_zeros(s: Seq<char>) -> Seq<char>
    decreases s.len(),
{
    if s.len() > 0 && s[0] == '0' {
        strip_zeros(s.drop_first())
    } else {
        s
    }
}

/// One pre-release identifier against another: digits-only identifiers are
/// compared numerically (shorter means smaller, then lexically), a digits-only
/// identifier is smaller than any other, and the rest compare lexically.
pub open spec fn ident_cmp_pre(a: Seq<char>, b: Seq<char>) -> Ord3 {
    if all_digits(a) && all_digits(b) {
        ord3_then(cmp_int(a.len() as int, b.len() as int), lex_cmp(a, b))
    } else if all_digits(a) {
        Ord3::Lt
    } else if all_digits(b) {
        Ord3::Gt
    } else {
        lex_cmp(a, b)
    }
}

/// One build-metadata identifier against another: like the pre-release rule,
/// except that digits-only identifiers first drop leading zeros, with the raw
/// length as the final tiebreak (so `0 < 00 < 1 < 01 < 10`).
pub open spec fn ident_cmp_build(a: Seq<char>, b: Seq<char>) -> Ord3 {
    if all_digits(a) && all_digits(b) {
        let sa = strip_zeros(a);
        let sb = strip_zeros(b);
        ord3_then(
            ord3_then(cmp_int(sa.len() as int, sb.len() as int), lex_cmp(sa, sb)),
            cmp_int(a.len() as int, b.len() as int),
        )
    } else if all_digits(a) {
        Ord3::Lt
    } else if all_digits(b) {
        Ord3::Gt
    } else {
        lex_cmp(a, b)
    }
}

/// Dot-separated identifier lists, first difference decides; a strict prefix
/// compares smaller.
pub open spec fn idents_cmp(a: Seq<Seq<char>>, b: Seq<Seq<char>>, build_rules: bool) -> Ord3
    decreases a.len(),
{
    if a.len() == 0 && b.len() == 0 {
        Ord3::Eq
    } else if a.len() == 0 {
        Ord3::Lt
    } else if b.len() == 0 {
        Ord3::Gt
    } else {
        let c = if build_rules {
            ident_cmp_build(a[0], b[0])
        } else {
            ident_cmp_pre(a[0], b[0])
        };
        if c is Eq {
            idents_cmp(a.drop_first(), b.drop_first(), build_rules)
        } else {
            c
        }
    }
}

/// Pre-release labels: an empty label (a real release) outranks any
/// pre-release; otherwise the identifier lists decide.
pub open spec fn pre_cmp(a: Seq<char>, b: Seq<char>) -> Ord3 {
    if a.len() == 0 && b.len() == 0 {
        Ord3::Eq
    } else if a.len() == 0 {
        Ord3::Gt
    } else if b.len() == 0 {
        Ord3::Lt
    } else {
        idents_cmp(spec_split(a, '.'), spec_split(b, '.'), false)
    }
}

/// Build-metadata labels, identifier list comparison throughout (an empty
/// label splits into one empty identifier, which compares below all others).
pub open spec fn build_cmp(a: Seq<char>, b: Seq<char>) -> Ord3 {
    idents_cmp(spec_split(a, '.'), spec_split(b, '.'), true)
}

/// Version precedence: major, minor, patch, pre-release, then build metadata.
pub open spec fn spec_version_cmp(a: VersionSpec, b: VersionSpec) -> Ord3 {
    ord3_then(
        cmp_int(a.major as int, b.major as int),
        ord3_then(
            cmp_int(a.minor as int, b.minor as int),
            ord3_then(
                cmp_int(a.patch as int, b.patch as int),
                ord3_then(pre_cmp(a.pre, b.pre), build_cmp(a.build, b.build)),
            ),
        ),
    )
}

/// `a` precedes `b` strictly.
pub open spec fn spec_version_lt(a: VersionSpec, b: VersionSpec) -> bool {
    spec_version_cmp(a, b) is Lt
}

fn exec_all_digits(s: &str) -> (r: bool)
    ensures
        r == all_digits(s@),
{
    let n = s.unicode_len();
    let mut i: usize = 0;
    while i < n
        invariant
            i <= n,
            n == s@.len(),
            forall|k: int| 0 <= k < i ==> '0' <= #[trigger] s@[k] <= '9',
        decreases n - i,
    {
        let c = s.get_char(i);
        if c < '0' || c > '9' {
            return false;
        }
        i += 1;
    }
    true
}

/// Lexicographic comparison of the suffixes of `a` and `b` starting at `ia`
/// and `ib`.
fn lex_cmp_from(a: &str, ia: usize, b: &str, ib: usize) -> (r: Ord3)
    requires
        ia <= a@.len(),
        ib <= b@.len(),
    ensures
        r == lex_cmp(a@.skip(ia as int), b@.skip(ib as int)),
{
    let na = a.unicode_len();
    let nb = b.unicode_len();
    let mut i: usize = ia;
    let mut j: usize = ib;
    loop
        invariant
            ia <= i <= na,
            ib <= j <= nb,
            na == a@.len(),
            nb == b@.len(),
            lex_cmp(a@.skip(ia as int), b@.skip(ib as int)) == lex_cmp(
                a@.skip(i as int),
                b@.skip(j as int),
            ),
        decreases na - i,
    {
        proof {
            if i < na {
                assert(a@.skip(i as int).drop_first() =~= a@.skip(i + 1));
            }
            if j < nb {
                assert(b@.skip(j as int).drop_first() =~= b@.skip(j + 1));
            }
            assert(a@.skip(i as int).len() == na - i);
            assert(b@.skip(j as int).len() == nb - j);
        }
        if i == na && j == nb {
            return Ord3::Eq;
        }
        if i == na {
            return Ord3::Lt;
        }
        if j == nb {
            return Ord3::Gt;
        }
        let ca = a.get_char(i);
        let cb = b.get_char(j);
        proof {
            assert(a@.skip(i as int)[0] == a@[i as int]);
            assert(b@.skip(j as int)[0] == b@[j as int]);
        }
        if ca < cb {
            return Ord3::Lt;
        }
        if ca > cb {
            return Ord3::Gt;
        }
        i += 1;
        j += 1;
    }
}

/// The index of the first character of `s` that is not `'0'`.
fn leading_zeros_end(s: &str) -> (r: usize)
    ensures
        r <= s@.len(),
        strip_zeros(s@) == s@.skip(r as int),
    decreases s@.len(),
{
    let n = s.unicode_len();
    let mut i: usize = 0;
    proof {
        assert(s@.skip(0) =~= s@);
    }
    while i < n
        invariant
            i <= n,
            n == s@.len(),
            strip_zeros(s@) == strip_zeros(s@.skip(i as int)),
        decreases n - i,
    {
        proof {
            assert(s@.skip(i as int)[0] == s@[i as int]);
            assert(s@.skip(i as int).drop_first() =~= s@.skip(i + 1));
        }
        if s.get_char(i) != '0' {
            return i;
        }
        i += 1;
    }
    proof {
        assert(s@.skip(n as int).len() == 0);
    }
    n
}

fn exec_ident_cmp(a: &str, b: &str, build_rules: bool) -> (r: Ord3)
    ensures
        build_rules ==> r == ident_cmp_build(a@, b@),
        !build_rules ==> r == ident_cmp_pre(a@, b@),
{
    let da = exec_all_digits(a);
    let db = exec_all_digits(b);
    if da && db {
        let na = a.unicode_len();
        let nb = b.unicode_len();
        if build_rules {
            let za = leading_zeros_end(a);
            let zb = leading_zeros_end(b);
            let sa_len = na - za;
            let sb_len = nb - zb;
            proof {
                assert(strip_zeros(a@).len() == na - za);
                assert(strip_zeros(b@).len() == nb - zb);
            }
            if sa_len < sb_len {
                return Ord3::Lt;
            }
            if sa_len > sb_len {
                return Ord3::Gt;
            }
            let lc = lex_cmp_from(a, za, b, zb);
            if lc != Ord3::Eq {
                return lc;
            }
            if na < nb {
                return Ord3::Lt;
            }
            if na > nb {
                return Ord3::Gt;
            }
            Ord3::Eq
        } else {
            if na < nb {
                return Ord3::Lt;
            }
            if na > nb {
                return Ord3::Gt;
            }
            let lc = lex_cmp_from(a, 0, b, 0);
            proof {
                assert(a@.skip(0) =~= a@);
                assert(b@.skip(0) =~= b@);
            }
            lc
        }
    } else if da {
        Ord3::Lt
    } else if db {
        Ord3::Gt
    } else {
        let lc = lex_cmp_from(a, 0, b, 0);
        proof {
            assert(a@.skip(0) =~= a@);
            assert(b@.skip(0) =~= b@);
        }
        lc
    }
}

fn exec_idents_cmp(a: &Vec<String>, b: &Vec<String>, i: usize, build_rules: bool) -> (r: Ord3)
    requires
        i <= a@.len(),
        i <= b@.len(),
    ensures
        r == idents_cmp(
            crate::text::views_of(a@).skip(i as int),
            crate::text::views_of(b@).skip(i as int),
            build_rules,
        ),
    decreases a@.len() - i,
{
    let ghost va = crate::text::views_of(a@).skip(i as int);
    let ghost vb = crate::text::views_of(b@).skip(i as int);
    if i == a.len() && i == b.len() {
        return Ord3::Eq;
    }
    if i == a.len() {
        return Ord3::Lt;
    }
    if i == b.len() {
        return Ord3::Gt;
    }
    let c = exec_ident_cmp(a[i].as_str(), b[i].as_str(), build_rules);
    proof {
        assert(va[0] == a@[i as int]@);
        assert(vb[0] == b@[i as int]@);
        assert(va.drop_first() =~= crate::text::views_of(a@).skip(i + 1));
        assert(vb.drop_first() =~= crate::text::views_of(b@).skip(i + 1));
    }
    if c != Ord3::Eq {
        return c;
    }
    exec_idents_cmp(a, b, i + 1, build_rules)
}

fn exec_idents_cmp_full(a: &str, b: &str, build_rules: bool) -> (r: Ord3)
    ensures
        r == idents_cmp(spec_split(a@, '.'), spec_split(b@, '.'), build_rules),
{
    let pa = split_char(a, '.');
    let pb = split_char(b, '.');
    let r = exec_idents_cmp(&pa, &pb, 0, build_rules);
    proof {
        assert(crate::text::views_of(pa@).skip(0) =~= crate::text::views_of(pa@));
        assert(crate::text::views_of(pb@).skip(0) =~= crate::text::views_of(pb@));
    }
    r
}

/// Lexicographic comparison of two strings by code point.
pub fn lex_cmp_str(a: &str, b: &str) -> (r: Ord3)
    ensures
        r == lex_cmp(a@, b@),
{
    let r = lex_cmp_from(a, 0, b, 0);
    proof {
        assert(a@.skip(0) =~= a@);
        assert(b@.skip(0) =~= b@);
    }
    r
}

/// Three-way version precedence comparison.
pub fn version_cmp(a: &Version, b: &Version) -> (r: Ord3)
    ensures
        r == spec_version_cmp(a@, b@),
{
    if a.major < b.major {
        return Ord3::Lt;
    }
    if a.major > b.major {
        return Ord3::Gt;
    }
    if a.minor < b.minor {
        return Ord3::Lt;
    }
    if a.minor > b.minor {
        return Ord3::Gt;
    }
    if a.patch < b.patch {
        return Ord3::Lt;
    }
    if a.patch > b.patch {
        return Ord3::Gt;
    }
    let pa_len = a.pre.as_str().unicode_len();
    let pb_len = b.pre.as_str().unicode_len();
    let pc = if pa_len == 0 && pb_len == 0 {
        Ord3::Eq
    } else if pa_len == 0 {
        Ord3::Gt
    } else if pb_len == 0 {
        Ord3::Lt
    } else {
        exec_idents_cmp_full(a.pre.as_str(), b.pre.as_str(), false)
    };
    if pc != Ord3::Eq {
        return pc;
    }
    exec_idents_cmp_full(a.build.as_str(), b.build.as_str(), true)
}

/// Does `a` strictly precede `b`?
pub fn version_lt(a: &Version, b: &Version) -> (r: bool)
    ensures
        r == spec_version_lt(a@, b@),
{
    let c = version_cmp(a, b);
    c == Ord3::Lt
}

} // verus!
