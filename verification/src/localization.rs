//! Localization-change extraction: every changed file of a comparison is
//! classified by the platform's rules, irrelevant files are dropped, and the
//! result is sorted by a total order so that the output is deterministic
//! regardless of the order in which the remote API reported the files.

use vstd::prelude::*;
use vstd::multiset::Multiset;
use vstd::relations::{sorted_by, total_ordering};
use vstd::seq_lib::group_to_multiset_ensures;
use vstd::seq_lib::lemma_multiset_commutative;
use vstd::seq_lib::lemma_sorted_unique;

use crate::github::{file_views, Comparison};
use crate::platform::{spec_classify_localization, Platform};
use crate::version::{lex_cmp, lex_cmp_str, Ord3};

verus! {

/// A classified localization-file change: the language code the changed file
/// belongs to.
#[derive(Debug, Clone)]
pub struct LocalizationChange {
    pub language_code: String,
}

impl View for LocalizationChange {
    type V = Seq<char>;

    open spec fn view(&self) -> Seq<char> {
        self.language_code@
    }
}

/// The views of a sequence of localization changes.
pub open spec fn change_views(s: Seq<LocalizationChange>) -> Seq<Seq<char>> {
    s.map_values(|c: LocalizationChange| c@)
}

/// The natural order of localization changes: lexicographic on the code.
pub open spec fn code_le(a: Seq<char>, b: Seq<char>) -> bool {
    !(lex_cmp(a, b) is Gt)
}

/// `code_le` as a relation value, for use with the ordering vocabulary.
pub open spec fn code_le_fn() -> spec_fn(Seq<char>, Seq<char>) -> bool {
    |a: Seq<char>, b: Seq<char>| code_le(a, b)
}

proof fn lemma_lex_cmp_eq(a: Seq<char>, b: Seq<char>)
    ensures
        (lex_cmp(a, b) is Eq) <==> a == b,
    decreases a.len(),
{
    if a.len() == 0 && b.len() == 0 {
        assert(a =~= b);
    } else if a.len() == 0 || b.len() == 0 {
    } else if (a[0] as int) == (b[0] as int) {
        lemma_lex_cmp_eq(a.drop_first(), b.drop_first());
        assert(lex_cmp(a, b) == lex_cmp(a.drop_first(), b.drop_first()));
        if lex_cmp(a, b) is Eq {
            assert(a[0] == b[0]);
            assert(a.drop_first() == b.drop_first());
            assert(a.len() == b.len());
            assert(forall|i: int| 1 <= i < a.len() ==> a[i] == a.drop_first()[i - 1]
                && b[i] == b.drop_first()[i - 1]);
            assert(a =~= b);
        } else {
            if a == b {
                assert(a.drop_first() =~= b.drop_first());
            }
        }
    } else {
        if a == b {
            assert(a[0] == b[0]);
        }
    }
}

proof fn lemma_lex_cmp_flip(a: Seq<char>, b: Seq<char>)
    ensures
        (lex_cmp(a, b) is Lt) <==> (lex_cmp(b, a) is Gt),
        (lex_cmp(a, b) is Eq) <==> (lex_cmp(b, a) is Eq),
    decreases a.len(),
{
    if a.len() > 0 && b.len() > 0 && (a[0] as int) == (b[0] as int) {
        lemma_lex_cmp_flip(a.drop_first(), b.drop_first());
    }
}

proof fn lemma_lex_cmp_trans(a: Seq<char>, b: Seq<char>, c: Seq<char>)
    requires
        !(lex_cmp(a, b) is Gt),
        !(lex_cmp(b, c) is Gt),
    ensures
        !(lex_cmp(a, c) is Gt),
    decreases a.len(),
{
    if a.len() == 0 {
    } else {
        assert(b.len() > 0);
        assert(c.len() > 0);
        let a0 = a[0] as int;
        let b0 = b[0] as int;
        let c0 = c[0] as int;
        assert(a0 <= b0);
        assert(b0 <= c0);
        if a0 == c0 {
            assert(a0 == b0 && b0 == c0);
            lemma_lex_cmp_trans(a.drop_first(), b.drop_first(), c.drop_first());
        }
    }
}

/// The natural order on localization changes is a total order, so sorting by
/// it pins the output down uniquely.
pub proof fn lemma_code_le_total_ordering()
    ensures
        total_ordering(code_le_fn()),
{
    let leq = code_le_fn();
    assert forall|a: Seq<char>| #[trigger] leq(a, a) by {
        lemma_lex_cmp_eq(a, a);
    }
    assert forall|a: Seq<char>, b: Seq<char>| #[trigger] leq(a, b) && #[trigger] leq(b, a)
        implies a == b by {
        lemma_lex_cmp_flip(a, b);
        lemma_lex_cmp_eq(a, b);
    }
    assert forall|a: Seq<char>, b: Seq<char>, c: Seq<char>|
        #[trigger] leq(a, b) && #[trigger] leq(b, c) implies leq(a, c) by {
        lemma_lex_cmp_trans(a, b, c);
    }
    assert forall|a: Seq<char>, b: Seq<char>| #[trigger] leq(a, b) || #[trigger] leq(b, a) by {
        lemma_lex_cmp_flip(a, b);
    }
}

/// Does `a` come no later than `b` in the natural order?
pub fn change_le(a: &LocalizationChange, b: &LocalizationChange) -> (r: bool)
    ensures
        r == code_le(a@, b@),
{
    let c = lex_cmp_str(a.language_code.as_str(), b.language_code.as_str());
    c != Ord3::Gt
}

/// The language codes of the classified files, in input order; files that the
/// platform's rules do not recognise contribute nothing.
pub open spec fn spec_classified(p: Platform, files: Seq<Seq<char>>) -> Seq<Seq<char>>
    decreases files.len(),
{
    if files.len() == 0 {
        Seq::empty()
    } else {
        (match spec_classify_localization(p, files[0]) {
            Some(code) => seq![code],
            None => Seq::empty(),
        }) + spec_classified(p, files.drop_first())
    }
}

proof fn lemma_classified_push(p: Platform, files: Seq<Seq<char>>, x: Seq<char>)
    ensures
        spec_classified(p, files.push(x)) == spec_classified(p, files) + (match
            spec_classify_localization(p, x) {
            Some(code) => seq![code],
            None => Seq::<Seq<char>>::empty(),
        }),
    decreases files.len(),
{
    let contribution = (match spec_classify_localization(p, x) {
        Some(code) => seq![code],
        None => Seq::<Seq<char>>::empty(),
    });
    if files.len() == 0 {
        assert(files.push(x) =~= seq![x]);
        assert(seq![x].drop_first() =~= Seq::<Seq<char>>::empty());
        assert(seq![x][0] == x);
        assert(spec_classified(p, Seq::<Seq<char>>::empty()) == Seq::<Seq<char>>::empty());
        assert(spec_classified(p, seq![x]) == contribution + Seq::<Seq<char>>::empty());
        assert(contribution + Seq::<Seq<char>>::empty() =~= contribution);
        assert(spec_classified(p, files) + contribution =~= contribution);
    } else {
        lemma_classified_push(p, files.drop_first(), x);
        assert(files.push(x).drop_first() =~= files.drop_first().push(x));
        assert(files.push(x)[0] == files[0]);
        let head = (match spec_classify_localization(p, files[0]) {
            Some(code) => seq![code],
            None => Seq::<Seq<char>>::empty(),
        });
        assert(spec_classified(p, files.push(x)) == head + (spec_classified(p, files.drop_first())
            + contribution));
        assert(head + (spec_classified(p, files.drop_first()) + contribution) =~= (head
            + spec_classified(p, files.drop_first())) + contribution);
    }
}

proof fn lemma_classified_remove(p: Platform, files: Seq<Seq<char>>, j: int)
    requires
        0 <= j < files.len(),
    ensures
        spec_classified(p, files).to_multiset() == spec_classified(
            p,
            files.remove(j),
        ).to_multiset().add((match spec_classify_localization(p, files[j]) {
            Some(code) => seq![code],
            None => Seq::<Seq<char>>::empty(),
        }).to_multiset()),
    decreases j,
{
    broadcast use group_to_multiset_ensures;

    let contribution = (match spec_classify_localization(p, files[j]) {
        Some(code) => seq![code],
        None => Seq::<Seq<char>>::empty(),
    });
    if j == 0 {
        let head = contribution;
        assert(spec_classified(p, files) == head + spec_classified(p, files.drop_first()));
        lemma_multiset_commutative(head, spec_classified(p, files.drop_first()));
        assert(files.remove(0) =~= files.drop_first());
        assert(spec_classified(p, files.drop_first()).to_multiset().add(head.to_multiset())
            =~= head.to_multiset().add(spec_classified(p, files.drop_first()).to_multiset()));
    } else {
        let head = (match spec_classify_localization(p, files[0]) {
            Some(code) => seq![code],
            None => Seq::<Seq<char>>::empty(),
        });
        lemma_classified_remove(p, files.drop_first(), j - 1);
        assert(files.remove(j).drop_first() =~= files.drop_first().remove(j - 1));
        assert(files.remove(j)[0] == files[0]);
        assert(files.drop_first()[j - 1] == files[j]);
        assert(spec_classified(p, files) == head + spec_classified(p, files.drop_first()));
        assert(spec_classified(p, files.remove(j)) == head + spec_classified(
            p,
            files.drop_first().remove(j - 1),
        ));
        lemma_multiset_commutative(head, spec_classified(p, files.drop_first()));
        lemma_multiset_commutative(head, spec_classified(p, files.drop_first().remove(j - 1)));
    }
}

/// The multiset of classified codes depends only on the multiset of files,
/// not on their order.
pub proof fn lemma_classified_multiset(p: Platform, a: Seq<Seq<char>>, b: Seq<Seq<char>>)
    requires
        a.to_multiset() == b.to_multiset(),
    ensures
        spec_classified(p, a).to_multiset() == spec_classified(p, b).to_multiset(),
    decreases a.len(),
{
    broadcast use group_to_multiset_ensures;

    if a.len() == 0 {
        assert(a.to_multiset().len() == a.len());
        assert(b.to_multiset().len() == b.len());
        assert(b.len() == 0);
        assert(spec_classified(p, a) =~= spec_classified(p, b));
    } else {
        let x = a[0];
        assert(a.to_multiset().contains(x));
        assert(b.to_multiset().contains(x));
        let j = choose|j: int| 0 <= j < b.len() && b[j] == x;
        assert(a.drop_first() =~= a.remove(0));
        lemma_classified_remove(p, a, 0);
        lemma_classified_remove(p, b, j);
        lemma_classified_multiset(p, a.remove(0), b.remove(j));
        let contribution = (match spec_classify_localization(p, x) {
            Some(code) => seq![code],
            None => Seq::<Seq<char>>::empty(),
        });
        assert(spec_classified(p, a).to_multiset() == spec_classified(
            p,
            a.remove(0),
        ).to_multiset().add(contribution.to_multiset()));
        assert(spec_classified(p, b).to_multiset() == spec_classified(
            p,
            b.remove(j),
        ).to_multiset().add(contribution.to_multiset()));
    }
}

/// Insert every element of `v` into an output kept sorted by the natural
/// order; the output holds exactly the elements of `v`.
fn sort_changes(v: Vec<LocalizationChange>) -> (r: Vec<LocalizationChange>)
    ensures
        sorted_by(change_views(r@), code_le_fn()),
        change_views(r@).to_multiset() == change_views(v@).to_multiset(),
{
    broadcast use group_to_multiset_ensures;

    proof {
        lemma_code_le_total_ordering();
    }
    let mut rest = v;
    let mut out: Vec<LocalizationChange> = Vec::new();
    proof {
        assert(change_views(out@) =~= Seq::<Seq<char>>::empty());
    }
    loop
        invariant
            sorted_by(change_views(out@), code_le_fn()),
            change_views(out@).to_multiset().add(change_views(rest@).to_multiset())
                == change_views(v@).to_multiset(),
            total_ordering(code_le_fn()),
        decreases rest@.len(),
    {
        let ghost prev_rest = rest@;
        let x = match rest.pop() {
            Some(x) => x,
            None => {
                proof {
                    assert(change_views(rest@).len() == 0);
                    vstd::seq_lib::to_multiset_len(change_views(rest@));
                    vstd::multiset::lemma_multiset_empty_len(change_views(rest@).to_multiset());
                    assert(change_views(rest@).to_multiset() =~= Multiset::<Seq<char>>::empty());
                    assert(change_views(out@).to_multiset().add(Multiset::<Seq<char>>::empty())
                        =~= change_views(out@).to_multiset());
                }
                return out;
            },
        };
        proof {
            assert(change_views(prev_rest).drop_last() =~= change_views(rest@));
            assert(change_views(prev_rest) == change_views(rest@).push(x@));
        }
        let pos = sorted_position(&out, &x);
        let ghost prev_out = out@;
        out.insert(pos, x);
        proof {
            assert(change_views(out@) =~= change_views(prev_out).insert(pos as int, x@));
            lemma_insert_sorted(change_views(prev_out), pos as int, x@);
            vstd::seq_lib::to_multiset_insert(change_views(prev_out), pos as int, x@);
            assert(change_views(out@).to_multiset() == change_views(prev_out).to_multiset().insert(
                x@,
            ));
            vstd::seq_lib::to_multiset_build(change_views(rest@), x@);
            assert(change_views(prev_rest).to_multiset() == change_views(
                rest@,
            ).to_multiset().insert(x@));
            assert(change_views(prev_out).to_multiset().insert(x@).add(change_views(
                rest@,
            ).to_multiset()) =~= change_views(prev_out).to_multiset().add(change_views(
                rest@,
            ).to_multiset().insert(x@)));
        }
    }
}

/// The first index of `out` whose element is strictly after `x`; inserting
/// `x` there keeps the sequence sorted.
fn sorted_position(out: &Vec<LocalizationChange>, x: &LocalizationChange) -> (pos: usize)
    requires
        sorted_by(change_views(out@), code_le_fn()),
    ensures
        pos <= out@.len(),
        forall|k: int| 0 <= k < pos ==> code_le(#[trigger] change_views(out@)[k], x@),
        forall|k: int| pos <= k < out@.len() ==> !code_le(#[trigger] change_views(out@)[k], x@),
{
    proof {
        lemma_code_le_total_ordering();
    }
    let mut pos: usize = 0;
    while pos < out.len()
        invariant
            pos <= out@.len(),
            sorted_by(change_views(out@), code_le_fn()),
            total_ordering(code_le_fn()),
            forall|k: int| 0 <= k < pos ==> code_le(#[trigger] change_views(out@)[k], x@),
        decreases out@.len() - pos,
    {
        if !change_le(&out[pos], x) {
            proof {
                let views = change_views(out@);
                assert forall|k: int| pos <= k < views.len() implies !code_le(
                    #[trigger] views[k],
                    x@,
                ) by {
                    if k > pos {
                        assert(code_le_fn()(views[pos as int], views[k]));
                        if code_le(views[k], x@) {
                            lemma_lex_cmp_trans(views[pos as int], views[k], x@);
                        }
                    }
                }
            }
            return pos;
        }
        pos += 1;
    }
    pos
}

proof fn lemma_insert_sorted(s: Seq<Seq<char>>, pos: int, x: Seq<char>)
    requires
        sorted_by(s, code_le_fn()),
        total_ordering(code_le_fn()),
        0 <= pos <= s.len(),
        forall|k: int| 0 <= k < pos ==> code_le(#[trigger] s[k], x),
        forall|k: int| pos <= k < s.len() ==> !code_le(#[trigger] s[k], x),
    ensures
        sorted_by(s.insert(pos, x), code_le_fn()),
{
    let t = s.insert(pos, x);
    assert(t.len() == s.len() + 1);
    assert forall|i: int, j: int| 0 <= i < j < t.len() implies code_le_fn()(t[i], t[j]) by {
        if i < pos && j < pos {
            assert(t[i] == s[i] && t[j] == s[j]);
            assert(code_le_fn()(s[i], s[j]));
        } else if i < pos && j == pos {
            assert(t[i] == s[i] && t[j] == x);
            assert(code_le(s[i], x));
        } else if i < pos && j > pos {
            assert(t[i] == s[i] && t[j] == s[j - 1]);
            if j - 1 == i {
                assert(!code_le(s[i], x));
                assert(false);
            } else {
                assert(code_le_fn()(s[i], s[j - 1]));
            }
        } else if i == pos && j > pos {
            assert(t[i] == x && t[j] == s[j - 1]);
            assert(!code_le(s[j - 1], x));
            assert(code_le_fn()(s[j - 1], x) || code_le_fn()(x, s[j - 1]));
            assert(code_le_fn()(x, s[j - 1]));
        } else {
            assert(i > pos);
            assert(t[i] == s[i - 1] && t[j] == s[j - 1]);
            assert(code_le_fn()(s[i - 1], s[j - 1]));
        }
    }
}

/// Map every changed file of the comparison through the platform's
/// classification, drop the files with no mapping, and return the result
/// sorted ascending by the changes' natural order.
pub fn localization_changes_from_comparison(platform: Platform, comparison: &Comparison) -> (r: Vec<
    LocalizationChange,
>)
    requires
        comparison.files is Some,
    ensures
        sorted_by(change_views(r@), code_le_fn()),
        change_views(r@).to_multiset() == spec_classified(
            platform,
            file_views(comparison.files.unwrap()@),
        ).to_multiset(),
{
    broadcast use group_to_multiset_ensures;

    let files = match &comparison.files {
        Some(f) => f,
        None => {
            proof {
                assert(false);
            }
            unreached()
        },
    };
    let ghost fviews = file_views(files@);
    let mut changes: Vec<LocalizationChange> = Vec::new();
    let mut i: usize = 0;
    proof {
        assert(change_views(changes@) =~= Seq::<Seq<char>>::empty());
        assert(fviews.take(0) =~= Seq::<Seq<char>>::empty());
        assert(spec_classified(platform, fviews.take(0)) =~= Seq::<Seq<char>>::empty());
    }
    while i < files.len()
        invariant
            i <= files@.len(),
            fviews == file_views(files@),
            change_views(changes@) == spec_classified(platform, fviews.take(i as int)),
        decreases files@.len() - i,
    {
        let ghost prev = changes@;
        proof {
            assert(fviews.take(i + 1) =~= fviews.take(i as int).push(fviews[i as int]));
            lemma_classified_push(platform, fviews.take(i as int), fviews[i as int]);
            assert(fviews[i as int] == files@[i as int]@);
        }
        match platform.localization_change(files[i].filename.as_str()) {
            Some(change) => {
                changes.push(change);
                proof {
                    assert(change_views(changes@) =~= change_views(prev).push(changes@.last()@));
                }
            },
            None => {
                proof {
                    assert(change_views(changes@) =~= change_views(prev)
                        + Seq::<Seq<char>>::empty());
                }
            },
        }
        i += 1;
    }
    proof {
        assert(fviews.take(files@.len() as int) =~= fviews);
    }
    sort_changes(changes)
}

/// Law: localization extraction is deterministic. Two file lists holding the
/// same files in any order yield, through classification and sorting, the
/// same sequence of change codes.
pub proof fn lemma_extraction_order_independent(
    platform: Platform,
    files1: Seq<Seq<char>>,
    files2: Seq<Seq<char>>,
    r1: Seq<Seq<char>>,
    r2: Seq<Seq<char>>,
)
    requires
        files1.to_multiset() == files2.to_multiset(),
        sorted_by(r1, code_le_fn()),
        r1.to_multiset() == spec_classified(platform, files1).to_multiset(),
        sorted_by(r2, code_le_fn()),
        r2.to_multiset() == spec_classified(platform, files2).to_multiset(),
    ensures
        r1 == r2,
{
    lemma_classified_multiset(platform, files1, files2);
    lemma_code_le_total_ordering();
    lemma_sorted_unique(r1, r2, code_le_fn());
}

} // verus!
