use vstd::prelude::*;

use super::score::{ranks_above, ranks_level, score_above, Score};
use super::scoring::ScoredRecommendation;

verus! {

/// `s` with `r` inserted before the first entry that scores strictly lower than `r`
/// (after every entry that scores at least as high).
pub open spec fn insert_ranked(s: Seq<ScoredRecommendation>, r: ScoredRecommendation) -> Seq<
    ScoredRecommendation,
>
    decreases s.len(),
{
    if s.len() == 0 {
        seq![r]
    } else if ranks_above(r.score, s[0].score) {
        seq![r] + s
    } else {
        seq![s[0]] + insert_ranked(s.drop_first(), r)
    }
}

/// The candidates in decreasing order of score; candidates of equal score keep their
/// order (a stable sort).
pub open spec fn ranked(c: Seq<ScoredRecommendation>) -> Seq<ScoredRecommendation>
    decreases c.len(),
{
    if c.len() == 0 {
        Seq::empty()
    } else {
        insert_ranked(ranked(c.drop_last()), c.last())
    }
}

proof fn lemma_insert_ranked_at(s: Seq<ScoredRecommendation>, r: ScoredRecommendation, pos: int)
    requires
        0 <= pos <= s.len(),
        forall|k: int| 0 <= k < pos ==> !ranks_above(r.score, #[trigger] s[k].score),
        pos < s.len() ==> ranks_above(r.score, s[pos].score),
    ensures
        insert_ranked(s, r) == s.take(pos).push(r) + s.skip(pos),
    decreases s.len(),
{
    if s.len() == 0 {
        assert(s.take(pos).push(r) + s.skip(pos) =~= seq![r]);
    } else if pos == 0 {
        assert(s.take(pos).push(r) + s.skip(pos) =~= seq![r] + s);
    } else {
        let t = s.drop_first();
        assert forall|k: int| 0 <= k < pos - 1 implies !ranks_above(r.score, #[trigger] t[k].score) by {
            assert(t[k] == s[k + 1]);
        }
        if pos - 1 < t.len() {
            assert(t[pos - 1] == s[pos]);
        }
        lemma_insert_ranked_at(t, r, pos - 1);
        assert(s.take(pos).push(r) + s.skip(pos) =~= seq![s[0]] + (t.take(pos - 1).push(r) + t.skip(
            pos - 1,
        )));
    }
}

/// Sorts the candidates by decreasing score, keeping the order of equal scores.
pub fn rank(candidates: &Vec<ScoredRecommendation>) -> (r: Vec<ScoredRecommendation>)
    ensures
        r@ == ranked(candidates@),
{
    let mut out: Vec<ScoredRecommendation> = Vec::new();
    let mut i: usize = 0;
    while i < candidates.len()
        invariant
            i <= candidates@.len(),
            out@ == ranked(candidates@.take(i as int)),
        decreases candidates@.len() - i,
    {
        let c = candidates[i];
        let ghost before = out@;
        let mut pos: usize = 0;
        while pos < out.len() && !score_above(&c.score, &out[pos].score)
            invariant
                pos <= out@.len(),
                out@ == before,
                forall|k: int| 0 <= k < pos ==> !ranks_above(c.score, #[trigger] out@[k].score),
            decreases out@.len() - pos,
        {
            pos = pos + 1;
        }
        proof {
            lemma_insert_ranked_at(before, c, pos as int);
            assert(candidates@.take(i + 1).drop_last() =~= candidates@.take(i as int));
            assert(candidates@.take(i + 1).last() == c);
        }
        out.insert(pos, c);
        assert(out@ =~= before.take(pos as int).push(c) + before.skip(pos as int));
        i = i + 1;
    }
    assert(candidates@.take(candidates@.len() as int) =~= candidates@);
    out
}

/// The position at which `insert_ranked` puts `r`: the first entry scoring strictly
/// lower than `r`, or the end.
pub open spec fn insert_pos(s: Seq<ScoredRecommendation>, r: ScoredRecommendation) -> nat
    decreases s.len(),
{
    if s.len() == 0 {
        0
    } else if ranks_above(r.score, s[0].score) {
        0
    } else {
        1 + insert_pos(s.drop_first(), r)
    }
}

/// Scores never increase along `s`.
pub open spec fn sorted_by_score(s: Seq<ScoredRecommendation>) -> bool {
    forall|i: int, j: int| 0 <= i < j < s.len() ==> !ranks_above(s[j].score, s[i].score)
}

/// Every score of `s` has a positive denominator.
pub open spec fn positive_scores(s: Seq<ScoredRecommendation>) -> bool {
    forall|i: int| 0 <= i < s.len() ==> #[trigger] s[i].score.denominator > 0
}

/// No product occurs twice in `s`.
pub open spec fn distinct_products(s: Seq<ScoredRecommendation>) -> bool {
    forall|i: int, j: int| 0 <= i < j < s.len() ==> s[i].product_id != s[j].product_id
}

proof fn lemma_insert_pos(s: Seq<ScoredRecommendation>, r: ScoredRecommendation)
    ensures
        insert_pos(s, r) <= s.len(),
        forall|k: int| 0 <= k < insert_pos(s, r) ==> !ranks_above(r.score, #[trigger] s[k].score),
        insert_pos(s, r) < s.len() ==> ranks_above(r.score, s[insert_pos(s, r) as int].score),
        insert_ranked(s, r) == s.take(insert_pos(s, r) as int).push(r) + s.skip(
            insert_pos(s, r) as int,
        ),
    decreases s.len(),
{
    if s.len() > 0 && !ranks_above(r.score, s[0].score) {
        let t = s.drop_first();
        lemma_insert_pos(t, r);
        assert forall|k: int| 0 <= k < insert_pos(s, r) implies !ranks_above(
            r.score,
            #[trigger] s[k].score,
        ) by {
            if k > 0 {
                assert(s[k] == t[k - 1]);
            }
        }
        if insert_pos(s, r) < s.len() {
            assert(s[insert_pos(s, r) as int] == t[insert_pos(t, r) as int]);
        }
    }
    lemma_insert_ranked_at(s, r, insert_pos(s, r) as int);
}

proof fn lemma_above_then_at_least(a: Score, b: Score, c: Score)
    requires
        a.denominator > 0,
        b.denominator > 0,
        c.denominator > 0,
        ranks_above(a, b),
        !ranks_above(c, b),
    ensures
        ranks_above(a, c),
{
    let (an, ad, bn, bd, cn, cd) = (
        a.numerator as int,
        a.denominator as int,
        b.numerator as int,
        b.denominator as int,
        c.numerator as int,
        c.denominator as int,
    );
    assert(an * cd > cn * ad) by (nonlinear_arith)
        requires
            ad > 0,
            bd > 0,
            cd > 0,
            an * bd > bn * ad,
            bn * cd >= cn * bd,
    {
        assert(an * bd * cd > bn * ad * cd);
        assert(bn * cd * ad >= cn * bd * ad);
        assert(an * cd * bd > cn * ad * bd);
    }
}

proof fn lemma_insert_shape(s: Seq<ScoredRecommendation>, x: ScoredRecommendation)
    ensures
        insert_ranked(s, x).len() == s.len() + 1,
        forall|k: int|
            0 <= k < insert_ranked(s, x).len() ==> #[trigger] insert_ranked(s, x)[k] == (if k
                < insert_pos(s, x) {
                s[k]
            } else if k == insert_pos(s, x) {
                x
            } else {
                s[k - 1]
            }),
{
    lemma_insert_pos(s, x);
}

proof fn lemma_insert_above_tail(s: Seq<ScoredRecommendation>, x: ScoredRecommendation, k: int)
    requires
        sorted_by_score(s),
        positive_scores(s),
        x.score.denominator > 0,
        insert_pos(s, x) <= k < s.len(),
    ensures
        ranks_above(x.score, s[k].score),
{
    lemma_insert_pos(s, x);
    let p = insert_pos(s, x) as int;
    assert(s[p].score.denominator > 0 && s[k].score.denominator > 0);
    if k > p {
        assert(!ranks_above(s[k].score, s[p].score));
        lemma_above_then_at_least(x.score, s[p].score, s[k].score);
    }
}

pub(crate) proof fn lemma_ranked_permutes(c: Seq<ScoredRecommendation>)
    ensures
        ranked(c).len() == c.len(),
        forall|i: int|
            #![trigger ranked(c)[i]]
            0 <= i < c.len() ==> exists|a: int| 0 <= a < c.len() && c[a] == ranked(c)[i],
        forall|a: int|
            #![trigger c[a]]
            0 <= a < c.len() ==> exists|i: int| 0 <= i < c.len() && c[a] == ranked(c)[i],
    decreases c.len(),
{
    if c.len() > 0 {
        let cp = c.drop_last();
        let x = c.last();
        lemma_ranked_permutes(cp);
        let s = ranked(cp);
        lemma_insert_pos(s, x);
        lemma_insert_shape(s, x);
        let p = insert_pos(s, x) as int;
        let out = ranked(c);
        let n = c.len() - 1;
        assert(c[n] == x);
        assert forall|i: int| #![trigger out[i]] 0 <= i < c.len() implies exists|a: int|
            0 <= a < c.len() && c[a] == out[i] by {
            if i == p {
                assert(c[n] == out[i]);
            } else {
                let k = if i < p {
                    i
                } else {
                    i - 1
                };
                assert(s[k] == out[i]);
                let a = choose|a: int| 0 <= a < cp.len() && cp[a] == s[k];
                assert(c[a] == cp[a]);
            }
        }
        assert forall|a: int| #![trigger c[a]] 0 <= a < c.len() implies exists|i: int|
            0 <= i < c.len() && c[a] == out[i] by {
            if a == n {
                assert(out[p] == c[a]);
            } else {
                assert(cp[a] == c[a]);
                let k = choose|k: int| 0 <= k < cp.len() && cp[a] == s[k];
                if k < p {
                    assert(out[k] == c[a]);
                } else {
                    assert(out[k + 1] == c[a]);
                }
            }
        }
    }
}

pub(crate) proof fn lemma_ranked_from(c: Seq<ScoredRecommendation>)
    ensures
        ranked(c).len() == c.len(),
        forall|i: int|
            #![trigger ranked(c)[i]]
            0 <= i < c.len() ==> exists|a: int| 0 <= a < c.len() && c[a] == ranked(c)[i],
    decreases c.len(),
{
    if c.len() > 0 {
        let cp = c.drop_last();
        let x = c.last();
        lemma_ranked_from(cp);
        let s = ranked(cp);
        lemma_insert_pos(s, x);
        lemma_insert_shape(s, x);
        let p = insert_pos(s, x) as int;
        let out = ranked(c);
        let n = c.len() - 1;
        assert(c[n] == x);
        assert forall|i: int| #![trigger out[i]] 0 <= i < c.len() implies exists|a: int|
            0 <= a < c.len() && c[a] == out[i] by {
            if i == p {
                assert(c[n] == out[i]);
            } else {
                let k = if i < p {
                    i
                } else {
                    i - 1
                };
                assert(s[k] == out[i]);
                let a = choose|a: int| 0 <= a < cp.len() && cp[a] == s[k];
                assert(c[a] == cp[a]);
            }
        }
    }
}

proof fn lemma_ranked_positive(c: Seq<ScoredRecommendation>)
    requires
        positive_scores(c),
    ensures
        positive_scores(ranked(c)),
{
    lemma_ranked_permutes(c);
    assert forall|k: int| 0 <= k < ranked(c).len() implies #[trigger] ranked(c)[k].score.denominator
        > 0 by {
        let a = choose|a: int| 0 <= a < c.len() && c[a] == ranked(c)[k];
    }
}

pub(crate) proof fn lemma_ranked_sorted(c: Seq<ScoredRecommendation>)
    requires
        positive_scores(c),
    ensures
        sorted_by_score(ranked(c)),
    decreases c.len(),
{
    if c.len() > 0 {
        let cp = c.drop_last();
        let x = c.last();
        assert(positive_scores(cp));
        lemma_ranked_sorted(cp);
        lemma_ranked_positive(cp);
        let s = ranked(cp);
        lemma_insert_pos(s, x);
        lemma_insert_shape(s, x);
        let p = insert_pos(s, x) as int;
        let out = ranked(c);
        assert(x.score.denominator > 0);
        assert forall|i: int, j: int| 0 <= i < j < out.len() implies !ranks_above(
            out[j].score,
            out[i].score,
        ) by {
            if j < p {
                assert(out[i] == s[i] && out[j] == s[j]);
            } else if j == p {
                assert(out[i] == s[i] && out[j] == x);
                assert(!ranks_above(x.score, s[i].score));
            } else if i == p {
                assert(out[i] == x && out[j] == s[j - 1]);
                lemma_insert_above_tail(s, x, j - 1);
            } else if i < p {
                assert(out[i] == s[i] && out[j] == s[j - 1]);
            } else {
                assert(out[i] == s[i - 1] && out[j] == s[j - 1]);
            }
        }
    }
}

proof fn lemma_ranked_stable(c: Seq<ScoredRecommendation>)
    requires
        positive_scores(c),
    ensures
        forall|i: int, j: int|
            0 <= i < j < c.len() && ranks_level(ranked(c)[i].score, ranked(c)[j].score) ==> exists|
                a: int,
                b: int,
            | 0 <= a < b < c.len() && c[a] == ranked(c)[i] && c[b] == ranked(c)[j],
    decreases c.len(),
{
    if c.len() > 0 {
        let cp = c.drop_last();
        let x = c.last();
        assert(positive_scores(cp));
        lemma_ranked_stable(cp);
        lemma_ranked_sorted(cp);
        lemma_ranked_positive(cp);
        lemma_ranked_from(cp);
        let s = ranked(cp);
        lemma_insert_pos(s, x);
        lemma_insert_shape(s, x);
        let p = insert_pos(s, x) as int;
        let out = ranked(c);
        let n = c.len() - 1;
        assert(c[n] == x);
        assert(x.score.denominator > 0);
        assert forall|i: int, j: int|
            0 <= i < j < c.len() && ranks_level(out[i].score, out[j].score) implies exists|
                a: int,
                b: int,
            | 0 <= a < b < c.len() && c[a] == out[i] && c[b] == out[j] by {
            if j == p {
                assert(s[i] == out[i]);
                let a = choose|a: int| 0 <= a < cp.len() && cp[a] == s[i];
                assert(c[a] == cp[a]);
                assert(c[n] == out[j]);
            } else if i == p {
                assert(out[i] == x && out[j] == s[j - 1]);
                lemma_insert_above_tail(s, x, j - 1);
            } else {
                let ii = if i < p {
                    i
                } else {
                    i - 1
                };
                let jj = if j < p {
                    j
                } else {
                    j - 1
                };
                assert(out[i] == s[ii] && out[j] == s[jj]);
                let (a, b) = choose|a: int, b: int|
                    0 <= a < b < cp.len() && cp[a] == s[ii] && cp[b] == s[jj];
                assert(c[a] == cp[a] && c[b] == cp[b]);
            }
        }
    }
}

/// Ranking reorders the candidates without losing or adding any; it sorts them by
/// decreasing score; and two candidates of equal score keep the order they had.
pub proof fn ranked_is_stable_sort(c: Seq<ScoredRecommendation>)
    requires
        positive_scores(c),
    ensures
        ranked(c).len() == c.len(),
        forall|i: int|
            #![trigger ranked(c)[i]]
            0 <= i < c.len() ==> exists|a: int| 0 <= a < c.len() && c[a] == ranked(c)[i],
        forall|a: int|
            #![trigger c[a]]
            0 <= a < c.len() ==> exists|i: int| 0 <= i < c.len() && c[a] == ranked(c)[i],
        sorted_by_score(ranked(c)),
        forall|i: int, j: int|
            0 <= i < j < c.len() && ranks_level(ranked(c)[i].score, ranked(c)[j].score) ==> exists|
                a: int,
                b: int,
            | 0 <= a < b < c.len() && c[a] == ranked(c)[i] && c[b] == ranked(c)[j],
{
    lemma_ranked_permutes(c);
    lemma_ranked_sorted(c);
    lemma_ranked_stable(c);
}

} // verus!
