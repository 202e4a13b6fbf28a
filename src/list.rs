//! Ranked result lists, and the assembly that every backend funnels its raw
//! candidates through: self-exclusion, then a stable sort by descending score.
use vstd::prelude::*;

use vstd::set_lib::{lemma_int_range, lemma_len_subset, set_int_range};
use vstd::std_specs::cmp::PartialEqSpec;

use crate::score::Score;
use crate::types::Recommendation;

verus! {

/// Every score ranks at least as high as the scores after it.
pub open spec fn is_ranked<K>(s: Seq<Recommendation<K>>) -> bool {
    forall|i: int, j: int| 0 <= i < j < s.len() ==> s[i].score.rank() >= s[j].score.rank()
}

/// `p` sends each position of `out` to the position of `input` that it holds:
/// `out` is `input` reordered, and items of equal rank keep their input order.
pub open spec fn is_stable_reordering<K>(
    input: Seq<Recommendation<K>>,
    out: Seq<Recommendation<K>>,
    p: Seq<int>,
) -> bool {
    &&& p.len() == out.len() == input.len()
    &&& forall|t: int| 0 <= t < p.len() ==> 0 <= #[trigger] p[t] < input.len() && out[t] == input[p[t]]
    &&& forall|t: int, u: int| 0 <= t < u < p.len() ==> p[t] != p[u]
    &&& forall|t: int, u: int|
        0 <= t < u < p.len() && out[t].score.rank() == out[u].score.rank() ==> p[t] < p[u]
}

/// `out` is `input` sorted by descending score, ties kept in input order.
pub open spec fn is_stable_ranking<K>(input: Seq<Recommendation<K>>, out: Seq<Recommendation<K>>) -> bool {
    &&& is_ranked(out)
    &&& exists|p: Seq<int>| is_stable_reordering(input, out, p)
}

/// Holds of a candidate whose id differs from the subject's.
pub open spec fn differs_from<K: PartialEq>(subject: K) -> spec_fn(Recommendation<K>) -> bool {
    |r: Recommendation<K>| !r.item_id.eq_spec(&subject)
}

/// The stable ranking of `input`: it exists and is unique (see
/// `lemma_stable_ranking_unique`), so `new_with_sort` computes exactly this.
pub open spec fn stable_ranking_of<K>(input: Seq<Recommendation<K>>) -> Seq<Recommendation<K>> {
    choose|out: Seq<Recommendation<K>>| is_stable_ranking(input, out)
}

/// The candidates whose id differs from the subject's, in their order.
pub open spec fn others<K: PartialEq>(s: Seq<Recommendation<K>>, subject: K) -> Seq<Recommendation<K>> {
    s.filter(differs_from(subject))
}

/// The recommendations that a sequence of `(id, score)` pairs converts to.
pub open spec fn from_pairs<K>(s: Seq<(K, Score)>) -> Seq<Recommendation<K>> {
    s.map_values(|p: (K, Score)| Recommendation { item_id: p.0, score: p.1 })
}

/// No entry of `s` carries the subject's id.
pub open spec fn excludes<K: PartialEq>(s: Seq<Recommendation<K>>, subject: K) -> bool {
    forall|i: int| 0 <= i < s.len() ==> !(#[trigger] s[i]).item_id.eq_spec(&subject)
}

/// `out` is the first `n` entries (or all, if fewer) of the stable ranking of `input`.
pub open spec fn is_top_ranked<K>(input: Seq<Recommendation<K>>, out: Seq<Recommendation<K>>, n: int) -> bool {
    exists|full: Seq<Recommendation<K>>|
        is_stable_ranking(input, full) && out == full.take(if n < full.len() { n } else { full.len() as int })
}

/// Input position `i` comes before input position `j` in a stable ranking:
/// it scores higher, or the same and stands earlier.
pub open spec fn precedes<K>(input: Seq<Recommendation<K>>, i: int, j: int) -> bool {
    input[i].score.rank() > input[j].score.rank() || (input[i].score.rank() == input[j].score.rank() && i < j)
}

/// Every input position is the source of some position of the reordering.
proof fn lemma_reordering_covers<K>(
    input: Seq<Recommendation<K>>,
    out: Seq<Recommendation<K>>,
    p: Seq<int>,
    j: int,
)
    requires
        is_stable_reordering(input, out, p),
        0 <= j < input.len(),
    ensures
        exists|t: int| 0 <= t < p.len() && p[t] == j,
{
    let n = input.len() as int;
    assert(p.no_duplicates()) by {
        assert forall|t: int, u: int| 0 <= t < p.len() && 0 <= u < p.len() && t != u implies p[t] != p[u] by {
            if u < t {
                assert(p[u] != p[t]);
            }
        };
    };
    p.unique_seq_to_set();
    if !(exists|t: int| 0 <= t < p.len() && p[t] == j) {
        let rest = set_int_range(0, n).remove(j);
        lemma_int_range(0, n);
        assert(set_int_range(0, n).contains(j));
        assert(rest.len() == n - 1);
        assert forall|x: int| p.to_set().contains(x) implies rest.contains(x) by {
            let t = choose|t: int| 0 <= t < p.len() && p[t] == x;
        };
        lemma_len_subset(p.to_set(), rest);
    }
}

/// Positions `t < u` of a stable ranking come from input positions in the
/// ranking's order.
proof fn lemma_reordering_follows_precedence<K>(
    input: Seq<Recommendation<K>>,
    out: Seq<Recommendation<K>>,
    p: Seq<int>,
    t: int,
    u: int,
)
    requires
        is_ranked(out),
        is_stable_reordering(input, out, p),
        0 <= t < u < p.len(),
    ensures
        precedes(input, p[t], p[u]),
{
    assert(out[t] == input[p[t]] && out[u] == input[p[u]]);
}

/// The first `t` positions of two stable rankings of one input come from the
/// same input positions.
proof fn lemma_rankings_agree_before<K>(
    input: Seq<Recommendation<K>>,
    a: Seq<Recommendation<K>>,
    b: Seq<Recommendation<K>>,
    p: Seq<int>,
    q: Seq<int>,
    t: int,
)
    requires
        is_ranked(a),
        is_ranked(b),
        is_stable_reordering(input, a, p),
        is_stable_reordering(input, b, q),
        0 <= t <= input.len(),
    ensures
        forall|s: int| 0 <= s < t ==> p[s] == q[s],
    decreases t,
{
    if t > 0 {
        let k = t - 1;
        lemma_rankings_agree_before(input, a, b, p, q, k);
        if p[k] != q[k] {
            lemma_reordering_covers(input, b, q, p[k]);
            let u = choose|u: int| 0 <= u < q.len() && q[u] == p[k];
            if u < k {
                assert(p[u] == q[u]);
                assert(p[u] != p[k]);
            }
            lemma_reordering_follows_precedence(input, b, q, k, u);
            lemma_reordering_covers(input, a, p, q[k]);
            let v = choose|v: int| 0 <= v < p.len() && p[v] == q[k];
            if v < k {
                assert(q[v] == p[v]);
                assert(q[v] != q[k]);
            }
            lemma_reordering_follows_precedence(input, a, p, k, v);
        }
    }
}

/// A stable ranking is unique: two lists that each hold the input sorted by
/// descending score, ties in input order, are the same list.
pub proof fn lemma_stable_ranking_unique<K>(input: Seq<Recommendation<K>>, a: Seq<Recommendation<K>>, b: Seq<Recommendation<K>>)
    requires
        is_stable_ranking(input, a),
        is_stable_ranking(input, b),
    ensures
        a == b,
{
    let p = choose|p: Seq<int>| is_stable_reordering(input, a, p);
    let q = choose|q: Seq<int>| is_stable_reordering(input, b, q);
    lemma_rankings_agree_before(input, a, b, p, q, input.len() as int);
    assert forall|t: int| 0 <= t < a.len() implies a[t] == b[t] by {
        assert(a[t] == input[p[t]] && b[t] == input[q[t]]);
    };
    assert(a =~= b);
}

/// A subject that is the only item of its index gets an empty list: every
/// candidate that such an index can return carries the subject's own id.
pub proof fn lemma_sole_item_yields_nothing<K: PartialEq>(
    candidates: Seq<Recommendation<K>>,
    subject: K,
    n: int,
    out: Seq<Recommendation<K>>,
)
    requires
        forall|i: int| 0 <= i < candidates.len() ==> (#[trigger] candidates[i]).item_id.eq_spec(&subject),
        0 <= n,
        is_top_ranked(others(candidates, subject), out, n),
    ensures
        out.len() == 0,
{
    let kept = others(candidates, subject);
    if kept.len() > 0 {
        candidates.lemma_filter_pred(differs_from(subject), 0);
        assert(kept.contains(kept[0]));
        candidates.lemma_filter_contains_rev(differs_from(subject), kept[0]);
        let i = choose|i: int| 0 <= i < candidates.len() && candidates[i] == kept[0];
        assert(candidates[i].item_id.eq_spec(&subject));
    }
    let full = choose|full: Seq<Recommendation<K>>|
        is_stable_ranking(kept, full) && out == full.take(if n < full.len() { n } else { full.len() as int });
    let p = choose|p: Seq<int>| is_stable_reordering(kept, full, p);
    assert(full.len() == 0);
}

/// What has been placed so far by the insertion sort: the items of `input`
/// from position `k` on, ranked, each traced back to its position by `p`.
spec fn is_partial_ranking<K>(
    input: Seq<Recommendation<K>>,
    out: Seq<Recommendation<K>>,
    p: Seq<int>,
    k: int,
) -> bool {
    &&& 0 <= k <= input.len()
    &&& is_ranked(out)
    &&& p.len() == out.len() == input.len() - k
    &&& forall|t: int| 0 <= t < p.len() ==> k <= #[trigger] p[t] < input.len() && out[t] == input[p[t]]
    &&& forall|t: int, u: int| 0 <= t < u < p.len() ==> p[t] != p[u]
    &&& forall|t: int, u: int|
        0 <= t < u < p.len() && out[t].score.rank() == out[u].score.rank() ==> p[t] < p[u]
}

/// The items of `v` in reverse order.
pub(crate) fn reversed<T>(v: Vec<T>) -> (r: Vec<T>)
    ensures
        r@.len() == v@.len(),
        forall|i: int| 0 <= i < v@.len() ==> #[trigger] r@[i] == v@[v@.len() - 1 - i],
{
    let ghost input = v@;
    let mut rest = v;
    let mut out: Vec<T> = Vec::new();
    while rest.len() > 0
        invariant
            rest@ == input.take(rest.len() as int),
            out@.len() + rest@.len() == input.len(),
            forall|i: int| 0 <= i < out@.len() ==> #[trigger] out@[i] == input[input.len() - 1 - i],
        decreases rest.len(),
    {
        let x = rest.pop().unwrap();
        out.push(x);
        assert(rest@ =~= input.take(rest.len() as int));
    }
    out
}

/// Moves the candidates whose id differs from `subject` into a new vector.
fn without_subject<K: PartialEq>(subject: &K, recs: Vec<Recommendation<K>>) -> (r: Vec<Recommendation<K>>)
    ensures
        <K as PartialEqSpec>::obeys_eq_spec() ==> r@ == others(recs@, *subject),
{
    let ghost input = recs@;
    let mut rest = reversed(recs);
    let mut kept: Vec<Recommendation<K>> = Vec::new();
    while rest.len() > 0
        invariant
            rest@.len() <= input.len(),
            forall|i: int| 0 <= i < rest@.len() ==> #[trigger] rest@[i] == input[input.len() - 1 - i],
            <K as PartialEqSpec>::obeys_eq_spec() ==>
                kept@ == others(input.take(input.len() - rest@.len()), *subject),
        decreases rest.len(),
    {
        let ghost done = input.len() - rest@.len();
        let x = rest.pop().unwrap();
        proof {
            assert(input.take(done + 1) =~= input.take(done).push(x));
            input.take(done).lemma_filter_push(x, differs_from(*subject));
        }
        if !x.item_id.eq(subject) {
            kept.push(x);
        }
    }
    assert(input.take(input.len() as int) =~= input);
    kept
}

/// A ranked list of recommendations.
#[derive(Debug)]
pub struct RecommendationList<K>(pub Vec<Recommendation<K>>);

impl<K> RecommendationList<K> {
    /// Sorts the recommendations by descending score; ties keep their order.
    pub fn new_with_sort(recs: Vec<Recommendation<K>>) -> (r: Self)
        ensures
            is_stable_ranking(recs@, r.0@),
            r.0@ == stable_ranking_of(recs@),
    {
        let ghost input = recs@;
        let mut rest = recs;
        let mut out: Vec<Recommendation<K>> = Vec::new();
        let ghost mut p: Seq<int> = Seq::empty();
        while rest.len() > 0
            invariant
                rest@ == input.take(rest.len() as int),
                is_partial_ranking(input, out@, p, rest.len() as int),
            decreases rest.len(),
        {
            let ghost k = rest.len() - 1;
            let x = rest.pop().unwrap();
            assert(x == input[k]);
            let key = x.score.rank_key();
            let mut pos: usize = 0;
            while pos < out.len()
                invariant
                    pos <= out.len(),
                    key == x.score.rank(),
                    forall|t: int| 0 <= t < pos ==> (#[trigger] out@[t]).score.rank() > x.score.rank(),
                ensures
                    pos <= out.len(),
                    pos < out.len() ==> out@[pos as int].score.rank() <= x.score.rank(),
                    forall|t: int| 0 <= t < pos ==> (#[trigger] out@[t]).score.rank() > x.score.rank(),
                decreases out.len() - pos,
            {
                if out[pos].score.rank_key() <= key {
                    break;
                }
                pos = pos + 1;
            }
            let ghost old_out = out@;
            let ghost old_p = p;
            out.insert(pos, x);
            proof {
                p = p.insert(pos as int, k);
                assert(rest@ =~= input.take(rest.len() as int));
                assert forall|t: int, u: int| 0 <= t < u < out@.len() implies
                    out@[t].score.rank() >= out@[u].score.rank() by {
                    if t < pos && u > pos {
                        assert(out@[u] == old_out[u - 1]);
                    }
                    if t > pos {
                        assert(out@[t] == old_out[t - 1] && out@[u] == old_out[u - 1]);
                    }
                    if u < pos {
                        assert(out@[t] == old_out[t] && out@[u] == old_out[u]);
                    }
                    if t == pos {
                        assert(out@[u] == old_out[u - 1]);
                        assert(old_out[pos as int].score.rank() >= old_out[u - 1].score.rank());
                    }
                    if u == pos {
                        assert(out@[t] == old_out[t]);
                    }
                };
                assert forall|t: int| 0 <= t < p.len() implies k <= #[trigger] p[t] < input.len()
                    && out@[t] == input[p[t]] by {
                    if t > pos {
                        assert(p[t] == old_p[t - 1]);
                    }
                };
                assert forall|t: int, u: int| 0 <= t < u < p.len() implies p[t] != p[u] by {
                    if t < pos && u > pos {
                        assert(p[u] == old_p[u - 1]);
                    }
                    if t > pos {
                        assert(p[t] == old_p[t - 1] && p[u] == old_p[u - 1]);
                    }
                };
                assert forall|t: int, u: int|
                    0 <= t < u < p.len() && out@[t].score.rank() == out@[u].score.rank() implies
                    p[t] < p[u] by {
                    if t < pos && u > pos {
                        assert(out@[u] == old_out[u - 1] && p[u] == old_p[u - 1]);
                    }
                    if t > pos {
                        assert(p[t] == old_p[t - 1] && p[u] == old_p[u - 1]);
                        assert(out@[t] == old_out[t - 1] && out@[u] == old_out[u - 1]);
                    }
                    if u == pos {
                        assert(out@[u] == x);
                    }
                    if t == pos {
                        assert(out@[u] == old_out[u - 1] && p[u] == old_p[u - 1]);
                    }
                };
            }
        }
        assert(is_stable_reordering(input, out@, p));
        proof {
            assert(is_stable_ranking(input, out@));
            lemma_stable_ranking_unique(input, out@, stable_ranking_of(input));
        }
        RecommendationList(out)
    }

    /// Converts `(id, score)` pairs into a list, keeping their order.
    pub fn from_iter(value: Vec<(K, Score)>) -> (r: Self)
        ensures
            r.0@ == from_pairs(value@),
    {
        let ghost input = value@;
        let mut rest = reversed(value);
        let mut out: Vec<Recommendation<K>> = Vec::new();
        while rest.len() > 0
            invariant
                rest@.len() <= input.len(),
                forall|i: int| 0 <= i < rest@.len() ==> #[trigger] rest@[i] == input[input.len() - 1 - i],
                out@ == from_pairs(input.take(input.len() - rest@.len())),
            decreases rest.len(),
        {
            let ghost done = input.len() - rest@.len();
            let pair = rest.pop().unwrap();
            out.push(Recommendation::from(pair));
            assert(out@ =~= from_pairs(input.take(done + 1)));
        }
        assert(input.take(input.len() as int) =~= input);
        RecommendationList(out)
    }

    /// Converts `(id, score)` pairs into a list ranked by descending score.
    pub fn from_iter_with_sort(value: Vec<(K, Score)>) -> (r: Self)
        ensures
            is_stable_ranking(from_pairs(value@), r.0@),
    {
        let unsorted = Self::from_iter(value);
        Self::new_with_sort(unsorted.0)
    }

    /// Drops every candidate that carries the subject's id and ranks the rest.
    pub fn new_with_subject(subject_id: &K, recommendations: Vec<Recommendation<K>>) -> (r: Self)
        where
            K: PartialEq,
        ensures
            <K as PartialEqSpec>::obeys_eq_spec() ==> is_stable_ranking(others(recommendations@, *subject_id), r.0@),
            <K as PartialEqSpec>::obeys_eq_spec() ==> excludes(r.0@, *subject_id),
            is_ranked(r.0@),
    {
        let ghost input = recommendations@;
        let kept = without_subject(subject_id, recommendations);
        let r = Self::new_with_sort(kept);
        proof {
            if <K as PartialEqSpec>::obeys_eq_spec() {
                let p = choose|p: Seq<int>| is_stable_reordering(kept@, r.0@, p);
                assert forall|i: int| 0 <= i < r.0@.len() implies !(#[trigger] r.0@[i]).item_id.eq_spec(subject_id) by {
                    input.lemma_filter_pred(differs_from(*subject_id), p[i]);
                };
            }
        }
        r
    }

    /// The result assembly of every query: drops the subject, ranks the
    /// others by descending score and keeps at most `n_items` of them.
    pub fn assemble(subject_id: &K, candidates: Vec<Recommendation<K>>, n_items: u16) -> (r: Self)
        where
            K: PartialEq,
        ensures
            <K as PartialEqSpec>::obeys_eq_spec() ==> is_top_ranked(others(candidates@, *subject_id), r.0@, n_items as int),
            <K as PartialEqSpec>::obeys_eq_spec() ==> excludes(r.0@, *subject_id),
            is_ranked(r.0@),
            r.0@.len() <= n_items,
    {
        let ghost input = candidates@;
        let mut list = Self::new_with_subject(subject_id, candidates);
        let ghost full = list.0@;
        list.0.truncate(n_items as usize);
        proof {
            if n_items < full.len() {
                assert(list.0@ =~= full.take(n_items as int));
            } else {
                assert(list.0@ =~= full.take(full.len() as int));
            }
        }
        list
    }

    /// How many neighbours to ask an index for so that `n_items` remain once
    /// the subject, which an index returns as its own nearest neighbour, is
    /// dropped.
    pub fn candidate_count(n_items: u16) -> (r: usize)
        ensures
            r == n_items + 1,
    {
        n_items as usize + 1
    }

    /// The number of recommendations in the list.
    pub fn len(&self) -> (r: usize)
        ensures
            r == self.0@.len(),
    {
        self.0.len()
    }
}

impl<K> From<RecommendationList<K>> for Vec<Recommendation<K>> {
    fn from(value: RecommendationList<K>) -> (r: Self) {
        value.0
    }
}

impl<K> vstd::std_specs::convert::FromSpecImpl<RecommendationList<K>> for Vec<Recommendation<K>> {
    open spec fn obeys_from_spec() -> bool {
        true
    }

    open spec fn from_spec(v: RecommendationList<K>) -> Self {
        v.0
    }
}

} // verus!
