//! What the recommendations guarantee: each product once, nothing excluded, best
//! scores first, each one found by the search at its distance, and no reachable
//! product left out unless the list is full.
use vstd::prelude::*;

use crate::graph::algorithms::{bfs_result, lists_vertex, within};
use crate::graph::laws::{
    bfs_depth_is_distance, bfs_reports_everything_within_depth,
};
use crate::graph::{BfsStep, GraphView, VertexKind};
use crate::models::ProductId;

use super::engine::{
    candidates, lists_product, recommendations, step_edge_type, step_product, step_weight,
};
use super::ranking::{
    distinct_products, lemma_ranked_from, lemma_ranked_permutes, lemma_ranked_sorted, positive_scores,
    ranked, ranked_is_stable_sort, sorted_by_score,
};
use super::score::ranks_above;
use super::scoring::{score_of, ScoredRecommendation};

verus! {

proof fn lemma_candidates(g: GraphView, steps: Seq<BfsStep>, excluded: Set<u64>)
    ensures
        distinct_products(candidates(g, steps, excluded)),
        positive_scores(candidates(g, steps, excluded)),
        forall|i: int|
            #![trigger candidates(g, steps, excluded)[i]]
            0 <= i < candidates(g, steps, excluded).len() ==> {
                let c = candidates(g, steps, excluded)[i];
                &&& !excluded.contains(c.product_id.0)
                &&& exists|k: int|
                    0 <= k < steps.len() && #[trigger] step_product(g, steps[k]) == Some(
                        c.product_id,
                    ) && c.depth == steps[k].depth && c.score == score_of(
                        step_weight(steps[k]),
                        step_edge_type(steps[k]),
                        steps[k].depth,
                    )
            },
        forall|k: int|
            0 <= k < steps.len() && (#[trigger] step_product(g, steps[k])) is Some
                && !excluded.contains((step_product(g, steps[k])->0).0) ==> lists_product(
                candidates(g, steps, excluded),
                step_product(g, steps[k])->0,
            ),
    decreases steps.len(),
{
    let c = candidates(g, steps, excluded);
    if steps.len() > 0 {
        let sp = steps.drop_last();
        let st = steps.last();
        lemma_candidates(g, sp, excluded);
        let prev = candidates(g, sp, excluded);
        let n = steps.len() - 1;
        assert(steps[n] == st);
        assert forall|k: int| 0 <= k < sp.len() implies #[trigger] steps[k] == sp[k] by {}
        assert forall|i: int| 0 <= i < prev.len() implies #[trigger] c[i] == prev[i] by {}
        assert forall|i: int|
            #![trigger c[i]]
            0 <= i < c.len() implies {
            &&& !excluded.contains(c[i].product_id.0)
            &&& exists|k: int|
                0 <= k < steps.len() && #[trigger] step_product(g, steps[k]) == Some(c[i].product_id)
                    && c[i].depth == steps[k].depth && c[i].score == score_of(
                    step_weight(steps[k]),
                    step_edge_type(steps[k]),
                    steps[k].depth,
                )
        } by {
            if i < prev.len() {
                let k = choose|k: int|
                    0 <= k < sp.len() && #[trigger] step_product(g, sp[k]) == Some(prev[i].product_id)
                        && prev[i].depth == sp[k].depth && prev[i].score == score_of(
                        step_weight(sp[k]),
                        step_edge_type(sp[k]),
                        sp[k].depth,
                    );
                assert(steps[k] == sp[k]);
            } else {
                assert(step_product(g, steps[n]) == Some(c[i].product_id));
            }
        }
        assert forall|i: int, j: int| 0 <= i < j < c.len() implies c[i].product_id != c[j].product_id by {
            if j >= prev.len() {
                if c[i].product_id == c[j].product_id {
                    assert(lists_product(prev, c[j].product_id));
                }
            }
        }
        assert forall|k: int|
            0 <= k < steps.len() && (#[trigger] step_product(g, steps[k])) is Some
                && !excluded.contains((step_product(g, steps[k])->0).0) implies lists_product(
            c,
            step_product(g, steps[k])->0,
        ) by {
            let p = step_product(g, steps[k])->0;
            if k < n {
                assert(step_product(g, sp[k]) == step_product(g, steps[k]));
                assert(lists_product(prev, p));
                let i = choose|i: int| 0 <= i < prev.len() && #[trigger] prev[i].product_id == p;
                assert(c[i] == prev[i]);
            } else {
                if lists_product(prev, p) {
                    let i = choose|i: int| 0 <= i < prev.len() && #[trigger] prev[i].product_id == p;
                    assert(c[i] == prev[i]);
                } else {
                    assert(c[prev.len() as int].product_id == p);
                }
            }
        }
    }
}

proof fn lemma_in_ranked(c: Seq<ScoredRecommendation>, p: ProductId)
    requires
        positive_scores(c),
        lists_product(c, p),
    ensures
        lists_product(ranked(c), p),
{
    ranked_is_stable_sort(c);
    let a = choose|a: int| 0 <= a < c.len() && #[trigger] c[a].product_id == p;
    let i = choose|i: int| 0 <= i < c.len() && c[a] == ranked(c)[i];
    assert(ranked(c)[i].product_id == p);
}

/// No product is recommended twice, and no excluded product is recommended.
pub proof fn recommendations_are_distinct_and_allowed(
    g: GraphView,
    start: u64,
    max_depth: usize,
    limit: usize,
    excluded: Set<u64>,
)
    ensures
        distinct_products(recommendations(g, start, max_depth, limit, excluded)),
        forall|i: int|
            0 <= i < recommendations(g, start, max_depth, limit, excluded).len()
                ==> !excluded.contains(
                #[trigger] recommendations(g, start, max_depth, limit, excluded)[i].product_id.0,
            ),
{
    let steps = bfs_result(g, start, max_depth);
    let c = candidates(g, steps, excluded);
    lemma_candidates(g, steps, excluded);
    ranked_is_stable_sort(c);
    let r = ranked(c);
    let recs = recommendations(g, start, max_depth, limit, excluded);
    assert forall|i: int| 0 <= i < recs.len() implies #[trigger] recs[i] == r[i] by {}
    assert forall|i: int, j: int| 0 <= i < j < recs.len() implies recs[i].product_id
        != recs[j].product_id by {
        let a = choose|a: int| 0 <= a < c.len() && c[a] == r[i];
        let b = choose|b: int| 0 <= b < c.len() && c[b] == r[j];
        if a == b {
            assert(r[i] == r[j]);
            if i < j {
                // equal entries at two places of a stable sort of distinct entries
                lemma_ranked_injective(c, i, j);
            }
        } else if a < b {
            assert(c[a].product_id != c[b].product_id);
        } else {
            assert(c[b].product_id != c[a].product_id);
        }
    }
    assert forall|i: int| 0 <= i < recs.len() implies !excluded.contains(
        #[trigger] recs[i].product_id.0,
    ) by {
        let a = choose|a: int| 0 <= a < c.len() && c[a] == r[i];
        assert(c[a] == r[i]);
    }
}

proof fn lemma_ranked_injective(c: Seq<ScoredRecommendation>, i: int, j: int)
    requires
        positive_scores(c),
        distinct_products(c),
        0 <= i < j < c.len(),
    ensures
        ranked(c)[i] != ranked(c)[j],
{
    ranked_is_stable_sort(c);
    let r = ranked(c);
    if r[i] == r[j] {
        // the score of an entry is level with itself, so the stable order would need
        // two distinct positions of `c` holding the same entry
        assert(super::score::ranks_level(r[i].score, r[j].score));
        let (a, b) = choose|a: int, b: int| 0 <= a < b < c.len() && c[a] == r[i] && c[b] == r[j];
        assert(c[a].product_id == c[b].product_id);
    }
}

/// Best first: scores never increase along the list, the list holds
/// `min(limit, number of candidates)` entries, and every candidate left out scores no
/// higher than any entry kept.
pub proof fn recommendations_are_best_first(
    g: GraphView,
    start: u64,
    max_depth: usize,
    limit: usize,
    excluded: Set<u64>,
)
    ensures
        ({
            let c = candidates(g, bfs_result(g, start, max_depth), excluded);
            let recs = recommendations(g, start, max_depth, limit, excluded);
            &&& sorted_by_score(recs)
            &&& recs.len() == if c.len() <= limit {
                c.len()
            } else {
                limit as nat
            }
            &&& forall|a: int, i: int|
                0 <= a < c.len() && 0 <= i < recs.len() && !lists_product(
                    recs,
                    #[trigger] c[a].product_id,
                ) ==> !ranks_above(c[a].score, #[trigger] recs[i].score)
        }),
{
    let steps = bfs_result(g, start, max_depth);
    let c = candidates(g, steps, excluded);
    lemma_candidates(g, steps, excluded);
    lemma_ranked_permutes(c);
    lemma_ranked_sorted(c);
    let r = ranked(c);
    let recs = recommendations(g, start, max_depth, limit, excluded);
    assert forall|i: int| 0 <= i < recs.len() implies #[trigger] recs[i] == r[i] by {}
    assert forall|a: int, i: int|
        0 <= a < c.len() && 0 <= i < recs.len() && !lists_product(recs, #[trigger] c[a].product_id)
            implies !ranks_above(c[a].score, #[trigger] recs[i].score) by {
        let k = choose|k: int| 0 <= k < c.len() && c[a] == r[k];
        if k < recs.len() {
            assert(recs[k].product_id == c[a].product_id);
        }
        assert(k >= recs.len());
        assert(i < k);
    }
}

/// Each recommendation was found by the search from `start`: some reported step
/// reached a vertex of that product, at a depth in `1..=max_depth` equal to the
/// vertex's distance from the start, and the score comes from that step's edge and
/// depth.
pub proof fn recommendations_come_from_search(
    g: GraphView,
    start: u64,
    max_depth: usize,
    limit: usize,
    excluded: Set<u64>,
)
    ensures
        forall|i: int|
            #![trigger recommendations(g, start, max_depth, limit, excluded)[i]]
            0 <= i < recommendations(g, start, max_depth, limit, excluded).len() ==> {
                let rec = recommendations(g, start, max_depth, limit, excluded)[i];
                let steps = bfs_result(g, start, max_depth);
                exists|k: int|
                    #![trigger steps[k]]
                    {
                        &&& 0 <= k < steps.len()
                        &&& g.has_vertex(steps[k].vertex.0)
                        &&& g.vertices[steps[k].vertex.0].kind == VertexKind::Product(
                            rec.product_id,
                        )
                        &&& rec.depth == steps[k].depth
                        &&& 1 <= rec.depth <= max_depth
                        &&& within(g, start, rec.depth as nat).contains(steps[k].vertex.0)
                        &&& !within(g, start, (rec.depth - 1) as nat).contains(steps[k].vertex.0)
                        &&& rec.score == score_of(
                            step_weight(steps[k]),
                            step_edge_type(steps[k]),
                            steps[k].depth,
                        )
                    }
            },
{
    let steps = bfs_result(g, start, max_depth);
    let c = candidates(g, steps, excluded);
    lemma_candidates(g, steps, excluded);
    ranked_is_stable_sort(c);
    bfs_depth_is_distance(g, start, max_depth);
    let r = ranked(c);
    let recs = recommendations(g, start, max_depth, limit, excluded);
    assert forall|i: int| #![trigger recs[i]] 0 <= i < recs.len() implies {
        let rec = recs[i];
        exists|k: int|
            #![trigger steps[k]]
            {
                &&& 0 <= k < steps.len()
                &&& g.has_vertex(steps[k].vertex.0)
                &&& g.vertices[steps[k].vertex.0].kind == VertexKind::Product(rec.product_id)
                &&& rec.depth == steps[k].depth
                &&& 1 <= rec.depth <= max_depth
                &&& within(g, start, rec.depth as nat).contains(steps[k].vertex.0)
                &&& !within(g, start, (rec.depth - 1) as nat).contains(steps[k].vertex.0)
                &&& rec.score == score_of(
                    step_weight(steps[k]),
                    step_edge_type(steps[k]),
                    steps[k].depth,
                )
            }
    } by {
        assert(recs[i] == r[i]);
        let a = choose|a: int| 0 <= a < c.len() && c[a] == r[i];
        assert(c[a] == recs[i]);
        let k = choose|k: int|
            0 <= k < steps.len() && #[trigger] step_product(g, steps[k]) == Some(c[a].product_id)
                && c[a].depth == steps[k].depth && c[a].score == score_of(
                step_weight(steps[k]),
                step_edge_type(steps[k]),
                steps[k].depth,
            );
        assert(steps[k] == bfs_result(g, start, max_depth)[k]);
    }
}

/// Nothing reachable is left out unless the list is full: every product vertex
/// other than the start within `max_depth` edges of an existing start, whose product
/// is not excluded, is recommended, or the list already holds `limit` entries.
pub proof fn recommendations_miss_nothing_reachable(
    g: GraphView,
    start: u64,
    max_depth: usize,
    limit: usize,
    excluded: Set<u64>,
)
    requires
        g.has_vertex(start),
    ensures
        forall|v: u64|
            g.has_vertex(v) && (#[trigger] g.vertices[v]).kind is Product && !excluded.contains(
                (g.vertices[v].kind->Product_0).0,
            ) && v != start && within(g, start, max_depth as nat).contains(v) ==> lists_product(
                recommendations(g, start, max_depth, limit, excluded),
                g.vertices[v].kind->Product_0,
            ) || recommendations(g, start, max_depth, limit, excluded).len() == limit,
{
    let steps = bfs_result(g, start, max_depth);
    let c = candidates(g, steps, excluded);
    lemma_candidates(g, steps, excluded);
    bfs_reports_everything_within_depth(g, start, max_depth);
    let r = ranked(c);
    let recs = recommendations(g, start, max_depth, limit, excluded);
    assert forall|v: u64|
        g.has_vertex(v) && (#[trigger] g.vertices[v]).kind is Product && !excluded.contains(
            (g.vertices[v].kind->Product_0).0,
        ) && v != start && within(g, start, max_depth as nat).contains(v) implies lists_product(
        recs,
        g.vertices[v].kind->Product_0,
    ) || recs.len() == limit by {
        let p = g.vertices[v].kind->Product_0;
        assert(lists_vertex(steps, v));
        let k = choose|k: int| 0 <= k < steps.len() && #[trigger] steps[k].vertex.0 == v;
        assert(step_product(g, steps[k]) == Some(p));
        assert(lists_product(c, p));
        lemma_in_ranked(c, p);
        if r.len() <= limit {
            assert(recs == r);
        }
    }
}

/// A smaller limit gives a prefix: with limit `l1 <= l2` the recommendations are the
/// first `l1` of those given with limit `l2` (all of them when there are no more), and
/// for a positive limit one list is empty exactly when the other is.
pub proof fn smaller_limit_gives_prefix(
    g: GraphView,
    start: u64,
    max_depth: usize,
    l1: usize,
    l2: usize,
    excluded: Set<u64>,
)
    requires
        l1 <= l2,
    ensures
        ({
            let r1 = recommendations(g, start, max_depth, l1, excluded);
            let r2 = recommendations(g, start, max_depth, l2, excluded);
            &&& r1.len() == (if r2.len() <= l1 {
                r2.len()
            } else {
                l1 as nat
            })
            &&& r1 == r2.subrange(0, r1.len() as int)
            &&& l1 > 0 ==> (r1.len() == 0 <==> r2.len() == 0)
        }),
{
    let r = ranked(candidates(g, bfs_result(g, start, max_depth), excluded));
    let r1 = recommendations(g, start, max_depth, l1, excluded);
    let r2 = recommendations(g, start, max_depth, l2, excluded);
    assert(r1 =~= r2.subrange(0, r1.len() as int));
}

} // verus!
