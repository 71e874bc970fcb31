use std::collections::HashSet;
use vstd::prelude::*;

use crate::graph::algorithms::bfs_result;
use crate::graph::{bfs, BfsStep, EdgeType, GraphView, VertexKind};
use crate::models::{CustomerId, ProductId, VertexId};
use crate::repository::Store;

use super::ranking::{rank, ranked};
use super::scoring::{score_of, score_recommendation, ScoredRecommendation};

verus! {

broadcast use vstd::std_specs::hash::group_hash_axioms;

/// Why no recommendation list was produced.
#[derive(Debug, Clone, Copy, PartialEq, Eq, Structural)]
pub enum RecommendationError {
    CustomerNotFound,
    ProductNotFound,
    NoRecommendations,
}

/// The weight, in thousandths, given to a step that came along no edge.
pub const DEFAULT_STEP_WEIGHT: u32 = 500;

/// The weight of the edge that reached the step (or the default weight).
pub open spec fn step_weight(st: BfsStep) -> u32 {
    match st.via_edge {
        Some(e) => e.weight,
        None => DEFAULT_STEP_WEIGHT,
    }
}

/// The kind of the edge that reached the step (or `BelongsTo`).
pub open spec fn step_edge_type(st: BfsStep) -> EdgeType {
    match st.via_edge {
        Some(e) => e.edge_type,
        None => EdgeType::BelongsTo,
    }
}

/// The product that the step's vertex stands for, if it is a product vertex.
pub open spec fn step_product(g: GraphView, st: BfsStep) -> Option<ProductId> {
    if g.has_vertex(st.vertex.0) {
        match g.vertices[st.vertex.0].kind {
            VertexKind::Product(p) => Some(p),
            _ => None,
        }
    } else {
        None
    }
}

/// Some entry of `s` recommends `p`.
pub open spec fn lists_product(s: Seq<ScoredRecommendation>, p: ProductId) -> bool {
    exists|i: int| 0 <= i < s.len() && #[trigger] s[i].product_id == p
}

/// The numbers of the ids in `s`.
pub open spec fn id_set(s: Seq<ProductId>) -> Set<u64> {
    Set::new(|v: u64| exists|i: int| 0 <= i < s.len() && #[trigger] s[i].0 == v)
}

/// The scored candidates of a search, in the order of its steps: each product vertex
/// that is not excluded gives one candidate, at the first step that reaches it.
pub open spec fn candidates(g: GraphView, steps: Seq<BfsStep>, excluded: Set<u64>) -> Seq<
    ScoredRecommendation,
>
    decreases steps.len(),
{
    if steps.len() == 0 {
        Seq::empty()
    } else {
        let prev = candidates(g, steps.drop_last(), excluded);
        let st = steps.last();
        match step_product(g, st) {
            Some(p) => if excluded.contains(p.0) || lists_product(prev, p) {
                prev
            } else {
                prev.push(
                    ScoredRecommendation {
                        product_id: p,
                        score: score_of(step_weight(st), step_edge_type(st), st.depth),
                        depth: st.depth,
                    },
                )
            },
            None => prev,
        }
    }
}

/// The recommendations from `start`: the candidates of a search limited to
/// `max_depth`, ranked, and cut to the first `limit`.
pub open spec fn recommendations(
    g: GraphView,
    start: u64,
    max_depth: usize,
    limit: usize,
    excluded: Set<u64>,
) -> Seq<ScoredRecommendation> {
    let r = ranked(candidates(g, bfs_result(g, start, max_depth), excluded));
    if r.len() <= limit {
        r
    } else {
        r.take(limit as int)
    }
}

/// The excluded ids together with the excluded product itself.
pub open spec fn all_excluded(excluded: Set<u64>, exclude_self: Option<ProductId>) -> Set<u64> {
    match exclude_self {
        Some(p) => excluded.insert(p.0),
        None => excluded,
    }
}

/// Recommends products from the relation graph.
pub struct RecommendationEngine;

impl RecommendationEngine {
    /// Recommends products to a customer: those found by a search from the
    /// customer's vertex, except the ones the customer already bought.
    pub fn for_customer(
        store: &Store,
        customer_id: CustomerId,
        max_depth: usize,
        limit: usize,
    ) -> (r: Result<Vec<ScoredRecommendation>, RecommendationError>)
        requires
            store.wf(),
        ensures
            !store@.customer_vertices.contains_key(customer_id.0) ==> r == Err::<
                Vec<ScoredRecommendation>,
                RecommendationError,
            >(RecommendationError::CustomerNotFound),
            store@.customer_vertices.contains_key(customer_id.0) ==> {
                let recs = recommendations(
                    store@.graph,
                    store@.customer_vertices[customer_id.0].0,
                    max_depth,
                    limit,
                    id_set(store@.customers[customer_id.0].purchased),
                );
                &&& recs.len() == 0 ==> r == Err::<
                    Vec<ScoredRecommendation>,
                    RecommendationError,
                >(RecommendationError::NoRecommendations)
                &&& recs.len() > 0 ==> r is Ok && r->Ok_0@ == recs
            },
    {
        let start = match store.customer_vertex(customer_id) {
            Some(v) => v,
            None => {
                return Err(RecommendationError::CustomerNotFound);
            },
        };
        let mut exclude: HashSet<u64> = HashSet::new();
        match store.get_customer(customer_id) {
            Some(c) => {
                let ids = &c.purchased_product_ids;
                let mut i: usize = 0;
                while i < ids.len()
                    invariant
                        i <= ids@.len(),
                        exclude@ == id_set(ids@.take(i as int)),
                    decreases ids@.len() - i,
                {
                    exclude.insert(ids[i].0);
                    proof {
                        let t = ids@.take(i + 1);
                        assert forall|v: u64| #[trigger] id_set(t).contains(v) == id_set(
                            ids@.take(i as int),
                        ).insert(ids@[i as int].0).contains(v) by {
                            if id_set(t).contains(v) {
                                let k = choose|k: int| 0 <= k < t.len() && #[trigger] t[k].0 == v;
                                if k < i {
                                    assert(ids@.take(i as int)[k] == t[k]);
                                }
                            }
                            if id_set(ids@.take(i as int)).contains(v) {
                                let k = choose|k: int| 0 <= k < i && #[trigger] ids@.take(i as int)[k].0 == v;
                                assert(t[k] == ids@.take(i as int)[k]);
                            }
                            if v == ids@[i as int].0 {
                                assert(t[i as int] == ids@[i as int]);
                            }
                        }
                        assert(id_set(t) =~= id_set(ids@.take(i as int)).insert(ids@[i as int].0));
                    }
                    i = i + 1;
                }
                assert(ids@.take(ids@.len() as int) =~= ids@);
            },
            None => {},
        }
        Self::collect_product_recommendations(store, start, max_depth, limit, exclude, None)
    }

    /// Recommends products related to a product: those found by a search from the
    /// product's vertex, the product itself excepted.
    pub fn for_product(
        store: &Store,
        product_id: ProductId,
        max_depth: usize,
        limit: usize,
    ) -> (r: Result<Vec<ScoredRecommendation>, RecommendationError>)
        requires
            store.wf(),
        ensures
            !store@.product_vertices.contains_key(product_id.0) ==> r == Err::<
                Vec<ScoredRecommendation>,
                RecommendationError,
            >(RecommendationError::ProductNotFound),
            store@.product_vertices.contains_key(product_id.0) ==> {
                let recs = recommendations(
                    store@.graph,
                    store@.product_vertices[product_id.0].0,
                    max_depth,
                    limit,
                    set![product_id.0],
                );
                &&& recs.len() == 0 ==> r == Err::<
                    Vec<ScoredRecommendation>,
                    RecommendationError,
                >(RecommendationError::NoRecommendations)
                &&& recs.len() > 0 ==> r is Ok && r->Ok_0@ == recs
            },
    {
        let start = match store.product_vertex(product_id) {
            Some(v) => v,
            None => {
                return Err(RecommendationError::ProductNotFound);
            },
        };
        let mut exclude: HashSet<u64> = HashSet::new();
        exclude.insert(product_id.0);
        assert(all_excluded(exclude@, Some(product_id)) =~= set![product_id.0]);
        Self::collect_product_recommendations(
            store,
            start,
            max_depth,
            limit,
            exclude,
            Some(product_id),
        )
    }

    fn collect_product_recommendations(
        store: &Store,
        start: VertexId,
        max_depth: usize,
        limit: usize,
        exclude_products: HashSet<u64>,
        exclude_self: Option<ProductId>,
    ) -> (r: Result<Vec<ScoredRecommendation>, RecommendationError>)
        requires
            store.wf(),
        ensures
            ({
                let recs = recommendations(
                    store@.graph,
                    start.0,
                    max_depth,
                    limit,
                    all_excluded(exclude_products@, exclude_self),
                );
                &&& recs.len() == 0 ==> r == Err::<
                    Vec<ScoredRecommendation>,
                    RecommendationError,
                >(RecommendationError::NoRecommendations)
                &&& recs.len() > 0 ==> r is Ok && r->Ok_0@ == recs
            }),
    {
        let ghost g = store@.graph;
        let ghost excluded = all_excluded(exclude_products@, exclude_self);
        let steps = bfs(store.graph(), start, max_depth);
        let mut seen_products: HashSet<u64> = HashSet::new();
        let mut scored: Vec<ScoredRecommendation> = Vec::new();
        let mut i: usize = 0;
        while i < steps.len()
            invariant
                g == store@.graph,
                excluded == all_excluded(exclude_products@, exclude_self),
                i <= steps@.len(),
                scored@ == candidates(g, steps@.take(i as int), excluded),
                forall|v: u64|
                    seen_products@.contains(v) <==> #[trigger] lists_product(
                        scored@,
                        ProductId(v),
                    ),
            decreases steps@.len() - i,
        {
            let step = steps[i];
            let ghost prev = scored@;
            proof {
                assert(steps@.take(i + 1).drop_last() =~= steps@.take(i as int));
                assert(steps@.take(i + 1).last() == step);
            }
            i = i + 1;
            let vertex = match store.graph().get_vertex(step.vertex) {
                Some(v) => *v,
                None => {
                    continue;
                },
            };
            let pid = match vertex.kind {
                VertexKind::Product(pid) => pid,
                _ => {
                    continue;
                },
            };
            match exclude_self {
                Some(own) => {
                    if own == pid {
                        continue;
                    }
                },
                None => {},
            }
            if exclude_products.contains(&pid.0) {
                continue;
            }
            if !seen_products.insert(pid.0) {
                continue;
            }
            let weight = match step.via_edge {
                Some(e) => e.weight,
                None => DEFAULT_STEP_WEIGHT,
            };
            let edge_type = match step.via_edge {
                Some(e) => e.edge_type,
                None => EdgeType::BelongsTo,
            };
            let score = score_recommendation(weight, edge_type, step.depth);
            let rec = ScoredRecommendation { product_id: pid, score, depth: step.depth };
            scored.push(rec);
            proof {
                assert forall|v: u64|
                    seen_products@.contains(v) <==> #[trigger] lists_product(
                        scored@,
                        ProductId(v),
                    ) by {
                    if lists_product(prev, ProductId(v)) {
                        let k = choose|k: int| 0 <= k < prev.len() && #[trigger] prev[k].product_id
                            == ProductId(v);
                        assert(scored@[k] == prev[k]);
                    }
                    if v == pid.0 {
                        assert(scored@[prev.len() as int].product_id == ProductId(v));
                    }
                    if lists_product(scored@, ProductId(v)) && v != pid.0 {
                        let k = choose|k: int| 0 <= k < scored@.len() && #[trigger] scored@[k].product_id
                            == ProductId(v);
                        assert(prev[k] == scored@[k]);
                    }
                }
            }
        }
        assert(steps@.take(steps@.len() as int) =~= steps@);
        let mut ranked_list = rank(&scored);
        ranked_list.truncate(limit);
        if ranked_list.len() == 0 {
            return Err(RecommendationError::NoRecommendations);
        }
        Ok(ranked_list)
    }
}

} // verus!
