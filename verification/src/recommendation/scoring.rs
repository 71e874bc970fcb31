use vstd::prelude::*;

use crate::graph::edge::multiplier_of;
use crate::graph::EdgeType;
use crate::models::ProductId;

use super::score::{ranks_above, Score};

verus! {

/// A recommended product, its score and the depth at which the search found it.
#[derive(Debug, Clone, Copy, PartialEq)]
pub struct ScoredRecommendation {
    pub product_id: ProductId,
    pub score: Score,
    pub depth: usize,
}

/// `(weight * multiplier) / max(depth, 1)`, with the weight and the multiplier in
/// thousandths.
pub open spec fn score_of(weight: u32, edge_type: EdgeType, depth: usize) -> Score {
    Score {
        numerator: (weight * multiplier_of(edge_type)) as u64,
        denominator: if depth == 0 {
            1
        } else {
            depth as u64
        },
    }
}

/// Scores a recommendation from the edge weight, the kind of relation and the
/// closeness (depth in the search):
///
/// score = (weight * type_multiplier) / depth   (depth at least 1)
///
/// Closer products tied by stronger relations come first.
pub fn score_recommendation(weight: u32, edge_type: EdgeType, depth: usize) -> (r: Score)
    ensures
        r == score_of(weight, edge_type, depth),
{
    let d: usize = if depth > 1 {
        depth
    } else {
        1
    };
    let m = edge_type.score_multiplier();
    assert(weight * m <= u32::MAX * 1000) by (nonlinear_arith)
        requires
            m <= 1000,
    ;
    Score { numerator: (weight as u64) * (m as u64), denominator: d as u64 }
}

/// Closer scores higher: for the same relation and a positive weight, a product found
/// at a smaller depth scores strictly higher than one found deeper.
pub proof fn closer_scores_higher(weight: u32, edge_type: EdgeType, near: usize, far: usize)
    requires
        weight > 0,
        1 <= near < far,
    ensures
        ranks_above(score_of(weight, edge_type, near), score_of(weight, edge_type, far)),
{
    let n = (weight * multiplier_of(edge_type)) as int;
    assert(n > 0) by (nonlinear_arith)
        requires
            weight > 0,
            multiplier_of(edge_type) > 0,
            n == weight * multiplier_of(edge_type),
    ;
    assert(n * far > n * near) by (nonlinear_arith)
        requires
            n > 0,
            far > near,
    ;
}

/// Stronger scores higher: at the same depth, the relation with the larger weighted
/// multiplier scores strictly higher.
pub proof fn stronger_scores_higher(
    w1: u32,
    t1: EdgeType,
    w2: u32,
    t2: EdgeType,
    depth: usize,
)
    requires
        w1 * multiplier_of(t1) > w2 * multiplier_of(t2),
    ensures
        ranks_above(score_of(w1, t1, depth), score_of(w2, t2, depth)),
{
    let d = score_of(w1, t1, depth).denominator as int;
    let a = w1 * multiplier_of(t1);
    let b = w2 * multiplier_of(t2);
    assert(a <= u32::MAX * 1000 && b <= u32::MAX * 1000) by (nonlinear_arith)
        requires
            a == w1 * multiplier_of(t1),
            b == w2 * multiplier_of(t2),
            multiplier_of(t1) <= 1000,
            multiplier_of(t2) <= 1000,
            w1 <= u32::MAX,
            w2 <= u32::MAX,
    ;
    assert(a * d > b * d) by (nonlinear_arith)
        requires
            a > b,
            d > 0,
    ;
}

} // verus!
