use vstd::prelude::*;

use crate::models::VertexId;

verus! {

/// The kind of relation that an edge records.
#[derive(Debug, Clone, Copy, PartialEq, Eq, Hash, Structural)]
pub enum EdgeType {
    Purchased,
    Interested,
    Similar,
    BelongsTo,
    Rated,
}

/// The weight, in thousandths, that each kind of relation gives a recommendation
/// (stronger relations weigh more).
pub open spec fn multiplier_of(t: EdgeType) -> u32 {
    match t {
        EdgeType::Purchased => 1000,
        EdgeType::Similar => 900,
        EdgeType::Interested => 750,
        EdgeType::Rated => 850,
        EdgeType::BelongsTo => 500,
    }
}

impl EdgeType {
    /// Multiplier, in thousandths, used to score recommendations.
    pub fn score_multiplier(self) -> (r: u32)
        ensures
            r == multiplier_of(self),
    {
        match self {
            EdgeType::Purchased => 1000,
            EdgeType::Similar => 900,
            EdgeType::Interested => 750,
            EdgeType::Rated => 850,
            EdgeType::BelongsTo => 500,
        }
    }

    /// The name under which the relation is shown to users.
    pub fn label(self) -> (r: &'static str)
        ensures
            self == EdgeType::Purchased ==> r@ == "Comprou"@,
            self == EdgeType::Interested ==> r@ == "Interesse"@,
            self == EdgeType::Similar ==> r@ == "Similar"@,
            self == EdgeType::BelongsTo ==> r@ == "Categoria"@,
            self == EdgeType::Rated ==> r@ == "Avaliou"@,
    {
        match self {
            EdgeType::Purchased => "Comprou",
            EdgeType::Interested => "Interesse",
            EdgeType::Similar => "Similar",
            EdgeType::BelongsTo => "Categoria",
            EdgeType::Rated => "Avaliou",
        }
    }
}

/// A weighted edge towards `to`. The weight is held in thousandths (`1000` is 1.0).
#[derive(Debug, Clone, Copy, PartialEq, Eq, Structural)]
pub struct Edge {
    pub to: VertexId,
    pub edge_type: EdgeType,
    pub weight: u32,
}

impl Edge {
    pub fn new(to: VertexId, edge_type: EdgeType, weight: u32) -> (r: Self)
        ensures
            r == (Edge { to, edge_type, weight }),
    {
        Edge { to, edge_type, weight }
    }
}

} // verus!
