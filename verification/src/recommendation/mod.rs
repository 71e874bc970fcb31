//! Recommendations: a breadth-first search from a customer or a product, scored and
//! ranked.
pub mod score;
pub mod scoring;

pub use score::Score;
pub use scoring::{score_recommendation, ScoredRecommendation};
pub mod ranking;
pub mod engine;

pub use engine::{RecommendationEngine, RecommendationError};
pub mod laws;
