//! The store: entities held by id, and the relation graph kept in step with them.
pub mod order;
pub mod store;

pub use store::{Store, StoreError, StoreView, CATEGORY_EDGE_WEIGHT};
pub mod laws;
