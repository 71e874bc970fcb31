//! Domain entities and their typed identifiers.
use vstd::prelude::*;

pub mod category;
pub mod customer;
pub mod price;
pub mod product;

pub use category::Category;
pub use customer::{Customer, CustomerView};
pub use product::Product;

verus! {

/// Identifier of a product in the store.
#[derive(Debug, Clone, Copy, PartialEq, Eq, Hash, Structural)]
pub struct ProductId(pub u64);

/// Identifier of a customer in the store.
#[derive(Debug, Clone, Copy, PartialEq, Eq, Hash, Structural)]
pub struct CustomerId(pub u64);

/// Identifier of a category in the store.
#[derive(Debug, Clone, Copy, PartialEq, Eq, Hash, Structural)]
pub struct CategoryId(pub u64);

/// Identifier of a vertex in the relation graph.
#[derive(Debug, Clone, Copy, PartialEq, Eq, Hash, Structural)]
pub struct VertexId(pub u64);

} // verus!
