use vstd::prelude::*;

use crate::models::{CategoryId, CustomerId, ProductId, VertexId};

verus! {

/// What a vertex stands for.
#[derive(Debug, Clone, Copy, PartialEq, Eq, Hash, Structural)]
pub enum VertexKind {
    Customer(CustomerId),
    Product(ProductId),
    Category(CategoryId),
}

/// A vertex of the relation graph.
#[derive(Debug, Clone, Copy, PartialEq, Eq, Structural)]
pub struct Vertex {
    pub id: VertexId,
    pub kind: VertexKind,
}

impl Vertex {
    pub fn customer(id: VertexId, customer_id: CustomerId) -> (r: Self)
        ensures
            r == (Vertex { id, kind: VertexKind::Customer(customer_id) }),
    {
        Vertex { id, kind: VertexKind::Customer(customer_id) }
    }

    pub fn product(id: VertexId, product_id: ProductId) -> (r: Self)
        ensures
            r == (Vertex { id, kind: VertexKind::Product(product_id) }),
    {
        Vertex { id, kind: VertexKind::Product(product_id) }
    }

    pub fn category(id: VertexId, category_id: CategoryId) -> (r: Self)
        ensures
            r == (Vertex { id, kind: VertexKind::Category(category_id) }),
    {
        Vertex { id, kind: VertexKind::Category(category_id) }
    }

    pub fn is_product(&self) -> (r: bool)
        ensures
            r == (self.kind is Product),
    {
        match self.kind {
            VertexKind::Product(_) => true,
            _ => false,
        }
    }

    pub fn product_id(&self) -> (r: Option<ProductId>)
        ensures
            r == (match self.kind {
                VertexKind::Product(pid) => Some(pid),
                _ => None,
            }),
    {
        match self.kind {
            VertexKind::Product(pid) => Some(pid),
            _ => None,
        }
    }
}

} // verus!
