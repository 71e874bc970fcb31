use vstd::prelude::*;

use super::{CategoryId, ProductId};

verus! {

/// A product of the catalogue. Its price is held as the IEEE 754 binary64 encoding
/// of the number (`f64::to_bits`).
#[derive(Debug, Clone, PartialEq, Eq)]
pub struct Product {
    pub id: ProductId,
    pub name: String,
    pub category_id: CategoryId,
    pub price_bits: u64,
    pub description: String,
}

impl Product {
    pub fn new(
        id: ProductId,
        name: String,
        category_id: CategoryId,
        price_bits: u64,
        description: String,
    ) -> (r: Self)
        ensures
            r == (Product { id, name, category_id, price_bits, description }),
    {
        Product { id, name, category_id, price_bits, description }
    }

    /// A field-by-field copy of the product.
    pub fn duplicate(&self) -> (r: Self)
        ensures
            r == *self,
    {
        Product {
            id: self.id,
            name: self.name.clone(),
            category_id: self.category_id,
            price_bits: self.price_bits,
            description: self.description.clone(),
        }
    }
}

} // verus!
