use vstd::prelude::*;

use super::{CustomerId, ProductId};

verus! {

/// A customer, with the products already bought or explicitly tied to them.
#[derive(Debug, Clone, PartialEq, Eq)]
pub struct Customer {
    pub id: CustomerId,
    pub name: String,
    pub purchased_product_ids: Vec<ProductId>,
}

/// The abstract value of a customer.
pub struct CustomerView {
    pub id: CustomerId,
    pub name: Seq<char>,
    pub purchased: Seq<ProductId>,
}

impl View for Customer {
    type V = CustomerView;

    open spec fn view(&self) -> CustomerView {
        CustomerView { id: self.id, name: self.name@, purchased: self.purchased_product_ids@ }
    }
}

impl Customer {
    pub fn new(id: CustomerId, name: String) -> (r: Self)
        ensures
            r@ == (CustomerView { id, name: name@, purchased: Seq::empty() }),
    {
        Customer { id, name, purchased_product_ids: Vec::new() }
    }

    pub fn with_purchases(self, product_ids: Vec<ProductId>) -> (r: Self)
        ensures
            r@ == (CustomerView { purchased: product_ids@, ..self@ }),
    {
        let mut c = self;
        c.purchased_product_ids = product_ids;
        c
    }

    /// A field-by-field copy of the customer.
    pub fn duplicate(&self) -> (r: Self)
        ensures
            r@ == self@,
    {
        Customer {
            id: self.id,
            name: self.name.clone(),
            purchased_product_ids: self.purchased_product_ids.clone(),
        }
    }
}

} // verus!
