use vstd::prelude::*;

use super::CategoryId;

verus! {

/// A product category.
#[derive(Debug, Clone, PartialEq, Eq)]
pub struct Category {
    pub id: CategoryId,
    pub name: String,
}

impl Category {
    pub fn new(id: CategoryId, name: String) -> (r: Self)
        ensures
            r == (Category { id, name }),
    {
        Category { id, name }
    }

    /// A field-by-field copy of the category.
    pub fn duplicate(&self) -> (r: Self)
        ensures
            r == *self,
    {
        Category { id: self.id, name: self.name.clone() }
    }
}

} // verus!
