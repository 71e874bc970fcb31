use std::collections::HashMap;
use vstd::prelude::*;

use crate::graph::{Edge, EdgeType, Graph, GraphError, GraphView, VertexKind};
use crate::models::{
    Category, CategoryId, Customer, CustomerId, CustomerView, Product, ProductId, VertexId,
};
use crate::models::price::{is_valid_price, valid_price};
use crate::text::{is_blank, is_blank_text};

use super::order::{key_list, sorted_ids, strictly_increasing};

verus! {

broadcast use vstd::std_specs::hash::group_hash_axioms;

/// Why the store refused a request.
#[derive(Debug, Clone, Copy, PartialEq, Eq, Structural)]
pub enum StoreError {
    CategoryNotFound,
    ProductNotFound,
    CustomerNotFound,
    CustomerAlreadyExists,
    InvalidInput,
    GraphError(GraphError),
}

impl From<GraphError> for StoreError {
    fn from(value: GraphError) -> (r: Self) {
        StoreError::GraphError(value)
    }
}

impl vstd::std_specs::convert::FromSpecImpl<GraphError> for StoreError {
    open spec fn obeys_from_spec() -> bool {
        true
    }

    open spec fn from_spec(v: GraphError) -> Self {
        StoreError::GraphError(v)
    }
}

/// The weight, in thousandths, of the edge that ties a product to its category.
pub const CATEGORY_EDGE_WEIGHT: u32 = 600;

/// The abstract value of a store: the entities by the number of their id, the
/// relation graph, the vertex that stands for each entity, and the next ids.
#[verifier::ext_equal]
pub struct StoreView {
    pub products: Map<u64, Product>,
    pub customers: Map<u64, CustomerView>,
    pub categories: Map<u64, Category>,
    pub graph: GraphView,
    pub product_vertices: Map<u64, VertexId>,
    pub customer_vertices: Map<u64, VertexId>,
    pub category_vertices: Map<u64, VertexId>,
    pub next_product_id: u64,
    pub next_customer_id: u64,
    pub next_category_id: u64,
}

impl StoreView {
    /// Each entity carries its own key as id, lies below the next id of its kind, and
    /// has a vertex of its own kind in a well-formed graph.
    pub open spec fn well_formed(self) -> bool {
        &&& self.graph.well_formed()
        &&& self.products.dom() == self.product_vertices.dom()
        &&& self.customers.dom() == self.customer_vertices.dom()
        &&& self.categories.dom() == self.category_vertices.dom()
        &&& forall|k: u64| #[trigger]
            self.products.contains_key(k) ==> {
                &&& self.products[k].id == ProductId(k)
                &&& k < self.next_product_id
                &&& self.graph.has_vertex(self.product_vertices[k].0)
                &&& self.graph.vertices[self.product_vertices[k].0].kind == VertexKind::Product(
                    ProductId(k),
                )
            }
        &&& forall|k: u64| #[trigger]
            self.customers.contains_key(k) ==> {
                &&& self.customers[k].id == CustomerId(k)
                &&& k < self.next_customer_id
                &&& self.graph.has_vertex(self.customer_vertices[k].0)
                &&& self.graph.vertices[self.customer_vertices[k].0].kind == VertexKind::Customer(
                    CustomerId(k),
                )
            }
        &&& forall|k: u64| #[trigger]
            self.categories.contains_key(k) ==> {
                &&& self.categories[k].id == CategoryId(k)
                &&& k < self.next_category_id
                &&& self.graph.has_vertex(self.category_vertices[k].0)
                &&& self.graph.vertices[self.category_vertices[k].0].kind == VertexKind::Category(
                    CategoryId(k),
                )
            }
    }

    /// Room for one more category: neither its id nor its vertex id overflows.
    pub open spec fn can_add_category(self) -> bool {
        self.next_category_id < u64::MAX && self.graph.next_id < u64::MAX
    }

    pub open spec fn can_add_product(self) -> bool {
        self.next_product_id < u64::MAX && self.graph.next_id < u64::MAX
    }

    pub open spec fn can_add_customer(self) -> bool {
        self.next_customer_id < u64::MAX && self.graph.next_id < u64::MAX
    }

    pub open spec fn with_graph(self, g: GraphView) -> StoreView {
        StoreView { graph: g, ..self }
    }

    /// The store after a category named `name` is registered under the next id.
    pub open spec fn after_register_category(self, name: String) -> StoreView {
        let id = self.next_category_id;
        StoreView {
            categories: self.categories.insert(id, Category { id: CategoryId(id), name }),
            graph: self.graph.with_vertex(VertexKind::Category(CategoryId(id))),
            category_vertices: self.category_vertices.insert(id, VertexId(self.graph.next_id)),
            next_category_id: (id + 1) as u64,
            ..self
        }
    }

    /// The edge that ties a new product vertex to the vertex of its category.
    pub open spec fn category_edge(self, category_id: CategoryId) -> Edge {
        Edge {
            to: self.category_vertices[category_id.0],
            edge_type: EdgeType::BelongsTo,
            weight: CATEGORY_EDGE_WEIGHT,
        }
    }

    /// The store after a product is registered under the next id, with a vertex of
    /// its own tied to the vertex of its category.
    pub open spec fn after_register_product(
        self,
        name: String,
        category_id: CategoryId,
        price_bits: u64,
        description: String,
    ) -> StoreView {
        let id = self.next_product_id;
        let v = self.graph.next_id;
        let g1 = self.graph.with_vertex(VertexKind::Product(ProductId(id)));
        let g2 = if self.category_vertices.contains_key(category_id.0) {
            g1.with_undirected_edge(
                v,
                self.category_vertices[category_id.0].0,
                self.category_edge(category_id),
            )
        } else {
            g1
        };
        StoreView {
            products: self.products.insert(
                id,
                Product { id: ProductId(id), name, category_id, price_bits, description },
            ),
            graph: g2,
            product_vertices: self.product_vertices.insert(id, VertexId(v)),
            next_product_id: (id + 1) as u64,
            ..self
        }
    }

    /// The store after a customer is inserted under `id`, with a vertex of its own
    /// and no purchases.
    pub open spec fn after_insert_customer(self, id: u64, name: Seq<char>) -> StoreView {
        StoreView {
            customers: self.customers.insert(
                id,
                CustomerView { id: CustomerId(id), name, purchased: Seq::empty() },
            ),
            graph: self.graph.with_vertex(VertexKind::Customer(CustomerId(id))),
            customer_vertices: self.customer_vertices.insert(id, VertexId(self.graph.next_id)),
            ..self
        }
    }

    /// The store after an undirected edge of the given kind and weight joins the
    /// vertices `a` and `b` (the edge stored at `a` points to `b`).
    pub open spec fn after_link(self, a: VertexId, b: VertexId, t: EdgeType, weight: u32) -> StoreView {
        self.with_graph(
            self.graph.with_undirected_edge(a.0, b.0, Edge { to: b, edge_type: t, weight }),
        )
    }

    /// The store after customer `c` buys product `p`: a `Purchased` edge of the given
    /// weight joins their vertices and `p` joins the purchases of `c`.
    pub open spec fn after_purchase(self, c: CustomerId, p: ProductId, weight: u32) -> StoreView {
        let linked = self.after_link(
            self.customer_vertices[c.0],
            self.product_vertices[p.0],
            EdgeType::Purchased,
            weight,
        );
        StoreView {
            customers: self.customers.insert(
                c.0,
                CustomerView { purchased: self.purchases_with(c.0, p), ..self.customers[c.0] },
            ),
            ..linked
        }
    }

    /// The purchases of customer `c` with `p` appended unless already there.
    pub open spec fn purchases_with(self, c: u64, p: ProductId) -> Seq<ProductId> {
        if self.customers[c].purchased.contains(p) {
            self.customers[c].purchased
        } else {
            self.customers[c].purchased.push(p)
        }
    }
}

/// A store that differs from a well-formed one only in the edges of its (well-formed)
/// graph and in the purchases of its customers is well formed.
proof fn lemma_relinked_well_formed(s: StoreView, t: StoreView)
    requires
        s.well_formed(),
        t.graph.well_formed(),
        t.graph.vertices == s.graph.vertices,
        t.products == s.products,
        t.categories == s.categories,
        t.customers.dom() == s.customers.dom(),
        forall|k: u64| #[trigger]
            t.customers.contains_key(k) ==> t.customers[k].id == s.customers[k].id,
        t.product_vertices == s.product_vertices,
        t.customer_vertices == s.customer_vertices,
        t.category_vertices == s.category_vertices,
        t.next_product_id == s.next_product_id,
        t.next_customer_id == s.next_customer_id,
        t.next_category_id == s.next_category_id,
    ensures
        t.well_formed(),
{
    assert forall|k: u64| #[trigger] t.products.contains_key(k) implies {
        &&& t.products[k].id == ProductId(k)
        &&& k < t.next_product_id
        &&& t.graph.has_vertex(t.product_vertices[k].0)
        &&& t.graph.vertices[t.product_vertices[k].0].kind == VertexKind::Product(ProductId(k))
    } by {
        assert(s.products.contains_key(k));
    }
    assert forall|k: u64| #[trigger] t.customers.contains_key(k) implies {
        &&& t.customers[k].id == CustomerId(k)
        &&& k < t.next_customer_id
        &&& t.graph.has_vertex(t.customer_vertices[k].0)
        &&& t.graph.vertices[t.customer_vertices[k].0].kind == VertexKind::Customer(CustomerId(k))
    } by {
        assert(s.customers.contains_key(k));
    }
    assert forall|k: u64| #[trigger] t.categories.contains_key(k) implies {
        &&& t.categories[k].id == CategoryId(k)
        &&& k < t.next_category_id
        &&& t.graph.has_vertex(t.category_vertices[k].0)
        &&& t.graph.vertices[t.category_vertices[k].0].kind == VertexKind::Category(CategoryId(k))
    } by {
        assert(s.categories.contains_key(k));
    }
}

/// Whether `id` occurs in `ids`.
pub fn contains_product(ids: &Vec<ProductId>, id: ProductId) -> (r: bool)
    ensures
        r == ids@.contains(id),
{
    let mut i: usize = 0;
    while i < ids.len()
        invariant
            i <= ids@.len(),
            forall|k: int| 0 <= k < i ==> ids@[k] != id,
        decreases ids@.len() - i,
    {
        if ids[i] == id {
            assert(ids@[i as int] == id);
            return true;
        }
        i = i + 1;
    }
    false
}

/// The store: entities in hash maps by id, plus the graph of their relations.
#[derive(Debug)]
pub struct Store {
    products: HashMap<u64, Product>,
    customers: HashMap<u64, Customer>,
    categories: HashMap<u64, Category>,
    graph: Graph,
    product_vertices: HashMap<u64, VertexId>,
    customer_vertices: HashMap<u64, VertexId>,
    category_vertices: HashMap<u64, VertexId>,
    next_product_id: u64,
    next_customer_id: u64,
    next_category_id: u64,
}

impl View for Store {
    type V = StoreView;

    closed spec fn view(&self) -> StoreView {
        StoreView {
            products: self.products@,
            customers: self.customers@.map_values(|c: Customer| c@),
            categories: self.categories@,
            graph: self.graph@,
            product_vertices: self.product_vertices@,
            customer_vertices: self.customer_vertices@,
            category_vertices: self.category_vertices@,
            next_product_id: self.next_product_id,
            next_customer_id: self.next_customer_id,
            next_category_id: self.next_category_id,
        }
    }
}

impl Default for Store {
    fn default() -> (r: Self)
        ensures
            r.wf(),
            r@.products == Map::<u64, Product>::empty(),
            r@.customers == Map::<u64, CustomerView>::empty(),
            r@.categories == Map::<u64, Category>::empty(),
            r@.graph.vertices == Map::<u64, crate::graph::Vertex>::empty(),
            r@.graph.adjacency == Map::<u64, Seq<Edge>>::empty(),
            r@.graph.next_id == 1,
            r@.product_vertices == Map::<u64, VertexId>::empty(),
            r@.customer_vertices == Map::<u64, VertexId>::empty(),
            r@.category_vertices == Map::<u64, VertexId>::empty(),
            r@.next_product_id == 1,
            r@.next_customer_id == 1,
            r@.next_category_id == 1,
    {
        let r = Store {
            products: HashMap::new(),
            customers: HashMap::new(),
            categories: HashMap::new(),
            graph: Graph::new(),
            product_vertices: HashMap::new(),
            customer_vertices: HashMap::new(),
            category_vertices: HashMap::new(),
            next_product_id: 1,
            next_customer_id: 1,
            next_category_id: 1,
        };
        assert(r@.customers =~= Map::<u64, CustomerView>::empty());
        r
    }
}

impl Store {
    pub open spec fn wf(&self) -> bool {
        self@.well_formed()
    }

    /// An empty store; the first id of each kind is 1.
    pub fn new() -> (r: Self)
        ensures
            r.wf(),
            r@.products == Map::<u64, Product>::empty(),
            r@.customers == Map::<u64, CustomerView>::empty(),
            r@.categories == Map::<u64, Category>::empty(),
            r@.graph.vertices == Map::<u64, crate::graph::Vertex>::empty(),
            r@.graph.adjacency == Map::<u64, Seq<Edge>>::empty(),
            r@.graph.next_id == 1,
            r@.product_vertices == Map::<u64, VertexId>::empty(),
            r@.customer_vertices == Map::<u64, VertexId>::empty(),
            r@.category_vertices == Map::<u64, VertexId>::empty(),
            r@.next_product_id == 1,
            r@.next_customer_id == 1,
            r@.next_category_id == 1,
    {
        Self::default()
    }

    /// The id that the next registered product gets.
    pub fn next_product_id_value(&self) -> (r: u64)
        ensures
            r == self@.next_product_id,
    {
        self.next_product_id
    }

    /// The id that the next registered customer gets.
    pub fn next_customer_id_value(&self) -> (r: u64)
        ensures
            r == self@.next_customer_id,
    {
        self.next_customer_id
    }

    /// The id that the next registered category gets.
    pub fn next_category_id_value(&self) -> (r: u64)
        ensures
            r == self@.next_category_id,
    {
        self.next_category_id
    }

    pub fn graph(&self) -> (r: &Graph)
        ensures
            r@ == self@.graph,
    {
        &self.graph
    }

    /// Direct access to the graph; whatever is done through it changes the graph only.
    pub fn graph_mut(&mut self) -> (r: &mut Graph)
        ensures
            r@ == old(self)@.graph,
            final(self)@ == old(self)@.with_graph(final(r)@),
    {
        &mut self.graph
    }

    // --- Categories ---

    /// Registers a category under the next id, with a vertex of its own.
    pub fn register_category(&mut self, name: String) -> (r: Result<Category, StoreError>)
        requires
            old(self).wf(),
            old(self)@.can_add_category(),
        ensures
            final(self).wf(),
            final(self)@ == old(self)@.after_register_category(name),
            r == Ok::<Category, StoreError>(
                Category { id: CategoryId(old(self)@.next_category_id), name },
            ),
    {
        let ghost before = self@;
        let id = CategoryId(self.next_category_id);
        self.next_category_id = self.next_category_id + 1;
        let category = Category::new(id, name);
        self.categories.insert(id.0, category.duplicate());
        let vertex = match self.graph.add_vertex(VertexKind::Category(id)) {
            Ok(v) => v,
            Err(e) => {
                return Err(StoreError::from(e));
            },
        };
        self.category_vertices.insert(id.0, vertex);
        assert(self@.customers =~= before.customers);
        assert(self@ =~= before.after_register_category(name));
        Ok(category)
    }

    pub fn get_category(&self, id: CategoryId) -> (r: Option<&Category>)
        ensures
            match r {
                Some(c) => self@.categories.contains_key(id.0) && *c == self@.categories[id.0],
                None => !self@.categories.contains_key(id.0),
            },
    {
        self.categories.get(&id.0)
    }

    /// Every category, in increasing order of id.
    pub fn list_categories(&self) -> (r: Vec<&Category>)
        requires
            self.wf(),
        ensures
            r@.len() == self@.categories.len(),
            forall|i: int|
                0 <= i < r@.len() ==> self@.categories.contains_key(#[trigger] r@[i].id.0)
                    && *r@[i] == self@.categories[r@[i].id.0],
            forall|k: u64| #[trigger]
                self@.categories.contains_key(k) ==> exists|i: int|
                    0 <= i < r@.len() && r@[i].id.0 == k,
            forall|i: int, j: int| 0 <= i < j < r@.len() ==> r@[i].id.0 < r@[j].id.0,
    {
        let keys = key_list(&self.categories);
        let ids = sorted_ids(&keys);
        let mut out: Vec<&Category> = Vec::new();
        let mut i: usize = 0;
        while i < ids.len()
            invariant
                self.wf(),
                i <= ids@.len(),
                out@.len() == i,
                strictly_increasing(ids@),
                forall|x: u64| ids@.contains(x) <==> self@.categories.contains_key(x),
                forall|j: int|
                    #![trigger out@[j]]
                    0 <= j < i ==> out@[j].id.0 == ids@[j] && self@.categories.contains_key(
                        out@[j].id.0,
                    ) && *out@[j] == self@.categories[out@[j].id.0],
            decreases ids@.len() - i,
        {
            assert(ids@.contains(ids@[i as int]));
            match self.categories.get(&ids[i]) {
                Some(c) => {
                    out.push(c);
                },
                None => {
                    assert(false);
                },
            }
            i = i + 1;
        }
        proof {
            assert(keys@.to_set() =~= self@.categories.dom()) by {
                assert forall|x: u64| keys@.to_set().contains(x) == self@.categories.dom().contains(x) by {}
            }
            keys@.unique_seq_to_set();
            assert forall|k: u64| #[trigger] self@.categories.contains_key(k) implies exists|j: int|
                0 <= j < out@.len() && out@[j].id.0 == k by {
                assert(ids@.contains(k));
                let j = choose|j: int| 0 <= j < ids@.len() && ids@[j] == k;
                assert(out@[j].id.0 == k);
            }
        }
        out
    }

    // --- Products ---

    /// Registers a product under the next id, with a vertex of its own tied to the
    /// vertex of its category. The price is the binary64 encoding of a number. Refused
    /// when the name is blank, the price is not finite or below zero, or the category is
    /// unknown; the store is then unchanged.
    pub fn register_product(
        &mut self,
        name: String,
        category_id: CategoryId,
        price_bits: u64,
        description: String,
    ) -> (r: Result<Product, StoreError>)
        requires
            old(self).wf(),
            old(self)@.can_add_product(),
        ensures
            final(self).wf(),
            is_blank_text(name@) || !is_valid_price(price_bits) ==> r == Err::<Product, StoreError>(
                StoreError::InvalidInput,
            ) && final(self)@ == old(self)@,
            !is_blank_text(name@) && is_valid_price(price_bits) && !old(
                self,
            )@.categories.contains_key(category_id.0) ==> r == Err::<Product, StoreError>(
                StoreError::CategoryNotFound,
            ) && final(self)@ == old(self)@,
            !is_blank_text(name@) && is_valid_price(price_bits) && old(
                self,
            )@.categories.contains_key(category_id.0) ==> r
                == Ok::<Product, StoreError>(
                Product {
                    id: ProductId(old(self)@.next_product_id),
                    name,
                    category_id,
                    price_bits,
                    description,
                },
            ) && final(self)@ == old(self)@.after_register_product(
                name,
                category_id,
                price_bits,
                description,
            ),
    {
        if is_blank(name.as_str()) {
            return Err(StoreError::InvalidInput);
        }
        if !valid_price(price_bits) {
            return Err(StoreError::InvalidInput);
        }
        if !self.categories.contains_key(&category_id.0) {
            return Err(StoreError::CategoryNotFound);
        }
        let ghost before = self@;
        let id = ProductId(self.next_product_id);
        self.next_product_id = self.next_product_id + 1;
        let product = Product::new(id, name, category_id, price_bits, description);
        self.products.insert(id.0, product.duplicate());
        let vertex = match self.graph.add_vertex(VertexKind::Product(id)) {
            Ok(v) => v,
            Err(e) => {
                return Err(StoreError::from(e));
            },
        };
        self.product_vertices.insert(id.0, vertex);
        let ghost g1 = self@.graph;
        match self.category_vertices.get(&category_id.0) {
            Some(cat_vertex) => {
                let cat_vertex = *cat_vertex;
                match self.graph.add_undirected_edge(
                    vertex,
                    cat_vertex,
                    Edge::new(cat_vertex, EdgeType::BelongsTo, CATEGORY_EDGE_WEIGHT),
                ) {
                    Ok(()) => {},
                    Err(e) => {
                        return Err(StoreError::from(e));
                    },
                }
            },
            None => {},
        }
        proof {
            let after = before.after_register_product(
                product.name,
                category_id,
                price_bits,
                product.description,
            );
            assert(self@.customers =~= before.customers);
            assert(self@.graph =~= after.graph);
            assert(self@ =~= after);
            let v = before.graph.next_id;
            assert forall|k: u64| #[trigger] self@.products.contains_key(k) implies {
                &&& self@.products[k].id == ProductId(k)
                &&& k < self@.next_product_id
                &&& self@.graph.has_vertex(self@.product_vertices[k].0)
                &&& self@.graph.vertices[self@.product_vertices[k].0].kind == VertexKind::Product(
                    ProductId(k),
                )
            } by {
                if k != id.0 {
                    assert(before.products.contains_key(k));
                }
            }
            assert forall|k: u64| #[trigger] self@.customers.contains_key(k) implies {
                &&& self@.customers[k].id == CustomerId(k)
                &&& k < self@.next_customer_id
                &&& self@.graph.has_vertex(self@.customer_vertices[k].0)
                &&& self@.graph.vertices[self@.customer_vertices[k].0].kind == VertexKind::Customer(
                    CustomerId(k),
                )
            } by {
                assert(before.customers.contains_key(k));
            }
            assert forall|k: u64| #[trigger] self@.categories.contains_key(k) implies {
                &&& self@.categories[k].id == CategoryId(k)
                &&& k < self@.next_category_id
                &&& self@.graph.has_vertex(self@.category_vertices[k].0)
                &&& self@.graph.vertices[self@.category_vertices[k].0].kind == VertexKind::Category(
                    CategoryId(k),
                )
            } by {
                assert(before.categories.contains_key(k));
            }
        }
        Ok(product)
    }

    pub fn get_product(&self, id: ProductId) -> (r: Option<&Product>)
        ensures
            match r {
                Some(p) => self@.products.contains_key(id.0) && *p == self@.products[id.0],
                None => !self@.products.contains_key(id.0),
            },
    {
        self.products.get(&id.0)
    }

    /// Every product, in increasing order of id.
    pub fn list_products(&self) -> (r: Vec<&Product>)
        requires
            self.wf(),
        ensures
            r@.len() == self@.products.len(),
            forall|i: int|
                0 <= i < r@.len() ==> self@.products.contains_key(#[trigger] r@[i].id.0)
                    && *r@[i] == self@.products[r@[i].id.0],
            forall|k: u64| #[trigger]
                self@.products.contains_key(k) ==> exists|i: int|
                    0 <= i < r@.len() && r@[i].id.0 == k,
            forall|i: int, j: int| 0 <= i < j < r@.len() ==> r@[i].id.0 < r@[j].id.0,
    {
        let keys = key_list(&self.products);
        let ids = sorted_ids(&keys);
        let mut out: Vec<&Product> = Vec::new();
        let mut i: usize = 0;
        while i < ids.len()
            invariant
                self.wf(),
                i <= ids@.len(),
                out@.len() == i,
                strictly_increasing(ids@),
                forall|x: u64| ids@.contains(x) <==> self@.products.contains_key(x),
                forall|j: int|
                    #![trigger out@[j]]
                    0 <= j < i ==> out@[j].id.0 == ids@[j] && self@.products.contains_key(
                        out@[j].id.0,
                    ) && *out@[j] == self@.products[out@[j].id.0],
            decreases ids@.len() - i,
        {
            assert(ids@.contains(ids@[i as int]));
            match self.products.get(&ids[i]) {
                Some(c) => {
                    out.push(c);
                },
                None => {
                    assert(false);
                },
            }
            i = i + 1;
        }
        proof {
            assert(keys@.to_set() =~= self@.products.dom()) by {
                assert forall|x: u64| keys@.to_set().contains(x) == self@.products.dom().contains(x) by {}
            }
            keys@.unique_seq_to_set();
            assert forall|k: u64| #[trigger] self@.products.contains_key(k) implies exists|j: int|
                0 <= j < out@.len() && out@[j].id.0 == k by {
                assert(ids@.contains(k));
                let j = choose|j: int| 0 <= j < ids@.len() && ids@[j] == k;
                assert(out@[j].id.0 == k);
            }
        }
        out
    }

    // --- Customers ---

    /// Registers a customer under the next id, with a vertex of its own. Refused, with
    /// the store unchanged, when the name is blank.
    pub fn register_customer(&mut self, name: String) -> (r: Result<Customer, StoreError>)
        requires
            old(self).wf(),
            old(self)@.can_add_customer(),
        ensures
            final(self).wf(),
            is_blank_text(name@) ==> r == Err::<Customer, StoreError>(StoreError::InvalidInput)
                && final(self)@ == old(self)@,
            !is_blank_text(name@) ==> r is Ok && r->Ok_0@ == (CustomerView {
                id: CustomerId(old(self)@.next_customer_id),
                name: name@,
                purchased: Seq::empty(),
            }) && final(self)@ == (StoreView {
                next_customer_id: (old(self)@.next_customer_id + 1) as u64,
                ..old(self)@
            }).after_insert_customer(old(self)@.next_customer_id, name@),
    {
        if is_blank(name.as_str()) {
            return Err(StoreError::InvalidInput);
        }
        let id = CustomerId(self.next_customer_id);
        self.next_customer_id = self.next_customer_id + 1;
        self.insert_customer(id, name)
    }

    /// Registers a customer under the given id, with a vertex of its own; the next id
    /// moves past it. Refused, with the store unchanged, when the name is blank or the
    /// id is taken.
    pub fn register_customer_with_id(&mut self, id: CustomerId, name: String) -> (r: Result<
        Customer,
        StoreError,
    >)
        requires
            old(self).wf(),
            old(self)@.graph.next_id < u64::MAX,
            !is_blank_text(name@) && !old(self)@.customers.contains_key(id.0) ==> id.0 < u64::MAX,
        ensures
            final(self).wf(),
            is_blank_text(name@) ==> r == Err::<Customer, StoreError>(StoreError::InvalidInput)
                && final(self)@ == old(self)@,
            !is_blank_text(name@) && old(self)@.customers.contains_key(id.0) ==> r == Err::<
                Customer,
                StoreError,
            >(StoreError::CustomerAlreadyExists) && final(self)@ == old(self)@,
            !is_blank_text(name@) && !old(self)@.customers.contains_key(id.0) ==> r is Ok
                && r->Ok_0@ == (CustomerView { id, name: name@, purchased: Seq::empty() })
                && final(self)@ == (StoreView {
                next_customer_id: if id.0 >= old(self)@.next_customer_id {
                    (id.0 + 1) as u64
                } else {
                    old(self)@.next_customer_id
                },
                ..old(self)@
            }).after_insert_customer(id.0, name@),
    {
        if is_blank(name.as_str()) {
            return Err(StoreError::InvalidInput);
        }
        if self.customers.contains_key(&id.0) {
            return Err(StoreError::CustomerAlreadyExists);
        }
        if id.0 >= self.next_customer_id {
            self.next_customer_id = id.0 + 1;
        }
        self.insert_customer(id, name)
    }

    fn insert_customer(&mut self, id: CustomerId, name: String) -> (r: Result<Customer, StoreError>)
        requires
            old(self).wf(),
            old(self)@.graph.next_id < u64::MAX,
            id.0 < old(self)@.next_customer_id,
            !old(self)@.customers.contains_key(id.0),
        ensures
            final(self).wf(),
            r is Ok,
            r->Ok_0@ == (CustomerView { id, name: name@, purchased: Seq::empty() }),
            final(self)@ == old(self)@.after_insert_customer(id.0, name@),
    {
        let ghost before = self@;
        let customer = Customer::new(id, name);
        self.customers.insert(id.0, customer.duplicate());
        let vertex = match self.graph.add_vertex(VertexKind::Customer(id)) {
            Ok(v) => v,
            Err(e) => {
                return Err(StoreError::from(e));
            },
        };
        self.customer_vertices.insert(id.0, vertex);
        proof {
            assert(self@.customers =~= before.customers.insert(id.0, customer@));
            assert(self@ =~= before.after_insert_customer(id.0, name@));
            assert forall|k: u64| #[trigger] self@.products.contains_key(k) implies {
                &&& self@.products[k].id == ProductId(k)
                &&& k < self@.next_product_id
                &&& self@.graph.has_vertex(self@.product_vertices[k].0)
                &&& self@.graph.vertices[self@.product_vertices[k].0].kind == VertexKind::Product(
                    ProductId(k),
                )
            } by {
                assert(before.products.contains_key(k));
            }
            assert forall|k: u64| #[trigger] self@.customers.contains_key(k) implies {
                &&& self@.customers[k].id == CustomerId(k)
                &&& k < self@.next_customer_id
                &&& self@.graph.has_vertex(self@.customer_vertices[k].0)
                &&& self@.graph.vertices[self@.customer_vertices[k].0].kind == VertexKind::Customer(
                    CustomerId(k),
                )
            } by {
                if k != id.0 {
                    assert(before.customers.contains_key(k));
                }
            }
            assert forall|k: u64| #[trigger] self@.categories.contains_key(k) implies {
                &&& self@.categories[k].id == CategoryId(k)
                &&& k < self@.next_category_id
                &&& self@.graph.has_vertex(self@.category_vertices[k].0)
                &&& self@.graph.vertices[self@.category_vertices[k].0].kind == VertexKind::Category(
                    CategoryId(k),
                )
            } by {
                assert(before.categories.contains_key(k));
            }
        }
        Ok(customer)
    }

    pub fn get_customer(&self, id: CustomerId) -> (r: Option<&Customer>)
        ensures
            match r {
                Some(c) => self@.customers.contains_key(id.0) && c@ == self@.customers[id.0],
                None => !self@.customers.contains_key(id.0),
            },
    {
        self.customers.get(&id.0)
    }

    /// Every customer, in increasing order of id.
    pub fn list_customers(&self) -> (r: Vec<&Customer>)
        requires
            self.wf(),
        ensures
            r@.len() == self@.customers.len(),
            forall|i: int|
                0 <= i < r@.len() ==> self@.customers.contains_key(#[trigger] r@[i].id.0)
                    && r@[i]@ == self@.customers[r@[i].id.0],
            forall|k: u64| #[trigger]
                self@.customers.contains_key(k) ==> exists|i: int|
                    0 <= i < r@.len() && r@[i].id.0 == k,
            forall|i: int, j: int| 0 <= i < j < r@.len() ==> r@[i].id.0 < r@[j].id.0,
    {
        let keys = key_list(&self.customers);
        let ids = sorted_ids(&keys);
        let mut out: Vec<&Customer> = Vec::new();
        let mut i: usize = 0;
        while i < ids.len()
            invariant
                self.wf(),
                i <= ids@.len(),
                out@.len() == i,
                strictly_increasing(ids@),
                forall|x: u64| ids@.contains(x) <==> self@.customers.contains_key(x),
                forall|j: int|
                    #![trigger out@[j]]
                    0 <= j < i ==> out@[j].id.0 == ids@[j] && self@.customers.contains_key(
                        out@[j].id.0,
                    ) && out@[j]@ == self@.customers[out@[j].id.0],
            decreases ids@.len() - i,
        {
            assert(ids@.contains(ids@[i as int]));
            match self.customers.get(&ids[i]) {
                Some(c) => {
                    out.push(c);
                },
                None => {
                    assert(false);
                },
            }
            i = i + 1;
        }
        proof {
            assert(keys@.to_set() =~= self@.customers.dom()) by {
                assert forall|x: u64| keys@.to_set().contains(x) == self@.customers.dom().contains(x) by {}
            }
            keys@.unique_seq_to_set();
            assert forall|k: u64| #[trigger] self@.customers.contains_key(k) implies exists|j: int|
                0 <= j < out@.len() && out@[j].id.0 == k by {
                assert(ids@.contains(k));
                let j = choose|j: int| 0 <= j < ids@.len() && ids@[j] == k;
                assert(out@[j].id.0 == k);
            }
        }
        out
    }

    pub fn product_vertex(&self, product_id: ProductId) -> (r: Option<VertexId>)
        ensures
            r == self@.product_vertices.get(product_id.0),
    {
        match self.product_vertices.get(&product_id.0) {
            Some(v) => Some(*v),
            None => None,
        }
    }

    pub fn customer_vertex(&self, customer_id: CustomerId) -> (r: Option<VertexId>)
        ensures
            r == self@.customer_vertices.get(customer_id.0),
    {
        match self.customer_vertices.get(&customer_id.0) {
            Some(v) => Some(*v),
            None => None,
        }
    }


    // --- Connections ---

    /// Records that the customer bought the product: an undirected `Purchased` edge
    /// joins their vertices, and the product joins the customer's purchases unless
    /// already there. Refused, with the store unchanged, when either is unknown.
    pub fn link_purchase(
        &mut self,
        customer_id: CustomerId,
        product_id: ProductId,
        weight: u32,
    ) -> (r: Result<(), StoreError>)
        requires
            old(self).wf(),
        ensures
            final(self).wf(),
            !old(self)@.customer_vertices.contains_key(customer_id.0) ==> r == Err::<(), StoreError>(
                StoreError::CustomerNotFound,
            ) && final(self)@ == old(self)@,
            old(self)@.customer_vertices.contains_key(customer_id.0)
                && !old(self)@.product_vertices.contains_key(product_id.0) ==> r == Err::<
                (),
                StoreError,
            >(StoreError::ProductNotFound) && final(self)@ == old(self)@,
            old(self)@.customer_vertices.contains_key(customer_id.0)
                && old(self)@.product_vertices.contains_key(product_id.0) ==> r == Ok::<
                (),
                StoreError,
            >(()) && final(self)@ == old(self)@.after_purchase(
                customer_id,
                product_id,
                weight,
            ),
    {
        let a = match self.customer_vertices.get(&customer_id.0) {
            Some(v) => *v,
            None => {
                return Err(StoreError::CustomerNotFound);
            },
        };
        let b = match self.product_vertices.get(&product_id.0) {
            Some(v) => *v,
            None => {
                return Err(StoreError::ProductNotFound);
            },
        };
        let ghost before = self@;
        match self.graph.add_undirected_edge(a, b, Edge::new(b, EdgeType::Purchased, weight)) {
            Ok(()) => {},
            Err(e) => {
                return Err(StoreError::from(e));
            },
        }
        let ghost mid = self@;
        match self.customers.remove(&customer_id.0) {
            Some(mut customer) => {
                if !contains_product(&customer.purchased_product_ids, product_id) {
                    customer.purchased_product_ids.push(product_id);
                }
                self.customers.insert(customer_id.0, customer);
            },
            None => {},
        }
        proof {
            assert(before.customers.contains_key(customer_id.0));
            let target = before.after_purchase(customer_id, product_id, weight);
            assert(self@.customers =~= target.customers);
            assert(self@ =~= target);
            lemma_relinked_well_formed(before, self@);
        }
        Ok(())
    }

    /// Records the customer's interest in the product with an undirected `Interested`
    /// edge. Refused, with the store unchanged, when either is unknown.
    pub fn link_interest(
        &mut self,
        customer_id: CustomerId,
        product_id: ProductId,
        weight: u32,
    ) -> (r: Result<(), StoreError>)
        requires
            old(self).wf(),
        ensures
            final(self).wf(),
            !old(self)@.customer_vertices.contains_key(customer_id.0) ==> r == Err::<(), StoreError>(
                StoreError::CustomerNotFound,
            ) && final(self)@ == old(self)@,
            old(self)@.customer_vertices.contains_key(customer_id.0)
                && !old(self)@.product_vertices.contains_key(product_id.0) ==> r == Err::<
                (),
                StoreError,
            >(StoreError::ProductNotFound) && final(self)@ == old(self)@,
            old(self)@.customer_vertices.contains_key(customer_id.0)
                && old(self)@.product_vertices.contains_key(product_id.0) ==> r == Ok::<
                (),
                StoreError,
            >(()) && final(self)@ == old(self)@.after_link(
                old(self)@.customer_vertices[customer_id.0],
                old(self)@.product_vertices[product_id.0],
                EdgeType::Interested,
                weight,
            ),
    {
        let a = match self.customer_vertices.get(&customer_id.0) {
            Some(v) => *v,
            None => {
                return Err(StoreError::CustomerNotFound);
            },
        };
        let b = match self.product_vertices.get(&product_id.0) {
            Some(v) => *v,
            None => {
                return Err(StoreError::ProductNotFound);
            },
        };
        let ghost before = self@;
        match self.graph.add_undirected_edge(a, b, Edge::new(b, EdgeType::Interested, weight)) {
            Ok(()) => {},
            Err(e) => {
                return Err(StoreError::from(e));
            },
        }
        proof {
            assert(self@.customers =~= before.customers);
            assert(self@ =~= before.after_link(a, b, EdgeType::Interested, weight));
            lemma_relinked_well_formed(before, self@);
        }
        Ok(())
    }

    /// Records that two products are alike with an undirected `Similar` edge (the
    /// edge stored at the first points to the second). Refused, with the store
    /// unchanged, when either is unknown.
    pub fn link_similar_products(
        &mut self,
        product_a: ProductId,
        product_b: ProductId,
        weight: u32,
    ) -> (r: Result<(), StoreError>)
        requires
            old(self).wf(),
        ensures
            final(self).wf(),
            !old(self)@.product_vertices.contains_key(product_a.0) ==> r == Err::<(), StoreError>(
                StoreError::ProductNotFound,
            ) && final(self)@ == old(self)@,
            old(self)@.product_vertices.contains_key(product_a.0)
                && !old(self)@.product_vertices.contains_key(product_b.0) ==> r == Err::<
                (),
                StoreError,
            >(StoreError::ProductNotFound) && final(self)@ == old(self)@,
            old(self)@.product_vertices.contains_key(product_a.0)
                && old(self)@.product_vertices.contains_key(product_b.0) ==> r == Ok::<
                (),
                StoreError,
            >(()) && final(self)@ == old(self)@.after_link(
                old(self)@.product_vertices[product_a.0],
                old(self)@.product_vertices[product_b.0],
                EdgeType::Similar,
                weight,
            ),
    {
        let a = match self.product_vertices.get(&product_a.0) {
            Some(v) => *v,
            None => {
                return Err(StoreError::ProductNotFound);
            },
        };
        let b = match self.product_vertices.get(&product_b.0) {
            Some(v) => *v,
            None => {
                return Err(StoreError::ProductNotFound);
            },
        };
        let ghost before = self@;
        match self.graph.add_undirected_edge(a, b, Edge::new(b, EdgeType::Similar, weight)) {
            Ok(()) => {},
            Err(e) => {
                return Err(StoreError::from(e));
            },
        }
        proof {
            assert(self@.customers =~= before.customers);
            assert(self@ =~= before.after_link(a, b, EdgeType::Similar, weight));
            lemma_relinked_well_formed(before, self@);
        }
        Ok(())
    }

    /// Records the customer's rating of the product with an undirected `Rated`
    /// edge. Refused, with the store unchanged, when either is unknown.
    pub fn link_rating(
        &mut self,
        customer_id: CustomerId,
        product_id: ProductId,
        weight: u32,
    ) -> (r: Result<(), StoreError>)
        requires
            old(self).wf(),
        ensures
            final(self).wf(),
            !old(self)@.customer_vertices.contains_key(customer_id.0) ==> r == Err::<(), StoreError>(
                StoreError::CustomerNotFound,
            ) && final(self)@ == old(self)@,
            old(self)@.customer_vertices.contains_key(customer_id.0)
                && !old(self)@.product_vertices.contains_key(product_id.0) ==> r == Err::<
                (),
                StoreError,
            >(StoreError::ProductNotFound) && final(self)@ == old(self)@,
            old(self)@.customer_vertices.contains_key(customer_id.0)
                && old(self)@.product_vertices.contains_key(product_id.0) ==> r == Ok::<
                (),
                StoreError,
            >(()) && final(self)@ == old(self)@.after_link(
                old(self)@.customer_vertices[customer_id.0],
                old(self)@.product_vertices[product_id.0],
                EdgeType::Rated,
                weight,
            ),
    {
        let a = match self.customer_vertices.get(&customer_id.0) {
            Some(v) => *v,
            None => {
                return Err(StoreError::CustomerNotFound);
            },
        };
        let b = match self.product_vertices.get(&product_id.0) {
            Some(v) => *v,
            None => {
                return Err(StoreError::ProductNotFound);
            },
        };
        let ghost before = self@;
        match self.graph.add_undirected_edge(a, b, Edge::new(b, EdgeType::Rated, weight)) {
            Ok(()) => {},
            Err(e) => {
                return Err(StoreError::from(e));
            },
        }
        proof {
            assert(self@.customers =~= before.customers);
            assert(self@ =~= before.after_link(a, b, EdgeType::Rated, weight));
            lemma_relinked_well_formed(before, self@);
        }
        Ok(())
    }

}

} // verus!
