//! What the store guarantees across calls: a registered entity is read back as it
//! was registered, under a fresh id, and a product is tied to its category both ways.
use vstd::prelude::*;

use crate::graph::{Edge, EdgeType, VertexKind};
use crate::models::{CategoryId, CustomerId, CustomerView, Product, ProductId, VertexId};

use super::store::{StoreView, CATEGORY_EDGE_WEIGHT};

verus! {

/// Registering a product stores it under a fresh id, leaves every other product as it
/// was, gives it a product vertex with a single `BelongsTo` edge to the vertex of its
/// category, and stores the reverse edge at the category's vertex.
pub proof fn registered_product_is_read_back(
    s: StoreView,
    name: String,
    category_id: CategoryId,
    price_bits: u64,
    description: String,
)
    requires
        s.well_formed(),
        s.can_add_product(),
        s.categories.contains_key(category_id.0),
    ensures
        ({
            let t = s.after_register_product(name, category_id, price_bits, description);
            let id = s.next_product_id;
            let v = t.product_vertices[id];
            let c = s.category_vertices[category_id.0];
            &&& !s.products.contains_key(id)
            &&& t.products[id] == (Product {
                id: ProductId(id),
                name,
                category_id,
                price_bits,
                description,
            })
            &&& forall|k: u64| #[trigger]
                s.products.contains_key(k) ==> t.products.contains_key(k) && t.products[k]
                    == s.products[k]
            &&& t.graph.has_vertex(v.0)
            &&& !s.graph.has_vertex(v.0)
            &&& t.graph.vertices[v.0].kind == VertexKind::Product(ProductId(id))
            &&& t.graph.edges_of(v.0) == seq![
                Edge { to: c, edge_type: EdgeType::BelongsTo, weight: CATEGORY_EDGE_WEIGHT },
            ]
            &&& t.graph.edges_of(c.0) == s.graph.edges_of(c.0).push(
                Edge { to: v, edge_type: EdgeType::BelongsTo, weight: CATEGORY_EDGE_WEIGHT },
            )
        }),
{
    let id = s.next_product_id;
    let v = s.graph.next_id;
    let c = s.category_vertices[category_id.0];
    assert(s.graph.has_vertex(c.0));
    assert(c.0 < v);
    let t = s.after_register_product(name, category_id, price_bits, description);
    assert(t.graph.edges_of(v) =~= seq![
        Edge { to: c, edge_type: EdgeType::BelongsTo, weight: CATEGORY_EDGE_WEIGHT },
    ]);
}

/// Registering a customer under an id that is not taken stores it with no purchases,
/// leaves every other customer as it was, and gives it a customer vertex with no edges.
pub proof fn registered_customer_is_read_back(s: StoreView, id: u64, name: Seq<char>)
    requires
        s.well_formed(),
        !s.customers.contains_key(id),
    ensures
        ({
            let t = s.after_insert_customer(id, name);
            let v = t.customer_vertices[id];
            &&& t.customers[id] == (CustomerView {
                id: CustomerId(id),
                name,
                purchased: Seq::empty(),
            })
            &&& forall|k: u64| #[trigger]
                s.customers.contains_key(k) ==> t.customers.contains_key(k) && t.customers[k]
                    == s.customers[k]
            &&& v == VertexId(s.graph.next_id)
            &&& !s.graph.has_vertex(v.0)
            &&& t.graph.vertices[v.0].kind == VertexKind::Customer(CustomerId(id))
            &&& t.graph.edges_of(v.0) == Seq::<Edge>::empty()
        }),
{
    let t = s.after_insert_customer(id, name);
    assert(!s.graph.has_vertex(s.graph.next_id));
}

/// A purchase is recorded at most once: buying a product adds it to the customer's
/// purchases, and a list of purchases without repeats stays without repeats.
pub proof fn purchases_stay_distinct(s: StoreView, c: u64, p: ProductId)
    requires
        s.customers.contains_key(c),
        s.customers[c].purchased.no_duplicates(),
    ensures
        s.purchases_with(c, p).no_duplicates(),
        s.purchases_with(c, p).contains(p),
        forall|q: ProductId| s.customers[c].purchased.contains(q) ==> #[trigger] s.purchases_with(
            c,
            p,
        ).contains(q),
{
    let old_p = s.customers[c].purchased;
    if !old_p.contains(p) {
        let new_p = old_p.push(p);
        assert(new_p[old_p.len() as int] == p);
        assert forall|q: ProductId| old_p.contains(q) implies #[trigger] new_p.contains(q) by {
            let k = choose|k: int| 0 <= k < old_p.len() && old_p[k] == q;
            assert(new_p[k] == q);
        }
    }
}

/// Automatic customer ids never collide with explicit ones: in a well-formed store the
/// next automatic id lies above the id of every stored customer, and registering a
/// customer under an explicit id that is not taken moves the next automatic id past it.
pub proof fn automatic_customer_ids_stay_above(s: StoreView, id: u64, name: Seq<char>)
    requires
        s.well_formed(),
        !s.customers.contains_key(id),
        id < u64::MAX,
    ensures
        forall|k: u64| #[trigger] s.customers.contains_key(k) ==> k < s.next_customer_id,
        ({
            let t = (StoreView {
                next_customer_id: if id >= s.next_customer_id {
                    (id + 1) as u64
                } else {
                    s.next_customer_id
                },
                ..s
            }).after_insert_customer(id, name);
            &&& t.customers.contains_key(id)
            &&& forall|k: u64| #[trigger] t.customers.contains_key(k) ==> k < t.next_customer_id
        }),
{
}

} // verus!
