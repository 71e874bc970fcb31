use conectastore::graph::{EdgeType, VertexKind};
use conectastore::models::{CategoryId, CustomerId, ProductId};
use conectastore::repository::{Store, StoreError};

fn price(x: f64) -> u64 {
    x.to_bits()
}

fn milli(x: f64) -> u32 {
    (x * 1000.0).round() as u32
}

#[test]
fn register_and_get_product() {
    let mut store = Store::new();
    let cat = store.register_category("Informática".to_string()).expect("cat");
    let p = store
        .register_product(
            "Notebook A".to_string(),
            cat.id,
            price(3500.0),
            "16GB RAM".to_string(),
        )
        .expect("product");
    assert_eq!(store.get_product(p.id).unwrap().name, "Notebook A");
}

#[test]
fn register_customer() {
    let mut store = Store::new();
    let c = store.register_customer("Maria".to_string()).expect("customer");
    assert_eq!(store.get_customer(c.id).unwrap().name, "Maria");
}

#[test]
fn register_customer_rejects_empty_name() {
    let mut store = Store::new();
    assert!(matches!(
        store.register_customer("   ".to_string()),
        Err(StoreError::InvalidInput)
    ));
}

#[test]
fn register_customer_rejects_duplicate_id() {
    let mut store = Store::new();
    store
        .register_customer_with_id(CustomerId(5), "A".to_string())
        .expect("first");
    assert!(matches!(
        store.register_customer_with_id(CustomerId(5), "B".to_string()),
        Err(StoreError::CustomerAlreadyExists)
    ));
}

#[test]
fn product_not_found() {
    let store = Store::new();
    assert!(store.get_product(ProductId(999)).is_none());
}

#[test]
fn product_needs_known_category_and_name() {
    let mut store = Store::new();
    assert_eq!(
        store
            .register_product("X".to_string(), CategoryId(1), price(1.0), "d".to_string())
            .err(),
        Some(StoreError::CategoryNotFound)
    );
    let cat = store.register_category("Livros".to_string()).unwrap();
    assert_eq!(
        store
            .register_product(" \t\n".to_string(), cat.id, price(1.0), "d".to_string())
            .err(),
        Some(StoreError::InvalidInput)
    );
    assert!(store.list_products().is_empty());
    let p = store
        .register_product("Livro".to_string(), cat.id, price(49.905), "d".to_string())
        .unwrap();
    assert_eq!(p.id, ProductId(1));
    assert_eq!(f64::from_bits(p.price_bits), 49.905);
    assert_eq!(p.category_id, cat.id);
}

#[test]
fn product_is_tied_to_its_category() {
    let mut store = Store::new();
    let cat = store.register_category("Casa".to_string()).unwrap();
    let p = store
        .register_product("Lâmpada".to_string(), cat.id, 999, "LED".to_string())
        .unwrap();
    let pv = store.product_vertex(p.id).unwrap();
    let edges = store.graph().neighbors(pv).unwrap();
    assert_eq!(edges.len(), 1);
    assert_eq!(edges[0].edge_type, EdgeType::BelongsTo);
    assert_eq!(edges[0].weight, 600);
    assert_eq!(
        store.graph().get_vertex(pv).unwrap().kind,
        VertexKind::Product(p.id)
    );
    assert_eq!(store.graph().edge_count(), 1);
}

#[test]
fn ids_are_assigned_in_order_and_lists_are_sorted() {
    let mut store = Store::new();
    let c1 = store.register_category("A".to_string()).unwrap();
    let c2 = store.register_category("B".to_string()).unwrap();
    assert_eq!(c1.id, CategoryId(1));
    assert_eq!(c2.id, CategoryId(2));
    store
        .register_customer_with_id(CustomerId(10), "Dez".to_string())
        .unwrap();
    let next = store.register_customer("Onze".to_string()).unwrap();
    assert_eq!(next.id, CustomerId(11));
    store
        .register_customer_with_id(CustomerId(3), "Tres".to_string())
        .unwrap();
    let ids: Vec<u64> = store.list_customers().iter().map(|c| c.id.0).collect();
    assert_eq!(ids, vec![3, 10, 11]);
    let cats: Vec<u64> = store.list_categories().iter().map(|c| c.id.0).collect();
    assert_eq!(cats, vec![1, 2]);
    assert_eq!(store.get_category(CategoryId(2)).unwrap().name, "B");
    assert!(store.get_category(CategoryId(3)).is_none());
}

#[test]
fn purchase_is_recorded_once() {
    let mut store = Store::new();
    let cat = store.register_category("C".to_string()).unwrap();
    let p = store
        .register_product("P".to_string(), cat.id, 1, "d".to_string())
        .unwrap();
    let c = store.register_customer("Ana".to_string()).unwrap();
    store.link_purchase(c.id, p.id, milli(1.0)).unwrap();
    store.link_purchase(c.id, p.id, milli(1.0)).unwrap();
    assert_eq!(
        store.get_customer(c.id).unwrap().purchased_product_ids,
        vec![p.id]
    );
    // both purchases are edges of the graph, plus the category edge
    assert_eq!(store.graph().edge_count(), 3);
}

#[test]
fn links_refuse_unknown_entities() {
    let mut store = Store::new();
    let cat = store.register_category("C".to_string()).unwrap();
    let p = store
        .register_product("P".to_string(), cat.id, 1, "d".to_string())
        .unwrap();
    let c = store.register_customer("Ana".to_string()).unwrap();
    assert_eq!(
        store.link_purchase(CustomerId(9), p.id, 1),
        Err(StoreError::CustomerNotFound)
    );
    assert_eq!(
        store.link_interest(c.id, ProductId(9), 1),
        Err(StoreError::ProductNotFound)
    );
    assert_eq!(
        store.link_rating(CustomerId(9), ProductId(9), 1),
        Err(StoreError::CustomerNotFound)
    );
    assert_eq!(
        store.link_similar_products(p.id, ProductId(9), 1),
        Err(StoreError::ProductNotFound)
    );
    assert!(store.customer_vertex(CustomerId(9)).is_none());
    assert_eq!(store.graph().edge_count(), 1);
}

#[test]
fn graph_error_converts_to_store_error() {
    let e: StoreError = conectastore::graph::GraphError::VertexNotFound.into();
    assert_eq!(
        e,
        StoreError::GraphError(conectastore::graph::GraphError::VertexNotFound)
    );
}

#[test]
fn automatic_ids_stay_above_explicit_ones() {
    let mut s = Store::new();
    s.register_customer_with_id(CustomerId(5), "A".to_string()).unwrap();
    let b = s.register_customer("B".to_string()).unwrap();
    assert_eq!(b.id, CustomerId(6));
}

#[test]
fn product_price_must_be_finite_and_not_negative() {
    let mut store = Store::new();
    let cat = store.register_category("Livros".to_string()).unwrap();
    for bad in [-0.01, f64::NAN, f64::INFINITY, f64::NEG_INFINITY, -1e300] {
        assert_eq!(
            store
                .register_product("X".to_string(), cat.id, price(bad), "d".to_string())
                .err(),
            Some(StoreError::InvalidInput)
        );
    }
    // an invalid price is refused before an unknown category is looked at
    assert_eq!(
        store
            .register_product("X".to_string(), CategoryId(9), price(-1.0), "d".to_string())
            .err(),
        Some(StoreError::InvalidInput)
    );
    assert!(store.list_products().is_empty());
    for good in [0.0, -0.0, 1e300, f64::MAX, 5e-324, 0.001] {
        let p = store
            .register_product("Y".to_string(), cat.id, price(good), "d".to_string())
            .unwrap();
        assert_eq!(p.price_bits, good.to_bits());
    }
}
