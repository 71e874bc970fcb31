use conectastore::models::{CustomerId, ProductId};
use conectastore::recommendation::RecommendationEngine;
use conectastore::repository::Store;
use std::collections::HashSet;

fn price(x: f64) -> u64 {
    x.to_bits()
}

fn milli(x: f64) -> u32 {
    (x * 1000.0).round() as u32
}

fn build_test_store() -> (Store, CustomerId, ProductId, ProductId) {
    let mut store = Store::new();
    let cat = store.register_category("Informática".to_string()).expect("cat");
    let p1 = store
        .register_product("Notebook A".to_string(), cat.id, price(3000.0), "A".to_string())
        .expect("p1");
    let p2 = store
        .register_product("Notebook B".to_string(), cat.id, price(3200.0), "B".to_string())
        .expect("p2");
    let p3 = store
        .register_product("Mouse X".to_string(), cat.id, price(150.0), "X".to_string())
        .expect("p3");
    let customer = store.register_customer("Cliente 1".to_string()).expect("c");
    store
        .link_purchase(customer.id, p1.id, milli(1.0))
        .expect("purchase");
    store
        .link_similar_products(p1.id, p2.id, milli(0.9))
        .expect("sim");
    store
        .link_similar_products(p2.id, p3.id, milli(0.8))
        .expect("sim2");
    (store, customer.id, p1.id, p3.id)
}

#[test]
fn integration_create_entities_connections_and_recommend() {
    let (store, customer, _, mouse) = build_test_store();
    let recs = RecommendationEngine::for_customer(&store, customer, 4, 10).expect("recs");
    assert!(recs.iter().any(|r| r.product_id == mouse));
}

#[test]
fn integration_no_duplicate_recommendations() {
    let (store, customer, _, _) = build_test_store();
    let recs = RecommendationEngine::for_customer(&store, customer, 4, 10).expect("recs");
    let mut seen = HashSet::new();
    for r in recs {
        assert!(seen.insert(r.product_id));
    }
}

#[test]
fn integration_product_recommendation_excludes_source() {
    let (store, _, notebook_a, _) = build_test_store();
    let recs = RecommendationEngine::for_product(&store, notebook_a, 4, 10).expect("recs");
    assert!(!recs.iter().any(|r| r.product_id == notebook_a));
}
