use conectastore::graph::EdgeType;
use conectastore::models::{CustomerId, ProductId};
use conectastore::recommendation::{
    score_recommendation, RecommendationEngine, RecommendationError, Score,
};
use conectastore::repository::Store;
use conectastore::utils::load_demo_store;
use std::collections::HashSet;

fn price(x: f64) -> u64 {
    x.to_bits()
}

fn milli(x: f64) -> u32 {
    (x * 1000.0).round() as u32
}

fn setup_store_with_chain() -> (Store, CustomerId, ProductId, ProductId) {
    let mut store = Store::new();
    let cat = store.register_category("Informática".to_string()).expect("cat");
    let notebook_a = store
        .register_product("Notebook A".to_string(), cat.id, price(3000.0), "A".to_string())
        .expect("na");
    let notebook_b = store
        .register_product("Notebook B".to_string(), cat.id, price(3200.0), "B".to_string())
        .expect("nb");
    let mouse = store
        .register_product("Mouse X".to_string(), cat.id, price(150.0), "X".to_string())
        .expect("mouse");
    let customer = store.register_customer("Cliente 1".to_string()).expect("c1");
    store
        .link_purchase(customer.id, notebook_a.id, milli(1.0))
        .expect("purchase");
    store
        .link_similar_products(notebook_a.id, notebook_b.id, milli(0.9))
        .expect("sim");
    store
        .link_similar_products(notebook_b.id, mouse.id, milli(0.7))
        .expect("sim2");
    (store, customer.id, notebook_a.id, mouse.id)
}

#[test]
fn recommends_related_products_for_customer() {
    let (store, customer, _, mouse) = setup_store_with_chain();
    let recs = RecommendationEngine::for_customer(&store, customer, 4, 10).expect("recs");
    let ids: Vec<_> = recs.iter().map(|r| r.product_id).collect();
    assert!(ids.contains(&mouse));
}

#[test]
fn no_duplicate_recommendations() {
    let (store, customer, _, _) = setup_store_with_chain();
    let recs = RecommendationEngine::for_customer(&store, customer, 4, 10).expect("recs");
    let mut set = HashSet::new();
    for r in recs {
        assert!(set.insert(r.product_id));
    }
}

#[test]
fn product_recommendation_excludes_self() {
    let (store, _, notebook_a, _) = setup_store_with_chain();
    let recs = RecommendationEngine::for_product(&store, notebook_a, 4, 10).expect("recs");
    assert!(!recs.iter().any(|r| r.product_id == notebook_a));
}

#[test]
fn isolated_customer_no_recommendations() {
    let mut s = Store::new();
    let cat = s.register_category("Y".to_string()).expect("c");
    let p = s
        .register_product(
            "Solitário".to_string(),
            cat.id,
            price(1.0),
            "sem links".to_string(),
        )
        .expect("p");
    let c = s.register_customer("Isolado".to_string()).expect("cust");
    let err = RecommendationEngine::for_customer(&s, c.id, 2, 5);
    assert!(matches!(err, Err(RecommendationError::NoRecommendations)));
    let err2 = RecommendationEngine::for_product(&s, p.id, 2, 5);
    assert!(matches!(err2, Err(RecommendationError::NoRecommendations)));
}

#[test]
fn closer_and_stronger_scores_higher() {
    let near = score_recommendation(milli(1.0), EdgeType::Similar, 1);
    let far = score_recommendation(milli(1.0), EdgeType::Similar, 3);
    assert!(near > far);
}

#[test]
fn score_is_weight_times_multiplier_over_depth() {
    let s = score_recommendation(800, EdgeType::Similar, 2);
    assert_eq!(s.numerator, 720_000);
    assert_eq!(s.denominator, 2);
    let at_zero = score_recommendation(1000, EdgeType::Purchased, 0);
    assert_eq!(at_zero.denominator, 1);
    assert!(at_zero == Score { numerator: 2_000_000, denominator: 2 });
    let stronger = score_recommendation(1000, EdgeType::Purchased, 2);
    let weaker = score_recommendation(1000, EdgeType::BelongsTo, 2);
    assert!(stronger > weaker);
}

#[test]
fn recommendations_are_ranked_by_score() {
    let (store, customer, _, mouse) = setup_store_with_chain();
    let recs = RecommendationEngine::for_customer(&store, customer, 4, 10).expect("recs");
    // notebook B (similar at depth 2) comes before the mouse (depth 3)
    assert_eq!(recs.len(), 2);
    assert_eq!(recs[0].product_id, ProductId(2));
    assert_eq!(recs[0].depth, 2);
    assert_eq!(recs[1].product_id, mouse);
    assert_eq!(recs[1].depth, 3);
    for w in recs.windows(2) {
        assert!(!(w[1].score > w[0].score));
    }
}

#[test]
fn purchased_products_are_not_recommended() {
    let (store, customer, notebook_a, _) = setup_store_with_chain();
    let recs = RecommendationEngine::for_customer(&store, customer, 4, 10).expect("recs");
    assert!(!recs.iter().any(|r| r.product_id == notebook_a));
}

#[test]
fn limit_cuts_the_list() {
    let (store, customer, _, _) = setup_store_with_chain();
    let recs = RecommendationEngine::for_customer(&store, customer, 4, 1).expect("recs");
    assert_eq!(recs.len(), 1);
    assert_eq!(recs[0].product_id, ProductId(2));
    let none = RecommendationEngine::for_customer(&store, customer, 4, 0);
    assert!(matches!(none, Err(RecommendationError::NoRecommendations)));
}

#[test]
fn unknown_start_is_reported() {
    let (store, _, _, _) = setup_store_with_chain();
    assert!(matches!(
        RecommendationEngine::for_customer(&store, CustomerId(99), 4, 10),
        Err(RecommendationError::CustomerNotFound)
    ));
    assert!(matches!(
        RecommendationEngine::for_product(&store, ProductId(99), 4, 10),
        Err(RecommendationError::ProductNotFound)
    ));
}

#[test]
fn depth_limit_bounds_recommendations() {
    let (store, customer, _, mouse) = setup_store_with_chain();
    let recs = RecommendationEngine::for_customer(&store, customer, 2, 10).expect("recs");
    assert!(recs.iter().all(|r| r.depth <= 2));
    assert!(!recs.iter().any(|r| r.product_id == mouse));
}

#[test]
fn demo_store_recommends_for_ana() {
    let store = load_demo_store();
    assert_eq!(store.list_products().len(), 12);
    assert_eq!(store.list_customers().len(), 3);
    assert_eq!(store.list_categories().len(), 7);
    let recs = RecommendationEngine::for_customer(&store, CustomerId(1), 4, 8).expect("recs");
    assert!(!recs.is_empty());
    assert!(recs.len() <= 8);
    assert!(!recs.iter().any(|r| r.product_id == ProductId(1)));
    assert!(recs.iter().any(|r| r.product_id == ProductId(2)));
}

#[test]
fn demo_store_graph_and_purchases() {
    let store = load_demo_store();
    assert_eq!(store.graph().vertex_count(), 22);
    assert_eq!(store.graph().edge_count(), 26);
    assert_eq!(store.get_customer(CustomerId(2)).unwrap().purchased_product_ids, vec![ProductId(6)]);
    assert_eq!(store.get_customer(CustomerId(3)).unwrap().purchased_product_ids, vec![ProductId(8)]);
}

#[test]
fn demo_recommendations_for_ana_exactly() {
    let store = load_demo_store();
    let recs = RecommendationEngine::for_customer(&store, CustomerId(1), 4, 8).expect("recs");
    let got: Vec<(u64, usize)> = recs.iter().map(|r| (r.product_id.0, r.depth)).collect();
    assert_eq!(got, vec![(5, 1), (2, 2), (4, 2), (11, 2), (3, 3)]);
    let expected = vec![
        score_recommendation(700, EdgeType::Interested, 1),
        score_recommendation(920, EdgeType::Similar, 2),
        score_recommendation(800, EdgeType::Similar, 2),
        score_recommendation(600, EdgeType::Similar, 2),
        score_recommendation(600, EdgeType::BelongsTo, 3),
    ];
    let scores: Vec<Score> = recs.iter().map(|r| r.score).collect();
    assert_eq!(scores, expected);
}

#[test]
fn smaller_limit_returns_a_prefix() {
    let store = load_demo_store();
    let all = RecommendationEngine::for_customer(&store, CustomerId(1), 4, 8).expect("recs");
    for l in 1..6 {
        let some = RecommendationEngine::for_customer(&store, CustomerId(1), 4, l).expect("recs");
        assert_eq!(some, all[..l.min(all.len())].to_vec());
    }
}
