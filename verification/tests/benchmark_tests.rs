use conectastore::benchmark::{
    build_synthetic_store, run_benchmark, run_benchmark_with_config, summarize_samples,
    BenchmarkConfig, BENCHMARK_MAX_DEPTH, BENCHMARK_RECOMMENDATION_LIMIT, BENCHMARK_REPETITIONS,
};
use conectastore::models::{CustomerId, ProductId};

#[test]
fn benchmark_runs_three_volumes() {
    let rows = run_benchmark(&[10, 50, 100]);
    assert_eq!(rows.len(), 3);
    for row in rows {
        assert_eq!(row.repetitions, BENCHMARK_REPETITIONS);
        assert!(row.avg_micros < 60_000_000);
    }
}

#[test]
fn default_config_matches_constants() {
    let cfg = BenchmarkConfig::default();
    assert_eq!(cfg.volumes, vec![100, 1_000, 10_000]);
    assert_eq!(cfg.repetitions, 10);
    assert_eq!(cfg.max_depth, BENCHMARK_MAX_DEPTH);
    assert_eq!(cfg.limit, BENCHMARK_RECOMMENDATION_LIMIT);
}

#[test]
fn rows_follow_the_configuration() {
    let cfg = BenchmarkConfig {
        volumes: vec![3, 1],
        repetitions: 2,
        max_depth: 3,
        limit: 5,
    };
    let rows = run_benchmark_with_config(&cfg);
    assert_eq!(rows.len(), 2);
    assert_eq!(rows[0].volume, 3);
    assert_eq!(rows[1].volume, 1);
    for row in rows {
        assert_eq!(row.repetitions, 2);
        assert!(row.min_micros <= row.avg_micros && row.avg_micros <= row.max_micros);
        assert!(row.total_micros >= row.max_micros);
    }
}

#[test]
fn samples_are_summarised() {
    let row = summarize_samples(7, &vec![5, 1, 9, 4]);
    assert_eq!(row.volume, 7);
    assert_eq!(row.repetitions, 4);
    assert_eq!(row.total_micros, 19);
    assert_eq!(row.avg_micros, 4);
    assert_eq!(row.min_micros, 1);
    assert_eq!(row.max_micros, 9);
}

#[test]
fn synthetic_store_is_a_chain() {
    let store = build_synthetic_store(5);
    assert_eq!(store.list_products().len(), 5);
    assert_eq!(store.list_categories().len(), 1);
    let c = store.get_customer(CustomerId(1)).unwrap();
    assert_eq!(c.purchased_product_ids, vec![ProductId(1)]);
    assert_eq!(store.get_product(ProductId(3)).unwrap().name, "Produto-2");
    assert_eq!(f64::from_bits(store.get_product(ProductId(3)).unwrap().price_bits), 102.0);
    // 5 category edges, 4 similarity edges, 1 purchase
    assert_eq!(store.graph().edge_count(), 10);
    let empty = build_synthetic_store(0);
    assert_eq!(empty.list_products().len(), 1);
}

#[test]
fn synthetic_store_has_the_whole_chain() {
    let n = 6;
    let store = build_synthetic_store(n);
    let products = store.list_products();
    assert_eq!(products.len(), n);
    for (k, p) in products.iter().enumerate() {
        assert_eq!(p.id, ProductId(k as u64 + 1));
        assert_eq!(p.name, format!("Produto-{}", k));
        assert_eq!(p.category_id.0, 1);
    }
    assert_eq!(store.list_categories()[0].name, "Eletrônicos");
    let customers = store.list_customers();
    assert_eq!(customers.len(), 1);
    assert_eq!(customers[0].name, "Cliente Benchmark");
    assert_eq!(customers[0].purchased_product_ids, vec![ProductId(1)]);
    assert_eq!(store.graph().vertex_count(), n + 2);
    assert_eq!(store.graph().edge_count(), 2 * n);
}

#[test]
fn no_volumes_need_no_repetitions() {
    let cfg = BenchmarkConfig { volumes: vec![], repetitions: 0, max_depth: 3, limit: 5 };
    assert!(run_benchmark_with_config(&cfg).is_empty());
}

#[test]
fn synthetic_prices_follow_float_addition() {
    let store = build_synthetic_store(4);
    for p in store.list_products() {
        let i = p.id.0 as usize - 1;
        assert_eq!(p.price_bits, (100.0 + i as f64).to_bits());
    }
}
