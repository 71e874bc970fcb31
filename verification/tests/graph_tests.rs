use conectastore::graph::{bfs, dfs, Edge, EdgeType, Graph, GraphError, VertexKind};
use conectastore::models::{CustomerId, ProductId, VertexId};

fn milli(x: f64) -> u32 {
    (x * 1000.0).round() as u32
}

fn chain_graph() -> (Graph, VertexId, VertexId, VertexId) {
    let mut g = Graph::new();
    let c = g
        .add_vertex(VertexKind::Customer(CustomerId(1)))
        .expect("c");
    let p1 = g.add_vertex(VertexKind::Product(ProductId(1))).expect("p1");
    let p2 = g.add_vertex(VertexKind::Product(ProductId(2))).expect("p2");
    g.add_undirected_edge(c, p1, Edge::new(p1, EdgeType::Purchased, milli(1.0)))
        .expect("e1");
    g.add_undirected_edge(p1, p2, Edge::new(p2, EdgeType::Similar, milli(0.8)))
        .expect("e2");
    (g, c, p1, p2)
}

#[test]
fn insert_vertices_and_edges() {
    let mut g = Graph::new();
    let c = g
        .add_vertex(VertexKind::Customer(CustomerId(1)))
        .expect("customer");
    let p = g.add_vertex(VertexKind::Product(ProductId(1))).expect("product");
    g.add_undirected_edge(c, p, Edge::new(p, EdgeType::Purchased, milli(1.0)))
        .expect("edge");
    assert_eq!(g.vertex_count(), 2);
    assert_eq!(g.edge_count(), 1);
}

#[test]
fn bfs_finds_products_at_depth() {
    let (g, customer, _, p2) = chain_graph();
    let steps = bfs(&g, customer, 3);
    assert!(steps.iter().any(|s| s.vertex == p2));
}

#[test]
fn bfs_respects_max_depth() {
    let (g, customer, _, p2) = chain_graph();
    let steps = bfs(&g, customer, 1);
    assert!(!steps.iter().any(|s| s.vertex == p2));
}

#[test]
fn bfs_handles_cycle_without_infinite_loop() {
    let mut g = Graph::new();
    let p1 = g.add_vertex(VertexKind::Product(ProductId(1))).expect("p1");
    let p2 = g.add_vertex(VertexKind::Product(ProductId(2))).expect("p2");
    let p3 = g.add_vertex(VertexKind::Product(ProductId(3))).expect("p3");
    g.add_undirected_edge(p1, p2, Edge::new(p2, EdgeType::Similar, milli(1.0)))
        .expect("e1");
    g.add_undirected_edge(p2, p3, Edge::new(p3, EdgeType::Similar, milli(1.0)))
        .expect("e2");
    g.add_undirected_edge(p3, p1, Edge::new(p1, EdgeType::Similar, milli(1.0)))
        .expect("e3");
    let steps = bfs(&g, p1, 10);
    assert!(steps.len() <= 2);
}

#[test]
fn dfs_handles_cycle_without_infinite_loop() {
    let mut g = Graph::new();
    let p1 = g.add_vertex(VertexKind::Product(ProductId(1))).expect("p1");
    let p2 = g.add_vertex(VertexKind::Product(ProductId(2))).expect("p2");
    g.add_undirected_edge(p1, p2, Edge::new(p2, EdgeType::Similar, milli(1.0)))
        .expect("e");
    g.add_undirected_edge(p2, p1, Edge::new(p1, EdgeType::Similar, milli(1.0)))
        .expect("e2");
    let steps = dfs(&g, p1, 10);
    assert!(steps.len() <= 1);
}

#[test]
fn vertex_ids_start_at_one_and_increase() {
    let mut g = Graph::new();
    let a = g.add_vertex(VertexKind::Product(ProductId(7))).expect("a");
    let b = g.add_vertex(VertexKind::Customer(CustomerId(7))).expect("b");
    assert_eq!(a, VertexId(1));
    assert_eq!(b, VertexId(2));
    assert_eq!(g.get_vertex(a).unwrap().kind, VertexKind::Product(ProductId(7)));
    assert!(g.get_vertex(VertexId(3)).is_none());
    let listed: Vec<u64> = g.vertices().iter().map(|v| v.id.0).collect();
    assert_eq!(listed, vec![1, 2]);
}

#[test]
fn undirected_edge_is_stored_both_ways() {
    let (g, c, p1, _) = chain_graph();
    let from_c = g.neighbors(c).expect("c");
    assert_eq!(from_c, &[Edge::new(p1, EdgeType::Purchased, 1000)][..]);
    let from_p1 = g.neighbors(p1).expect("p1");
    assert_eq!(from_p1[0], Edge::new(c, EdgeType::Purchased, 1000));
    assert_eq!(g.edge_count(), 2);
    assert!(g.neighbors(VertexId(99)).is_none());
}

#[test]
fn edge_to_missing_vertex_is_refused() {
    let (mut g, c, _, _) = chain_graph();
    let missing = VertexId(42);
    let r = g.add_undirected_edge(c, missing, Edge::new(missing, EdgeType::Similar, 1));
    assert_eq!(r, Err(GraphError::VertexNotFound));
    let r2 = g.add_directed_edge(missing, c, Edge::new(c, EdgeType::Similar, 1));
    assert_eq!(r2, Err(GraphError::VertexNotFound));
    assert_eq!(g.edge_count(), 2);
}

#[test]
fn directed_edge_is_stored_once() {
    let (mut g, c, _, p2) = chain_graph();
    g.add_directed_edge(c, p2, Edge::new(p2, EdgeType::Interested, 500))
        .expect("directed");
    assert_eq!(g.neighbors(c).unwrap().len(), 2);
    assert_eq!(g.neighbors(p2).unwrap().len(), 1);
}

#[test]
fn bfs_reports_depths_and_first_edges() {
    let (g, c, p1, p2) = chain_graph();
    let steps = bfs(&g, c, 3);
    assert_eq!(steps.len(), 2);
    assert_eq!(steps[0].vertex, p1);
    assert_eq!(steps[0].depth, 1);
    assert_eq!(steps[0].via_edge, Some(Edge::new(p1, EdgeType::Purchased, 1000)));
    assert_eq!(steps[1].vertex, p2);
    assert_eq!(steps[1].depth, 2);
    assert_eq!(steps[1].via_edge, Some(Edge::new(p2, EdgeType::Similar, 800)));
}

#[test]
fn bfs_depth_is_shortest_distance() {
    let mut g = Graph::new();
    let a = g.add_vertex(VertexKind::Product(ProductId(1))).unwrap();
    let b = g.add_vertex(VertexKind::Product(ProductId(2))).unwrap();
    let c = g.add_vertex(VertexKind::Product(ProductId(3))).unwrap();
    g.add_undirected_edge(a, b, Edge::new(b, EdgeType::Similar, 1)).unwrap();
    g.add_undirected_edge(b, c, Edge::new(c, EdgeType::Similar, 1)).unwrap();
    g.add_undirected_edge(a, c, Edge::new(c, EdgeType::Similar, 1)).unwrap();
    let steps = bfs(&g, a, 5);
    assert_eq!(steps.len(), 2);
    assert!(steps.iter().all(|s| s.depth == 1));
}

#[test]
fn bfs_from_unknown_vertex_is_empty() {
    let (g, _, _, _) = chain_graph();
    assert!(bfs(&g, VertexId(77), 4).is_empty());
    assert!(dfs(&g, VertexId(77), 4).is_empty());
    assert!(bfs(&g, VertexId(1), 0).is_empty());
}

#[test]
fn dfs_reports_reachable_vertices_once() {
    let (g, c, p1, p2) = chain_graph();
    let steps = dfs(&g, c, 5);
    let ids: Vec<VertexId> = steps.iter().map(|s| s.vertex).collect();
    assert_eq!(ids, vec![p1, p2]);
    assert_eq!(steps[1].depth, 2);
}

#[test]
fn edge_type_multipliers_and_labels() {
    assert_eq!(EdgeType::Purchased.score_multiplier(), 1000);
    assert_eq!(EdgeType::Similar.score_multiplier(), 900);
    assert_eq!(EdgeType::Interested.score_multiplier(), 750);
    assert_eq!(EdgeType::Rated.score_multiplier(), 850);
    assert_eq!(EdgeType::BelongsTo.score_multiplier(), 500);
    assert_eq!(EdgeType::Purchased.label(), "Comprou");
    assert_eq!(EdgeType::BelongsTo.label(), "Categoria");
}

#[test]
fn dfs_goes_deep_before_wide_in_edge_order() {
    let mut g = Graph::new();
    let a = g.add_vertex(VertexKind::Product(ProductId(1))).unwrap();
    let b = g.add_vertex(VertexKind::Product(ProductId(2))).unwrap();
    let c = g.add_vertex(VertexKind::Product(ProductId(3))).unwrap();
    let d = g.add_vertex(VertexKind::Product(ProductId(4))).unwrap();
    g.add_undirected_edge(a, b, Edge::new(b, EdgeType::Similar, 1)).unwrap();
    g.add_undirected_edge(a, c, Edge::new(c, EdgeType::Similar, 1)).unwrap();
    g.add_undirected_edge(b, d, Edge::new(d, EdgeType::Similar, 1)).unwrap();
    let steps = dfs(&g, a, 5);
    let seen: Vec<(VertexId, usize)> = steps.iter().map(|s| (s.vertex, s.depth)).collect();
    assert_eq!(seen, vec![(b, 1), (d, 2), (c, 1)]);
    let shallow = dfs(&g, a, 1);
    let seen: Vec<(VertexId, usize)> = shallow.iter().map(|s| (s.vertex, s.depth)).collect();
    assert_eq!(seen, vec![(b, 1), (c, 1)]);
}

#[test]
fn default_graph_starts_at_zero() {
    let mut g = Graph::default();
    let v = g.add_vertex(VertexKind::Product(ProductId(1))).unwrap();
    assert_eq!(v, VertexId(0));
    assert_eq!(g.next_vertex_id(), 1);
}

#[test]
fn deeper_search_only_appends() {
    let (g, c, _, _) = chain_graph();
    let deep = bfs(&g, c, 5);
    for d in 0..5 {
        let shallow = bfs(&g, c, d);
        assert_eq!(shallow[..], deep[..shallow.len()]);
        assert!(deep[shallow.len()..].iter().all(|s| s.depth > d));
    }
}
