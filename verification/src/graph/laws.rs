//! What the breadth-first search guarantees: each vertex once, at its distance from
//! the start, reached along an edge of the previous level, and nothing within the
//! depth limit missed.
use vstd::prelude::*;

use super::adjacency::GraphView;
use super::algorithms::{
    bfs_level, bfs_levels_upto, bfs_result, lemma_step_set_concat, lemma_step_set_push, lists_vertex,
    scan_edges, scan_frontier, step_set, successors, within, BfsStep,
};
use super::edge::Edge;


verus! {

/// The ends of the edges `e`.
pub open spec fn edge_targets(e: Seq<Edge>) -> Set<u64> {
    Set::new(|v: u64| exists|k: int| 0 <= k < e.len() && #[trigger] e[k].to.0 == v)
}

proof fn lemma_edge_targets_drop_last(e: Seq<Edge>)
    requires
        e.len() > 0,
    ensures
        edge_targets(e) == edge_targets(e.drop_last()).insert(e.last().to.0),
{
    let p = e.drop_last();
    assert forall|v: u64| #[trigger] edge_targets(e).contains(v) == edge_targets(p).insert(
        e.last().to.0,
    ).contains(v) by {
        if edge_targets(p).contains(v) {
            let k = choose|k: int| 0 <= k < p.len() && #[trigger] p[k].to.0 == v;
            assert(e[k] == p[k]);
        }
        if v == e.last().to.0 {
            assert(e[e.len() - 1].to.0 == v);
        }
        if edge_targets(e).contains(v) && v != e.last().to.0 {
            let k = choose|k: int| 0 <= k < e.len() && #[trigger] e[k].to.0 == v;
            assert(p[k] == e[k]);
        }
    }
    assert(edge_targets(e) =~= edge_targets(p).insert(e.last().to.0));
}

proof fn lemma_scan_edges(e: Seq<Edge>, d: usize, seen: Set<u64>)
    ensures
        forall|i: int|
            #![trigger scan_edges(e, d, seen)[i]]
            0 <= i < scan_edges(e, d, seen).len() ==> {
                let st = scan_edges(e, d, seen)[i];
                &&& st.depth == d
                &&& st.via_edge is Some
                &&& st.via_edge->0.to == st.vertex
                &&& !seen.contains(st.vertex.0)
                &&& exists|k: int| 0 <= k < e.len() && #[trigger] e[k] == st.via_edge->0
            },
        forall|i: int, j: int|
            0 <= i < j < scan_edges(e, d, seen).len() ==> scan_edges(e, d, seen)[i].vertex
                != scan_edges(e, d, seen)[j].vertex,
        step_set(scan_edges(e, d, seen)) == edge_targets(e).difference(seen),
    decreases e.len(),
{
    let r = scan_edges(e, d, seen);
    if e.len() == 0 {
        assert(step_set(r) =~= Set::<u64>::empty());
        assert(edge_targets(e) =~= Set::<u64>::empty());
        assert(edge_targets(e).difference(seen) =~= Set::<u64>::empty());
    } else {
        let p = e.drop_last();
        let last = e.last();
        lemma_scan_edges(p, d, seen);
        lemma_edge_targets_drop_last(e);
        let prev = scan_edges(p, d, seen);
        assert forall|i: int| #![trigger prev[i]] 0 <= i < prev.len() implies exists|k: int|
            0 <= k < e.len() && #[trigger] e[k] == prev[i].via_edge->0 by {
            let k = choose|k: int| 0 <= k < p.len() && #[trigger] p[k] == prev[i].via_edge->0;
            assert(e[k] == p[k]);
        }
        if seen.contains(last.to.0) || lists_vertex(prev, last.to.0) {
            assert(r == prev);
            if !seen.contains(last.to.0) {
                assert(step_set(prev).contains(last.to.0));
            }
            assert(step_set(r) =~= edge_targets(e).difference(seen));
        } else {
            let st = BfsStep { vertex: last.to, depth: d, via_edge: Some(last) };
            assert(r == prev.push(st));
            lemma_step_set_push(prev, st);
            assert(step_set(r) =~= edge_targets(e).difference(seen));
            assert(e[e.len() - 1] == last);
            assert forall|i: int, j: int| 0 <= i < j < r.len() implies r[i].vertex != r[j].vertex by {
                if j == r.len() - 1 {
                    assert(r[i] == prev[i]);
                    if r[i].vertex == r[j].vertex {
                        assert(lists_vertex(prev, last.to.0));
                    }
                } else {
                    assert(r[i] == prev[i] && r[j] == prev[j]);
                }
            }
            assert forall|i: int| #![trigger r[i]] 0 <= i < r.len() implies {
                let st = r[i];
                &&& st.depth == d
                &&& st.via_edge is Some
                &&& st.via_edge->0.to == st.vertex
                &&& !seen.contains(st.vertex.0)
                &&& exists|k: int| 0 <= k < e.len() && #[trigger] e[k] == st.via_edge->0
            } by {
                if i < prev.len() {
                    assert(r[i] == prev[i]);
                } else {
                    assert(e[e.len() - 1] == r[i].via_edge->0);
                }
            }
        }
    }
}

proof fn lemma_successors_insert(g: GraphView, a: Set<u64>, u: u64)
    ensures
        successors(g, a.insert(u)) == successors(g, a).union(edge_targets(g.edges_of(u))),
{
    assert forall|v: u64| #[trigger] successors(g, a.insert(u)).contains(v) == successors(
        g,
        a,
    ).union(edge_targets(g.edges_of(u))).contains(v) by {
        if successors(g, a.insert(u)).contains(v) {
            let (w, i) = choose|w: u64, i: int|
                a.insert(u).contains(w) && 0 <= i < g.edges_of(w).len() && #[trigger] g.edges_of(
                    w,
                )[i].to.0 == v;
            if w == u {
                assert(edge_targets(g.edges_of(u)).contains(v));
            } else {
                assert(successors(g, a).contains(v));
            }
        }
        if successors(g, a).contains(v) {
            let (w, i) = choose|w: u64, i: int|
                a.contains(w) && 0 <= i < g.edges_of(w).len() && #[trigger] g.edges_of(w)[i].to.0
                    == v;
            assert(a.insert(u).contains(w));
        }
        if edge_targets(g.edges_of(u)).contains(v) {
            let k = choose|k: int|
                0 <= k < g.edges_of(u).len() && #[trigger] g.edges_of(u)[k].to.0 == v;
            assert(a.insert(u).contains(u));
        }
    }
    assert(successors(g, a.insert(u)) =~= successors(g, a).union(edge_targets(g.edges_of(u))));
}

proof fn lemma_successors_empty(g: GraphView)
    ensures
        successors(g, Set::<u64>::empty()) == Set::<u64>::empty(),
{
    assert(successors(g, Set::<u64>::empty()) =~= Set::<u64>::empty());
}

proof fn lemma_step_set_empty()
    ensures
        step_set(Seq::<BfsStep>::empty()) == Set::<u64>::empty(),
{
    assert(step_set(Seq::<BfsStep>::empty()) =~= Set::<u64>::empty());
}

proof fn lemma_scan_frontier(g: GraphView, f: Seq<BfsStep>, d: usize, seen: Set<u64>)
    ensures
        forall|i: int|
            #![trigger scan_frontier(g, f, d, seen)[i]]
            0 <= i < scan_frontier(g, f, d, seen).len() ==> {
                let st = scan_frontier(g, f, d, seen)[i];
                &&& st.depth == d
                &&& st.via_edge is Some
                &&& st.via_edge->0.to == st.vertex
                &&& !seen.contains(st.vertex.0)
                &&& exists|a: int, k: int|
                    0 <= a < f.len() && 0 <= k < g.edges_of(f[a].vertex.0).len() && #[trigger] g.edges_of(
                        f[a].vertex.0,
                    )[k] == st.via_edge->0
            },
        forall|i: int, j: int|
            0 <= i < j < scan_frontier(g, f, d, seen).len() ==> scan_frontier(g, f, d, seen)[i].vertex
                != scan_frontier(g, f, d, seen)[j].vertex,
        step_set(scan_frontier(g, f, d, seen)) == successors(g, step_set(f)).difference(seen),
    decreases f.len(),
{
    let r = scan_frontier(g, f, d, seen);
    if f.len() == 0 {
        lemma_step_set_empty();
        assert(f =~= Seq::<BfsStep>::empty());
        lemma_successors_empty(g);
        assert(step_set(r) =~= successors(g, step_set(f)).difference(seen));
    } else {
        let p = f.drop_last();
        let u = f.last();
        lemma_scan_frontier(g, p, d, seen);
        let prev = scan_frontier(g, p, d, seen);
        let seen2 = seen.union(step_set(prev));
        let es = g.edges_of(u.vertex.0);
        lemma_scan_edges(es, d, seen2);
        let tail = scan_edges(es, d, seen2);
        assert(r == prev + tail);
        lemma_step_set_concat(prev, tail);
        assert(f == p.push(u));
        lemma_step_set_push(p, u);
        lemma_successors_insert(g, step_set(p), u.vertex.0);
        assert(step_set(r) =~= successors(g, step_set(f)).difference(seen));
        assert forall|i: int, j: int| 0 <= i < j < r.len() implies r[i].vertex != r[j].vertex by {
            if j < prev.len() {
                assert(r[i] == prev[i] && r[j] == prev[j]);
            } else if i >= prev.len() {
                assert(r[i] == tail[i - prev.len()] && r[j] == tail[j - prev.len()]);
            } else {
                assert(r[i] == prev[i] && r[j] == tail[j - prev.len()]);
                assert(!seen2.contains(tail[j - prev.len()].vertex.0));
                assert(step_set(prev).contains(prev[i].vertex.0));
            }
        }
        assert forall|i: int| #![trigger r[i]] 0 <= i < r.len() implies {
            let st = r[i];
            &&& st.depth == d
            &&& st.via_edge is Some
            &&& st.via_edge->0.to == st.vertex
            &&& !seen.contains(st.vertex.0)
            &&& exists|a: int, k: int|
                0 <= a < f.len() && 0 <= k < g.edges_of(f[a].vertex.0).len() && #[trigger] g.edges_of(
                    f[a].vertex.0,
                )[k] == st.via_edge->0
        } by {
            if i < prev.len() {
                assert(r[i] == prev[i]);
                let (a, k) = choose|a: int, k: int|
                    0 <= a < p.len() && 0 <= k < g.edges_of(p[a].vertex.0).len()
                        && #[trigger] g.edges_of(p[a].vertex.0)[k] == prev[i].via_edge->0;
                assert(f[a] == p[a]);
            } else {
                assert(r[i] == tail[i - prev.len()]);
                let k = choose|k: int|
                    0 <= k < es.len() && #[trigger] es[k] == tail[i - prev.len()].via_edge->0;
                assert(f[f.len() - 1] == u);
                assert(g.edges_of(f[f.len() - 1].vertex.0)[k] == r[i].via_edge->0);
            }
        }
    }
}

proof fn lemma_successors_monotone(g: GraphView, a: Set<u64>, b: Set<u64>)
    requires
        a.subset_of(b),
    ensures
        successors(g, a).subset_of(successors(g, b)),
{
    assert forall|v: u64| successors(g, a).contains(v) implies successors(g, b).contains(v) by {
        let (w, i) = choose|w: u64, i: int|
            a.contains(w) && 0 <= i < g.edges_of(w).len() && #[trigger] g.edges_of(w)[i].to.0 == v;
        assert(b.contains(w));
    }
}

/// Reachability grows with the number of steps allowed.
pub proof fn lemma_within_monotone(g: GraphView, start: u64, a: nat, b: nat)
    requires
        a <= b,
    ensures
        within(g, start, a).subset_of(within(g, start, b)),
    decreases b - a,
{
    if a < b {
        lemma_within_monotone(g, start, a, (b - 1) as nat);
    }
}

proof fn lemma_level(g: GraphView, start: u64, k: nat)
    requires
        k <= usize::MAX,
    ensures
        bfs_level(g, start, k).1 == within(g, start, k),
        k == 0 ==> step_set(bfs_level(g, start, k).0) == within(g, start, k),
        k > 0 ==> step_set(bfs_level(g, start, k).0) == within(g, start, k).difference(
            within(g, start, (k - 1) as nat),
        ),
        forall|i: int|
            #![trigger bfs_level(g, start, k).0[i]]
            0 <= i < bfs_level(g, start, k).0.len() ==> bfs_level(g, start, k).0[i].depth == k,
        forall|i: int, j: int|
            0 <= i < j < bfs_level(g, start, k).0.len() ==> bfs_level(g, start, k).0[i].vertex
                != bfs_level(g, start, k).0[j].vertex,
        k == 0 ==> bfs_level(g, start, k).0 == seq![BfsStep { vertex: crate::models::VertexId(start), depth: 0, via_edge: None }],
        k > 0 ==> forall|i: int|
            #![trigger bfs_level(g, start, k).0[i]]
            0 <= i < bfs_level(g, start, k).0.len() ==> {
                let st = bfs_level(g, start, k).0[i];
                let prev = bfs_level(g, start, (k - 1) as nat).0;
                &&& st.via_edge is Some
                &&& st.via_edge->0.to == st.vertex
                &&& exists|a: int, m: int|
                    0 <= a < prev.len() && 0 <= m < g.edges_of(prev[a].vertex.0).len()
                        && #[trigger] g.edges_of(prev[a].vertex.0)[m] == st.via_edge->0
            },
    decreases k,
{
    if k == 0 {
        let lv = bfs_level(g, start, 0).0;
        let st = BfsStep { vertex: crate::models::VertexId(start), depth: 0, via_edge: None };
        assert(lv == Seq::<BfsStep>::empty().push(st));
        lemma_step_set_empty();
        lemma_step_set_push(Seq::<BfsStep>::empty(), st);
        assert(step_set(lv) =~= set![start]);
    } else {
        let km = (k - 1) as nat;
        lemma_level(g, start, km);
        let (lv, seen) = bfs_level(g, start, km);
        let next = scan_frontier(g, lv, k as usize, seen);
        lemma_scan_frontier(g, lv, k as usize, seen);
        let wk = within(g, start, km);
        let wn = within(g, start, k);
        assert(wn == wk.union(successors(g, wk)));
        // successors of the last level cover every successor not yet seen
        assert(step_set(lv).subset_of(wk)) by {
            if km > 0 {
                lemma_within_monotone(g, start, (km - 1) as nat, km);
            }
        }
        lemma_successors_monotone(g, step_set(lv), wk);
        assert forall|v: u64| successors(g, wk).contains(v) implies wk.union(
            successors(g, step_set(lv)),
        ).contains(v) by {
            let (w, i) = choose|w: u64, i: int|
                wk.contains(w) && 0 <= i < g.edges_of(w).len() && #[trigger] g.edges_of(w)[i].to.0
                    == v;
            if !step_set(lv).contains(w) {
                assert(km > 0);
                let kmm = (km - 1) as nat;
                assert(within(g, start, kmm).contains(w));
                assert(successors(g, within(g, start, kmm)).contains(v));
                assert(wk == within(g, start, kmm).union(successors(g, within(g, start, kmm))));
            }
        }
        assert(seen.union(step_set(next)) =~= wn);
        assert(step_set(next) =~= wn.difference(wk));
    }
}

proof fn lemma_levels_upto(g: GraphView, start: u64, k: nat)
    requires
        k <= usize::MAX,
    ensures
        ({
            let r = bfs_levels_upto(g, start, k);
            &&& forall|i: int|
                #![trigger r[i]]
                0 <= i < r.len() ==> {
                    &&& 1 <= r[i].depth <= k
                    &&& within(g, start, r[i].depth as nat).contains(r[i].vertex.0)
                    &&& !within(g, start, (r[i].depth - 1) as nat).contains(r[i].vertex.0)
                    &&& r[i].via_edge is Some
                    &&& r[i].via_edge->0.to == r[i].vertex
                    &&& {
                        ||| r[i].depth == 1 && exists|m: int|
                            0 <= m < g.edges_of(start).len() && #[trigger] g.edges_of(start)[m]
                                == r[i].via_edge->0
                        ||| exists|j: int, m: int|
                            0 <= j < i && r[j].depth + 1 == r[i].depth && 0 <= m < g.edges_of(
                                r[j].vertex.0,
                            ).len() && #[trigger] g.edges_of(r[j].vertex.0)[m] == r[i].via_edge->0
                    }
                }
            &&& forall|i: int, j: int| 0 <= i < j < r.len() ==> r[i].vertex != r[j].vertex
            &&& forall|i: int, j: int| 0 <= i <= j < r.len() ==> r[i].depth <= r[j].depth
            &&& forall|v: u64|
                within(g, start, k).contains(v) && v != start ==> #[trigger] lists_vertex(r, v)
        }),
    decreases k,
{
    let r = bfs_levels_upto(g, start, k);
    if k == 0 {
        assert forall|v: u64| within(g, start, k).contains(v) && v != start implies #[trigger] lists_vertex(r, v) by {
            assert(within(g, start, 0) == set![start]);
        }
    } else {
        let km = (k - 1) as nat;
        lemma_levels_upto(g, start, km);
        lemma_level(g, start, k);
        lemma_level(g, start, km);
        let prev = bfs_levels_upto(g, start, km);
        let lv = bfs_level(g, start, k).0;
        let plv = bfs_level(g, start, km).0;
        assert(r == prev + lv);
        let n = prev.len();
        // the previous level sits at the end of `prev`
        if km > 0 {
            assert(prev == bfs_levels_upto(g, start, (km - 1) as nat) + plv);
        }
        assert forall|i: int| #![trigger r[i]] 0 <= i < r.len() implies {
            &&& 1 <= r[i].depth <= k
            &&& within(g, start, r[i].depth as nat).contains(r[i].vertex.0)
            &&& !within(g, start, (r[i].depth - 1) as nat).contains(r[i].vertex.0)
            &&& r[i].via_edge is Some
            &&& r[i].via_edge->0.to == r[i].vertex
            &&& {
                ||| r[i].depth == 1 && exists|m: int|
                    0 <= m < g.edges_of(start).len() && #[trigger] g.edges_of(start)[m]
                        == r[i].via_edge->0
                ||| exists|j: int, m: int|
                    0 <= j < i && r[j].depth + 1 == r[i].depth && 0 <= m < g.edges_of(
                        r[j].vertex.0,
                    ).len() && #[trigger] g.edges_of(r[j].vertex.0)[m] == r[i].via_edge->0
            }
        } by {
            if i < n {
                assert(r[i] == prev[i]);
                if !(r[i].depth == 1 && exists|m: int|
                    0 <= m < g.edges_of(start).len() && #[trigger] g.edges_of(start)[m]
                        == r[i].via_edge->0) {
                    let (j, m) = choose|j: int, m: int|
                        0 <= j < i && prev[j].depth + 1 == prev[i].depth && 0 <= m < g.edges_of(
                            prev[j].vertex.0,
                        ).len() && #[trigger] g.edges_of(prev[j].vertex.0)[m] == prev[i].via_edge->0;
                    assert(r[j] == prev[j]);
                }
            } else {
                let t = i - n;
                assert(r[i] == lv[t]);
                assert(step_set(lv).contains(lv[t].vertex.0));
                let (a, m) = choose|a: int, m: int|
                    0 <= a < plv.len() && 0 <= m < g.edges_of(plv[a].vertex.0).len()
                        && #[trigger] g.edges_of(plv[a].vertex.0)[m] == lv[t].via_edge->0;
                if km == 0 {
                    assert(plv[a].vertex.0 == start);
                    assert(g.edges_of(start)[m] == r[i].via_edge->0);
                } else {
                    let base = bfs_levels_upto(g, start, (km - 1) as nat).len();
                    let j = base + a;
                    assert(prev[j] == plv[a]);
                    assert(r[j] == prev[j]);
                    assert(g.edges_of(r[j].vertex.0)[m] == r[i].via_edge->0);
                }
            }
        }
        assert forall|i: int, j: int| 0 <= i < j < r.len() implies r[i].vertex != r[j].vertex by {
            if j < n {
                assert(r[i] == prev[i] && r[j] == prev[j]);
            } else if i >= n {
                assert(r[i] == lv[i - n] && r[j] == lv[j - n]);
            } else {
                assert(r[i] == prev[i] && r[j] == lv[j - n]);
                assert(step_set(lv).contains(lv[j - n].vertex.0));
                lemma_within_monotone(g, start, prev[i].depth as nat, km);
            }
        }
        assert forall|i: int, j: int| 0 <= i <= j < r.len() implies r[i].depth <= r[j].depth by {
            if j < n {
                assert(r[i] == prev[i] && r[j] == prev[j]);
            } else if i >= n {
                assert(r[i] == lv[i - n] && r[j] == lv[j - n]);
            } else {
                assert(r[i] == prev[i] && r[j] == lv[j - n]);
            }
        }
        assert forall|v: u64| within(g, start, k).contains(v) && v != start implies #[trigger] lists_vertex(r, v) by {
            if within(g, start, km).contains(v) {
                assert(lists_vertex(prev, v));
                let i = choose|i: int| 0 <= i < prev.len() && #[trigger] prev[i].vertex.0 == v;
                assert(r[i] == prev[i]);
            } else {
                assert(step_set(lv).contains(v));
                let t = choose|t: int| 0 <= t < lv.len() && #[trigger] lv[t].vertex.0 == v;
                assert(r[n + t] == lv[t]);
            }
        }
    }
}

proof fn lemma_levels_upto_prefix(g: GraphView, start: u64, a: nat, b: nat)
    requires
        a <= b,
        b <= usize::MAX,
    ensures
        bfs_levels_upto(g, start, a).len() <= bfs_levels_upto(g, start, b).len(),
        bfs_levels_upto(g, start, b).subrange(0, bfs_levels_upto(g, start, a).len() as int)
            == bfs_levels_upto(g, start, a),
        forall|i: int|
            bfs_levels_upto(g, start, a).len() <= i < bfs_levels_upto(g, start, b).len()
                ==> #[trigger] bfs_levels_upto(g, start, b)[i].depth > a,
    decreases b - a,
{
    let ra = bfs_levels_upto(g, start, a);
    let rb = bfs_levels_upto(g, start, b);
    if a == b {
        assert(rb.subrange(0, ra.len() as int) =~= ra);
    } else {
        lemma_levels_upto_prefix(g, start, a, (b - 1) as nat);
        lemma_level(g, start, b);
        let p = bfs_levels_upto(g, start, (b - 1) as nat);
        let q = bfs_level(g, start, b).0;
        assert(rb == p + q);
        assert(rb.subrange(0, ra.len() as int) =~= p.subrange(0, ra.len() as int));
        assert forall|i: int| ra.len() <= i < rb.len() implies #[trigger] rb[i].depth > a by {
            if i < p.len() {
                assert(rb[i] == p[i]);
            } else {
                assert(rb[i] == q[i - p.len()]);
            }
        }
    }
}

/// A deeper search only adds deeper vertices: the search limited to `d1` is the
/// beginning of the search limited to `d2 >= d1`, everything it reports lies at depth
/// `d1` or less, and everything the deeper search reports after it lies deeper.
pub proof fn deeper_search_extends(g: GraphView, start: u64, d1: usize, d2: usize)
    requires
        d1 <= d2,
    ensures
        ({
            let r1 = bfs_result(g, start, d1);
            let r2 = bfs_result(g, start, d2);
            &&& r1.len() <= r2.len()
            &&& r2.subrange(0, r1.len() as int) == r1
            &&& forall|i: int| 0 <= i < r1.len() ==> #[trigger] r1[i].depth <= d1
            &&& forall|i: int| r1.len() <= i < r2.len() ==> #[trigger] r2[i].depth > d1
        }),
{
    if g.has_vertex(start) {
        lemma_levels_upto_prefix(g, start, d1 as nat, d2 as nat);
        lemma_levels_upto(g, start, d1 as nat);
    } else {
        assert(bfs_result(g, start, d2).subrange(0, 0) =~= Seq::<BfsStep>::empty());
    }
}

/// The search reports each vertex at most once, and never the start.
pub proof fn bfs_reports_each_vertex_once(g: GraphView, start: u64, max_depth: usize)
    ensures
        forall|i: int, j: int|
            0 <= i < j < bfs_result(g, start, max_depth).len() ==> bfs_result(g, start, max_depth)[i].vertex
                != bfs_result(g, start, max_depth)[j].vertex,
        forall|i: int|
            0 <= i < bfs_result(g, start, max_depth).len() ==> #[trigger] bfs_result(
                g,
                start,
                max_depth,
            )[i].vertex.0 != start,
{
    if g.has_vertex(start) {
        lemma_levels_upto(g, start, max_depth as nat);
        let r = bfs_result(g, start, max_depth);
        assert forall|i: int| 0 <= i < r.len() implies #[trigger] r[i].vertex.0 != start by {
            lemma_within_monotone(g, start, 0, (r[i].depth - 1) as nat);
            assert(within(g, start, 0).contains(start));
        }
    }
}

/// Each reported depth is the length of a shortest path from the start: the vertex
/// is reachable along that many edges and not along fewer; and the depth lies in
/// `1..=max_depth`.
pub proof fn bfs_depth_is_distance(g: GraphView, start: u64, max_depth: usize)
    ensures
        forall|i: int|
            #![trigger bfs_result(g, start, max_depth)[i]]
            0 <= i < bfs_result(g, start, max_depth).len() ==> {
                let st = bfs_result(g, start, max_depth)[i];
                &&& 1 <= st.depth <= max_depth
                &&& within(g, start, st.depth as nat).contains(st.vertex.0)
                &&& !within(g, start, (st.depth - 1) as nat).contains(st.vertex.0)
            },
{
    if g.has_vertex(start) {
        lemma_levels_upto(g, start, max_depth as nat);
    }
}

/// Every vertex that can be reached from an existing start along at most
/// `max_depth` edges is reported, the start excepted.
pub proof fn bfs_reports_everything_within_depth(g: GraphView, start: u64, max_depth: usize)
    requires
        g.has_vertex(start),
    ensures
        forall|v: u64|
            within(g, start, max_depth as nat).contains(v) && v != start ==> #[trigger] lists_vertex(
                bfs_result(g, start, max_depth),
                v,
            ),
{
    lemma_levels_upto(g, start, max_depth as nat);
}

/// Depths never decrease along the report, and each vertex was reached by an edge of
/// the start (at depth 1) or of a vertex reported earlier one level up.
pub proof fn bfs_follows_edges_level_by_level(g: GraphView, start: u64, max_depth: usize)
    ensures
        forall|i: int, j: int|
            0 <= i <= j < bfs_result(g, start, max_depth).len() ==> bfs_result(g, start, max_depth)[i].depth
                <= bfs_result(g, start, max_depth)[j].depth,
        forall|i: int|
            #![trigger bfs_result(g, start, max_depth)[i]]
            0 <= i < bfs_result(g, start, max_depth).len() ==> {
                let r = bfs_result(g, start, max_depth);
                &&& r[i].via_edge is Some
                &&& r[i].via_edge->0.to == r[i].vertex
                &&& {
                    ||| r[i].depth == 1 && exists|m: int|
                        0 <= m < g.edges_of(start).len() && #[trigger] g.edges_of(start)[m]
                            == r[i].via_edge->0
                    ||| exists|j: int, m: int|
                        0 <= j < i && r[j].depth + 1 == r[i].depth && 0 <= m < g.edges_of(
                            r[j].vertex.0,
                        ).len() && #[trigger] g.edges_of(r[j].vertex.0)[m] == r[i].via_edge->0
                }
            },
{
    if g.has_vertex(start) {
        lemma_levels_upto(g, start, max_depth as nat);
    }
}

proof fn lemma_degree_sum_with_edge(g: GraphView, from: u64, e: Edge, n: nat)
    requires
        g.adjacency.contains_key(from),
        n <= u64::MAX,
    ensures
        g.with_edge(from, e).degree_sum(n) == g.degree_sum(n) + if from < n {
            1nat
        } else {
            0nat
        },
    decreases n,
{
    if n > 0 {
        lemma_degree_sum_with_edge(g, from, e, (n - 1) as nat);
        let h = g.with_edge(from, e);
        let k = (n - 1) as u64;
        if k == from {
            assert(h.edges_of(k) == g.edges_of(k).push(e));
        } else {
            assert(h.edges_of(k) == g.edges_of(k));
        }
    }
}

/// An undirected edge between two vertices is stored once at each end: the edge at
/// `from` and its reverse (back to `from`, same kind and weight) at `to`, each after
/// the edges already there; so the number of undirected edges grows by one.
pub proof fn undirected_edge_is_stored_at_both_ends(g: GraphView, from: u64, to: u64, edge: Edge)
    requires
        g.well_formed(),
        g.has_vertex(from),
        g.has_vertex(to),
    ensures
        ({
            let h = g.with_undirected_edge(from, to, edge);
            let back = Edge {
                to: crate::models::VertexId(from),
                edge_type: edge.edge_type,
                weight: edge.weight,
            };
            &&& h.well_formed()
            &&& from != to ==> h.edges_of(from) == g.edges_of(from).push(edge) && h.edges_of(to)
                == g.edges_of(to).push(back)
            &&& from == to ==> h.edges_of(from) == g.edges_of(from).push(edge).push(back)
            &&& h.total_degree() == g.total_degree() + 2
            &&& h.total_degree() / 2 == g.total_degree() / 2 + 1
        }),
{
    let g1 = g.with_edge(from, edge);
    let back = Edge {
        to: crate::models::VertexId(from),
        edge_type: edge.edge_type,
        weight: edge.weight,
    };
    lemma_degree_sum_with_edge(g, from, edge, g.next_id as nat);
    assert(g1.adjacency.contains_key(to));
    lemma_degree_sum_with_edge(g1, to, back, g1.next_id as nat);
    let h = g.with_undirected_edge(from, to, edge);
    assert(h.vertices.dom() =~= h.adjacency.dom());
}

} // verus!
