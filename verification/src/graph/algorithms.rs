use std::collections::HashSet;
use vstd::prelude::*;

use crate::models::VertexId;

use super::adjacency::{Graph, GraphView};
use super::edge::Edge;

verus! {

broadcast use vstd::std_specs::hash::group_hash_axioms;

/// A vertex reached by a breadth-first search: its depth and the edge that first
/// reached it.
#[derive(Debug, Clone, Copy, PartialEq, Eq, Structural)]
pub struct BfsStep {
    pub vertex: VertexId,
    pub depth: usize,
    pub via_edge: Option<Edge>,
}

/// A vertex reached by a depth-first search, with the depth at which it was reached.
#[derive(Debug, Clone, Copy, PartialEq, Eq, Structural)]
pub struct DfsStep {
    pub vertex: VertexId,
    pub depth: usize,
}

/// The vertices that one edge of a vertex in `s` leads to.
pub open spec fn successors(g: GraphView, s: Set<u64>) -> Set<u64> {
    Set::new(
        |v: u64|
            exists|u: u64, i: int|
                s.contains(u) && 0 <= i < g.edges_of(u).len() && #[trigger] g.edges_of(u)[i].to.0
                    == v,
    )
}

/// The vertices reachable from `start` along at most `k` edges.
pub open spec fn within(g: GraphView, start: u64, k: nat) -> Set<u64>
    decreases k,
{
    if k == 0 {
        set![start]
    } else {
        within(g, start, (k - 1) as nat).union(successors(g, within(g, start, (k - 1) as nat)))
    }
}

/// Some edge of `u` leads to `v`.
pub open spec fn has_edge(g: GraphView, u: u64, v: u64) -> bool {
    exists|i: int| 0 <= i < g.edges_of(u).len() && #[trigger] g.edges_of(u)[i].to.0 == v
}

/// Some step of `s` is at vertex `v`.
pub open spec fn lists_vertex(s: Seq<BfsStep>, v: u64) -> bool {
    exists|i: int| 0 <= i < s.len() && #[trigger] s[i].vertex.0 == v
}

/// The vertices that the steps of `s` are at.
pub open spec fn step_set(s: Seq<BfsStep>) -> Set<u64> {
    Set::new(|v: u64| lists_vertex(s, v))
}

/// Scanning the edges `edges` in order: each edge whose end is neither in `seen`
/// nor reached earlier in the scan reaches that end at depth `d`.
pub open spec fn scan_edges(edges: Seq<Edge>, d: usize, seen: Set<u64>) -> Seq<BfsStep>
    decreases edges.len(),
{
    if edges.len() == 0 {
        Seq::empty()
    } else {
        let prev = scan_edges(edges.drop_last(), d, seen);
        let e = edges.last();
        if seen.contains(e.to.0) || lists_vertex(prev, e.to.0) {
            prev
        } else {
            prev.push(BfsStep { vertex: e.to, depth: d, via_edge: Some(e) })
        }
    }
}

/// Expanding a level: the vertices of `frontier` are taken in order and the edges
/// of each are scanned in order, past everything seen before or found so far.
pub open spec fn scan_frontier(g: GraphView, frontier: Seq<BfsStep>, d: usize, seen: Set<u64>) -> Seq<
    BfsStep,
>
    decreases frontier.len(),
{
    if frontier.len() == 0 {
        Seq::empty()
    } else {
        let prev = scan_frontier(g, frontier.drop_last(), d, seen);
        prev + scan_edges(
            g.edges_of(frontier.last().vertex.0),
            d,
            seen.union(step_set(prev)),
        )
    }
}

/// Level `k` of the search from `start`, in discovery order, and every vertex seen
/// up to that level.
pub open spec fn bfs_level(g: GraphView, start: u64, k: nat) -> (Seq<BfsStep>, Set<u64>)
    decreases k,
{
    if k == 0 {
        (seq![BfsStep { vertex: VertexId(start), depth: 0, via_edge: None }], set![start])
    } else {
        let (lv, seen) = bfs_level(g, start, (k - 1) as nat);
        let next = scan_frontier(g, lv, k as usize, seen);
        (next, seen.union(step_set(next)))
    }
}

/// Levels `1..=k` of the search from `start`, one after the other.
pub open spec fn bfs_levels_upto(g: GraphView, start: u64, k: nat) -> Seq<BfsStep>
    decreases k,
{
    if k == 0 {
        Seq::empty()
    } else {
        bfs_levels_upto(g, start, (k - 1) as nat) + bfs_level(g, start, k).0
    }
}

/// What a breadth-first search from `start` limited to `max_depth` reports: the
/// vertices reached at depths `1..=max_depth`, level by level, each level in the
/// order in which the previous level's adjacency lists discover it. Nothing when
/// `start` is no vertex.
pub open spec fn bfs_result(g: GraphView, start: u64, max_depth: usize) -> Seq<BfsStep> {
    if g.has_vertex(start) {
        bfs_levels_upto(g, start, max_depth as nat)
    } else {
        Seq::empty()
    }
}

pub proof fn lemma_step_set_push(s: Seq<BfsStep>, st: BfsStep)
    ensures
        step_set(s.push(st)) == step_set(s).insert(st.vertex.0),
{
    assert forall|v: u64| #[trigger] step_set(s.push(st)).contains(v) == step_set(s).insert(
        st.vertex.0,
    ).contains(v) by {
        if lists_vertex(s, v) {
            let i = choose|i: int| 0 <= i < s.len() && #[trigger] s[i].vertex.0 == v;
            assert(s.push(st)[i] == s[i]);
        }
        if v == st.vertex.0 {
            assert(s.push(st)[s.len() as int] == st);
        }
        if lists_vertex(s.push(st), v) && v != st.vertex.0 {
            let i = choose|i: int| 0 <= i < s.len() + 1 && #[trigger] s.push(st)[i].vertex.0 == v;
            assert(s[i] == s.push(st)[i]);
        }
    }
    assert(step_set(s.push(st)) =~= step_set(s).insert(st.vertex.0));
}

pub proof fn lemma_step_set_concat(a: Seq<BfsStep>, b: Seq<BfsStep>)
    ensures
        step_set(a + b) == step_set(a).union(step_set(b)),
{
    assert forall|v: u64| #[trigger] step_set(a + b).contains(v) == step_set(a).union(
        step_set(b),
    ).contains(v) by {
        if lists_vertex(a, v) {
            let i = choose|i: int| 0 <= i < a.len() && #[trigger] a[i].vertex.0 == v;
            assert((a + b)[i] == a[i]);
        }
        if lists_vertex(b, v) {
            let i = choose|i: int| 0 <= i < b.len() && #[trigger] b[i].vertex.0 == v;
            assert((a + b)[a.len() + i] == b[i]);
        }
        if lists_vertex(a + b, v) {
            let i = choose|i: int| 0 <= i < (a + b).len() && #[trigger] (a + b)[i].vertex.0 == v;
            if i < a.len() {
                assert(a[i] == (a + b)[i]);
            } else {
                assert(b[i - a.len()] == (a + b)[i]);
            }
        }
    }
    assert(step_set(a + b) =~= step_set(a).union(step_set(b)));
}

proof fn lemma_empty_level_stays_empty(g: GraphView, start: u64, k: nat, m: nat)
    requires
        k <= m,
        bfs_level(g, start, k).0.len() == 0,
    ensures
        bfs_level(g, start, m).0.len() == 0,
        bfs_levels_upto(g, start, m) == bfs_levels_upto(g, start, k),
    decreases m - k,
{
    if k < m {
        lemma_empty_level_stays_empty(g, start, k, (m - 1) as nat);
        let (lv, seen) = bfs_level(g, start, (m - 1) as nat);
        assert(scan_frontier(g, lv, m as usize, seen) =~= Seq::<BfsStep>::empty());
        assert(bfs_levels_upto(g, start, m) =~= bfs_levels_upto(g, start, (m - 1) as nat));
    }
}

/// Breadth-first search from `start`, limited to `max_depth`. Each reached vertex
    /// is reported once (the start excepted), with its depth and the edge that first
    /// reached it; cycles are not revisited.
pub fn bfs(graph: &Graph, start: VertexId, max_depth: usize) -> (r: Vec<BfsStep>)
    requires
        graph.wf(),
    ensures
        r@ == bfs_result(graph@, start.0, max_depth),
{
    let mut result: Vec<BfsStep> = Vec::new();
    if graph.get_vertex(start).is_none() {
        return result;
    }
    let ghost g = graph@;
    let mut visited: HashSet<u64> = HashSet::new();
    visited.insert(start.0);
    let mut frontier: Vec<BfsStep> = Vec::new();
    frontier.push(BfsStep { vertex: start, depth: 0, via_edge: None });
    let mut depth: usize = 0;
    assert(visited@ =~= set![start.0]);
    assert(frontier@ =~= bfs_level(g, start.0, 0).0);
    while depth < max_depth && frontier.len() > 0
        invariant
            graph.wf(),
            g == graph@,
            g.has_vertex(start.0),
            depth <= max_depth,
            frontier@ == bfs_level(g, start.0, depth as nat).0,
            visited@ == bfs_level(g, start.0, depth as nat).1,
            result@ == bfs_levels_upto(g, start.0, depth as nat),
        decreases max_depth - depth,
    {
        let ghost seen0 = visited@;
        let ghost result0 = result@;
        let d: usize = depth + 1;
        let mut next: Vec<BfsStep> = Vec::new();
        let mut i: usize = 0;
        assert(next@ =~= scan_frontier(g, frontier@.take(0), d, seen0));
        assert(seen0.union(step_set(next@)) =~= seen0);
        assert(result@ =~= result0 + next@);
        while i < frontier.len()
            invariant
                graph.wf(),
                g == graph@,
                i <= frontier.len(),
                d == depth + 1,
                next@ == scan_frontier(g, frontier@.take(i as int), d, seen0),
                visited@ == seen0.union(step_set(next@)),
                result@ == result0 + next@,
            decreases frontier.len() - i,
        {
            let u = frontier[i].vertex;
            let ghost next0 = next@;
            let ghost seen1 = seen0.union(step_set(next0));
            assert(frontier@.take(i + 1).drop_last() =~= frontier@.take(i as int));
            assert(frontier@.take(i + 1).last() == frontier@[i as int]);
            match graph.neighbors(u) {
                Some(edges) => {
                    let mut j: usize = 0;
                    assert(next@ =~= next0 + scan_edges(edges@.take(0), d, seen1));
                    assert(step_set(scan_edges(edges@.take(0), d, seen1)) =~= Set::<
                        u64,
                    >::empty());
                    proof {
                        lemma_step_set_concat(next0, scan_edges(edges@.take(0), d, seen1));
                    }
                    while j < edges.len()
                        invariant
                            j <= edges@.len(),
                            next@ == next0 + scan_edges(edges@.take(j as int), d, seen1),
                            visited@ == seen1.union(
                                step_set(scan_edges(edges@.take(j as int), d, seen1)),
                            ),
                            result@ == result0 + next@,
                        decreases edges@.len() - j,
                    {
                        let e = edges[j];
                        let ghost scanned = scan_edges(edges@.take(j as int), d, seen1);
                        assert(edges@.take(j + 1).drop_last() =~= edges@.take(j as int));
                        assert(edges@.take(j + 1).last() == e);
                        assert(step_set(scanned).contains(e.to.0) == lists_vertex(
                            scanned,
                            e.to.0,
                        ));
                        if visited.insert(e.to.0) {
                            let st = BfsStep { vertex: e.to, depth: d, via_edge: Some(e) };
                            proof {
                                lemma_step_set_push(scanned, st);
                            }
                            next.push(st);
                            result.push(st);
                            assert(next@ =~= next0 + scanned.push(st));
                            assert(result@ =~= result0 + next@);
                            assert(visited@ =~= seen1.union(step_set(scanned.push(st))));
                        } else {
                            assert(visited@ =~= seen1.union(step_set(scanned)));
                        }
                        j = j + 1;
                    }
                    assert(edges@.take(edges@.len() as int) =~= edges@);
                    assert(g.edges_of(u.0) == edges@);
                    proof {
                        lemma_step_set_concat(next0, scan_edges(edges@, d, seen1));
                    }
                    assert(visited@ =~= seen0.union(step_set(next@)));
                },
                None => {
                    assert(g.edges_of(u.0) =~= Seq::<Edge>::empty());
                    assert(next@ =~= next0 + scan_edges(g.edges_of(u.0), d, seen1));
                },
            }
            i = i + 1;
        }
        assert(frontier@.take(frontier@.len() as int) =~= frontier@);
        frontier = next;
        depth = d;
    }
    proof {
        if depth < max_depth {
            lemma_empty_level_stays_empty(g, start.0, depth as nat, max_depth as nat);
        }
    }
    result
}

/// The entries that expanding a vertex with adjacency list `edges` pushes onto the
/// depth-first stack for the edges at positions `j` and above: these edges are walked
/// from the last to the first, and each end that is not in `visited` is pushed with
/// depth `d`.
pub open spec fn dfs_pushes(edges: Seq<Edge>, visited: Set<u64>, d: usize, j: nat) -> Seq<
    (VertexId, usize),
>
    decreases edges.len() - j,
{
    if j >= edges.len() {
        Seq::empty()
    } else {
        let rest = dfs_pushes(edges, visited, d, j + 1);
        if visited.contains(edges[j as int].to.0) {
            rest
        } else {
            rest.push((edges[j as int].to, d))
        }
    }
}

/// The depth-first search carried on from a stack, a set of visited vertices and the
/// steps reported so far: the top entry is popped; a vertex already visited is
/// skipped; otherwise it is marked visited, reported unless it is `start`, and, when
/// its depth is below `max_depth`, the unvisited ends of its edges are pushed.
pub open spec fn dfs_run(
    g: GraphView,
    start: VertexId,
    max_depth: usize,
    stack: Seq<(VertexId, usize)>,
    visited: Set<u64>,
    out: Seq<DfsStep>,
) -> Seq<DfsStep>
    decreases g.vertices.dom().difference(visited).len(), stack.len(),
    when g.well_formed()
{
    if stack.len() == 0 {
        out
    } else {
        let current = stack.last().0;
        let depth = stack.last().1;
        let rest = stack.drop_last();
        if visited.contains(current.0) {
            dfs_run(g, start, max_depth, rest, visited, out)
        } else {
            let seen = visited.insert(current.0);
            let reported = if current != start {
                out.push(DfsStep { vertex: current, depth })
            } else {
                out
            };
            let next = if depth >= max_depth {
                rest
            } else {
                rest + dfs_pushes(g.edges_of(current.0), seen, (depth + 1) as usize, 0)
            };
            proof {
                let dom = g.vertices.dom();
                if dom.contains(current.0) {
                    assert(dom.difference(seen) =~= dom.difference(visited).remove(current.0));
                    vstd::set::axiom_set_difference_finite(dom, visited);
                } else {
                    assert(dom.difference(seen) =~= dom.difference(visited));
                    assert(!g.adjacency.contains_key(current.0));
                    assert(next.len() == rest.len());
                }
            }
            dfs_run(g, start, max_depth, next, seen, reported)
        }
    }
}

/// The steps that a depth-first search from `start`, limited to `max_depth`, reports:
/// none when `start` is no vertex.
pub open spec fn dfs_result(g: GraphView, start: VertexId, max_depth: usize) -> Seq<DfsStep> {
    if g.has_vertex(start.0) {
        dfs_run(g, start, max_depth, seq![(start, 0usize)], Set::empty(), Seq::empty())
    } else {
        Seq::empty()
    }
}

/// Iterative depth-first search from `start`, limited to `max_depth`: each vertex is
/// reported once (the start excepted) with the depth at which it was first popped.
pub fn dfs(graph: &Graph, start: VertexId, max_depth: usize) -> (r: Vec<DfsStep>)
    requires
        graph.wf(),
    ensures
        r@ == dfs_result(graph@, start, max_depth),
        !graph@.has_vertex(start.0) ==> r@.len() == 0,
        forall|i: int|
            #![trigger r@[i]]
            0 <= i < r@.len() ==> {
                &&& r@[i].vertex.0 != start.0
                &&& 1 <= r@[i].depth <= max_depth
                &&& within(graph@, start.0, r@[i].depth as nat).contains(r@[i].vertex.0)
            },
        forall|i: int, j: int| 0 <= i < j < r@.len() ==> r@[i].vertex != r@[j].vertex,
        forall|i: int|
            #![trigger r@[i]]
            0 <= i < r@.len() ==> {
                ||| r@[i].depth == 1 && has_edge(graph@, start.0, r@[i].vertex.0)
                ||| exists|j: int|
                    0 <= j < i && r@[j].depth + 1 == r@[i].depth && has_edge(
                        graph@,
                        #[trigger] r@[j].vertex.0,
                        r@[i].vertex.0,
                    )
            },
{
    let mut result: Vec<DfsStep> = Vec::new();
    if graph.get_vertex(start).is_none() {
        return result;
    }
    let ghost g = graph@;
    let mut visited: HashSet<u64> = HashSet::new();
    let mut stack: Vec<(VertexId, usize)> = Vec::new();
    stack.push((start, 0));
    loop
        invariant
            graph.wf(),
            g == graph@,
            g.has_vertex(start.0),
            visited@.contains(start.0) || (visited@ == Set::<u64>::empty() && stack@ == seq![
                (start, 0usize),
            ] && result@.len() == 0),
            dfs_run(g, start, max_depth, stack@, visited@, result@) == dfs_result(g, start, max_depth),
            forall|k: int|
                #![trigger stack@[k]]
                0 <= k < stack@.len() ==> {
                    &&& stack@[k].1 <= max_depth
                    &&& within(g, start.0, stack@[k].1 as nat).contains(stack@[k].0.0)
                    &&& stack@[k].1 == 0 ==> stack@[k].0 == start
                    &&& stack@[k].1 > 0 ==> {
                        ||| stack@[k].1 == 1 && has_edge(g, start.0, stack@[k].0.0)
                        ||| exists|j: int|
                            0 <= j < result@.len() && result@[j].depth + 1 == stack@[k].1
                                && has_edge(g, #[trigger] result@[j].vertex.0, stack@[k].0.0)
                    }
                },
            forall|i: int|
                #![trigger result@[i]]
                0 <= i < result@.len() ==> {
                    &&& result@[i].vertex.0 != start.0
                    &&& 1 <= result@[i].depth <= max_depth
                    &&& within(g, start.0, result@[i].depth as nat).contains(result@[i].vertex.0)
                    &&& visited@.contains(result@[i].vertex.0)
                    &&& (result@[i].depth == 1 && has_edge(g, start.0, result@[i].vertex.0))
                        || exists|j: int|
                        0 <= j < i && result@[j].depth + 1 == result@[i].depth && has_edge(
                            g,
                            #[trigger] result@[j].vertex.0,
                            result@[i].vertex.0,
                        )
                },
            forall|i: int, j: int| 0 <= i < j < result@.len() ==> result@[i].vertex != result@[j].vertex,
        ensures
            forall|i: int|
                #![trigger result@[i]]
                0 <= i < result@.len() ==> {
                    &&& result@[i].vertex.0 != start.0
                    &&& 1 <= result@[i].depth <= max_depth
                    &&& within(g, start.0, result@[i].depth as nat).contains(result@[i].vertex.0)
                    &&& (result@[i].depth == 1 && has_edge(g, start.0, result@[i].vertex.0))
                        || exists|j: int|
                        0 <= j < i && result@[j].depth + 1 == result@[i].depth && has_edge(
                            g,
                            #[trigger] result@[j].vertex.0,
                            result@[i].vertex.0,
                        )
                },
            forall|i: int, j: int| 0 <= i < j < result@.len() ==> result@[i].vertex != result@[j].vertex,
            result@ == dfs_result(g, start, max_depth),
        decreases g.vertices.dom().difference(visited@).len(), stack@.len(),
    {
        let ghost stack_before = stack@;
        let top = stack.pop();
        match top {
            None => {
                break;
            },
            Some(entry) => {
                let current = entry.0;
                let depth = entry.1;
                let ghost visited0 = visited@;
                let ghost result0 = result@;
                proof {
                    let k = stack_before.len() - 1;
                    assert(stack_before[k] == entry);
                    assert(stack@ =~= stack_before.take(k));
                    assert(stack@ =~= stack_before.drop_last());
                    assert forall|kk: int| 0 <= kk < stack@.len() implies #[trigger] stack@[kk] == stack_before[kk] by {}
                }
                if !visited.insert(current.0) {
                    assert(visited@ =~= visited0);
                    continue;
                }
                proof {
                    if g.vertices.contains_key(current.0) {
                        assert(g.vertices.dom().difference(visited@) =~= g.vertices.dom().difference(
                            visited0,
                        ).remove(current.0));
                    } else {
                        assert(g.vertices.dom().difference(visited@) =~= g.vertices.dom().difference(
                            visited0,
                        ));
                    }
                }
                if current != start {
                    result.push(DfsStep { vertex: current, depth });
                    proof {
                        let n = result@.len() - 1;
                        assert(result@[n] == DfsStep { vertex: current, depth });
                        assert(forall|i: int| 0 <= i < n ==> #[trigger] result@[i] == result0[i]);
                        if !(depth == 1 && has_edge(g, start.0, current.0)) {
                            let j = choose|j: int|
                                0 <= j < result0.len() && result0[j].depth + 1 == depth
                                    && has_edge(g, #[trigger] result0[j].vertex.0, current.0);
                            assert(result@[j] == result0[j]);
                        }
                        assert forall|i: int| 0 <= i < n implies result@[i].vertex != #[trigger] result@[n].vertex by {
                            assert(visited0.contains(result0[i].vertex.0));
                        }
                        assert forall|i: int| #![trigger result@[i]] 0 <= i < result@.len() implies {
                            &&& result@[i].vertex.0 != start.0
                            &&& 1 <= result@[i].depth <= max_depth
                            &&& within(g, start.0, result@[i].depth as nat).contains(result@[i].vertex.0)
                            &&& visited@.contains(result@[i].vertex.0)
                            &&& (result@[i].depth == 1 && has_edge(g, start.0, result@[i].vertex.0))
                                || exists|j: int|
                                0 <= j < i && result@[j].depth + 1 == result@[i].depth && has_edge(
                                    g,
                                    #[trigger] result@[j].vertex.0,
                                    result@[i].vertex.0,
                                )
                        } by {
                            if i < n {
                                assert(result@[i] == result0[i]);
                                if !(result0[i].depth == 1 && has_edge(g, start.0, result0[i].vertex.0)) {
                                    let jj = choose|jj: int|
                                        0 <= jj < i && result0[jj].depth + 1 == result0[i].depth && has_edge(
                                            g,
                                            #[trigger] result0[jj].vertex.0,
                                            result0[i].vertex.0,
                                        );
                                    assert(result@[jj] == result0[jj]);
                                }
                            }
                        }
                    }
                    assert forall|k: int| 0 <= k < stack@.len() && stack@[k].1 > 0 && !(stack@[k].1 == 1
                        && has_edge(g, start.0, stack@[k].0.0)) implies exists|j: int|
                        0 <= j < result@.len() && result@[j].depth + 1 == stack@[k].1
                            && has_edge(g, #[trigger] result@[j].vertex.0, stack@[k].0.0) by {
                        let j = choose|j: int|
                            0 <= j < result0.len() && result0[j].depth + 1 == stack@[k].1
                                && has_edge(g, #[trigger] result0[j].vertex.0, stack@[k].0.0);
                        assert(result@[j] == result0[j]);
                    }
                }
                if depth >= max_depth {
                    continue;
                }
                let ghost result1 = result@;
                let ghost rest = stack@;
                let ghost seen = visited@;
                let ghost nd_spec: usize = (depth + 1) as usize;
                proof {
                    assert(dfs_run(g, start, max_depth, stack_before, visited0, result0) == dfs_run(
                        g,
                        start,
                        max_depth,
                        rest + dfs_pushes(g.edges_of(current.0), seen, nd_spec, 0),
                        seen,
                        result1,
                    ));
                }
                match graph.neighbors(current) {
                    Some(neighbors) => {
                        let mut j: usize = neighbors.len();
                        assert(stack@ =~= rest + dfs_pushes(g.edges_of(current.0), seen, nd_spec, j as nat));
                        while j > 0
                            invariant
                                visited@ == seen,
                                nd_spec == depth + 1,
                                stack@ == rest + dfs_pushes(g.edges_of(current.0), seen, nd_spec, j as nat),
                                dfs_run(
                                    g,
                                    start,
                                    max_depth,
                                    rest + dfs_pushes(g.edges_of(current.0), seen, nd_spec, 0),
                                    seen,
                                    result1,
                                ) == dfs_result(g, start, max_depth),
                                j <= neighbors@.len(),
                                neighbors@ == g.edges_of(current.0),
                                g.adjacency.contains_key(current.0),
                                result@ == result1,
                                depth < max_depth,
                                within(g, start.0, depth as nat).contains(current.0),
                                depth == 0 ==> current == start,
                                depth > 0 ==> current != start,
                                current != start ==> result@.len() > 0 && result@[result@.len()
                                    - 1].vertex == current && result@[result@.len() - 1].depth
                                    == depth,
                                visited@.contains(start.0),
                                forall|k: int|
                                    #![trigger stack@[k]]
                                    0 <= k < stack@.len() ==> {
                                        &&& stack@[k].1 <= max_depth
                                        &&& within(g, start.0, stack@[k].1 as nat).contains(
                                            stack@[k].0.0,
                                        )
                                        &&& stack@[k].1 == 0 ==> stack@[k].0 == start
                                        &&& stack@[k].1 > 0 ==> {
                                            ||| stack@[k].1 == 1 && has_edge(g, start.0, stack@[k].0.0)
                                            ||| exists|j: int|
                                                0 <= j < result@.len() && result@[j].depth + 1
                                                    == stack@[k].1 && has_edge(
                                                    g,
                                                    #[trigger] result@[j].vertex.0,
                                                    stack@[k].0.0,
                                                )
                                        }
                                    },
                            decreases j,
                        {
                            j = j - 1;
                            let edge = neighbors[j];
                            if !visited.contains(&edge.to.0) {
                                let ghost stack0 = stack@;
                                let nd = depth + 1;
                                proof {
                                    assert(g.edges_of(current.0)[j as int].to.0 == edge.to.0);
                                    assert(has_edge(g, current.0, edge.to.0));
                                    assert(successors(g, within(g, start.0, depth as nat)).contains(
                                        edge.to.0,
                                    ));
                                    assert(within(g, start.0, nd as nat) == within(
                                        g,
                                        start.0,
                                        depth as nat,
                                    ).union(successors(g, within(g, start.0, depth as nat))));
                                }
                                stack.push((edge.to, nd));
                                assert(stack@ =~= rest + dfs_pushes(g.edges_of(current.0), seen, nd_spec, j as nat));
                                assert forall|k: int| #![trigger stack@[k]] 0 <= k < stack@.len() implies {
                                    &&& stack@[k].1 <= max_depth
                                    &&& within(g, start.0, stack@[k].1 as nat).contains(stack@[k].0.0)
                                    &&& stack@[k].1 == 0 ==> stack@[k].0 == start
                                    &&& stack@[k].1 > 0 ==> {
                                        ||| stack@[k].1 == 1 && has_edge(g, start.0, stack@[k].0.0)
                                        ||| exists|j: int|
                                            0 <= j < result@.len() && result@[j].depth + 1
                                                == stack@[k].1 && has_edge(
                                                g,
                                                #[trigger] result@[j].vertex.0,
                                                stack@[k].0.0,
                                            )
                                    }
                                } by {
                                    if k < stack0.len() {
                                        assert(stack@[k] == stack0[k]);
                                    } else {
                                        if current != start {
                                            let jj = result@.len() - 1;
                                            assert(result@[jj].depth + 1 == stack@[k].1);
                                            assert(has_edge(g, result@[jj].vertex.0, stack@[k].0.0));
                                        }
                                    }
                                }
                            }
                        }
                    },
                    None => {
                        assert(stack@ =~= rest + dfs_pushes(g.edges_of(current.0), seen, nd_spec, 0));
                    },
                }
            },
        }
    }
    result
}

} // verus!
