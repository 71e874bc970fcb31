//! Graphs described by the kinds of their vertices, in order of creation, and the
//! undirected links between them, in order of insertion.
use vstd::prelude::*;

use crate::models::VertexId;

use super::adjacency::GraphView;
use super::edge::{Edge, EdgeType};
use super::vertex::{Vertex, VertexKind};

verus! {

/// An undirected link: the edge stored at `from` points to `to`, and its mirror,
/// stored at `to`, points back to `from` with the same kind and weight.
pub struct Link {
    pub from: u64,
    pub to: u64,
    pub edge_type: EdgeType,
    pub weight: u32,
}

/// The edges that the links `links`, inserted in order, store at vertex `v`.
pub open spec fn link_edges_at(links: Seq<Link>, v: u64) -> Seq<Edge>
    decreases links.len(),
{
    if links.len() == 0 {
        Seq::empty()
    } else {
        let l = links.last();
        let before = link_edges_at(links.drop_last(), v);
        let with_from = if l.from == v {
            before.push(Edge { to: VertexId(l.to), edge_type: l.edge_type, weight: l.weight })
        } else {
            before
        };
        if l.to == v {
            with_from.push(Edge { to: VertexId(l.from), edge_type: l.edge_type, weight: l.weight })
        } else {
            with_from
        }
    }
}

/// Appending a link stores its edge at its first end and its mirror at its second end.
pub proof fn lemma_link_edges_push(links: Seq<Link>, l: Link, v: u64)
    ensures
        link_edges_at(links.push(l), v) == ({
            let with_from = if l.from == v {
                link_edges_at(links, v).push(
                    Edge { to: VertexId(l.to), edge_type: l.edge_type, weight: l.weight },
                )
            } else {
                link_edges_at(links, v)
            };
            if l.to == v {
                with_from.push(Edge { to: VertexId(l.from), edge_type: l.edge_type, weight: l.weight })
            } else {
                with_from
            }
        }),
{
    assert(links.push(l).drop_last() =~= links);
    assert(links.push(l).last() == l);
}

/// The edges that one link stores at vertex `v`: its edge if `v` is its first end,
/// then its mirror if `v` is its second end.
pub open spec fn edges_of_link(l: Link, v: u64) -> Seq<Edge> {
    (if l.from == v {
        seq![Edge { to: VertexId(l.to), edge_type: l.edge_type, weight: l.weight }]
    } else {
        Seq::empty()
    }) + (if l.to == v {
        seq![Edge { to: VertexId(l.from), edge_type: l.edge_type, weight: l.weight }]
    } else {
        Seq::empty()
    })
}

/// The edges stored at a vertex by two runs of links, one after the other, are those
/// of the first run followed by those of the second; a single link stores
/// `edges_of_link`.
pub proof fn lemma_link_edges_concat(a: Seq<Link>, b: Seq<Link>, v: u64)
    ensures
        link_edges_at(a + b, v) == link_edges_at(a, v) + link_edges_at(b, v),
    decreases b.len(),
{
    if b.len() == 0 {
        assert(a + b =~= a);
        assert(link_edges_at(a, v) + link_edges_at(b, v) =~= link_edges_at(a, v));
    } else {
        let l = b.last();
        let bb = b.drop_last();
        assert(a + b =~= (a + bb).push(l));
        assert(b =~= bb.push(l));
        lemma_link_edges_concat(a, bb, v);
        lemma_link_edges_push(a + bb, l, v);
        lemma_link_edges_push(bb, l, v);
        assert(link_edges_at(a + b, v) =~= link_edges_at(a, v) + link_edges_at(b, v));
    }
}

/// What a single link stores at `v`.
pub proof fn lemma_link_edges_single(l: Link, v: u64)
    ensures
        link_edges_at(seq![l], v) == edges_of_link(l, v),
{
    lemma_link_edges_push(Seq::empty(), l, v);
    assert(seq![l] =~= Seq::<Link>::empty().push(l));
    assert(link_edges_at(Seq::<Link>::empty(), v) == Seq::<Edge>::empty());
    assert(link_edges_at(seq![l], v) =~= edges_of_link(l, v));
}

/// The edges that the first `i` links store at `v`, link by link.
pub open spec fn edges_of_links(links: Seq<Link>, i: nat, v: u64) -> Seq<Edge>
    decreases i,
{
    if i == 0 {
        Seq::empty()
    } else {
        edges_of_links(links, (i - 1) as nat, v) + edges_of_link(links[i - 1], v)
    }
}

/// The edges stored at `v` are, link by link, the edges each link stores there.
pub proof fn lemma_link_edges_flat(links: Seq<Link>, v: u64)
    ensures
        link_edges_at(links, v) == edges_of_links(links, links.len(), v),
    decreases links.len(),
{
    if links.len() > 0 {
        let p = links.drop_last();
        lemma_link_edges_flat(p, v);
        lemma_edges_of_links_prefix(links, p.len(), v);
        assert(links =~= p + seq![links.last()]);
        lemma_link_edges_concat(p, seq![links.last()], v);
        lemma_link_edges_single(links.last(), v);
    }
}

proof fn lemma_edges_of_links_prefix(links: Seq<Link>, i: nat, v: u64)
    requires
        i <= links.len(),
    ensures
        edges_of_links(links, i, v) == edges_of_links(links.take(i as int), i, v),
    decreases i,
{
    if i > 0 {
        lemma_edges_of_links_prefix(links, (i - 1) as nat, v);
        lemma_edges_of_links_prefix(links.take(i as int), (i - 1) as nat, v);
        assert(links.take(i as int).take(i - 1) =~= links.take(i - 1));
        assert(links.take(i as int)[i - 1] == links[i - 1]);
    }
}

/// Both ends of every link are among the vertices `1..=n`.
pub open spec fn links_within(links: Seq<Link>, n: nat) -> bool {
    forall|i: int|
        0 <= i < links.len() ==> 1 <= #[trigger] links[i].from <= n && 1 <= links[i].to <= n
}

/// The ids `1..=n`.
pub open spec fn id_range(n: nat) -> Set<u64> {
    Set::new(|k: u64| 1 <= k <= n)
}

/// The graph whose vertices are `1..=kinds.len()`, vertex `k` of kind `kinds[k - 1]`,
/// and whose adjacency lists hold the edges of `links`, in the order of the links.
pub open spec fn linked_graph(kinds: Seq<VertexKind>, links: Seq<Link>) -> GraphView {
    GraphView {
        vertices: Map::new(
            |k: u64| 1 <= k <= kinds.len(),
            |k: u64| Vertex { id: VertexId(k), kind: kinds[k - 1] },
        ),
        adjacency: Map::new(|k: u64| 1 <= k <= kinds.len(), |k: u64| link_edges_at(links, k)),
        next_id: (kinds.len() + 1) as u64,
    }
}

/// The graph of a freshly created, empty graph.
pub open spec fn empty_graph() -> GraphView {
    GraphView { vertices: Map::empty(), adjacency: Map::empty(), next_id: 1 }
}

/// With no vertex and no link, the described graph is the empty graph.
pub proof fn lemma_linked_empty()
    ensures
        linked_graph(Seq::empty(), Seq::empty()) == empty_graph(),
{
    assert(linked_graph(Seq::empty(), Seq::empty()).vertices =~= Map::empty());
    assert(linked_graph(Seq::empty(), Seq::empty()).adjacency =~= Map::empty());
}

/// The ids `1..=n` are finite and `n` in number.
pub proof fn lemma_id_range_len(n: nat)
    requires
        n <= u64::MAX,
    ensures
        id_range(n).finite(),
        id_range(n).len() == n,
    decreases n,
{
    if n == 0 {
        assert(id_range(0) =~= Set::empty());
    } else {
        lemma_id_range_len((n - 1) as nat);
        assert(id_range(n) =~= id_range((n - 1) as nat).insert(n as u64));
    }
}

/// No link stores an edge at a vertex outside `1..=n`.
pub proof fn lemma_link_edges_outside(links: Seq<Link>, n: nat, v: u64)
    requires
        links_within(links, n),
        v == 0 || v > n,
    ensures
        link_edges_at(links, v) == Seq::<Edge>::empty(),
    decreases links.len(),
{
    if links.len() > 0 {
        assert(links.last() == links[links.len() - 1]);
        lemma_link_edges_outside(links.drop_last(), n, v);
    }
}

/// Adding a vertex to a described graph describes it with one more vertex kind.
pub proof fn lemma_linked_with_vertex(kinds: Seq<VertexKind>, links: Seq<Link>, kind: VertexKind)
    requires
        links_within(links, kinds.len()),
        kinds.len() + 1 < u64::MAX,
    ensures
        linked_graph(kinds, links).with_vertex(kind) == linked_graph(kinds.push(kind), links),
        links_within(links, kinds.push(kind).len()),
{
    let g = linked_graph(kinds, links);
    let h = linked_graph(kinds.push(kind), links);
    let n = (kinds.len() + 1) as u64;
    lemma_link_edges_outside(links, kinds.len(), n);
    assert(g.with_vertex(kind).vertices =~= h.vertices);
    assert(g.with_vertex(kind).adjacency =~= h.adjacency);
}

/// Inserting an undirected link between two vertices of a described graph describes
/// it with that link appended.
pub proof fn lemma_linked_with_link(kinds: Seq<VertexKind>, links: Seq<Link>, l: Link)
    requires
        links_within(links, kinds.len()),
        1 <= l.from <= kinds.len(),
        1 <= l.to <= kinds.len(),
    ensures
        linked_graph(kinds, links).with_undirected_edge(
            l.from,
            l.to,
            Edge { to: VertexId(l.to), edge_type: l.edge_type, weight: l.weight },
        ) == linked_graph(kinds, links.push(l)),
        links_within(links.push(l), kinds.len()),
{
    let g = linked_graph(kinds, links);
    let e = Edge { to: VertexId(l.to), edge_type: l.edge_type, weight: l.weight };
    let g2 = g.with_undirected_edge(l.from, l.to, e);
    let h = linked_graph(kinds, links.push(l));
    assert(links.push(l).drop_last() =~= links);
    assert(g2.vertices =~= h.vertices);
    assert(g2.adjacency =~= h.adjacency);
    assert forall|i: int| 0 <= i < links.push(l).len() implies 1 <= #[trigger] links.push(
        l,
    )[i].from <= kinds.len() && 1 <= links.push(l)[i].to <= kinds.len() by {
        if i < links.len() {
            assert(links.push(l)[i] == links[i]);
        }
    }
}

/// The adjacency lists of the ids below `n` hold two entries for each link with both
/// ends below `n`.
proof fn lemma_degree_sum_linked(kinds: Seq<VertexKind>, links: Seq<Link>, n: nat)
    requires
        links_within(links, kinds.len()),
        n <= kinds.len() + 1,
        kinds.len() + 1 <= u64::MAX,
    ensures
        linked_graph(kinds, links).degree_sum(n) == 2 * links.len() - count_outside(links, n),
    decreases links.len(),
{
    let g = linked_graph(kinds, links);
    if links.len() == 0 {
        assert(links =~= Seq::<Link>::empty());
        lemma_degree_sum_no_links(kinds, n);
    } else {
        let rest = links.drop_last();
        let l = links.last();
        assert(links_within(rest, kinds.len())) by {
            assert forall|i: int| 0 <= i < rest.len() implies 1 <= #[trigger] rest[i].from
                <= kinds.len() && 1 <= rest[i].to <= kinds.len() by {
                assert(rest[i] == links[i]);
            }
        }
        assert(l == links[links.len() - 1]);
        assert(rest.push(l) =~= links);
        lemma_degree_sum_linked(kinds, rest, n);
        lemma_degree_sum_step(kinds, rest, l, n);
        assert(count_outside(links, n) == count_outside(rest, n) + (if l.from >= n {
            1nat
        } else {
            0nat
        }) + (if l.to >= n {
            1nat
        } else {
            0nat
        }));
        assert(count_outside(rest, n) <= 2 * rest.len()) by {
            lemma_count_outside_bound(rest, n);
        }
    }
}

/// The number of link ends (two per link) that lie at `n` or above.
pub open spec fn count_outside(links: Seq<Link>, n: nat) -> nat
    decreases links.len(),
{
    if links.len() == 0 {
        0
    } else {
        let l = links.last();
        count_outside(links.drop_last(), n) + (if l.from >= n {
            1nat
        } else {
            0nat
        }) + (if l.to >= n {
            1nat
        } else {
            0nat
        })
    }
}

proof fn lemma_count_outside_bound(links: Seq<Link>, n: nat)
    ensures
        count_outside(links, n) <= 2 * links.len(),
    decreases links.len(),
{
    if links.len() > 0 {
        lemma_count_outside_bound(links.drop_last(), n);
    }
}

proof fn lemma_degree_sum_no_links(kinds: Seq<VertexKind>, n: nat)
    requires
        n <= kinds.len() + 1,
    ensures
        linked_graph(kinds, Seq::empty()).degree_sum(n) == 0,
    decreases n,
{
    if n > 0 {
        lemma_degree_sum_no_links(kinds, (n - 1) as nat);
    }
}

/// Appending one link adds its ends below `n` to the adjacency entries below `n`.
proof fn lemma_degree_sum_step(kinds: Seq<VertexKind>, links: Seq<Link>, l: Link, n: nat)
    requires
        1 <= l.from,
        1 <= l.to,
        n <= kinds.len() + 1,
        kinds.len() + 1 <= u64::MAX,
    ensures
        linked_graph(kinds, links.push(l)).degree_sum(n) == linked_graph(kinds, links).degree_sum(
            n,
        ) + (if l.from < n {
            1nat
        } else {
            0nat
        }) + (if l.to < n {
            1nat
        } else {
            0nat
        }),
    decreases n,
{
    let g = linked_graph(kinds, links);
    let h = linked_graph(kinds, links.push(l));
    if n > 0 {
        lemma_degree_sum_step(kinds, links, l, (n - 1) as nat);
        let v = (n - 1) as u64;
        assert(links.push(l).drop_last() =~= links);
        assert(links.push(l).last() == l);
        if 1 <= v <= kinds.len() {
            assert(h.edges_of(v) == link_edges_at(links.push(l), v));
            assert(g.edges_of(v) == link_edges_at(links, v));
        } else {
            assert(h.edges_of(v) == Seq::<Edge>::empty());
            assert(g.edges_of(v) == Seq::<Edge>::empty());
            assert(v == 0);
        }
    }
}

/// A described graph is well formed, has `kinds.len()` vertices and stores two
/// adjacency entries per link.
pub proof fn lemma_linked_counts(kinds: Seq<VertexKind>, links: Seq<Link>)
    requires
        links_within(links, kinds.len()),
        kinds.len() + 1 <= u64::MAX,
    ensures
        linked_graph(kinds, links).well_formed(),
        linked_graph(kinds, links).vertices.dom() == id_range(kinds.len()),
        linked_graph(kinds, links).vertices.len() == kinds.len(),
        linked_graph(kinds, links).total_degree() == 2 * links.len(),
{
    let g = linked_graph(kinds, links);
    assert(g.vertices.dom() =~= id_range(kinds.len()));
    assert(g.adjacency.dom() =~= id_range(kinds.len()));
    lemma_id_range_len(kinds.len());
    lemma_degree_sum_linked(kinds, links, kinds.len() + 1);
    lemma_count_outside_zero(links, kinds.len());
}

proof fn lemma_count_outside_zero(links: Seq<Link>, n: nat)
    requires
        links_within(links, n),
    ensures
        count_outside(links, n + 1) == 0,
    decreases links.len(),
{
    if links.len() > 0 {
        let rest = links.drop_last();
        assert(links.last() == links[links.len() - 1]);
        assert(links_within(rest, n)) by {
            assert forall|i: int| 0 <= i < rest.len() implies 1 <= #[trigger] rest[i].from <= n
                && 1 <= rest[i].to <= n by {
                assert(rest[i] == links[i]);
            }
        }
        lemma_count_outside_zero(rest, n);
    }
}

} // verus!
