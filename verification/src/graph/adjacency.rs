use std::collections::HashMap;
use vstd::prelude::*;

use crate::models::VertexId;

use super::edge::Edge;
use super::vertex::{Vertex, VertexKind};

verus! {

broadcast use vstd::std_specs::hash::group_hash_axioms;

/// The abstract value of a graph: its vertices and adjacency lists, both keyed by
/// the number of the vertex id, and the next id to hand out.
#[verifier::ext_equal]
pub struct GraphView {
    pub vertices: Map<u64, Vertex>,
    pub adjacency: Map<u64, Seq<Edge>>,
    pub next_id: u64,
}

impl GraphView {
    /// Every vertex has an adjacency list, carries its own key as id, and has an id
    /// below `next_id`.
    pub open spec fn well_formed(self) -> bool {
        &&& self.vertices.dom() == self.adjacency.dom()
        &&& self.vertices.dom().finite()
        &&& forall|id: u64| #[trigger]
            self.vertices.contains_key(id) ==> id < self.next_id && self.vertices[id].id
                == VertexId(id)
    }

    /// Whether `id` names a vertex of the graph.
    pub open spec fn has_vertex(self, id: u64) -> bool {
        self.vertices.contains_key(id)
    }

    /// The adjacency list of `id`, or the empty list when `id` is no vertex.
    pub open spec fn edges_of(self, id: u64) -> Seq<Edge> {
        if self.adjacency.contains_key(id) {
            self.adjacency[id]
        } else {
            Seq::empty()
        }
    }

    /// The graph with `vertex` added under a fresh id and an empty adjacency list.
    pub open spec fn with_vertex(self, kind: VertexKind) -> GraphView {
        GraphView {
            vertices: self.vertices.insert(
                self.next_id,
                Vertex { id: VertexId(self.next_id), kind },
            ),
            adjacency: self.adjacency.insert(self.next_id, Seq::empty()),
            next_id: (self.next_id + 1) as u64,
        }
    }

    /// The graph with `edge` appended to the adjacency list of `from`.
    pub open spec fn with_edge(self, from: u64, edge: Edge) -> GraphView {
        GraphView {
            vertices: self.vertices,
            adjacency: self.adjacency.insert(from, self.edges_of(from).push(edge)),
            next_id: self.next_id,
        }
    }

    /// The graph with `edge` stored at `from` and its reverse, pointing back to
    /// `from` with the same kind and weight, stored at `to`.
    pub open spec fn with_undirected_edge(self, from: u64, to: u64, edge: Edge) -> GraphView {
        self.with_edge(from, edge).with_edge(
            to,
            Edge { to: VertexId(from), edge_type: edge.edge_type, weight: edge.weight },
        )
    }

    /// The total length of the adjacency lists of the ids below `n`.
    pub open spec fn degree_sum(self, n: nat) -> nat
        decreases n,
    {
        if n == 0 {
            0
        } else {
            self.degree_sum((n - 1) as nat) + self.edges_of((n - 1) as u64).len()
        }
    }

    /// The number of stored adjacency entries over all vertices.
    pub open spec fn total_degree(self) -> nat {
        self.degree_sum(self.next_id as nat)
    }
}

/// Why a graph operation was refused.
#[derive(Debug, Clone, Copy, PartialEq, Eq, Structural)]
pub enum GraphError {
    VertexNotFound,
}

/// Undirected graph held as adjacency lists. Each vertex keeps the list of edges to
/// its neighbours; an undirected insertion stores the edge in both directions so that
/// a search can start from any vertex.
#[derive(Debug)]
pub struct Graph {
    vertices: HashMap<u64, Vertex>,
    adjacency: HashMap<u64, Vec<Edge>>,
    next_vertex_id: u64,
}

impl View for Graph {
    type V = GraphView;

    closed spec fn view(&self) -> GraphView {
        GraphView {
            vertices: self.vertices@,
            adjacency: self.adjacency@.map_values(|v: Vec<Edge>| v@),
            next_id: self.next_vertex_id,
        }
    }
}

impl Default for Graph {
    /// An empty graph whose next id is 0, so that its first vertex gets id 0.
    fn default() -> (r: Self)
        ensures
            r.wf(),
            r@.vertices == Map::<u64, Vertex>::empty(),
            r@.adjacency == Map::<u64, Seq<Edge>>::empty(),
            r@.next_id == 0,
    {
        let r = Graph { vertices: HashMap::new(), adjacency: HashMap::new(), next_vertex_id: 0 };
        assert(r@.adjacency =~= Map::<u64, Seq<Edge>>::empty());
        r
    }
}

impl Graph {
    pub open spec fn wf(&self) -> bool {
        self@.well_formed()
    }

    /// An empty graph whose first vertex gets id 1.
    pub fn new() -> (r: Self)
        ensures
            r.wf(),
            r@.vertices == Map::<u64, Vertex>::empty(),
            r@.adjacency == Map::<u64, Seq<Edge>>::empty(),
            r@.next_id == 1,
    {
        let r = Graph { vertices: HashMap::new(), adjacency: HashMap::new(), next_vertex_id: 1 };
        assert(r@.adjacency =~= Map::<u64, Seq<Edge>>::empty());
        r
    }

    fn alloc_vertex_id(&mut self) -> (r: VertexId)
        requires
            old(self).next_vertex_id < u64::MAX,
        ensures
            r == VertexId(old(self).next_vertex_id),
            final(self).next_vertex_id == old(self).next_vertex_id + 1,
            final(self).vertices == old(self).vertices,
            final(self).adjacency == old(self).adjacency,
    {
        let id = VertexId(self.next_vertex_id);
        self.next_vertex_id = self.next_vertex_id + 1;
        id
    }

    /// Adds a vertex of the given kind under the next id; it starts with no edges.
    pub fn add_vertex(&mut self, kind: VertexKind) -> (r: Result<VertexId, GraphError>)
        requires
            old(self).wf(),
            old(self)@.next_id < u64::MAX,
        ensures
            final(self).wf(),
            r == Ok::<VertexId, GraphError>(VertexId(old(self)@.next_id)),
            final(self)@ == old(self)@.with_vertex(kind),
    {
        let ghost before = self@;
        let id = self.alloc_vertex_id();
        let vertex = match kind {
            VertexKind::Customer(cid) => Vertex::customer(id, cid),
            VertexKind::Product(pid) => Vertex::product(id, pid),
            VertexKind::Category(catid) => Vertex::category(id, catid),
        };
        self.vertices.insert(id.0, vertex);
        self.adjacency.insert(id.0, Vec::new());
        assert(self@.adjacency =~= before.adjacency.insert(id.0, Seq::empty()));
        assert(self@.vertices =~= before.with_vertex(kind).vertices);
        Ok(id)
    }

    pub fn get_vertex(&self, id: VertexId) -> (r: Option<&Vertex>)
        ensures
            match r {
                Some(v) => self@.has_vertex(id.0) && *v == self@.vertices[id.0],
                None => !self@.has_vertex(id.0),
            },
    {
        self.vertices.get(&id.0)
    }

    /// The vertices, in increasing order of id.
    pub fn vertices(&self) -> (r: Vec<Vertex>)
        requires
            self.wf(),
        ensures
            forall|i: int| #![trigger r@[i]]
                0 <= i < r@.len() ==> self@.has_vertex(r@[i].id.0) && r@[i]
                    == self@.vertices[r@[i].id.0],
            forall|id: u64| #[trigger]
                self@.has_vertex(id) ==> exists|i: int| 0 <= i < r@.len() && r@[i].id.0 == id,
            forall|i: int, j: int| 0 <= i < j < r@.len() ==> r@[i].id.0 < r@[j].id.0,
    {
        let mut out: Vec<Vertex> = Vec::new();
        let mut k: u64 = 0;
        while k < self.next_vertex_id
            invariant
                self.wf(),
                k <= self.next_vertex_id,
                forall|i: int| #![trigger out@[i]]
                    0 <= i < out@.len() ==> self@.has_vertex(out@[i].id.0) && out@[i]
                        == self@.vertices[out@[i].id.0] && out@[i].id.0 < k,
                forall|id: u64| #[trigger]
                    self@.has_vertex(id) && id < k ==> exists|i: int|
                        0 <= i < out@.len() && out@[i].id.0 == id,
                forall|i: int, j: int| 0 <= i < j < out@.len() ==> out@[i].id.0 < out@[j].id.0,
            decreases self.next_vertex_id - k,
        {
            match self.vertices.get(&k) {
                Some(v) => {
                    let ghost before = out@;
                    out.push(*v);
                    assert(out@[out@.len() - 1] == *v);
                    assert forall|id: u64| #[trigger]
                        self@.has_vertex(id) && id < k + 1 implies exists|i: int|
                        0 <= i < out@.len() && out@[i].id.0 == id by {
                        if id == k {
                            assert(out@[out@.len() - 1].id.0 == id);
                        } else {
                            let i = choose|i: int| 0 <= i < before.len() && before[i].id.0 == id;
                            assert(out@[i] == before[i]);
                        }
                    }
                },
                None => {},
            }
            k = k + 1;
        }
        out
    }

    /// The id that the next added vertex gets.
    pub fn next_vertex_id(&self) -> (r: u64)
        ensures
            r == self@.next_id,
    {
        self.next_vertex_id
    }

    pub fn vertex_count(&self) -> (r: usize)
        ensures
            r == self@.vertices.len(),
    {
        self.vertices.len()
    }

    /// The number of undirected edges: half the number of stored adjacency entries.
    pub fn edge_count(&self) -> (r: usize)
        requires
            self.wf(),
            self@.total_degree() <= usize::MAX,
        ensures
            r == self@.total_degree() / 2,
    {
        let mut total: usize = 0;
        let mut k: u64 = 0;
        while k < self.next_vertex_id
            invariant
                self.wf(),
                self@.total_degree() <= usize::MAX,
                k <= self.next_vertex_id,
                total == self@.degree_sum(k as nat),
            decreases self.next_vertex_id - k,
        {
            proof {
                self.lemma_degree_sum_monotone((k + 1) as nat, self.next_vertex_id as nat);
            }
            match self.adjacency.get(&k) {
                Some(edges) => {
                    total = total + edges.len();
                },
                None => {},
            }
            k = k + 1;
        }
        total / 2
    }

    proof fn lemma_degree_sum_monotone(&self, a: nat, b: nat)
        requires
            a <= b,
        ensures
            self@.degree_sum(a) <= self@.degree_sum(b),
        decreases b - a,
    {
        if a < b {
            self.lemma_degree_sum_monotone(a, (b - 1) as nat);
        }
    }

    /// The edges leaving `from`, or `None` when `from` is no vertex.
    pub fn neighbors(&self, from: VertexId) -> (r: Option<&[Edge]>)
        ensures
            match r {
                Some(s) => self@.adjacency.contains_key(from.0) && s@ == self@.adjacency[from.0],
                None => !self@.adjacency.contains_key(from.0),
            },
    {
        match self.adjacency.get(&from.0) {
            Some(v) => Some(v.as_slice()),
            None => None,
        }
    }

    fn push_edge(&mut self, from: u64, edge: Edge)
        requires
            old(self).wf(),
            old(self)@.has_vertex(from),
        ensures
            final(self).wf(),
            final(self)@ == old(self)@.with_edge(from, edge),
    {
        let ghost before = self@;
        match self.adjacency.remove(&from) {
            Some(mut list) => {
                list.push(edge);
                self.adjacency.insert(from, list);
                assert(self@.adjacency =~= before.with_edge(from, edge).adjacency);
            },
            None => {
                assert(false);
            },
        }
    }

    /// Stores `edge` at `from` and its reverse at `to`, when both are vertices.
    pub fn add_undirected_edge(&mut self, from: VertexId, to: VertexId, edge: Edge) -> (r: Result<(), GraphError>)
        requires
            old(self).wf(),
        ensures
            final(self).wf(),
            old(self)@.has_vertex(from.0) && old(self)@.has_vertex(to.0) ==> r is Ok
                && final(self)@ == old(self)@.with_undirected_edge(from.0, to.0, edge),
            !(old(self)@.has_vertex(from.0) && old(self)@.has_vertex(to.0)) ==> r
                == Err::<(), GraphError>(GraphError::VertexNotFound) && final(self)@ == old(self)@,
    {
        if !self.vertices.contains_key(&from.0) || !self.vertices.contains_key(&to.0) {
            return Err(GraphError::VertexNotFound);
        }
        let reverse = Edge { to: from, edge_type: edge.edge_type, weight: edge.weight };
        self.push_edge(from.0, edge);
        self.push_edge(to.0, reverse);
        Ok(())
    }

    /// Stores `edge` at `from` only, when both ends are vertices.
    pub fn add_directed_edge(&mut self, from: VertexId, to: VertexId, edge: Edge) -> (r: Result<(), GraphError>)
        requires
            old(self).wf(),
        ensures
            final(self).wf(),
            old(self)@.has_vertex(from.0) && old(self)@.has_vertex(to.0) ==> r is Ok
                && final(self)@ == old(self)@.with_edge(from.0, edge),
            !(old(self)@.has_vertex(from.0) && old(self)@.has_vertex(to.0)) ==> r
                == Err::<(), GraphError>(GraphError::VertexNotFound) && final(self)@ == old(self)@,
    {
        if !self.vertices.contains_key(&from.0) || !self.vertices.contains_key(&to.0) {
            return Err(GraphError::VertexNotFound);
        }
        self.push_edge(from.0, edge);
        Ok(())
    }

    /// The adjacency lists, keyed by the number of the vertex id.
    pub fn adjacency_lists(&self) -> (r: &HashMap<u64, Vec<Edge>>)
        ensures
            r@.map_values(|v: Vec<Edge>| v@) == self@.adjacency,
    {
        &self.adjacency
    }
}

} // verus!
