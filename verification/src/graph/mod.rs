//! The relation graph: vertices, weighted edges and searches over them.
pub mod adjacency;
pub mod edge;
pub mod vertex;

pub use adjacency::{Graph, GraphError, GraphView};
pub use edge::{Edge, EdgeType};
pub use vertex::{Vertex, VertexKind};
pub mod algorithms;

pub use algorithms::{bfs, dfs, BfsStep, DfsStep};
pub mod laws;
pub mod linked;
