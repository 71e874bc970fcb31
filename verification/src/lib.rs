//! Product recommendation over a graph of customers, products and categories.
pub mod models;
pub mod text;
pub mod graph;
pub mod repository;
pub mod recommendation;
pub mod benchmark;
pub mod utils;
