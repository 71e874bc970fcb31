//! Demonstration data.
pub mod demo_data;

pub use demo_data::load_demo_store;
