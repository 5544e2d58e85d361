//! A whole-program call graph that grows one compilation unit at a time.
//!
//! * [`types`]: the function record, insert-or-find of nodes and edges in
//!   a graph, the merge of one graph into another, and the graph as text.
//! * [`model`]: the graph as a mathematical value, on which the contracts
//!   are stated.
//! * [`laws`]: what insertion and merge do to the set of names and the set
//!   of calls, and the laws of deduplication and merging.
//! * [`extraction`]: from the call sites of a unit to its graph, and one
//!   whole invocation from stored text to stored text.
//! * [`document`] and [`json`]: the durable form of a graph.
//! * [`store`], [`pattern`] and [`text`]: the calls into `petgraph`,
//!   `regex` and `serde_json`, each with the contract that the rest is
//!   proved against.
//! * [`error`]: the failures of an invocation.

pub mod document;
pub mod error;
pub mod extraction;
pub mod json;
pub mod laws;
pub mod model;
pub mod pattern;
pub mod store;
pub mod text;
pub mod types;
