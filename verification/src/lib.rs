//! Graph-of-thoughts reasoning engine: thought records, dependency-graph
//! analysis, session state and the text renderings built from them.

pub mod text;
pub mod types;
pub mod time;
pub mod persistence;
pub mod graph;
pub mod server;
pub mod console;
pub mod tools;
pub mod transport;
