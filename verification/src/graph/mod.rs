//! Analyses and renderings of the thought dependency graph.

pub mod quality;
pub mod mermaid;
pub mod assumptions;
pub mod lineage;
