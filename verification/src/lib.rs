//! Taint analysis of Python web handlers: call graph, function summaries,
//! a fixed-point engine and SQL sink detection, over a plain model of
//! the parsed Python source.

pub mod function_id;
pub mod pyast;
pub mod syntax;
pub mod rules;
pub mod taint;
pub mod project;
pub mod call_graph;
pub mod summary;
pub mod engine;
pub mod lines;
pub mod sinks;
pub mod sarif;
pub mod analysis;
