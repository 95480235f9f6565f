//! Front end of a dynamic-instrumentation DSL for WebAssembly modules:
//! a parser for probe declarations, a wildcard resolver that expands probe
//! specifications against a catalog of instrumentation points, and a symbol
//! table builder over the resulting tree.

pub mod parser;
pub mod checker;
