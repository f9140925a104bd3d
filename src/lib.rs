//! Semantic analysis and code emission for a class-based language with a
//! garbage-collected heap: names and types resolve to handles into one
//! declaration table, and values are boxed and unboxed as code is emitted.
pub mod decl;
pub mod scope;
pub mod tree;
pub mod analyse;
pub mod emit;
pub mod token;
