//! A compiler front-end and code emitter for a minimal interface-definition
//! language describing length-prefixed binary messages.
//!
//! The pipeline has two stages: a parser from schema text to a schema tree,
//! and an emitter from the schema tree to target-language source text.

pub mod gen;
pub mod text;
pub mod tree;
