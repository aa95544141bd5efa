//! The Rust backend: a target-language AST of modules, structs and tagged
//! enums, a translator from the schema graph with discriminated-union
//! splitting, a two-pass reference resolver, and serialization-glue
//! generation over the resolved AST.

pub mod ast;
pub mod code;
pub mod resolve;
pub mod serde_gen;
pub mod translate;
