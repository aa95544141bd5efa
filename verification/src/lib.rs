//! A schema-compiler backend core: it consumes a language-neutral schema
//! graph (a flat list of nodes related by numeric ids) and produces
//! target-language type ASTs, with cross-type references resolved to
//! fully-qualified names and definitions emitted in dependency order.

pub mod cpp;
pub mod err;
pub mod multi_map;
pub mod rust_gen;
pub mod schema;
pub mod strutil;
pub mod util;
