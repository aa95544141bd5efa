//! The C++ backend: a target-language AST of namespaces, classes and
//! enum-classes, a translator from the schema graph, and a dependency
//! orderer that linearizes sibling definitions so that every definition
//! precedes its uses.

pub mod ast;
pub mod order;
pub mod translate;
