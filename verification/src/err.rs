//! Errors of the translation pipeline. Unsupported schema constructs are
//! fatal: translation names the offending node and stops rather than
//! guessing a mapping.

use vstd::prelude::*;

verus! {

/// What went wrong.
#[derive(Clone, Copy, Debug, PartialEq, Eq, Structural)]
pub enum ErrorKind {
    /// The schema `Data` type has no mapping.
    DataType,
    /// The schema `AnyPointer` type has no mapping.
    AnyPointerType,
    /// Interface types have no mapping.
    InterfaceType,
    /// Group-typed fields are not supported.
    GroupField,
    /// A file node where a type definition was expected.
    FileNode,
    /// Interface nodes are not supported.
    InterfaceNode,
    /// Constant nodes are not supported.
    ConstNode,
    /// An annotation node where a type definition was expected.
    AnnotationNode,
    /// A node's name is not recorded in the context.
    MissingName,
    /// A referenced node is absent from the context.
    MissingNode,
    /// No file name could be found for a file node's id.
    MissingFileName,
    /// The nesting of nodes exceeds the number of nodes: a cycle.
    NestingTooDeep,
    /// No id above every real node id is available for synthesized types.
    IdSpaceExhausted,
    /// Two nodes carry the same id.
    DuplicateId,
    /// A file node's display-name prefix length is out of range.
    BadPrefixLength,
    /// The value of a namespace annotation is not text.
    NamespaceValueNotText,
    /// An annotation declaration the translator needs was not found.
    AnnotationIdMissing,
}

/// A fatal translation error: the offending node and what went wrong.
#[derive(Clone, Copy, Debug, PartialEq, Eq, Structural)]
pub struct TranslateError {
    pub node_id: u64,
    pub kind: ErrorKind,
}

/// A fatal resolution error: a reference to an id that no definition has.
#[derive(Clone, Copy, Debug, PartialEq, Eq, Structural)]
pub struct ResolveError {
    pub id: u64,
}

} // verus!
