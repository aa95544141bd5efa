//! The schema graph consumed by the pipeline: an immutable list of nodes
//! whose parent/child and reference relationships are expressed as numeric
//! ids. File nodes carry annotations from which the target namespace of the
//! generated code is read.

use vstd::prelude::*;
use crate::util::clone_value_vec;

pub mod field;
pub mod node;

verus! {

pub type Id = u64;

/// A schema type expression. `Enum`, `Struct` and `Interface` refer to other
/// nodes by id; `List` recurses structurally.
#[derive(Debug, PartialEq)]
pub enum Type {
    Void,
    Bool,
    Int8,
    Int16,
    Int32,
    Int64,
    Uint8,
    Uint16,
    Uint32,
    Uint64,
    Float32,
    Float64,
    Text,
    Data,
    List(Box<Type>),
    Enum { type_id: Id },
    Struct { type_id: Id },
    Interface { type_id: Id },
    AnyPointer,
}

impl Clone for Type {
    fn clone(&self) -> (r: Self)
        ensures
            r == *self,
        decreases *self,
    {
        match self {
            Type::Void => Type::Void,
            Type::Bool => Type::Bool,
            Type::Int8 => Type::Int8,
            Type::Int16 => Type::Int16,
            Type::Int32 => Type::Int32,
            Type::Int64 => Type::Int64,
            Type::Uint8 => Type::Uint8,
            Type::Uint16 => Type::Uint16,
            Type::Uint32 => Type::Uint32,
            Type::Uint64 => Type::Uint64,
            Type::Float32 => Type::Float32,
            Type::Float64 => Type::Float64,
            Type::Text => Type::Text,
            Type::Data => Type::Data,
            Type::List(t) => Type::List(Box::new((**t).clone())),
            Type::Enum { type_id } => Type::Enum { type_id: *type_id },
            Type::Struct { type_id } => Type::Struct { type_id: *type_id },
            Type::Interface { type_id } => Type::Interface { type_id: *type_id },
            Type::AnyPointer => Type::AnyPointer,
        }
    }
}

/// One field of a struct node. `discriminant_value` is `NO_DISCRIMINANT`
/// for fields that are not part of a union.
#[derive(Debug, PartialEq)]
pub struct Field {
    pub name: String,
    pub discriminant_value: u16,
    pub which: field::Which,
}

impl Clone for Field {
    fn clone(&self) -> (r: Self)
        ensures
            r == *self,
    {
        Field {
            name: self.name.clone(),
            discriminant_value: self.discriminant_value,
            which: self.which.clone(),
        }
    }
}

/// One enumerant of an enum node; only its name is relevant here.
#[derive(Debug, PartialEq)]
pub struct Enumerant {
    pub name: String,
}

impl Clone for Enumerant {
    fn clone(&self) -> (r: Self)
        ensures
            r == *self,
    {
        Enumerant { name: self.name.clone() }
    }
}

/// An annotation value; only textual values are read by this pipeline.
#[derive(Debug, PartialEq)]
pub enum Value {
    Text(String),
    Void,
}

impl Clone for Value {
    fn clone(&self) -> (r: Self)
        ensures
            r == *self,
    {
        match self {
            Value::Text(t) => Value::Text(t.clone()),
            Value::Void => Value::Void,
        }
    }
}

/// An annotation attached to a node: the id of the annotation declaration
/// and the attached value.
#[derive(Debug, PartialEq)]
pub struct Annotation {
    pub id: Id,
    pub value: Value,
}

impl Clone for Annotation {
    fn clone(&self) -> (r: Self)
        ensures
            r == *self,
    {
        Annotation { id: self.id, value: self.value.clone() }
    }
}

/// The model of a node: vectors are abstracted to sequences.
pub struct NodeV {
    pub id: Id,
    pub display_name: String,
    pub display_name_prefix_length: usize,
    pub scope_id: Id,
    pub nested_nodes: Seq<node::NestedNode>,
    pub annotations: Seq<Annotation>,
    pub which: node::WhichV,
}

/// One declaration of the schema graph. The names of a node's children are
/// listed here, in `nested_nodes`; a node does not name itself.
#[derive(Debug, PartialEq)]
pub struct Node {
    pub id: Id,
    pub display_name: String,
    pub display_name_prefix_length: usize,
    pub scope_id: Id,
    pub nested_nodes: Vec<node::NestedNode>,
    pub annotations: Vec<Annotation>,
    pub which: node::Which,
}

impl View for Node {
    type V = NodeV;

    open spec fn view(&self) -> NodeV {
        NodeV {
            id: self.id,
            display_name: self.display_name,
            display_name_prefix_length: self.display_name_prefix_length,
            scope_id: self.scope_id,
            nested_nodes: self.nested_nodes@,
            annotations: self.annotations@,
            which: self.which@,
        }
    }
}

impl Clone for Node {
    fn clone(&self) -> (r: Self)
        ensures
            r@ == self@,
    {
        Node {
            id: self.id,
            display_name: self.display_name.clone(),
            display_name_prefix_length: self.display_name_prefix_length,
            scope_id: self.scope_id,
            nested_nodes: clone_value_vec(&self.nested_nodes),
            annotations: clone_value_vec(&self.annotations),
            which: self.which.clone(),
        }
    }
}

/// The whole input of one compilation: every node of every requested file.
#[derive(Debug, PartialEq)]
pub struct CodeGeneratorRequest {
    pub nodes: Vec<Node>,
}

impl View for CodeGeneratorRequest {
    type V = Seq<NodeV>;

    open spec fn view(&self) -> Seq<NodeV> {
        self.nodes@.map_values(|n: Node| n@)
    }
}

} // verus!
