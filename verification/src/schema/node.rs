//! The kind-specific part of a schema node, and the nested-node entries
//! through which a node names its children.

use vstd::prelude::*;
use crate::util::clone_value_vec;

verus! {

/// An entry of a node's `nested_nodes` list: the id of a child and the
/// child's local name.
#[derive(Debug, PartialEq)]
pub struct NestedNode {
    pub id: crate::schema::Id,
    pub name: String,
}

impl Clone for NestedNode {
    fn clone(&self) -> (r: Self)
        ensures
            r == *self,
    {
        NestedNode { id: self.id, name: self.name.clone() }
    }
}

/// The model of `Which`: field and enumerant vectors become sequences.
pub enum WhichV {
    File,
    Struct {
        is_group: bool,
        discriminant_count: u16,
        discriminant_offset: u32,
        fields: Seq<crate::schema::Field>,
    },
    Enum(Seq<crate::schema::Enumerant>),
    Interface,
    Const,
    Annotation,
}

/// The kind of a schema node.
#[derive(Debug, PartialEq)]
pub enum Which {
    File,
    Struct {
        is_group: bool,
        discriminant_count: u16,
        discriminant_offset: u32,
        fields: Vec<crate::schema::Field>,
    },
    Enum(Vec<crate::schema::Enumerant>),
    Interface,
    Const,
    Annotation,
}

impl View for Which {
    type V = WhichV;

    open spec fn view(&self) -> WhichV {
        match self {
            Which::File => WhichV::File,
            Which::Struct { is_group, discriminant_count, discriminant_offset, fields } => (
            WhichV::Struct {
                is_group: *is_group,
                discriminant_count: *discriminant_count,
                discriminant_offset: *discriminant_offset,
                fields: fields@,
            }),
            Which::Enum(es) => WhichV::Enum(es@),
            Which::Interface => WhichV::Interface,
            Which::Const => WhichV::Const,
            Which::Annotation => WhichV::Annotation,
        }
    }
}

impl Clone for Which {
    fn clone(&self) -> (r: Self)
        ensures
            r@ == self@,
    {
        match self {
            Which::File => Which::File,
            Which::Struct { is_group, discriminant_count, discriminant_offset, fields } => (
            Which::Struct {
                is_group: *is_group,
                discriminant_count: *discriminant_count,
                discriminant_offset: *discriminant_offset,
                fields: clone_value_vec(fields),
            }),
            Which::Enum(es) => Which::Enum(clone_value_vec(es)),
            Which::Interface => Which::Interface,
            Which::Const => Which::Const,
            Which::Annotation => Which::Annotation,
        }
    }
}

/// The label of a node kind, as shown in diagnostics.
pub open spec fn which_label(w: WhichV) -> Seq<char> {
    match w {
        WhichV::File => "File"@,
        WhichV::Struct { .. } => "Struct"@,
        WhichV::Enum(_) => "Enum"@,
        WhichV::Interface => "Interface"@,
        WhichV::Const => "Const"@,
        WhichV::Annotation => "Annotation"@,
    }
}

/// Names a node kind for diagnostics.
pub fn node_which_string(w: &Which) -> (r: &'static str)
    ensures
        r@ == which_label(w@),
{
    match w {
        Which::File => "File",
        Which::Struct { .. } => "Struct",
        Which::Enum(_) => "Enum",
        Which::Interface => "Interface",
        Which::Const => "Const",
        Which::Annotation => "Annotation",
    }
}

} // verus!
