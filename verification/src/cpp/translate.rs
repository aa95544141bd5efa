//! The translator that turns the schema graph into the C++ AST.
//!
//! A context built in one linear pass holds every node's name, the
//! children of every scope, the nodes by id, the annotation-declaration
//! ids read once from the schema, and a synthetic-id base above every
//! real node id for the companion enums of unions. Every file node that
//! carries the idiomatic-namespace annotation contributes its types to
//! the namespace tree named by that annotation; a file without it is
//! skipped.

use vstd::prelude::*;
use std::collections::HashMap;
use multimap::MultiMap;
use crate::cpp::ast::{
    fields_views, names_views, CppType, CppTypeV, EnumClass, EnumClassV, Field, FieldV,
    FullyQualifiedName, Name, NameCase, NameV,
};
use crate::err::{ErrorKind, TranslateError};
use crate::multi_map::{mm_insert, mm_view, mm_with_capacity};
use crate::schema;
use crate::strutil::{name_tokens_spec, str_chars};

verus! {

pub type Id = u64;

/// A name of fixed casing built from a raw character sequence.
pub open spec fn fixed_name(s: Seq<char>) -> NameV {
    NameV { tokens: name_tokens_spec(s), case: NameCase::Fixed }
}

/// What translating a schema type yields: a C++ type, or the fatal error
/// naming the unsupported construct.
pub open spec fn cpp_type_spec(t: schema::Type) -> Result<CppTypeV, ErrorKind>
    decreases t,
{
    match t {
        schema::Type::Void => Ok(CppTypeV::Void),
        schema::Type::Bool => Ok(CppTypeV::Bool),
        schema::Type::Int8 => Ok(CppTypeV::Char),
        schema::Type::Int16 => Ok(CppTypeV::Short),
        schema::Type::Int32 => Ok(CppTypeV::Int),
        schema::Type::Int64 => Ok(CppTypeV::Long),
        schema::Type::Uint8 => Ok(CppTypeV::UChar),
        schema::Type::Uint16 => Ok(CppTypeV::UShort),
        schema::Type::Uint32 => Ok(CppTypeV::UInt),
        schema::Type::Uint64 => Ok(CppTypeV::ULong),
        schema::Type::Float32 => Ok(CppTypeV::Float),
        schema::Type::Float64 => Ok(CppTypeV::Double),
        schema::Type::Text => Ok(CppTypeV::String),
        schema::Type::Data => Err(ErrorKind::DataType),
        schema::Type::List(b) => match cpp_type_spec(*b) {
            Ok(v) => Ok(CppTypeV::Vector(Box::new(v))),
            Err(e) => Err(e),
        },
        schema::Type::Enum { type_id } => Ok(CppTypeV::RefId(type_id)),
        schema::Type::Struct { type_id } => Ok(CppTypeV::RefId(type_id)),
        schema::Type::Interface { .. } => Err(ErrorKind::InterfaceType),
        schema::Type::AnyPointer => Err(ErrorKind::AnyPointerType),
    }
}

/// What translating a schema field yields.
pub open spec fn cpp_field_spec(f: schema::Field) -> Result<FieldV, ErrorKind> {
    match f.which {
        schema::field::Which::Group(_) => Err(ErrorKind::GroupField),
        schema::field::Which::Slot(t) => match cpp_type_spec(t) {
            Ok(v) => Ok(FieldV { name: fixed_name(f.name@), cpp_type: v }),
            Err(e) => Err(e),
        },
    }
}

/// The field's C++ form, meaningful only when it translates.
pub open spec fn cpp_field_value(f: schema::Field) -> FieldV {
    match cpp_field_spec(f) {
        Ok(v) => v,
        Err(_) => vstd::pervasive::arbitrary(),
    }
}

/// The first fatal error among the fields from position `i` on, if any.
pub open spec fn cpp_fields_err(fs: Seq<schema::Field>, i: int) -> Option<ErrorKind>
    decreases fs.len() - i,
{
    if i < 0 || i >= fs.len() {
        None
    } else {
        match cpp_field_spec(fs[i]) {
            Err(e) => Some(e),
            Ok(_) => cpp_fields_err(fs, i + 1),
        }
    }
}

/// Every field translated, in order.
pub open spec fn cpp_all_fields(fs: Seq<schema::Field>, i: int) -> Seq<FieldV>
    decreases fs.len() - i,
{
    if i < 0 || i >= fs.len() {
        Seq::empty()
    } else {
        seq![cpp_field_value(fs[i])] + cpp_all_fields(fs, i + 1)
    }
}

/// The non-discriminated fields translated, in order.
pub open spec fn cpp_class_fields(fs: Seq<schema::Field>, i: int) -> Seq<FieldV>
    decreases fs.len() - i,
{
    if i < 0 || i >= fs.len() {
        Seq::empty()
    } else if fs[i].discriminant_value == crate::schema::field::NO_DISCRIMINANT {
        seq![cpp_field_value(fs[i])] + cpp_class_fields(fs, i + 1)
    } else {
        cpp_class_fields(fs, i + 1)
    }
}

/// The discriminated fields translated, in order.
pub open spec fn cpp_union_fields(fs: Seq<schema::Field>, i: int) -> Seq<FieldV>
    decreases fs.len() - i,
{
    if i < 0 || i >= fs.len() {
        Seq::empty()
    } else if fs[i].discriminant_value == crate::schema::field::NO_DISCRIMINANT {
        cpp_union_fields(fs, i + 1)
    } else {
        seq![cpp_field_value(fs[i])] + cpp_union_fields(fs, i + 1)
    }
}

/// The discriminated fields' names as enumerants of the companion enum,
/// in order: one enumerant per field of the union, and none for the
/// always-present fields.
pub open spec fn cpp_which_names(fs: Seq<schema::Field>, i: int) -> Seq<NameV>
    decreases fs.len() - i,
{
    if i < 0 || i >= fs.len() {
        Seq::empty()
    } else if fs[i].discriminant_value == crate::schema::field::NO_DISCRIMINANT {
        cpp_which_names(fs, i + 1)
    } else {
        seq![fixed_name(fs[i].name@)] + cpp_which_names(fs, i + 1)
    }
}

/// The enumerant names of an enum node, in order.
pub open spec fn cpp_enumerants(es: Seq<schema::Enumerant>, i: int) -> Seq<NameV>
    decreases es.len() - i,
{
    if i < 0 || i >= es.len() {
        Seq::empty()
    } else {
        seq![fixed_name(es[i].name@)] + cpp_enumerants(es, i + 1)
    }
}

/// Translates one schema type to its C++ counterpart.
pub fn translate_parser_type_to_cpp_type(pt: &schema::Type) -> (r: Result<CppType, ErrorKind>)
    ensures
        match r {
            Ok(v) => cpp_type_spec(*pt) == Ok::<CppTypeV, ErrorKind>(v@),
            Err(e) => cpp_type_spec(*pt) == Err::<CppTypeV, ErrorKind>(e),
        },
    decreases *pt,
{
    match pt {
        schema::Type::Void => Ok(CppType::Void),
        schema::Type::Bool => Ok(CppType::Bool),
        schema::Type::Int8 => Ok(CppType::Char),
        schema::Type::Int16 => Ok(CppType::Short),
        schema::Type::Int32 => Ok(CppType::Int),
        schema::Type::Int64 => Ok(CppType::Long),
        schema::Type::Uint8 => Ok(CppType::UChar),
        schema::Type::Uint16 => Ok(CppType::UShort),
        schema::Type::Uint32 => Ok(CppType::UInt),
        schema::Type::Uint64 => Ok(CppType::ULong),
        schema::Type::Float32 => Ok(CppType::Float),
        schema::Type::Float64 => Ok(CppType::Double),
        schema::Type::Text => Ok(CppType::String),
        schema::Type::Data => Err(ErrorKind::DataType),
        schema::Type::List(b) => match translate_parser_type_to_cpp_type(&**b) {
            Ok(v) => Ok(CppType::Vector(Box::new(v))),
            Err(e) => Err(e),
        },
        schema::Type::Enum { type_id } => Ok(CppType::RefId(*type_id)),
        schema::Type::Struct { type_id } => Ok(CppType::RefId(*type_id)),
        schema::Type::Interface { .. } => Err(ErrorKind::InterfaceType),
        schema::Type::AnyPointer => Err(ErrorKind::AnyPointerType),
    }
}

/// Translates one schema field to a C++ data member.
pub fn translate_parser_field_to_cpp_field(f: &schema::Field) -> (r: Result<Field, ErrorKind>)
    ensures
        match r {
            Ok(v) => cpp_field_spec(*f) == Ok::<FieldV, ErrorKind>(v@),
            Err(e) => cpp_field_spec(*f) == Err::<FieldV, ErrorKind>(e),
        },
{
    match &f.which {
        schema::field::Which::Group(_) => Err(ErrorKind::GroupField),
        schema::field::Which::Slot(t) => match translate_parser_type_to_cpp_type(t) {
            Ok(v) => Ok(Field { name: Name::from(f.name.as_str()), cpp_type: v }),
            Err(e) => Err(e),
        },
    }
}

/// Translates one schema field to an enumerant name of the companion
/// enum.
pub fn translate_parser_field_to_enumerant(f: &schema::Field) -> (r: Result<Name, ErrorKind>)
    ensures
        match r {
            Ok(v) => (f.which matches schema::field::Which::Slot(_)) && v@ == fixed_name(f.name@),
            Err(e) => (f.which matches schema::field::Which::Group(_)) && e
                == ErrorKind::GroupField,
        },
{
    match &f.which {
        schema::field::Which::Group(_) => Err(ErrorKind::GroupField),
        schema::field::Which::Slot(_) => Ok(Name::from(f.name.as_str())),
    }
}

/// The id of the companion enum synthesized for a union: the synthetic
/// base plus the node's own id, above every real id; exhaustion of the id
/// space is reported rather than wrapped around.
pub open spec fn which_ref_spec(base: u64, id: u64) -> Option<u64> {
    if base + id > u64::MAX {
        None
    } else {
        Some((base + id) as u64)
    }
}

/// Allocates the id the companion enum of a union refers to.
pub fn generate_refid_for_union_which(base: Id, id: Id) -> (r: Option<Id>)
    ensures
        r == which_ref_spec(base, id),
{
    base.checked_add(id)
}

/// The model of the translation context.
pub struct ContextV {
    pub namespace_annotation_id: u64,
    pub name_annotation_id: u64,
    pub idiomatic_namespace_annotation_id: u64,
    pub names: Map<u64, NameV>,
    pub children: Map<u64, Seq<u64>>,
    pub nodes: Map<u64, schema::NodeV>,
    pub capnp_names: Map<u64, Seq<NameV>>,
    pub synth_base: u64,
}

/// The translation context: the annotation-declaration ids read from the
/// schema, every node's name, the children of every scope, the nodes by
/// id, and the base of the synthetic-id space.
pub struct Context {
    pub namespace_annotation_id: u64,
    pub name_annotation_id: u64,
    pub idiomatic_namespace_annotation_id: u64,
    pub names: HashMap<Id, Name>,
    pub children: MultiMap<u64, u64>,
    pub nodes: HashMap<Id, schema::Node>,
    pub capnp_names: HashMap<Id, FullyQualifiedName>,
    pub synth_base: Id,
}

impl View for Context {
    type V = ContextV;

    open spec fn view(&self) -> ContextV {
        ContextV {
            namespace_annotation_id: self.namespace_annotation_id,
            name_annotation_id: self.name_annotation_id,
            idiomatic_namespace_annotation_id: self.idiomatic_namespace_annotation_id,
            names: self.names@.map_values(|n: Name| n@),
            children: mm_view(self.children),
            nodes: self.nodes@.map_values(|n: schema::Node| n@),
            capnp_names: self.capnp_names@.map_values(|f: FullyQualifiedName| f@),
            synth_base: self.synth_base,
        }
    }
}

impl Context {
    /// The empty context.
    pub fn new() -> (r: Context)
        ensures
            r@.namespace_annotation_id == 0,
            r@.name_annotation_id == 0,
            r@.idiomatic_namespace_annotation_id == 0,
            r@.names == Map::<u64, NameV>::empty(),
            r@.children == Map::<u64, Seq<u64>>::empty(),
            r@.nodes == Map::<u64, schema::NodeV>::empty(),
            r@.capnp_names == Map::<u64, Seq<NameV>>::empty(),
            r@.synth_base == 0,
    {
        let r = Context {
            namespace_annotation_id: 0,
            name_annotation_id: 0,
            idiomatic_namespace_annotation_id: 0,
            names: HashMap::new(),
            children: mm_with_capacity(0),
            nodes: HashMap::new(),
            capnp_names: HashMap::new(),
            synth_base: 0,
        };
        proof {
            assert(r@.names =~= Map::<u64, NameV>::empty());
            assert(r@.nodes =~= Map::<u64, schema::NodeV>::empty());
            assert(r@.capnp_names =~= Map::<u64, Seq<NameV>>::empty());
        }
        r
    }
}


/// What the children of a node contribute, from position `i` of the
/// child-id list on: each child's own definition, recursively.
pub open spec fn children_spec(ctx: ContextV, ids: Seq<u64>, i: int, fuel: nat) -> Result<
    Seq<crate::cpp::ast::ComplexTypeDefV>,
    TranslateError,
>
    decreases fuel, ids.len() - i + 1,
{
    if i < 0 || i >= ids.len() {
        Ok(Seq::empty())
    } else {
        match base_ast_type_spec(ctx, ids[i], fuel) {
            Err(e) => Err(e),
            Ok(d) => match children_spec(ctx, ids, i + 1, fuel) {
                Err(e) => Err(e),
                Ok(rest) => Ok(seq![d] + rest),
            },
        }
    }
}

/// What translating one node as a type definition yields: its children
/// become inner types; an enum node becomes an enum-class; a struct node
/// with any discriminated field becomes a class whose discriminated
/// fields live in an anonymous union, with a synthetic `which` field and
/// a companion enum holding exactly one enumerant per discriminated
/// field; one without stays a plain class. When every field is
/// discriminated the class keeps no plain field but `which`: the whole
/// value is the union, the C++ encoding of a pure tagged enum.
pub open spec fn base_ast_type_spec(ctx: ContextV, id: u64, fuel: nat) -> Result<
    crate::cpp::ast::ComplexTypeDefV,
    TranslateError,
>
    decreases fuel, 0int,
{
    if fuel == 0 {
        Err(TranslateError { node_id: id, kind: ErrorKind::NestingTooDeep })
    } else if !ctx.nodes.contains_key(id) {
        Err(TranslateError { node_id: id, kind: ErrorKind::MissingNode })
    } else if !ctx.names.contains_key(id) {
        Err(TranslateError { node_id: id, kind: ErrorKind::MissingName })
    } else {
        let n = ctx.nodes[id];
        let name = ctx.names[id];
        let kids = if ctx.children.contains_key(id) {
            ctx.children[id]
        } else {
            Seq::empty()
        };
        match children_spec(ctx, kids, 0, (fuel - 1) as nat) {
            Err(e) => Err(e),
            Ok(inner) => match n.which {
                schema::node::WhichV::File => Err(
                    TranslateError { node_id: id, kind: ErrorKind::FileNode },
                ),
                schema::node::WhichV::Interface => Err(
                    TranslateError { node_id: id, kind: ErrorKind::InterfaceNode },
                ),
                schema::node::WhichV::Const => Err(
                    TranslateError { node_id: id, kind: ErrorKind::ConstNode },
                ),
                schema::node::WhichV::Annotation => Err(
                    TranslateError { node_id: id, kind: ErrorKind::AnnotationNode },
                ),
                schema::node::WhichV::Enum(es) => Ok(
                    crate::cpp::ast::ComplexTypeDefV::EnumClass(
                        EnumClassV { id, name, enumerants: cpp_enumerants(es, 0) },
                    ),
                ),
                schema::node::WhichV::Struct { discriminant_count, fields, .. } => {
                    match cpp_fields_err(fields, 0) {
                        Some(k) => Err(TranslateError { node_id: id, kind: k }),
                        None => {
                            if discriminant_count > 0 {
                                match which_ref_spec(ctx.synth_base, id) {
                                    None => Err(
                                        TranslateError {
                                            node_id: id,
                                            kind: ErrorKind::IdSpaceExhausted,
                                        },
                                    ),
                                    Some(wid) => Ok(
                                        crate::cpp::ast::ComplexTypeDefV::Class(
                                            crate::cpp::ast::ClassV {
                                                id,
                                                name,
                                                inner_types: inner.push(
                                                    crate::cpp::ast::ComplexTypeDefV::EnumClass(
                                                        EnumClassV {
                                                            id: wid,
                                                            name: fixed_name("Which"@),
                                                            enumerants: cpp_which_names(fields, 0),
                                                        },
                                                    ),
                                                ),
                                                union: Some(
                                                    crate::cpp::ast::UnnamedUnionV {
                                                        id,
                                                        fields: cpp_union_fields(fields, 0),
                                                    },
                                                ),
                                                fields: cpp_class_fields(fields, 0).push(
                                                    FieldV {
                                                        name: fixed_name("which"@),
                                                        cpp_type: CppTypeV::RefId(wid),
                                                    },
                                                ),
                                            },
                                        ),
                                    ),
                                }
                            } else {
                                Ok(
                                    crate::cpp::ast::ComplexTypeDefV::Class(
                                        crate::cpp::ast::ClassV {
                                            id,
                                            name,
                                            inner_types: inner,
                                            union: None,
                                            fields: cpp_all_fields(fields, 0),
                                        },
                                    ),
                                )
                            }
                        },
                    }
                },
            },
        }
    }
}

/// The views of a sequence of complex type definitions.
pub open spec fn ctd_list_views(s: Seq<crate::cpp::ast::ComplexTypeDef>) -> Seq<
    crate::cpp::ast::ComplexTypeDefV,
> {
    s.map_values(|d: crate::cpp::ast::ComplexTypeDef| d@)
}

/// A prefix prepended to a children fold result.
pub open spec fn ctds_prepend(
    pre: Seq<crate::cpp::ast::ComplexTypeDefV>,
    r: Result<Seq<crate::cpp::ast::ComplexTypeDefV>, TranslateError>,
) -> Result<Seq<crate::cpp::ast::ComplexTypeDefV>, TranslateError> {
    match r {
        Ok(rest) => Ok(pre + rest),
        Err(e) => Err(e),
    }
}

/// Translates one node into a complex type definition, with its nested
/// children translated recursively as inner types.
#[verifier::loop_isolation(false)]
#[verifier::rlimit(100)]
pub fn generate_base_ast_type_for_node(ctx: &Context, id: Id, fuel: u64) -> (r: Result<
    crate::cpp::ast::ComplexTypeDef,
    TranslateError,
>)
    ensures
        match r {
            Ok(d) => base_ast_type_spec(ctx@, id, fuel as nat) == Ok::<
                crate::cpp::ast::ComplexTypeDefV,
                TranslateError,
            >(d@),
            Err(e) => base_ast_type_spec(ctx@, id, fuel as nat) == Err::<
                crate::cpp::ast::ComplexTypeDefV,
                TranslateError,
            >(e),
        },
    decreases fuel,
{
    if fuel == 0 {
        return Err(TranslateError { node_id: id, kind: ErrorKind::NestingTooDeep });
    }
    let n = match ctx.nodes.get(&id) {
        None => {
            proof {
                assert(!ctx@.nodes.contains_key(id));
            }
            return Err(TranslateError { node_id: id, kind: ErrorKind::MissingNode });
        },
        Some(n) => {
            proof {
                assert(ctx@.nodes.contains_key(id));
                assert(ctx@.nodes[id] == n@);
            }
            n
        },
    };
    let name = match ctx.names.get(&id) {
        None => {
            proof {
                assert(!ctx@.names.contains_key(id));
            }
            return Err(TranslateError { node_id: id, kind: ErrorKind::MissingName });
        },
        Some(nm) => {
            proof {
                assert(ctx@.names.contains_key(id));
                assert(ctx@.names[id] == nm@);
            }
            nm.clone()
        },
    };
    let ghost ctxv = ctx@;
    let ghost f1 = (fuel - 1) as nat;
    let mut inner: Vec<crate::cpp::ast::ComplexTypeDef> = Vec::new();
    let ghost kids = (if ctxv.children.contains_key(id) {
        ctxv.children[id]
    } else {
        Seq::<u64>::empty()
    });
    match crate::multi_map::mm_get_vec(&ctx.children, &id) {
        None => {
            proof {
                assert(kids =~= Seq::<u64>::empty());
                assert(children_spec(ctxv, kids, 0, f1) == Ok::<
                    Seq<crate::cpp::ast::ComplexTypeDefV>,
                    TranslateError,
                >(Seq::empty()));
            }
        },
        Some(kid_ids) => {
            proof {
                assert(kids == kid_ids@);
                match children_spec(ctxv, kids, 0, f1) {
                    Ok(rest) => {
                        assert(ctd_list_views(inner@) + rest =~= rest);
                    },
                    Err(_) => {},
                }
            }
            let mut i: usize = 0;
            while i < kid_ids.len()
                invariant
                    i <= kid_ids@.len(),
                    ctds_prepend(ctd_list_views(inner@), children_spec(ctxv, kids, i as int, f1))
                        == children_spec(ctxv, kids, 0, f1),
                decreases kid_ids@.len() - i,
            {
                let ghost before = ctd_list_views(inner@);
                match generate_base_ast_type_for_node(ctx, kid_ids[i], fuel - 1) {
                    Err(e) => {
                        return Err(e);
                    },
                    Ok(d) => {
                        inner.push(d);
                        proof {
                            let dv = match base_ast_type_spec(ctxv, kids[i as int], f1) {
                                Ok(dv) => dv,
                                Err(_) => vstd::pervasive::arbitrary(),
                            };
                            assert(ctd_list_views(inner@) =~= before.push(dv));
                            match children_spec(ctxv, kids, i as int + 1, f1) {
                                Err(_) => {},
                                Ok(rest) => {
                                    assert(before + (seq![dv] + rest) =~= ctd_list_views(inner@)
                                        + rest);
                                },
                            }
                        }
                    },
                }
                i += 1;
            }
            proof {
                assert(children_spec(ctxv, kids, kids.len() as int, f1) == Ok::<
                    Seq<crate::cpp::ast::ComplexTypeDefV>,
                    TranslateError,
                >(Seq::empty()));
                match children_spec(ctxv, kids, 0, f1) {
                    Ok(rest) => {
                        assert(ctd_list_views(inner@) + Seq::<
                            crate::cpp::ast::ComplexTypeDefV,
                        >::empty() =~= ctd_list_views(inner@));
                    },
                    Err(_) => {
                        assert(false);
                    },
                }
            }
        },
    }
    let ghost innerv = ctd_list_views(inner@);
    match &n.which {
        schema::node::Which::File => Err(TranslateError { node_id: id, kind: ErrorKind::FileNode }),
        schema::node::Which::Interface => Err(
            TranslateError { node_id: id, kind: ErrorKind::InterfaceNode },
        ),
        schema::node::Which::Const => Err(
            TranslateError { node_id: id, kind: ErrorKind::ConstNode },
        ),
        schema::node::Which::Annotation => Err(
            TranslateError { node_id: id, kind: ErrorKind::AnnotationNode },
        ),
        schema::node::Which::Enum(es) => {
            let ghost esv = es@;
            let mut enumerants: Vec<Name> = Vec::new();
            let mut i: usize = 0;
            while i < es.len()
                invariant
                    i <= es@.len(),
                    names_views(enumerants@) + cpp_enumerants(esv, i as int) =~= cpp_enumerants(
                        esv,
                        0,
                    ),
                decreases es@.len() - i,
            {
                let nm = Name::from(es[i].name.as_str());
                enumerants.push(nm);
                proof {
                    assert(names_views(enumerants@) + cpp_enumerants(esv, i as int + 1)
                        =~= cpp_enumerants(esv, 0));
                }
                i += 1;
            }
            proof {
                assert(cpp_enumerants(esv, esv.len() as int) =~= Seq::<NameV>::empty());
                assert(names_views(enumerants@) =~= cpp_enumerants(esv, 0));
            }
            let ec = EnumClass { id, name, enumerants };
            proof {
                assert(ctd_list_views(inner@) == innerv);
            }
            Ok(crate::cpp::ast::ComplexTypeDef::EnumClass(ec))
        },
        schema::node::Which::Struct { discriminant_count, fields, .. } => {
            let ghost fsv = fields@;
            let dc = *discriminant_count;
            let mut vi: usize = 0;
            while vi < fields.len()
                invariant
                    vi <= fields@.len(),
                    cpp_fields_err(fsv, vi as int) == cpp_fields_err(fsv, 0),
                    forall|j: int| 0 <= j < vi ==> cpp_field_spec(fsv[j]) is Ok,
                decreases fields@.len() - vi,
            {
                match translate_parser_field_to_cpp_field(&fields[vi]) {
                    Err(k) => {
                        proof {
                            assert(cpp_fields_err(fsv, vi as int) == Some(k));
                        }
                        return Err(TranslateError { node_id: id, kind: k });
                    },
                    Ok(_) => {},
                }
                vi += 1;
            }
            proof {
                assert(cpp_fields_err(fsv, fields@.len() as int) is None);
            }
            if dc > 0 {
                let wid = match generate_refid_for_union_which(ctx.synth_base, id) {
                    None => {
                        return Err(
                            TranslateError { node_id: id, kind: ErrorKind::IdSpaceExhausted },
                        );
                    },
                    Some(wid) => wid,
                };
                let mut class_fields: Vec<Field> = Vec::new();
                let mut i: usize = 0;
                while i < fields.len()
                    invariant
                        i <= fields@.len(),
                        forall|j: int| 0 <= j < fields@.len() ==> cpp_field_spec(fsv[j]) is Ok,
                        fields_views(class_fields@) + cpp_class_fields(fsv, i as int)
                            =~= cpp_class_fields(fsv, 0),
                    decreases fields@.len() - i,
                {
                    if fields[i].discriminant_value == crate::schema::field::NO_DISCRIMINANT {
                        let f = match translate_parser_field_to_cpp_field(&fields[i]) {
                            Ok(f) => f,
                            Err(_) => {
                                proof {
                                    assert(false);
                                }
                                Field { name: Name { tokens: Vec::new(), case: NameCase::Fixed }, cpp_type: CppType::Void }
                            },
                        };
                        class_fields.push(f);
                    }
                    proof {
                        assert(fields_views(class_fields@) + cpp_class_fields(fsv, i as int + 1)
                            =~= cpp_class_fields(fsv, 0));
                    }
                    i += 1;
                }
                proof {
                    assert(cpp_class_fields(fsv, fields@.len() as int) =~= Seq::<FieldV>::empty());
                }
                let wf = Field { name: Name::from("which"), cpp_type: CppType::RefId(wid) };
                class_fields.push(wf);
                proof {
                    assert(fields_views(class_fields@) =~= cpp_class_fields(fsv, 0).push(
                        FieldV { name: fixed_name("which"@), cpp_type: CppTypeV::RefId(wid) },
                    ));
                }
                let mut union_fields: Vec<Field> = Vec::new();
                let mut i: usize = 0;
                while i < fields.len()
                    invariant
                        i <= fields@.len(),
                        forall|j: int| 0 <= j < fields@.len() ==> cpp_field_spec(fsv[j]) is Ok,
                        fields_views(union_fields@) + cpp_union_fields(fsv, i as int)
                            =~= cpp_union_fields(fsv, 0),
                    decreases fields@.len() - i,
                {
                    if fields[i].discriminant_value != crate::schema::field::NO_DISCRIMINANT {
                        let f = match translate_parser_field_to_cpp_field(&fields[i]) {
                            Ok(f) => f,
                            Err(_) => {
                                proof {
                                    assert(false);
                                }
                                Field { name: Name { tokens: Vec::new(), case: NameCase::Fixed }, cpp_type: CppType::Void }
                            },
                        };
                        union_fields.push(f);
                    }
                    proof {
                        assert(fields_views(union_fields@) + cpp_union_fields(fsv, i as int + 1)
                            =~= cpp_union_fields(fsv, 0));
                    }
                    i += 1;
                }
                proof {
                    assert(cpp_union_fields(fsv, fields@.len() as int) =~= Seq::<FieldV>::empty());
                    assert(fields_views(union_fields@) =~= cpp_union_fields(fsv, 0));
                }
                let mut which_names: Vec<Name> = Vec::new();
                let mut i: usize = 0;
                while i < fields.len()
                    invariant
                        i <= fields@.len(),
                        forall|j: int| 0 <= j < fields@.len() ==> cpp_field_spec(fsv[j]) is Ok,
                        names_views(which_names@) + cpp_which_names(fsv, i as int)
                            =~= cpp_which_names(fsv, 0),
                    decreases fields@.len() - i,
                {
                    if fields[i].discriminant_value != crate::schema::field::NO_DISCRIMINANT {
                        let nm = match translate_parser_field_to_enumerant(&fields[i]) {
                            Ok(nm) => nm,
                            Err(_) => {
                                proof {
                                    assert(false);
                                }
                                Name { tokens: Vec::new(), case: NameCase::Fixed }
                            },
                        };
                        which_names.push(nm);
                    }
                    proof {
                        assert(names_views(which_names@) + cpp_which_names(fsv, i as int + 1)
                            =~= cpp_which_names(fsv, 0));
                    }
                    i += 1;
                }
                proof {
                    assert(cpp_which_names(fsv, fields@.len() as int) =~= Seq::<NameV>::empty());
                    assert(names_views(which_names@) =~= cpp_which_names(fsv, 0));
                }
                let which_enum = EnumClass {
                    id: wid,
                    name: Name::from("Which"),
                    enumerants: which_names,
                };
                let mut inner2 = inner;
                inner2.push(crate::cpp::ast::ComplexTypeDef::EnumClass(which_enum));
                let u = crate::cpp::ast::UnnamedUnion { id, fields: union_fields };
                let c = crate::cpp::ast::Class {
                    id,
                    name,
                    inner_types: inner2,
                    union: Some(u),
                    fields: class_fields,
                };
                proof {
                    crate::cpp::ast::lemma_ctd_views_index(c.inner_types, 0);
                    assert(crate::cpp::ast::ctd_views(c.inner_types, 0) =~= innerv.push(
                        crate::cpp::ast::ComplexTypeDefV::EnumClass(
                            EnumClassV {
                                id: wid,
                                name: fixed_name("Which"@),
                                enumerants: cpp_which_names(fsv, 0),
                            },
                        ),
                    ));
                }
                Ok(crate::cpp::ast::ComplexTypeDef::Class(c))
            } else {
                let mut all_fields: Vec<Field> = Vec::new();
                let mut i: usize = 0;
                while i < fields.len()
                    invariant
                        i <= fields@.len(),
                        forall|j: int| 0 <= j < fields@.len() ==> cpp_field_spec(fsv[j]) is Ok,
                        fields_views(all_fields@) + cpp_all_fields(fsv, i as int) =~= cpp_all_fields(
                            fsv,
                            0,
                        ),
                    decreases fields@.len() - i,
                {
                    let f = match translate_parser_field_to_cpp_field(&fields[i]) {
                        Ok(f) => f,
                        Err(_) => {
                            proof {
                                assert(false);
                            }
                            Field { name: Name { tokens: Vec::new(), case: NameCase::Fixed }, cpp_type: CppType::Void }
                        },
                    };
                    all_fields.push(f);
                    proof {
                        assert(fields_views(all_fields@) + cpp_all_fields(fsv, i as int + 1)
                            =~= cpp_all_fields(fsv, 0));
                    }
                    i += 1;
                }
                proof {
                    assert(cpp_all_fields(fsv, fields@.len() as int) =~= Seq::<FieldV>::empty());
                    assert(fields_views(all_fields@) =~= cpp_all_fields(fsv, 0));
                }
                let c = crate::cpp::ast::Class {
                    id,
                    name,
                    inner_types: inner,
                    union: None,
                    fields: all_fields,
                };
                proof {
                    crate::cpp::ast::lemma_ctd_views_index(c.inner_types, 0);
                    assert(crate::cpp::ast::ctd_views(c.inner_types, 0) =~= innerv);
                }
                Ok(crate::cpp::ast::ComplexTypeDef::Class(c))
            }
        },
    }
}


/// The largest node id among the first `i` nodes, `0` for none.
pub open spec fn cpp_max_id_upto(cgr: Seq<schema::NodeV>, i: int) -> u64
    decreases i,
{
    if i <= 0 {
        0
    } else if cgr[i - 1].id > cpp_max_id_upto(cgr, i - 1) {
        cgr[i - 1].id
    } else {
        cpp_max_id_upto(cgr, i - 1)
    }
}

/// The names contributed by a node's nested-node entries, from `i` on.
pub open spec fn cpp_nested_names(
    names: Map<u64, NameV>,
    nested: Seq<schema::node::NestedNode>,
    i: int,
) -> Map<u64, NameV>
    decreases nested.len() - i,
{
    if i < 0 || i >= nested.len() {
        names
    } else {
        cpp_nested_names(names.insert(nested[i].id, fixed_name(nested[i].name@)), nested, i + 1)
    }
}

/// The error form of a context-building result.
pub open spec fn cpp_build_err(e: TranslateError) -> Result<
    (Map<u64, NameV>, Map<u64, Seq<u64>>, Map<u64, schema::NodeV>),
    TranslateError,
> {
    Err(e)
}

/// One linear pass over the nodes, from `i` on: records each file node's
/// name, every nested child's name, groups ids under their parent scope,
/// and indexes nodes by id. A repeated node id is fatal, as is a prefix
/// length outside the display name.
pub open spec fn cpp_build_fold(
    cgr: Seq<schema::NodeV>,
    i: int,
    names: Map<u64, NameV>,
    children: Map<u64, Seq<u64>>,
    nodes: Map<u64, schema::NodeV>,
) -> Result<(Map<u64, NameV>, Map<u64, Seq<u64>>, Map<u64, schema::NodeV>), TranslateError>
    decreases cgr.len() - i,
{
    if i < 0 || i >= cgr.len() {
        Ok((names, children, nodes))
    } else {
        let n = cgr[i];
        if nodes.contains_key(n.id) {
            Err(TranslateError { node_id: n.id, kind: ErrorKind::DuplicateId })
        } else if (n.which matches schema::node::WhichV::File) && (n.display_name_prefix_length < 1
            || n.display_name_prefix_length > n.display_name@.len() + 1) {
            Err(TranslateError { node_id: n.id, kind: ErrorKind::BadPrefixLength })
        } else {
            let names1 = if (n.which matches schema::node::WhichV::File) {
                names.insert(
                    n.id,
                    fixed_name(n.display_name@.take(n.display_name_prefix_length - 1)),
                )
            } else {
                names
            };
            let names2 = cpp_nested_names(names1, n.nested_nodes, 0);
            let children1 = if children.contains_key(n.scope_id) {
                children.insert(n.scope_id, children[n.scope_id].push(n.id))
            } else {
                children.insert(n.scope_id, seq![n.id])
            };
            let nodes1 = nodes.insert(n.id, n);
            cpp_build_fold(cgr, i + 1, names2, children1, nodes1)
        }
    }
}

/// The annotation-declaration ids contributed by one file node's nested
/// entries, from `i` on: the entries named for the namespace, name and
/// idiomatic-namespace annotations, latest entry winning.
pub open spec fn ann_nested_fold(
    trip: (u64, u64, u64),
    nested: Seq<schema::node::NestedNode>,
    i: int,
) -> (u64, u64, u64)
    decreases nested.len() - i,
{
    if i < 0 || i >= nested.len() {
        trip
    } else {
        let t1 = if nested[i].name@ == "namespace"@ {
            (nested[i].id, trip.1, trip.2)
        } else {
            trip
        };
        let t2 = if nested[i].name@ == "name"@ {
            (t1.0, nested[i].id, t1.2)
        } else {
            t1
        };
        let t3 = if nested[i].name@ == "idiomaticCppNamespace"@ {
            (t2.0, t2.1, nested[i].id)
        } else {
            t2
        };
        ann_nested_fold(t3, nested, i + 1)
    }
}

/// The annotation-declaration ids read from every file node, from `i` on.
pub open spec fn ann_ids_fold(trip: (u64, u64, u64), cgr: Seq<schema::NodeV>, i: int) -> (
    u64,
    u64,
    u64,
)
    decreases cgr.len() - i,
{
    if i < 0 || i >= cgr.len() {
        trip
    } else if (cgr[i].which matches schema::node::WhichV::File) {
        ann_ids_fold(ann_nested_fold(trip, cgr[i].nested_nodes, 0), cgr, i + 1)
    } else {
        ann_ids_fold(trip, cgr, i + 1)
    }
}

/// Whether two strings hold the same characters.
fn str_eq(a: &str, b: &str) -> (r: bool)
    ensures
        r == (a@ == b@),
{
    let ac = str_chars(a);
    let bc = str_chars(b);
    crate::strutil::char_vecs_eq(&ac, &bc)
}

/// Builds the translation context: the annotation-declaration ids, every
/// node's name, the children of every scope, the nodes by id, and the
/// synthetic-id base just above the largest real node id. A schema whose
/// special annotation declarations cannot all be found is rejected.
#[verifier::loop_isolation(false)]
pub fn build_translation_context(ctx: &mut Context, cgr: &schema::CodeGeneratorRequest) -> (r:
    Result<(), TranslateError>)
    requires
        cgr@.len() < u64::MAX,
    ensures
        match r {
            Ok(()) => {
                &&& cpp_build_fold(
                    cgr@,
                    0,
                    old(ctx)@.names,
                    old(ctx)@.children,
                    old(ctx)@.nodes,
                ) matches Ok(t)
                &&& final(ctx)@.names == t.0
                &&& final(ctx)@.children == t.1
                &&& final(ctx)@.nodes == t.2
                &&& cpp_max_id_upto(cgr@, cgr@.len() as int) < u64::MAX
                &&& final(ctx)@.synth_base == cpp_max_id_upto(cgr@, cgr@.len() as int) + 1
                &&& {
                    let trip = ann_ids_fold(
                        (
                            old(ctx)@.namespace_annotation_id,
                            old(ctx)@.name_annotation_id,
                            old(ctx)@.idiomatic_namespace_annotation_id,
                        ),
                        cgr@,
                        0,
                    );
                    &&& final(ctx)@.namespace_annotation_id == trip.0
                    &&& final(ctx)@.name_annotation_id == trip.1
                    &&& final(ctx)@.idiomatic_namespace_annotation_id == trip.2
                    &&& trip.0 != 0
                    &&& trip.1 != 0
                    &&& trip.2 != 0
                    &&& capnp_names_from_spec(
                        NameScope { names: t.0, children: t.1, nodes: t.2 },
                        trip.0,
                        old(ctx)@.capnp_names,
                        cgr@,
                        0,
                        (cgr@.len() + 1) as nat,
                    ) == Ok::<Map<u64, Seq<NameV>>, TranslateError>(final(ctx)@.capnp_names)
                }
            },
            Err(e) => {
                let fold0 = cpp_build_fold(
                    cgr@,
                    0,
                    old(ctx)@.names,
                    old(ctx)@.children,
                    old(ctx)@.nodes,
                );
                let trip = ann_ids_fold(
                    (
                        old(ctx)@.namespace_annotation_id,
                        old(ctx)@.name_annotation_id,
                        old(ctx)@.idiomatic_namespace_annotation_id,
                    ),
                    cgr@,
                    0,
                );
                ||| fold0 == cpp_build_err(e)
                ||| (fold0 is Ok && cpp_max_id_upto(cgr@, cgr@.len() as int) == u64::MAX && e == (
                TranslateError { node_id: u64::MAX, kind: ErrorKind::IdSpaceExhausted }))
                ||| (fold0 is Ok && cpp_max_id_upto(cgr@, cgr@.len() as int) < u64::MAX && (trip.0
                    == 0 || trip.1 == 0 || trip.2 == 0) && e == (TranslateError {
                    node_id: 0,
                    kind: ErrorKind::AnnotationIdMissing,
                }))
                ||| (fold0 matches Ok(t) && cpp_max_id_upto(cgr@, cgr@.len() as int) < u64::MAX
                    && trip.0 != 0 && trip.1 != 0 && trip.2 != 0 && capnp_names_from_spec(
                    (NameScope { names: t.0, children: t.1, nodes: t.2 }),
                    trip.0,
                    old(ctx)@.capnp_names,
                    cgr@,
                    0,
                    (cgr@.len() + 1) as nat,
                ) == Err::<Map<u64, Seq<NameV>>, TranslateError>(e))
            },
        },
{
    let ghost cgrv = cgr@;
    let ghost names0 = old(ctx)@.names;
    let ghost children0 = old(ctx)@.children;
    let ghost nodes0 = old(ctx)@.nodes;
    let ghost trip0 = (
        old(ctx)@.namespace_annotation_id,
        old(ctx)@.name_annotation_id,
        old(ctx)@.idiomatic_namespace_annotation_id,
    );
    let mut maxid: u64 = 0;
    let mut i: usize = 0;
    while i < cgr.nodes.len()
        invariant
            i <= cgr.nodes@.len(),
            cgrv.len() == cgr.nodes@.len(),
            maxid == cpp_max_id_upto(cgrv, i as int),
            ctx@.capnp_names == old(ctx)@.capnp_names,
            cpp_build_fold(cgrv, i as int, ctx@.names, ctx@.children, ctx@.nodes)
                == cpp_build_fold(cgrv, 0, names0, children0, nodes0),
            ann_ids_fold(
                (
                    ctx@.namespace_annotation_id,
                    ctx@.name_annotation_id,
                    ctx@.idiomatic_namespace_annotation_id,
                ),
                cgrv,
                i as int,
            ) == ann_ids_fold(trip0, cgrv, 0),
        decreases cgr.nodes@.len() - i,
    {
        let n = &cgr.nodes[i];
        let ghost nv = cgrv[i as int];
        let ghost names_in = ctx@.names;
        let ghost children_in = ctx@.children;
        let ghost nodes_in = ctx@.nodes;
        proof {
            assert(nv == n@);
        }
        if ctx.nodes.contains_key(&n.id) {
            proof {
                assert(ctx@.nodes.contains_key(n.id));
            }
            return Err(TranslateError { node_id: n.id, kind: ErrorKind::DuplicateId });
        }
        proof {
            assert(!ctx@.nodes.contains_key(n.id));
        }
        let is_file = match &n.which {
            schema::node::Which::File => true,
            _ => false,
        };
        if is_file {
            let dchars = str_chars(n.display_name.as_str());
            if n.display_name_prefix_length < 1 || n.display_name_prefix_length - 1
                > dchars.len() {
                return Err(TranslateError { node_id: n.id, kind: ErrorKind::BadPrefixLength });
            }
            let mut stripped: Vec<char> = Vec::new();
            let plen = n.display_name_prefix_length - 1;
            let mut ci: usize = 0;
            while ci < plen
                invariant
                    ci <= plen,
                    plen <= dchars@.len(),
                    dchars@ == nv.display_name@,
                    stripped@ =~= nv.display_name@.take(ci as int),
                decreases plen - ci,
            {
                stripped.push(dchars[ci]);
                proof {
                    assert(stripped@ =~= nv.display_name@.take(ci as int + 1));
                }
                ci += 1;
            }
            let sanitized = crate::strutil::sanitize_chars(&stripped);
            let toks = crate::strutil::tokenize_chars(&sanitized);
            let mut tokens: Vec<String> = Vec::new();
            let mut ti: usize = 0;
            while ti < toks.len()
                invariant
                    ti <= toks.len(),
                    tokens@.len() == ti,
                    forall|j: int| 0 <= j < ti ==> tokens@[j]@ == toks@[j]@,
                decreases toks.len() - ti,
            {
                let t = crate::strutil::chars_string(&toks[ti]);
                tokens.push(t);
                ti += 1;
            }
            let fname = Name { tokens, case: NameCase::Fixed };
            proof {
                assert(crate::cpp::ast::strs_of_strings(fname.tokens@) =~= crate::strutil::seq_views(
                    toks@,
                ));
                assert(fname@ == fixed_name(
                    nv.display_name@.take(nv.display_name_prefix_length - 1),
                ));
            }
            ctx.names.insert(n.id, fname);
            proof {
                assert(ctx@.names =~= names_in.insert(
                    nv.id,
                    fixed_name(nv.display_name@.take(nv.display_name_prefix_length - 1)),
                ));
            }
            let ghost trip_before = (
                ctx@.namespace_annotation_id,
                ctx@.name_annotation_id,
                ctx@.idiomatic_namespace_annotation_id,
            );
            let mut ai: usize = 0;
            while ai < n.nested_nodes.len()
                invariant
                    ai <= n.nested_nodes@.len(),
                    ann_nested_fold(
                        (
                            ctx@.namespace_annotation_id,
                            ctx@.name_annotation_id,
                            ctx@.idiomatic_namespace_annotation_id,
                        ),
                        nv.nested_nodes,
                        ai as int,
                    ) == ann_nested_fold(trip_before, nv.nested_nodes, 0),
                    ctx@.names == names_in.insert(
                        nv.id,
                        fixed_name(nv.display_name@.take(nv.display_name_prefix_length - 1)),
                    ),
                    ctx@.children == children_in,
                    ctx@.nodes == nodes_in,
                    ctx@.capnp_names == old(ctx)@.capnp_names,
                decreases n.nested_nodes@.len() - ai,
            {
                let nn = &n.nested_nodes[ai];
                proof {
                    assert(nv.nested_nodes[ai as int] == *nn);
                }
                if str_eq(nn.name.as_str(), "namespace") {
                    ctx.namespace_annotation_id = nn.id;
                }
                if str_eq(nn.name.as_str(), "name") {
                    ctx.name_annotation_id = nn.id;
                }
                if str_eq(nn.name.as_str(), "idiomaticCppNamespace") {
                    ctx.idiomatic_namespace_annotation_id = nn.id;
                }
                ai += 1;
            }
        }
        let ghost names1 = ctx@.names;
        let ghost trip_now = (
            ctx@.namespace_annotation_id,
            ctx@.name_annotation_id,
            ctx@.idiomatic_namespace_annotation_id,
        );
        let mut ni: usize = 0;
        while ni < n.nested_nodes.len()
            invariant
                ni <= n.nested_nodes@.len(),
                cpp_nested_names(ctx@.names, nv.nested_nodes, ni as int) == cpp_nested_names(
                    names1,
                    nv.nested_nodes,
                    0,
                ),
                ctx@.children == children_in,
                ctx@.nodes == nodes_in,
                ctx@.capnp_names == old(ctx)@.capnp_names,
                ctx@.namespace_annotation_id == trip_now.0,
                ctx@.name_annotation_id == trip_now.1,
                ctx@.idiomatic_namespace_annotation_id == trip_now.2,
            decreases n.nested_nodes@.len() - ni,
        {
            let ghost names_at = ctx@.names;
            let nn = &n.nested_nodes[ni];
            let nm = Name::from(nn.name.as_str());
            ctx.names.insert(nn.id, nm);
            proof {
                assert(nv.nested_nodes[ni as int] == *nn);
                assert(ctx@.names =~= names_at.insert(nn.id, fixed_name(nn.name@)));
                assert(cpp_nested_names(names_at, nv.nested_nodes, ni as int) == cpp_nested_names(
                    ctx@.names,
                    nv.nested_nodes,
                    ni as int + 1,
                ));
            }
            ni += 1;
        }
        proof {
            assert(cpp_nested_names(ctx@.names, nv.nested_nodes, nv.nested_nodes.len() as int)
                == ctx@.names);
        }
        mm_insert(&mut ctx.children, n.scope_id, n.id);
        proof {
            assert(ctx@.children == (if children_in.contains_key(nv.scope_id) {
                children_in.insert(nv.scope_id, children_in[nv.scope_id].push(nv.id))
            } else {
                children_in.insert(nv.scope_id, seq![nv.id])
            }));
        }
        let cn = n.clone();
        ctx.nodes.insert(n.id, cn);
        proof {
            assert(ctx@.nodes =~= nodes_in.insert(nv.id, nv));
        }
        if n.id > maxid {
            maxid = n.id;
        }
        proof {
            assert(maxid == cpp_max_id_upto(cgrv, i as int + 1));
            assert(cpp_build_fold(cgrv, i as int, names_in, children_in, nodes_in)
                == cpp_build_fold(cgrv, i as int + 1, ctx@.names, ctx@.children, ctx@.nodes));
        }
        i += 1;
    }
    if maxid == u64::MAX {
        return Err(TranslateError { node_id: maxid, kind: ErrorKind::IdSpaceExhausted });
    }
    ctx.synth_base = maxid + 1;
    if ctx.namespace_annotation_id == 0 || ctx.name_annotation_id == 0
        || ctx.idiomatic_namespace_annotation_id == 0 {
        return Err(TranslateError { node_id: 0, kind: ErrorKind::AnnotationIdMissing });
    }
    proof {
        assert(cpp_build_fold(cgrv, cgrv.len() as int, ctx@.names, ctx@.children, ctx@.nodes)
            == Ok::<
            (Map<u64, NameV>, Map<u64, Seq<u64>>, Map<u64, schema::NodeV>),
            TranslateError,
        >((ctx@.names, ctx@.children, ctx@.nodes)));
    }
    proof {
        let cur = (
            ctx@.namespace_annotation_id,
            ctx@.name_annotation_id,
            ctx@.idiomatic_namespace_annotation_id,
        );
        assert(ann_ids_fold(cur, cgrv, cgrv.len() as int) == cur);
        assert(cur == ann_ids_fold(trip0, cgrv, 0));
        assert(scope_of(ctx@) == (NameScope {
            names: ctx@.names,
            children: ctx@.children,
            nodes: ctx@.nodes,
        }));
    }
    match ctx.set_capnp_names_from(cgr) {
        Err(e) => Err(e),
        Ok(()) => Ok(()),
    }
}


/// The latest annotation carrying `key`, if any, looking from position
/// `i` on.
pub open spec fn ann_find(anns: Seq<schema::Annotation>, key: u64, i: int) -> Option<
    schema::Annotation,
>
    decreases anns.len() - i,
{
    if i < 0 || i >= anns.len() {
        None
    } else {
        match ann_find(anns, key, i + 1) {
            Some(a) => Some(a),
            None => if anns[i].id == key {
                Some(anns[i])
            } else {
                None
            },
        }
    }
}

/// Finds the latest annotation carrying `key`.
#[verifier::loop_isolation(false)]
fn find_annotation(anns: &Vec<schema::Annotation>, key: u64) -> (r: Option<schema::Annotation>)
    ensures
        r == ann_find(anns@, key, 0),
{
    let mut best: Option<schema::Annotation> = None;
    let mut i: usize = 0;
    while i < anns.len()
        invariant
            i <= anns@.len(),
            ann_find(anns@, key, 0) == (match ann_find(anns@, key, i as int) {
                Some(a) => Some(a),
                None => best,
            }),
        decreases anns@.len() - i,
    {
        if anns[i].id == key {
            best = Some(anns[i].clone());
        }
        i += 1;
    }
    proof {
        assert(ann_find(anns@, key, anns@.len() as int) is None);
    }
    best
}

/// The segments of a namespace path, split on double colons, from
/// position `i` on, with the segment collected so far.
pub open spec fn split_ns(s: Seq<char>, i: int, cur: Seq<char>) -> Seq<Seq<char>>
    decreases s.len() - i,
{
    if i < 0 || i >= s.len() {
        seq![cur]
    } else if i + 1 < s.len() && s[i] == ':' && s[i + 1] == ':' {
        seq![cur] + split_ns(s, i + 2, Seq::empty())
    } else {
        split_ns(s, i + 1, cur.push(s[i]))
    }
}

/// The names of a namespace path: each double-colon-separated segment
/// split into word tokens.
pub open spec fn ns_path_spec(t: Seq<char>) -> Seq<NameV> {
    split_ns(t, 0, Seq::empty()).map_values(|seg: Seq<char>| fixed_name(seg))
}

/// Splits a namespace path on double colons into names.
#[verifier::loop_isolation(false)]
fn split_namespace_path(t: &String) -> (r: FullyQualifiedName)
    ensures
        r@ == ns_path_spec(t@),
{
    let tc = str_chars(t.as_str());
    let ghost tv = t@;
    let mut segs: Vec<Vec<char>> = Vec::new();
    let mut cur: Vec<char> = Vec::new();
    let mut i: usize = 0;
    proof {
        assert(crate::strutil::seq_views(segs@) + split_ns(tv, 0, cur@) =~= split_ns(
            tv,
            0,
            Seq::empty(),
        ));
    }
    while i < tc.len()
        invariant
            i <= tc@.len(),
            tc@ == tv,
            crate::strutil::seq_views(segs@) + split_ns(tv, i as int, cur@) =~= split_ns(
                tv,
                0,
                Seq::empty(),
            ),
        decreases tc@.len() - i,
    {
        if i + 1 < tc.len() && tc[i] == ':' && tc[i + 1] == ':' {
            let done = cur;
            cur = Vec::new();
            segs.push(done);
            proof {
                assert(crate::strutil::seq_views(segs@) =~= crate::strutil::seq_views(
                    segs@.drop_last(),
                ).push(segs@.last()@));
                assert(crate::strutil::seq_views(segs@) + split_ns(tv, i as int + 2, cur@)
                    =~= crate::strutil::seq_views(segs@.drop_last()) + split_ns(
                    tv,
                    i as int,
                    segs@.last()@,
                ));
            }
            i += 2;
        } else {
            cur.push(tc[i]);
            i += 1;
        }
    }
    segs.push(cur);
    proof {
        assert(crate::strutil::seq_views(segs@) =~= crate::strutil::seq_views(segs@.drop_last())
            + split_ns(tv, tv.len() as int, segs@.last()@));
        assert(crate::strutil::seq_views(segs@) =~= split_ns(tv, 0, Seq::empty()));
    }
    let mut names: Vec<Name> = Vec::new();
    let mut k: usize = 0;
    while k < segs.len()
        invariant
            k <= segs@.len(),
            names@.len() == k,
            forall|j: int| 0 <= j < k ==> names@[j]@ == fixed_name(segs@[j]@),
        decreases segs@.len() - k,
    {
        let sstr = crate::strutil::chars_string(&segs[k]);
        let nm = Name::from(sstr.as_str());
        names.push(nm);
        k += 1;
    }
    let r = FullyQualifiedName { names };
    proof {
        assert(r@ =~= ns_path_spec(tv));
    }
    r
}


/// What the children of a file node contribute, from position `i` of the
/// request on: every non-annotation node scoped under the file is
/// translated and appended to the namespace at `path`.
pub open spec fn file_children(
    ctx: ContextV,
    cgr: Seq<schema::NodeV>,
    pid: u64,
    i: int,
    acc: crate::cpp::ast::NamespaceV,
    path: Seq<NameV>,
    fuel: nat,
) -> Result<crate::cpp::ast::NamespaceV, TranslateError>
    decreases cgr.len() - i,
{
    if i < 0 || i >= cgr.len() {
        Ok(acc)
    } else if cgr[i].scope_id == pid && !(cgr[i].which matches schema::node::WhichV::Annotation) {
        match base_ast_type_spec(ctx, cgr[i].id, fuel) {
            Err(e) => Err(e),
            Ok(d) => file_children(
                ctx,
                cgr,
                pid,
                i + 1,
                crate::cpp::ast::ns_push_def(acc, path, d),
                path,
                fuel,
            ),
        }
    } else {
        file_children(ctx, cgr, pid, i + 1, acc, path, fuel)
    }
}

/// What one file node contributes to the namespace tree: nothing when it
/// lacks the idiomatic-namespace annotation; otherwise the chain named by
/// the annotation is created and every node scoped under the file is
/// translated into it. A non-textual annotation value is fatal.
pub open spec fn file_node_spec(
    ctx: ContextV,
    cgr: Seq<schema::NodeV>,
    n: schema::NodeV,
    root: crate::cpp::ast::NamespaceV,
    fuel: nat,
) -> Result<crate::cpp::ast::NamespaceV, TranslateError> {
    match ann_find(n.annotations, ctx.idiomatic_namespace_annotation_id, 0) {
        None => Ok(root),
        Some(a) => match a.value {
            schema::Value::Text(t) => file_children(
                ctx,
                cgr,
                n.id,
                0,
                crate::cpp::ast::ns_ensure(root, ns_path_spec(t@)),
                ns_path_spec(t@),
                fuel,
            ),
            schema::Value::Void => Err(
                TranslateError { node_id: n.id, kind: ErrorKind::NamespaceValueNotText },
            ),
        },
    }
}

/// Translates one file node's contents into the namespace tree.
#[verifier::loop_isolation(false)]
pub fn generate_base_ast_for_file_node(
    ctx: &Context,
    cgr: &schema::CodeGeneratorRequest,
    n: &schema::Node,
    root: &mut crate::cpp::ast::Namespace,
    fuel: u64,
) -> (r: Result<(), TranslateError>)
    ensures
        match r {
            Ok(()) => file_node_spec(ctx@, cgr@, n@, old(root)@, fuel as nat) == Ok::<
                crate::cpp::ast::NamespaceV,
                TranslateError,
            >(final(root)@),
            Err(e) => file_node_spec(ctx@, cgr@, n@, old(root)@, fuel as nat) == Err::<
                crate::cpp::ast::NamespaceV,
                TranslateError,
            >(e),
        },
{
    let ghost ctxv = ctx@;
    let ghost cgrv = cgr@;
    let ann = match find_annotation(&n.annotations, ctx.idiomatic_namespace_annotation_id) {
        None => {
            return Ok(());
        },
        Some(a) => a,
    };
    let t = match ann.value {
        schema::Value::Text(t) => t,
        schema::Value::Void => {
            return Err(TranslateError { node_id: n.id, kind: ErrorKind::NamespaceValueNotText });
        },
    };
    let path = split_namespace_path(&t);
    root.get_or_create_namespace_mut(&path);
    let ghost base = root@;
    let mut i: usize = 0;
    while i < cgr.nodes.len()
        invariant
            i <= cgr.nodes@.len(),
            cgrv.len() == cgr.nodes@.len(),
            file_children(ctxv, cgrv, n@.id, i as int, root@, path@, fuel as nat) == file_children(
                ctxv,
                cgrv,
                n@.id,
                0,
                base,
                path@,
                fuel as nat,
            ),
        decreases cgr.nodes@.len() - i,
    {
        let c = &cgr.nodes[i];
        proof {
            assert(cgrv[i as int] == c@);
        }
        let is_ann = match &c.which {
            schema::node::Which::Annotation => true,
            _ => false,
        };
        if c.scope_id == n.id && !is_ann {
            match generate_base_ast_type_for_node(ctx, c.id, fuel) {
                Err(e) => {
                    return Err(e);
                },
                Ok(d) => {
                    root.push_def_at(&path, d);
                },
            }
        }
        i += 1;
    }
    proof {
        assert(file_children(ctxv, cgrv, n@.id, cgrv.len() as int, root@, path@, fuel as nat)
            == Ok::<crate::cpp::ast::NamespaceV, TranslateError>(root@));
    }
    Ok(())
}

/// What the whole request contributes to the namespace tree, file node by
/// file node, from position `i` on.
pub open spec fn file_fold(
    ctx: ContextV,
    cgr: Seq<schema::NodeV>,
    i: int,
    root: crate::cpp::ast::NamespaceV,
    fuel: nat,
) -> Result<crate::cpp::ast::NamespaceV, TranslateError>
    decreases cgr.len() - i,
{
    if i < 0 || i >= cgr.len() {
        Ok(root)
    } else if (cgr[i].which matches schema::node::WhichV::File) {
        match file_node_spec(ctx, cgr, cgr[i], root, fuel) {
            Err(e) => Err(e),
            Ok(root1) => file_fold(ctx, cgr, i + 1, root1, fuel),
        }
    } else {
        file_fold(ctx, cgr, i + 1, root, fuel)
    }
}

/// Builds the namespace tree of the whole request.
#[verifier::loop_isolation(false)]
pub fn generate_base_ast(ctx: &Context, cgr: &schema::CodeGeneratorRequest, fuel: u64) -> (r:
    Result<crate::cpp::ast::Namespace, TranslateError>)
    ensures
        match r {
            Ok(ns) => file_fold(
                ctx@,
                cgr@,
                0,
                crate::cpp::ast::empty_ns_v(),
                fuel as nat,
            ) == Ok::<crate::cpp::ast::NamespaceV, TranslateError>(ns@),
            Err(e) => file_fold(
                ctx@,
                cgr@,
                0,
                crate::cpp::ast::empty_ns_v(),
                fuel as nat,
            ) == Err::<crate::cpp::ast::NamespaceV, TranslateError>(e),
        },
{
    let ghost ctxv = ctx@;
    let ghost cgrv = cgr@;
    let mut root = crate::cpp::ast::Namespace::empty();
    let mut i: usize = 0;
    while i < cgr.nodes.len()
        invariant
            i <= cgr.nodes@.len(),
            cgrv.len() == cgr.nodes@.len(),
            file_fold(ctxv, cgrv, i as int, root@, fuel as nat) == file_fold(
                ctxv,
                cgrv,
                0,
                crate::cpp::ast::empty_ns_v(),
                fuel as nat,
            ),
        decreases cgr.nodes@.len() - i,
    {
        let n = &cgr.nodes[i];
        proof {
            assert(cgrv[i as int] == n@);
        }
        let is_file = match &n.which {
            schema::node::Which::File => true,
            _ => false,
        };
        if is_file {
            match generate_base_ast_for_file_node(ctx, cgr, n, &mut root, fuel) {
                Err(e) => {
                    return Err(e);
                },
                Ok(()) => {},
            }
        }
        i += 1;
    }
    proof {
        assert(file_fold(ctxv, cgrv, cgrv.len() as int, root@, fuel as nat) == Ok::<
            crate::cpp::ast::NamespaceV,
            TranslateError,
        >(root@));
    }
    Ok(root)
}


/// The header imports contributed by the file nodes from position `i` on.
pub open spec fn imports_files(cgr: Seq<schema::NodeV>, i: int) -> Seq<crate::cpp::ast::ImportV>
    decreases cgr.len() - i,
{
    if i < 0 || i >= cgr.len() {
        Seq::empty()
    } else if (cgr[i].which matches schema::node::WhichV::File) {
        seq![crate::cpp::ast::ImportV { text: cgr[i].display_name@ + ".h"@ }] + imports_files(
            cgr,
            i + 1,
        )
    } else {
        imports_files(cgr, i + 1)
    }
}

/// The imports of a generated unit: one header per file node, then the
/// standard variant and vector headers.
pub open spec fn imports_spec(cgr: Seq<schema::NodeV>) -> Seq<crate::cpp::ast::ImportV> {
    imports_files(cgr, 0) + seq![
        crate::cpp::ast::ImportV { text: "variant"@ },
        crate::cpp::ast::ImportV { text: "vector"@ },
    ]
}

/// Builds one owned string from a string slice.
fn owned(s: &str) -> (r: String)
    ensures
        r@ == s@,
{
    let r = s.to_string();
    proof {
        vstd::string::to_string_from_display_ensures_for_str(s, r);
    }
    r
}

/// Builds the import list of a generated unit.
#[verifier::loop_isolation(false)]
pub fn generate_imports(cgr: &schema::CodeGeneratorRequest) -> (r: Vec<crate::cpp::ast::Import>)
    ensures
        crate::cpp::ast::imports_views(r@) == imports_spec(cgr@),
{
    let ghost cgrv = cgr@;
    let mut imports: Vec<crate::cpp::ast::Import> = Vec::new();
    let mut i: usize = 0;
    proof {
        assert(crate::cpp::ast::imports_views(imports@) + imports_files(cgrv, 0) =~= imports_files(
            cgrv,
            0,
        ));
    }
    while i < cgr.nodes.len()
        invariant
            i <= cgr.nodes@.len(),
            cgrv.len() == cgr.nodes@.len(),
            crate::cpp::ast::imports_views(imports@) + imports_files(cgrv, i as int)
                =~= imports_files(cgrv, 0),
        decreases cgr.nodes@.len() - i,
    {
        let n = &cgr.nodes[i];
        proof {
            assert(cgrv[i as int] == n@);
        }
        let is_file = match &n.which {
            schema::node::Which::File => true,
            _ => false,
        };
        if is_file {
            let mut v = str_chars(n.display_name.as_str());
            let mut ext = str_chars(".h");
            v.append(&mut ext);
            let text = crate::strutil::chars_string(&v);
            imports.push(crate::cpp::ast::Import { text });
            proof {
                assert(crate::cpp::ast::imports_views(imports@) + imports_files(cgrv, i as int + 1)
                    =~= imports_files(cgrv, 0));
            }
        }
        i += 1;
    }
    proof {
        assert(imports_files(cgrv, cgrv.len() as int) =~= Seq::<crate::cpp::ast::ImportV>::empty());
    }
    imports.push(crate::cpp::ast::Import { text: owned("variant") });
    imports.push(crate::cpp::ast::Import { text: owned("vector") });
    proof {
        assert(crate::cpp::ast::imports_views(imports@) =~= imports_spec(cgrv));
    }
    imports
}

/// The model of the plain-data unit.
pub open spec fn poco_spec(
    cgr: Seq<schema::NodeV>,
    ns: crate::cpp::ast::NamespaceV,
) -> crate::cpp::ast::CompilationUnitV {
    crate::cpp::ast::CompilationUnitV {
        name: fixed_name("lib"@),
        ext: "hpp"@,
        imports: imports_spec(cgr),
        namespace: ns,
        is_serde_file: false,
    }
}

/// The model of the serialization unit: the plain imports plus the wire
/// headers and the plain-data header.
pub open spec fn serde_unit_spec(
    cgr: Seq<schema::NodeV>,
    ns: crate::cpp::ast::NamespaceV,
) -> crate::cpp::ast::CompilationUnitV {
    crate::cpp::ast::CompilationUnitV {
        name: fixed_name("serde"@),
        ext: "hpp"@,
        imports: imports_spec(cgr) + seq![
            crate::cpp::ast::ImportV { text: "capnp/message.h"@ },
            crate::cpp::ast::ImportV { text: "capnp/serialize-packed.h"@ },
            crate::cpp::ast::ImportV { text: "lib.hpp"@ },
        ],
        namespace: ns,
        is_serde_file: true,
    }
}

/// Builds the plain-data unit over the namespace tree.
pub fn generate_poco(
    cgr: &schema::CodeGeneratorRequest,
    ast: &crate::cpp::ast::Namespace,
) -> (r: crate::cpp::ast::CompilationUnit)
    ensures
        r@ == poco_spec(cgr@, ast@),
{
    let r = crate::cpp::ast::CompilationUnit {
        name: Name::from("lib"),
        ext: owned("hpp"),
        imports: generate_imports(cgr),
        namespace: ast.clone(),
        is_serde_file: false,
    };
    r
}

/// Builds the serialization unit over the namespace tree.
pub fn generate_serde(
    cgr: &schema::CodeGeneratorRequest,
    ast: &crate::cpp::ast::Namespace,
) -> (r: crate::cpp::ast::CompilationUnit)
    ensures
        r@ == serde_unit_spec(cgr@, ast@),
{
    let mut imports = generate_imports(cgr);
    imports.push(crate::cpp::ast::Import { text: owned("capnp/message.h") });
    imports.push(crate::cpp::ast::Import { text: owned("capnp/serialize-packed.h") });
    imports.push(crate::cpp::ast::Import { text: owned("lib.hpp") });
    let r = crate::cpp::ast::CompilationUnit {
        name: Name::from("serde"),
        ext: owned("hpp"),
        imports,
        namespace: ast.clone(),
        is_serde_file: true,
    };
    proof {
        assert(crate::cpp::ast::imports_views(r.imports@) =~= serde_unit_spec(
            cgr@,
            ast@,
        ).imports);
    }
    r
}

/// What translating the whole request yields: the namespace tree built
/// from every annotated file node, packaged as the plain-data unit and
/// the serialization unit.
pub open spec fn cpp_translate_spec(ctx: ContextV, cgr: Seq<schema::NodeV>) -> Result<
    crate::cpp::ast::CppAstV,
    TranslateError,
> {
    match file_fold(ctx, cgr, 0, crate::cpp::ast::empty_ns_v(), (cgr.len() + 1) as nat) {
        Err(e) => Err(e),
        Ok(ns) => Ok(
            crate::cpp::ast::CppAstV {
                files: seq![poco_spec(cgr, ns), serde_unit_spec(cgr, ns)],
            },
        ),
    }
}

/// Translates the whole request over a prepared context. The recursion
/// fuel is one more than the number of nodes, which any acyclic nesting
/// stays within.
pub fn translate(ctx: &Context, cgr: &schema::CodeGeneratorRequest) -> (r: Result<
    crate::cpp::ast::CppAst,
    TranslateError,
>)
    requires
        cgr@.len() < u64::MAX,
    ensures
        match r {
            Ok(ast) => cpp_translate_spec(ctx@, cgr@) == Ok::<
                crate::cpp::ast::CppAstV,
                TranslateError,
            >(ast@),
            Err(e) => cpp_translate_spec(ctx@, cgr@) == Err::<
                crate::cpp::ast::CppAstV,
                TranslateError,
            >(e),
        },
{
    let fuel: u64 = (cgr.nodes.len() as u64) + 1;
    let ns = match generate_base_ast(ctx, cgr, fuel) {
        Err(e) => {
            return Err(e);
        },
        Ok(ns) => ns,
    };
    let poco = generate_poco(cgr, &ns);
    let serde_unit = generate_serde(cgr, &ns);
    let mut files: Vec<crate::cpp::ast::CompilationUnit> = Vec::new();
    files.push(poco);
    files.push(serde_unit);
    let r = crate::cpp::ast::CppAst { files };
    proof {
        assert(crate::cpp::ast::units_views(r.files@) =~= seq![
            poco_spec(cgr@, ns@),
            serde_unit_spec(cgr@, ns@),
        ]);
    }
    Ok(r)
}


/// The part of the context the wire-naming pass reads and never writes.
pub struct NameScope {
    pub names: Map<u64, NameV>,
    pub children: Map<u64, Seq<u64>>,
    pub nodes: Map<u64, schema::NodeV>,
}

/// The reading part of a context.
pub open spec fn scope_of(c: ContextV) -> NameScope {
    NameScope { names: c.names, children: c.children, nodes: c.nodes }
}

/// The wire-format names recorded for `id` and, recursively, for the
/// nodes scoped under it: a file node keeps its parent path, any other
/// node extends it by its own name.
pub open spec fn capnp_names_node(
    ctx: NameScope,
    acc: Map<u64, Seq<NameV>>,
    parent: Seq<NameV>,
    id: u64,
    fuel: nat,
) -> Result<Map<u64, Seq<NameV>>, TranslateError>
    decreases fuel, 0int,
{
    if fuel == 0 {
        Err(TranslateError { node_id: id, kind: ErrorKind::NestingTooDeep })
    } else if !ctx.nodes.contains_key(id) {
        Err(TranslateError { node_id: id, kind: ErrorKind::MissingNode })
    } else if !(ctx.nodes[id].which matches schema::node::WhichV::File)
        && !ctx.names.contains_key(id) {
        Err(TranslateError { node_id: id, kind: ErrorKind::MissingName })
    } else {
        let fqn = if (ctx.nodes[id].which matches schema::node::WhichV::File) {
            parent
        } else {
            parent.push(ctx.names[id])
        };
        let kids = if ctx.children.contains_key(id) {
            ctx.children[id]
        } else {
            Seq::empty()
        };
        capnp_names_kids(ctx, acc.insert(id, fqn), fqn, kids, 0, (fuel - 1) as nat)
    }
}

/// The wire-format names recorded for the children from position `i` on.
pub open spec fn capnp_names_kids(
    ctx: NameScope,
    acc: Map<u64, Seq<NameV>>,
    fqn: Seq<NameV>,
    ids: Seq<u64>,
    i: int,
    fuel: nat,
) -> Result<Map<u64, Seq<NameV>>, TranslateError>
    decreases fuel, ids.len() - i + 1,
{
    if i < 0 || i >= ids.len() {
        Ok(acc)
    } else {
        match capnp_names_node(ctx, acc, fqn, ids[i], fuel) {
            Err(e) => Err(e),
            Ok(acc1) => capnp_names_kids(ctx, acc1, fqn, ids, i + 1, fuel),
        }
    }
}

impl Context {
    /// Records the wire-format qualified name of `id` and of every node
    /// scoped under it, below `parent_fqn`.
    #[verifier::loop_isolation(false)]
    pub fn set_capnp_names_for_child_nodes(
        &mut self,
        parent_fqn: &FullyQualifiedName,
        id: Id,
        fuel: u64,
    ) -> (r: Result<(), TranslateError>)
        ensures
            final(self)@.names == old(self)@.names,
            final(self)@.children == old(self)@.children,
            final(self)@.nodes == old(self)@.nodes,
            final(self)@.synth_base == old(self)@.synth_base,
            final(self)@.namespace_annotation_id == old(self)@.namespace_annotation_id,
            final(self)@.name_annotation_id == old(self)@.name_annotation_id,
            final(self)@.idiomatic_namespace_annotation_id == old(
                self,
            )@.idiomatic_namespace_annotation_id,
            match r {
                Ok(()) => capnp_names_node(
                    scope_of(old(self)@),
                    old(self)@.capnp_names,
                    parent_fqn@,
                    id,
                    fuel as nat,
                ) == Ok::<Map<u64, Seq<NameV>>, TranslateError>(final(self)@.capnp_names),
                Err(e) => capnp_names_node(
                    scope_of(old(self)@),
                    old(self)@.capnp_names,
                    parent_fqn@,
                    id,
                    fuel as nat,
                ) == Err::<Map<u64, Seq<NameV>>, TranslateError>(e),
            },
        decreases fuel,
    {
        if fuel == 0 {
            return Err(TranslateError { node_id: id, kind: ErrorKind::NestingTooDeep });
        }
        let is_file = match self.nodes.get(&id) {
            None => {
                proof {
                    assert(!self@.nodes.contains_key(id));
                }
                return Err(TranslateError { node_id: id, kind: ErrorKind::MissingNode });
            },
            Some(n) => {
                proof {
                    assert(self@.nodes.contains_key(id));
                    assert(self@.nodes[id] == n@);
                }
                match &n.which {
                    schema::node::Which::File => true,
                    _ => false,
                }
            },
        };
        let fqn = if is_file {
            parent_fqn.clone()
        } else {
            match self.names.get(&id) {
                None => {
                    proof {
                        assert(!self@.names.contains_key(id));
                    }
                    return Err(TranslateError { node_id: id, kind: ErrorKind::MissingName });
                },
                Some(nm) => {
                    proof {
                        assert(self@.names.contains_key(id));
                        assert(self@.names[id] == nm@);
                    }
                    parent_fqn.with_appended(nm)
                },
            }
        };
        let ghost acc0 = self@.capnp_names;
        let stored = fqn.clone();
        self.capnp_names.insert(id, stored);
        proof {
            assert(self@.capnp_names =~= acc0.insert(id, fqn@));
        }
        let ghost ctx0 = scope_of(old(self)@);
        let ghost kids = (if ctx0.children.contains_key(id) {
            ctx0.children[id]
        } else {
            Seq::<u64>::empty()
        });
        let kid_list: Vec<u64> = match crate::multi_map::mm_get_vec(&self.children, &id) {
            None => Vec::new(),
            Some(v) => {
                let mut out: Vec<u64> = Vec::new();
                let mut c: usize = 0;
                while c < v.len()
                    invariant
                        c <= v@.len(),
                        out@ =~= v@.take(c as int),
                    decreases v@.len() - c,
                {
                    out.push(v[c]);
                    proof {
                        assert(out@ =~= v@.take(c as int + 1));
                    }
                    c += 1;
                }
                proof {
                    assert(out@ =~= v@);
                }
                out
            },
        };
        proof {
            assert(kid_list@ == kids);
        }
        let mut j: usize = 0;
        while j < kid_list.len()
            invariant
                j <= kid_list@.len(),
                kid_list@ == kids,
                self@.names == ctx0.names,
                self@.children == ctx0.children,
                self@.nodes == ctx0.nodes,
                self@.synth_base == old(self)@.synth_base,
                self@.namespace_annotation_id == old(self)@.namespace_annotation_id,
                self@.name_annotation_id == old(self)@.name_annotation_id,
                self@.idiomatic_namespace_annotation_id == old(
                    self,
                )@.idiomatic_namespace_annotation_id,
                capnp_names_kids(ctx0, self@.capnp_names, fqn@, kids, j as int, (fuel - 1) as nat)
                    == capnp_names_kids(
                    ctx0,
                    acc0.insert(id, fqn@),
                    fqn@,
                    kids,
                    0,
                    (fuel - 1) as nat,
                ),
            decreases kid_list@.len() - j,
        {
            let ghost before = self@.capnp_names;
            proof {
                assert(scope_of(self@) == ctx0);
            }
            match self.set_capnp_names_for_child_nodes(&fqn, kid_list[j], fuel - 1) {
                Err(e) => {
                    proof {
                        assert(capnp_names_node(ctx0, before, fqn@, kids[j as int], (fuel - 1) as nat)
                            == Err::<Map<u64, Seq<NameV>>, TranslateError>(e));
                    }
                    return Err(e);
                },
                Ok(()) => {},
            }
            j += 1;
        }
        proof {
            assert(capnp_names_kids(ctx0, self@.capnp_names, fqn@, kids, kids.len() as int, (fuel
                - 1) as nat) == Ok::<Map<u64, Seq<NameV>>, TranslateError>(self@.capnp_names));
        }
        Ok(())
    }
}

/// The wire-format names recorded over the file nodes from position `i`
/// on: a file with the namespace annotation roots its subtree at the
/// annotated path; one without is skipped; a non-textual value is fatal.
pub open spec fn capnp_names_from_spec(
    ctx: NameScope,
    ann_id: u64,
    acc: Map<u64, Seq<NameV>>,
    cgr: Seq<schema::NodeV>,
    i: int,
    fuel: nat,
) -> Result<Map<u64, Seq<NameV>>, TranslateError>
    decreases cgr.len() - i,
{
    if i < 0 || i >= cgr.len() {
        Ok(acc)
    } else if (cgr[i].which matches schema::node::WhichV::File) {
        match ann_find(cgr[i].annotations, ann_id, 0) {
            None => capnp_names_from_spec(ctx, ann_id, acc, cgr, i + 1, fuel),
            Some(a) => match a.value {
                schema::Value::Text(t) => match capnp_names_node(
                    ctx,
                    acc,
                    ns_path_spec(t@),
                    cgr[i].id,
                    fuel,
                ) {
                    Err(e) => Err(e),
                    Ok(acc1) => capnp_names_from_spec(ctx, ann_id, acc1, cgr, i + 1, fuel),
                },
                schema::Value::Void => Err(
                    TranslateError { node_id: cgr[i].id, kind: ErrorKind::NamespaceValueNotText },
                ),
            },
        }
    } else {
        capnp_names_from_spec(ctx, ann_id, acc, cgr, i + 1, fuel)
    }
}

impl Context {
    /// Records the wire-format qualified name of every node reachable
    /// from a file node that carries the namespace annotation.
    #[verifier::loop_isolation(false)]
    pub fn set_capnp_names_from(&mut self, cgr: &schema::CodeGeneratorRequest) -> (r: Result<
        (),
        TranslateError,
    >)
        requires
            cgr@.len() < u64::MAX,
        ensures
            final(self)@.names == old(self)@.names,
            final(self)@.children == old(self)@.children,
            final(self)@.nodes == old(self)@.nodes,
            final(self)@.synth_base == old(self)@.synth_base,
            final(self)@.namespace_annotation_id == old(self)@.namespace_annotation_id,
            final(self)@.name_annotation_id == old(self)@.name_annotation_id,
            final(self)@.idiomatic_namespace_annotation_id == old(
                self,
            )@.idiomatic_namespace_annotation_id,
            match r {
                Ok(()) => capnp_names_from_spec(
                    scope_of(old(self)@),
                    old(self)@.namespace_annotation_id,
                    old(self)@.capnp_names,
                    cgr@,
                    0,
                    (cgr@.len() + 1) as nat,
                ) == Ok::<Map<u64, Seq<NameV>>, TranslateError>(final(self)@.capnp_names),
                Err(e) => capnp_names_from_spec(
                    scope_of(old(self)@),
                    old(self)@.namespace_annotation_id,
                    old(self)@.capnp_names,
                    cgr@,
                    0,
                    (cgr@.len() + 1) as nat,
                ) == Err::<Map<u64, Seq<NameV>>, TranslateError>(e),
            },
    {
        let ghost ctx0 = scope_of(old(self)@);
        let ghost ann0 = old(self)@.namespace_annotation_id;
        let ghost cgrv = cgr@;
        let ghost fuelv = (cgrv.len() + 1) as nat;
        let fuel: u64 = (cgr.nodes.len() as u64) + 1;
        let mut i: usize = 0;
        while i < cgr.nodes.len()
            invariant
                i <= cgr.nodes@.len(),
                cgrv.len() == cgr.nodes@.len(),
                fuel as nat == fuelv,
                self@.names == ctx0.names,
                self@.children == ctx0.children,
                self@.nodes == ctx0.nodes,
                self@.synth_base == old(self)@.synth_base,
                self@.namespace_annotation_id == ann0,
                self@.name_annotation_id == old(self)@.name_annotation_id,
                self@.idiomatic_namespace_annotation_id == old(
                    self,
                )@.idiomatic_namespace_annotation_id,
                capnp_names_from_spec(ctx0, ann0, self@.capnp_names, cgrv, i as int, fuelv)
                    == capnp_names_from_spec(ctx0, ann0, old(self)@.capnp_names, cgrv, 0, fuelv),
            decreases cgr.nodes@.len() - i,
        {
            let is_file = match &cgr.nodes[i].which {
                schema::node::Which::File => true,
                _ => false,
            };
            proof {
                assert(cgrv[i as int] == cgr.nodes@[i as int]@);
            }
            if is_file {
                match find_annotation(&cgr.nodes[i].annotations, self.namespace_annotation_id) {
                    None => {},
                    Some(a) => match a.value {
                        schema::Value::Text(t) => {
                            let path = split_namespace_path(&t);
                            let nid = cgr.nodes[i].id;
                            match self.set_capnp_names_for_child_nodes(&path, nid, fuel) {
                                Err(e) => {
                                    return Err(e);
                                },
                                Ok(()) => {},
                            }
                        },
                        schema::Value::Void => {
                            return Err(
                                TranslateError {
                                    node_id: cgr.nodes[i].id,
                                    kind: ErrorKind::NamespaceValueNotText,
                                },
                            );
                        },
                    },
                }
            }
            i += 1;
        }
        proof {
            assert(capnp_names_from_spec(ctx0, ann0, self@.capnp_names, cgrv, cgrv.len() as int, fuelv)
                == Ok::<Map<u64, Seq<NameV>>, TranslateError>(self@.capnp_names));
        }
        Ok(())
    }
}


/// The number of discriminated fields from position `i` on.
pub open spec fn cpp_disc_count(fs: Seq<schema::Field>, i: int) -> nat
    decreases fs.len() - i,
{
    if i < 0 || i >= fs.len() {
        0
    } else if fs[i].discriminant_value == crate::schema::field::NO_DISCRIMINANT {
        cpp_disc_count(fs, i + 1)
    } else {
        1 + cpp_disc_count(fs, i + 1)
    }
}

pub proof fn lemma_cpp_field_lists_len(fs: Seq<schema::Field>, i: int)
    requires
        0 <= i <= fs.len(),
    ensures
        cpp_class_fields(fs, i).len() == fs.len() - i - cpp_disc_count(fs, i),
        cpp_union_fields(fs, i).len() == cpp_disc_count(fs, i),
        cpp_which_names(fs, i).len() == cpp_disc_count(fs, i),
        cpp_all_fields(fs, i).len() == fs.len() - i,
    decreases fs.len() - i,
{
    if i < fs.len() {
        lemma_cpp_field_lists_len(fs, i + 1);
    }
}

pub proof fn lemma_cpp_which_names_all_disc(fs: Seq<schema::Field>, i: int)
    requires
        0 <= i <= fs.len(),
        forall|j: int|
            0 <= j < fs.len() ==> (#[trigger] fs[j].discriminant_value)
                != crate::schema::field::NO_DISCRIMINANT,
    ensures
        cpp_which_names(fs, i).len() == fs.len() - i,
        forall|j: int|
            0 <= j < fs.len() - i ==> #[trigger] cpp_which_names(fs, i)[j] == fixed_name(
                fs[i + j].name@,
            ),
    decreases fs.len() - i,
{
    if i < fs.len() {
        lemma_cpp_which_names_all_disc(fs, i + 1);
        assert forall|j: int|
            0 <= j < fs.len() - i implies #[trigger] cpp_which_names(fs, i)[j] == fixed_name(
            fs[i + j].name@,
        ) by {
            if j > 0 {
                assert(cpp_which_names(fs, i)[j] == cpp_which_names(fs, i + 1)[j - 1]);
            }
        }
    }
}

/// Union-split totality for the C++ target: a struct node with `k`
/// discriminated fields among `n` becomes a class whose union holds the
/// `k` discriminated fields, whose plain fields are the `n - k`
/// always-present ones plus one final `which` member, and whose
/// companion enum carries exactly one enumerant per discriminated field.
/// When every field is discriminated the class keeps only the `which`
/// member — the whole value is the union — and the companion enum lists
/// every field by name.
pub proof fn lemma_cpp_union_split(ctx: ContextV, id: u64, fuel: nat, dc: u16, fs: Seq<
    schema::Field,
>)
    requires
        base_ast_type_spec(ctx, id, fuel) is Ok,
        ctx.nodes.contains_key(id),
        ctx.nodes[id].which matches schema::node::WhichV::Struct { discriminant_count, fields, .. }
            && discriminant_count == dc && fields == fs,
        dc > 0,
    ensures
        base_ast_type_spec(ctx, id, fuel) matches Ok(
            crate::cpp::ast::ComplexTypeDefV::Class(c),
        ) && {
            &&& c.union matches Some(u) && u.fields.len() == cpp_disc_count(fs, 0)
            &&& c.fields.len() == fs.len() - cpp_disc_count(fs, 0) + 1
            &&& c.fields.last().name == fixed_name("which"@)
            &&& c.inner_types.len() >= 1
            &&& (c.inner_types.last() matches crate::cpp::ast::ComplexTypeDefV::EnumClass(w)
                && w.enumerants.len() == cpp_disc_count(fs, 0))
        },
        (forall|j: int|
            0 <= j < fs.len() ==> (#[trigger] fs[j].discriminant_value)
                != crate::schema::field::NO_DISCRIMINANT) ==> (base_ast_type_spec(
            ctx,
            id,
            fuel,
        ) matches Ok(crate::cpp::ast::ComplexTypeDefV::Class(c)) && c.fields.len() == 1 && (
        c.inner_types.last() matches crate::cpp::ast::ComplexTypeDefV::EnumClass(w)
            && w.enumerants.len() == fs.len() && (forall|j: int|
            0 <= j < fs.len() ==> #[trigger] w.enumerants[j] == fixed_name(fs[j].name@)))),
{
    lemma_cpp_field_lists_len(fs, 0);
    if forall|j: int|
        0 <= j < fs.len() ==> (#[trigger] fs[j].discriminant_value)
            != crate::schema::field::NO_DISCRIMINANT {
        lemma_cpp_which_names_all_disc(fs, 0);
    }
}

} // verus!
