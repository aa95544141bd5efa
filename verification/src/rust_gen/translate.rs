//! The translator that turns the schema graph into the Rust target AST.
//!
//! A context built in one linear pass holds the name of every node (a node
//! is named by its parent's nested-node list), the children of every
//! scope, the nodes themselves by id, and a synthetic-id base above every
//! real node id, from which the companion enum of a partial union gets an
//! id that cannot collide with a real node.
//!
//! Union splitting: a struct whose fields are all discriminated becomes a
//! tagged enum; one with some discriminated fields becomes a struct of the
//! plain fields plus one `which` field referring to a synthesized
//! companion enum; one with none stays a plain struct.

use vstd::prelude::*;
use std::collections::HashMap;
use multimap::MultiMap;
use crate::err::{ErrorKind, TranslateError};
use crate::multi_map::{mm_insert, mm_view, mm_with_capacity};
use crate::rust_gen::ast::{
    Enumerant, EnumerantV, EnumOrigin, Field, FullyQualifiedName, Name, RFieldV, Type, TypeV,
};
use crate::schema;
use crate::strutil::{lower_seq, name_tokens_spec, str_chars};

verus! {

pub type Id = u64;

/// What translating a schema type yields: a target type, or the fatal
/// error naming the unsupported construct.
pub open spec fn type_trans_spec(t: schema::Type) -> Result<TypeV, ErrorKind>
    decreases t,
{
    match t {
        schema::Type::AnyPointer => Err(ErrorKind::AnyPointerType),
        schema::Type::Bool => Ok(TypeV::Bool),
        schema::Type::Data => Err(ErrorKind::DataType),
        schema::Type::Enum { type_id } => Ok(TypeV::RefId(type_id)),
        schema::Type::Float32 => Ok(TypeV::Float32),
        schema::Type::Float64 => Ok(TypeV::Float64),
        schema::Type::Int16 => Ok(TypeV::Int16),
        schema::Type::Int32 => Ok(TypeV::Int32),
        schema::Type::Int64 => Ok(TypeV::Int64),
        schema::Type::Int8 => Ok(TypeV::Int8),
        schema::Type::Interface { .. } => Err(ErrorKind::InterfaceType),
        schema::Type::List(b) => match type_trans_spec(*b) {
            Ok(v) => Ok(TypeV::List(Box::new(v))),
            Err(e) => Err(e),
        },
        schema::Type::Struct { type_id } => Ok(TypeV::RefId(type_id)),
        schema::Type::Text => Ok(TypeV::String),
        schema::Type::Uint16 => Ok(TypeV::Uint16),
        schema::Type::Uint32 => Ok(TypeV::Uint32),
        schema::Type::Uint64 => Ok(TypeV::Uint64),
        schema::Type::Uint8 => Ok(TypeV::Uint8),
        schema::Type::Void => Ok(TypeV::Unit),
    }
}

/// The model of an executable type-translation result.
pub open spec fn tres(r: Result<Type, ErrorKind>) -> Result<TypeV, ErrorKind> {
    match r {
        Ok(t) => Ok(t@),
        Err(e) => Err(e),
    }
}

/// What translating a schema field yields.
pub open spec fn field_trans_spec(f: schema::Field) -> Result<RFieldV, ErrorKind> {
    match f.which {
        schema::field::Which::Group(_) => Err(ErrorKind::GroupField),
        schema::field::Which::Slot(t) => match type_trans_spec(t) {
            Ok(v) => Ok(RFieldV { name: name_tokens_spec(f.name@), rust_type: v }),
            Err(e) => Err(e),
        },
    }
}

/// The field's target form, meaningful only when it translates.
pub open spec fn field_value_spec(f: schema::Field) -> RFieldV {
    match field_trans_spec(f) {
        Ok(v) => v,
        Err(_) => vstd::pervasive::arbitrary(),
    }
}

/// The enumerant a discriminated field becomes, meaningful only when the
/// field translates.
pub open spec fn field_enumerant_spec(f: schema::Field) -> EnumerantV {
    EnumerantV { name: field_value_spec(f).name, rust_type: field_value_spec(f).rust_type }
}

/// The enumerant a schema enumerant becomes: a name with no payload.
pub open spec fn enumerant_spec(e: schema::Enumerant) -> EnumerantV {
    EnumerantV { name: name_tokens_spec(e.name@), rust_type: TypeV::Unit }
}

/// The first fatal error among the fields from position `i` on, if any.
pub open spec fn fields_err_spec(fs: Seq<schema::Field>, i: int) -> Option<ErrorKind>
    decreases fs.len() - i,
{
    if i < 0 || i >= fs.len() {
        None
    } else {
        match field_trans_spec(fs[i]) {
            Err(e) => Some(e),
            Ok(_) => fields_err_spec(fs, i + 1),
        }
    }
}

/// The first fatal error among the discriminated fields, if any.
pub open spec fn disc_fields_err_spec(fs: Seq<schema::Field>, i: int) -> Option<ErrorKind>
    decreases fs.len() - i,
{
    if i < 0 || i >= fs.len() {
        None
    } else if fs[i].discriminant_value == crate::schema::field::NO_DISCRIMINANT {
        disc_fields_err_spec(fs, i + 1)
    } else {
        match field_trans_spec(fs[i]) {
            Err(e) => Some(e),
            Ok(_) => disc_fields_err_spec(fs, i + 1),
        }
    }
}

/// Every field translated, in order.
pub open spec fn mapped_fields_spec(fs: Seq<schema::Field>, i: int) -> Seq<RFieldV>
    decreases fs.len() - i,
{
    if i < 0 || i >= fs.len() {
        Seq::empty()
    } else {
        seq![field_value_spec(fs[i])] + mapped_fields_spec(fs, i + 1)
    }
}

/// The non-discriminated fields translated, in order.
pub open spec fn nondisc_fields_spec(fs: Seq<schema::Field>, i: int) -> Seq<RFieldV>
    decreases fs.len() - i,
{
    if i < 0 || i >= fs.len() {
        Seq::empty()
    } else if fs[i].discriminant_value == crate::schema::field::NO_DISCRIMINANT {
        seq![field_value_spec(fs[i])] + nondisc_fields_spec(fs, i + 1)
    } else {
        nondisc_fields_spec(fs, i + 1)
    }
}

/// Every field as an enumerant, in order.
pub open spec fn field_enumerants_spec(fs: Seq<schema::Field>, i: int) -> Seq<EnumerantV>
    decreases fs.len() - i,
{
    if i < 0 || i >= fs.len() {
        Seq::empty()
    } else {
        seq![field_enumerant_spec(fs[i])] + field_enumerants_spec(fs, i + 1)
    }
}

/// The discriminated fields as enumerants, in order.
pub open spec fn disc_enumerants_spec(fs: Seq<schema::Field>, i: int) -> Seq<EnumerantV>
    decreases fs.len() - i,
{
    if i < 0 || i >= fs.len() {
        Seq::empty()
    } else if fs[i].discriminant_value == crate::schema::field::NO_DISCRIMINANT {
        disc_enumerants_spec(fs, i + 1)
    } else {
        seq![field_enumerant_spec(fs[i])] + disc_enumerants_spec(fs, i + 1)
    }
}

/// The enumerants of a schema enum, in order.
pub open spec fn enumerants_spec(es: Seq<schema::Enumerant>, i: int) -> Seq<EnumerantV>
    decreases es.len() - i,
{
    if i < 0 || i >= es.len() {
        Seq::empty()
    } else {
        seq![enumerant_spec(es[i])] + enumerants_spec(es, i + 1)
    }
}

impl Type {
    /// Translates a schema type; reference types stay id-references to be
    /// resolved later.
    pub fn translate(t: &schema::Type) -> (r: Result<Type, ErrorKind>)
        ensures
            tres(r) == type_trans_spec(*t),
        decreases *t,
    {
        match t {
            schema::Type::AnyPointer => Err(ErrorKind::AnyPointerType),
            schema::Type::Bool => Ok(Type::Bool),
            schema::Type::Data => Err(ErrorKind::DataType),
            schema::Type::Enum { type_id } => Ok(Type::RefId(*type_id)),
            schema::Type::Float32 => Ok(Type::Float32),
            schema::Type::Float64 => Ok(Type::Float64),
            schema::Type::Int16 => Ok(Type::Int16),
            schema::Type::Int32 => Ok(Type::Int32),
            schema::Type::Int64 => Ok(Type::Int64),
            schema::Type::Int8 => Ok(Type::Int8),
            schema::Type::Interface { .. } => Err(ErrorKind::InterfaceType),
            schema::Type::List(b) => match Type::translate(&**b) {
                Ok(v) => Ok(Type::List(Box::new(v))),
                Err(e) => Err(e),
            },
            schema::Type::Struct { type_id } => Ok(Type::RefId(*type_id)),
            schema::Type::Text => Ok(Type::String),
            schema::Type::Uint16 => Ok(Type::Uint16),
            schema::Type::Uint32 => Ok(Type::Uint32),
            schema::Type::Uint64 => Ok(Type::Uint64),
            schema::Type::Uint8 => Ok(Type::Uint8),
            schema::Type::Void => Ok(Type::Unit),
        }
    }
}

impl Field {
    /// Translates a schema field into a target field.
    pub fn translate(f: &schema::Field) -> (r: Result<Field, ErrorKind>)
        ensures
            match r {
                Ok(v) => field_trans_spec(*f) == Ok::<RFieldV, ErrorKind>(v@),
                Err(e) => field_trans_spec(*f) == Err::<RFieldV, ErrorKind>(e),
            },
    {
        match &f.which {
            schema::field::Which::Group(_) => Err(ErrorKind::GroupField),
            schema::field::Which::Slot(t) => match Type::translate(t) {
                Ok(v) => Ok(Field { name: Name::from(f.name.as_str()), rust_type: v }),
                Err(e) => Err(e),
            },
        }
    }
}

impl Enumerant {
    /// Translates a discriminated schema field into an enum variant.
    pub fn translate(f: &schema::Field) -> (r: Result<Enumerant, ErrorKind>)
        ensures
            match r {
                Ok(v) => field_trans_spec(*f) is Ok && v@ == field_enumerant_spec(*f),
                Err(e) => field_trans_spec(*f) == Err::<RFieldV, ErrorKind>(e),
            },
    {
        match &f.which {
            schema::field::Which::Group(_) => Err(ErrorKind::GroupField),
            schema::field::Which::Slot(t) => match Type::translate(t) {
                Ok(v) => Ok(Enumerant { name: Name::from(f.name.as_str()), rust_type: v }),
                Err(e) => Err(e),
            },
        }
    }

    /// Translates a schema enumerant: a bare variant with no payload.
    pub fn from_enumerant(e: &schema::Enumerant) -> (r: Enumerant)
        ensures
            r@ == enumerant_spec(*e),
    {
        Enumerant { name: Name::from(e.name.as_str()), rust_type: Type::Unit }
    }
}

/// The model of the translation context.
pub struct ContextV {
    pub names: Map<u64, crate::rust_gen::ast::NameTokens>,
    pub children: Map<u64, Seq<u64>>,
    pub nodes: Map<u64, schema::NodeV>,
    pub synth_base: u64,
}

/// The translation context: every node's name, the children of every
/// scope, the nodes by id, and the base of the synthetic-id space, which
/// lies above every real node id.
pub struct TranslationContext {
    pub names: HashMap<Id, Name>,
    pub children: MultiMap<u64, u64>,
    pub nodes: HashMap<Id, schema::Node>,
    pub synth_base: Id,
}

impl View for TranslationContext {
    type V = ContextV;

    open spec fn view(&self) -> ContextV {
        ContextV {
            names: self.names@.map_values(|n: Name| n@),
            children: mm_view(self.children),
            nodes: self.nodes@.map_values(|n: schema::Node| n@),
            synth_base: self.synth_base,
        }
    }
}

impl TranslationContext {
    /// The empty context.
    pub fn new() -> (r: TranslationContext)
        ensures
            r@.names == Map::<u64, crate::rust_gen::ast::NameTokens>::empty(),
            r@.children == Map::<u64, Seq<u64>>::empty(),
            r@.nodes == Map::<u64, schema::NodeV>::empty(),
            r@.synth_base == 0,
    {
        let r = TranslationContext {
            names: HashMap::new(),
            children: mm_with_capacity(0),
            nodes: HashMap::new(),
            synth_base: 0,
        };
        proof {
            assert(r@.names =~= Map::<u64, crate::rust_gen::ast::NameTokens>::empty());
            assert(r@.nodes =~= Map::<u64, schema::NodeV>::empty());
        }
        r
    }
}

/// The id of the companion enum synthesized for a partial union: the
/// synthetic base plus the node's own id, which stays above every real id
/// and differs between nodes; exhaustion of the id space is reported
/// rather than wrapped around.
pub open spec fn which_id_spec(base: u64, id: u64) -> Option<u64> {
    if base + id > u64::MAX {
        None
    } else {
        Some((base + id) as u64)
    }
}

/// Allocates the id of a partial union's companion enum.
pub fn generate_id_for_which_enum(base: Id, id: Id) -> (r: Option<Id>)
    ensures
        r == which_id_spec(base, id),
{
    base.checked_add(id)
}

/// The first character sequence with '.' replaced by '_'.
pub open spec fn dotted_spec(s: Seq<char>) -> Seq<char> {
    s.map_values(
        |c: char|
            if c == '.' {
                '_'
            } else {
                c
            },
    )
}

/// Replaces '.' by '_'.
fn dotted(v: &Vec<char>) -> (r: Vec<char>)
    ensures
        r@ == dotted_spec(v@),
{
    let mut r: Vec<char> = Vec::new();
    let mut i: usize = 0;
    while i < v.len()
        invariant
            i <= v.len(),
            r@.len() == i,
            forall|j: int|
                0 <= j < i ==> r@[j] == (if v@[j] == '.' {
                    '_'
                } else {
                    v@[j]
                }),
        decreases v.len() - i,
    {
        let c = v[i];
        if c == '.' {
            r.push('_');
        } else {
            r.push(c);
        }
        i += 1;
    }
    proof {
        assert(r@ =~= dotted_spec(v@));
    }
    r
}

/// The first name of a wire-format type path: the file name lowercased,
/// with dots spelled as underscores, split into tokens.
pub open spec fn capnp_first_name(filename: Seq<char>) -> crate::rust_gen::ast::NameTokens {
    name_tokens_spec(dotted_spec(lower_seq(filename)))
}

/// The wire-format qualified name of a type: the file-derived first name,
/// then the module path below the file, then the type's own name.
pub open spec fn capnp_type_name_spec(
    filename: Seq<char>,
    path: crate::rust_gen::ast::FqnV,
    ty_name: crate::rust_gen::ast::NameTokens,
) -> crate::rust_gen::ast::FqnV {
    seq![capnp_first_name(filename)] + (if path.len() == 0 {
        Seq::empty()
    } else {
        path.skip(1)
    }) + seq![ty_name]
}

/// Builds the wire-format qualified name of a type.
pub fn generate_capnp_ty_name(
    filename: &String,
    path: &FullyQualifiedName,
    ty_name: &Name,
) -> (r: FullyQualifiedName)
    ensures
        r@ == capnp_type_name_spec(filename@, path@, ty_name@),
{
    let fchars = str_chars(filename.as_str());
    let low = crate::strutil::lower_vec(&fchars);
    let dot = dotted(&low);
    let sanitized = crate::strutil::sanitize_chars(&dot);
    let first = Name::from_chars(&sanitized);
    let mut names: Vec<Name> = Vec::new();
    names.push(first);
    let mut i: usize = 1;
    while i < path.names.len()
        invariant
            1 <= i <= path.names@.len() + 1,
            i <= path.names@.len() || i == 1,
            names@.len() == i,
            names@[0]@ == capnp_first_name(filename@),
            forall|j: int| 1 <= j < i ==> names@[j]@ == path.names@[j]@,
        decreases path.names.len() - i,
    {
        let n = path.names[i].clone();
        names.push(n);
        i += 1;
    }
    names.push(ty_name.clone());
    let r = FullyQualifiedName { names };
    proof {
        assert(r@ =~= capnp_type_name_spec(filename@, path@, ty_name@));
    }
    r
}

/// The target qualified name of a type: the module path plus its name.
pub open spec fn fq_ty_name_spec(
    path: crate::rust_gen::ast::FqnV,
    ty_name: crate::rust_gen::ast::NameTokens,
) -> crate::rust_gen::ast::FqnV {
    path.push(ty_name)
}

/// Builds the target qualified name of a type.
pub fn generate_fully_qualified_ty_name(path: &FullyQualifiedName, ty_name: &Name) -> (r:
    FullyQualifiedName)
    ensures
        r@ == fq_ty_name_spec(path@, ty_name@),
{
    path.with(ty_name)
}


/// The model of an executable type-definition translation result.
pub open spec fn tdres(
    r: Result<crate::rust_gen::ast::TypeDef, TranslateError>,
) -> Result<crate::rust_gen::ast::TypeDefV, TranslateError> {
    match r {
        Ok(t) => Ok(t@),
        Err(e) => Err(e),
    }
}

/// The name of the synthetic `which` field.
pub open spec fn which_field_name() -> crate::rust_gen::ast::NameTokens {
    name_tokens_spec("which"@)
}

/// What translating one type-defining node yields. A struct whose fields
/// are all discriminated becomes a tagged enum; one with some
/// discriminated fields becomes a struct of the plain fields plus a
/// `which` field referring to the synthesized companion enum; one with
/// none stays a plain struct. Field errors are reported in field order,
/// before the union split.
pub open spec fn typedef_spec(
    ctx: ContextV,
    filename: Seq<char>,
    path: crate::rust_gen::ast::FqnV,
    n: schema::NodeV,
) -> Result<crate::rust_gen::ast::TypeDefV, TranslateError> {
    match n.which {
        schema::node::WhichV::Annotation => Err(
            TranslateError { node_id: n.id, kind: ErrorKind::AnnotationNode },
        ),
        schema::node::WhichV::Const => Err(
            TranslateError { node_id: n.id, kind: ErrorKind::ConstNode },
        ),
        schema::node::WhichV::File => Err(
            TranslateError { node_id: n.id, kind: ErrorKind::FileNode },
        ),
        schema::node::WhichV::Interface => Err(
            TranslateError { node_id: n.id, kind: ErrorKind::InterfaceNode },
        ),
        schema::node::WhichV::Enum(es) => {
            if !ctx.names.contains_key(n.id) {
                Err(TranslateError { node_id: n.id, kind: ErrorKind::MissingName })
            } else {
                let name = ctx.names[n.id];
                Ok(
                    crate::rust_gen::ast::TypeDefV::Enum(
                        crate::rust_gen::ast::EnumV {
                            id: n.id,
                            name: name,
                            fully_qualified_type_name: fq_ty_name_spec(path, name),
                            capnp_type_name: capnp_type_name_spec(filename, path, name),
                            enum_origin: EnumOrigin::Enum,
                            enumerants: enumerants_spec(es, 0),
                        },
                    ),
                )
            }
        },
        schema::node::WhichV::Struct { discriminant_count, fields, .. } => {
            if !ctx.names.contains_key(n.id) {
                Err(TranslateError { node_id: n.id, kind: ErrorKind::MissingName })
            } else {
                let name = ctx.names[n.id];
                match fields_err_spec(fields, 0) {
                    Some(k) => Err(TranslateError { node_id: n.id, kind: k }),
                    None => {
                        if discriminant_count == fields.len() {
                            Ok(
                                crate::rust_gen::ast::TypeDefV::Enum(
                                    crate::rust_gen::ast::EnumV {
                                        id: n.id,
                                        name: name,
                                        fully_qualified_type_name: fq_ty_name_spec(path, name),
                                        capnp_type_name: capnp_type_name_spec(
                                            filename,
                                            path,
                                            name,
                                        ),
                                        enum_origin: EnumOrigin::Struct,
                                        enumerants: field_enumerants_spec(fields, 0),
                                    },
                                ),
                            )
                        } else if discriminant_count > 0 && (discriminant_count as int)
                            < fields.len() {
                            match which_id_spec(ctx.synth_base, n.id) {
                                None => Err(
                                    TranslateError {
                                        node_id: n.id,
                                        kind: ErrorKind::IdSpaceExhausted,
                                    },
                                ),
                                Some(wid) => Ok(
                                    crate::rust_gen::ast::TypeDefV::Struct(
                                        crate::rust_gen::ast::StructV {
                                            id: n.id,
                                            name: name,
                                            fully_qualified_type_name: fq_ty_name_spec(
                                                path,
                                                name,
                                            ),
                                            capnp_type_name: capnp_type_name_spec(
                                                filename,
                                                path,
                                                name,
                                            ),
                                            fields: nondisc_fields_spec(fields, 0).push(
                                                RFieldV {
                                                    name: which_field_name(),
                                                    rust_type: TypeV::RefId(wid),
                                                },
                                            ),
                                        },
                                    ),
                                ),
                            }
                        } else {
                            Ok(
                                crate::rust_gen::ast::TypeDefV::Struct(
                                    crate::rust_gen::ast::StructV {
                                        id: n.id,
                                        name: name,
                                        fully_qualified_type_name: fq_ty_name_spec(path, name),
                                        capnp_type_name: capnp_type_name_spec(
                                            filename,
                                            path,
                                            name,
                                        ),
                                        fields: mapped_fields_spec(fields, 0),
                                    },
                                ),
                            )
                        }
                    },
                }
            }
        },
    }
}

/// Looks a node's name up in the context.
fn lookup_name(ctx: &TranslationContext, id: Id) -> (r: Option<Name>)
    ensures
        match r {
            Some(nm) => ctx@.names.contains_key(id) && nm@ == ctx@.names[id],
            None => !ctx@.names.contains_key(id),
        },
{
    match ctx.names.get(&id) {
        Some(nm) => {
            proof {
                assert(ctx@.names.contains_key(id));
                assert(ctx@.names[id] == ctx.names@[id]@);
            }
            Some(nm.clone())
        },
        None => {
            proof {
                assert(!ctx@.names.contains_key(id));
            }
            None
        },
    }
}

impl crate::rust_gen::ast::TypeDef {
    /// Translates one type-defining node, splitting discriminated unions
    /// three ways by the relation of the discriminant count to the number
    /// of fields.
    #[verifier::loop_isolation(false)]
    pub fn translate(
        ctx: &TranslationContext,
        filename: &String,
        path: &FullyQualifiedName,
        n: &schema::Node,
    ) -> (r: Result<crate::rust_gen::ast::TypeDef, TranslateError>)
        ensures
            tdres(r) == typedef_spec(ctx@, filename@, path@, n@),
    {
        let nid = n.id;
        match &n.which {
            schema::node::Which::Annotation => Err(
                TranslateError { node_id: nid, kind: ErrorKind::AnnotationNode },
            ),
            schema::node::Which::Const => Err(
                TranslateError { node_id: nid, kind: ErrorKind::ConstNode },
            ),
            schema::node::Which::File => Err(
                TranslateError { node_id: nid, kind: ErrorKind::FileNode },
            ),
            schema::node::Which::Interface => Err(
                TranslateError { node_id: nid, kind: ErrorKind::InterfaceNode },
            ),
            schema::node::Which::Enum(es) => {
                match lookup_name(ctx, nid) {
                    None => Err(TranslateError { node_id: nid, kind: ErrorKind::MissingName }),
                    Some(name) => {
                        let ghost esv = es@;
                        let mut enumerants: Vec<Enumerant> = Vec::new();
                        let mut i: usize = 0;
                        while i < es.len()
                            invariant
                                i <= es.len(),
                                esv == es@,
                                crate::rust_gen::ast::enumerants_views(enumerants@)
                                    + enumerants_spec(esv, i as int) =~= enumerants_spec(esv, 0),
                            decreases es.len() - i,
                        {
                            let e = Enumerant::from_enumerant(&es[i]);
                            enumerants.push(e);
                            proof {
                                assert(enumerants_spec(esv, i as int) == seq![
                                    enumerant_spec(esv[i as int]),
                                ] + enumerants_spec(esv, i as int + 1));
                                assert(crate::rust_gen::ast::enumerants_views(enumerants@)
                                    + enumerants_spec(esv, i as int + 1) =~= enumerants_spec(
                                    esv,
                                    0,
                                ));
                            }
                            i += 1;
                        }
                        proof {
                            assert(enumerants_spec(esv, es@.len() as int)
                                =~= Seq::<EnumerantV>::empty());
                            assert(crate::rust_gen::ast::enumerants_views(enumerants@)
                                =~= enumerants_spec(esv, 0));
                        }
                        let fqtn = generate_fully_qualified_ty_name(path, &name);
                        let ctn = generate_capnp_ty_name(filename, path, &name);
                        Ok(
                            crate::rust_gen::ast::TypeDef::Enum(
                                crate::rust_gen::ast::Enum {
                                    id: nid,
                                    name,
                                    fully_qualified_type_name: fqtn,
                                    capnp_type_name: ctn,
                                    enum_origin: EnumOrigin::Enum,
                                    enumerants,
                                },
                            ),
                        )
                    },
                }
            },
            schema::node::Which::Struct { discriminant_count, fields, .. } => {
                match lookup_name(ctx, nid) {
                    None => Err(TranslateError { node_id: nid, kind: ErrorKind::MissingName }),
                    Some(name) => {
                        let ghost fsv = fields@;
                        let dc = *discriminant_count;
                        let mut vi: usize = 0;
                        while vi < fields.len()
                            invariant
                                vi <= fields.len(),
                                fsv == fields@,
                                fields_err_spec(fsv, vi as int) == fields_err_spec(fsv, 0),
                                forall|j: int|
                                    0 <= j < vi ==> field_trans_spec(fsv[j]) is Ok,
                            decreases fields.len() - vi,
                        {
                            match Field::translate(&fields[vi]) {
                                Err(k) => {
                                    proof {
                                        assert(fields_err_spec(fsv, vi as int) == Some(k));
                                    }
                                    return Err(TranslateError { node_id: nid, kind: k });
                                },
                                Ok(_) => {},
                            }
                            vi += 1;
                        }
                        proof {
                            assert(fields_err_spec(fsv, fields@.len() as int) is None);
                            assert(fields_err_spec(fsv, 0) is None);
                        }
                        if (dc as usize) == fields.len() {
                            let mut enumerants: Vec<Enumerant> = Vec::new();
                            let mut i: usize = 0;
                            while i < fields.len()
                                invariant
                                    i <= fields.len(),
                                    fsv == fields@,
                                    forall|j: int|
                                        0 <= j < fields@.len() ==> field_trans_spec(
                                            fsv[j],
                                        ) is Ok,
                                    crate::rust_gen::ast::enumerants_views(enumerants@)
                                        + field_enumerants_spec(fsv, i as int)
                                        =~= field_enumerants_spec(fsv, 0),
                                decreases fields.len() - i,
                            {
                                let e = match Enumerant::translate(&fields[i]) {
                                    Ok(e) => e,
                                    Err(_) => {
                                        proof {
                                            assert(false);
                                        }
                                        Enumerant { name: Name { tokens: Vec::new() }, rust_type: Type::Unit }
                                    },
                                };
                                enumerants.push(e);
                                proof {
                                    assert(field_enumerants_spec(fsv, i as int) == seq![
                                        field_enumerant_spec(fsv[i as int]),
                                    ] + field_enumerants_spec(fsv, i as int + 1));
                                    assert(crate::rust_gen::ast::enumerants_views(enumerants@)
                                        + field_enumerants_spec(fsv, i as int + 1)
                                        =~= field_enumerants_spec(fsv, 0));
                                }
                                i += 1;
                            }
                            proof {
                                assert(field_enumerants_spec(fsv, fields@.len() as int)
                                    =~= Seq::<EnumerantV>::empty());
                                assert(crate::rust_gen::ast::enumerants_views(enumerants@)
                                    =~= field_enumerants_spec(fsv, 0));
                            }
                            let fqtn = generate_fully_qualified_ty_name(path, &name);
                            let ctn = generate_capnp_ty_name(filename, path, &name);
                            Ok(
                                crate::rust_gen::ast::TypeDef::Enum(
                                    crate::rust_gen::ast::Enum {
                                        id: nid,
                                        name,
                                        fully_qualified_type_name: fqtn,
                                        capnp_type_name: ctn,
                                        enum_origin: EnumOrigin::Struct,
                                        enumerants,
                                    },
                                ),
                            )
                        } else if dc > 0 && (dc as usize) < fields.len() {
                            match generate_id_for_which_enum(ctx.synth_base, nid) {
                                None => Err(
                                    TranslateError {
                                        node_id: nid,
                                        kind: ErrorKind::IdSpaceExhausted,
                                    },
                                ),
                                Some(wid) => {
                                    let mut new_fields: Vec<Field> = Vec::new();
                                    let mut i: usize = 0;
                                    while i < fields.len()
                                        invariant
                                            i <= fields.len(),
                                            fsv == fields@,
                                            forall|j: int|
                                                0 <= j < fields@.len() ==> field_trans_spec(
                                                    fsv[j],
                                                ) is Ok,
                                            crate::rust_gen::ast::rfields_views(new_fields@)
                                                + nondisc_fields_spec(fsv, i as int)
                                                =~= nondisc_fields_spec(fsv, 0),
                                        decreases fields.len() - i,
                                    {
                                        if fields[i].discriminant_value
                                            == crate::schema::field::NO_DISCRIMINANT {
                                            let f = match Field::translate(&fields[i]) {
                                                Ok(f) => f,
                                                Err(_) => {
                                                    proof {
                                                        assert(false);
                                                    }
                                                    Field { name: Name { tokens: Vec::new() }, rust_type: Type::Unit }
                                                },
                                            };
                                            new_fields.push(f);
                                        }
                                        proof {
                                            assert(crate::rust_gen::ast::rfields_views(
                                                new_fields@,
                                            ) + nondisc_fields_spec(fsv, i as int + 1)
                                                =~= nondisc_fields_spec(fsv, 0));
                                        }
                                        i += 1;
                                    }
                                    proof {
                                        assert(nondisc_fields_spec(fsv, fields@.len() as int)
                                            =~= Seq::<RFieldV>::empty());
                                    }
                                    let wf = Field {
                                        name: Name::from("which"),
                                        rust_type: Type::RefId(wid),
                                    };
                                    new_fields.push(wf);
                                    proof {
                                        assert(crate::rust_gen::ast::rfields_views(new_fields@)
                                            =~= nondisc_fields_spec(fsv, 0).push(
                                            RFieldV {
                                                name: which_field_name(),
                                                rust_type: TypeV::RefId(wid),
                                            },
                                        ));
                                    }
                                    let fqtn = generate_fully_qualified_ty_name(path, &name);
                                    let ctn = generate_capnp_ty_name(filename, path, &name);
                                    Ok(
                                        crate::rust_gen::ast::TypeDef::Struct(
                                            crate::rust_gen::ast::Struct {
                                                id: nid,
                                                name,
                                                fully_qualified_type_name: fqtn,
                                                capnp_type_name: ctn,
                                                fields: new_fields,
                                            },
                                        ),
                                    )
                                },
                            }
                        } else {
                            let mut new_fields: Vec<Field> = Vec::new();
                            let mut i: usize = 0;
                            while i < fields.len()
                                invariant
                                    i <= fields.len(),
                                    fsv == fields@,
                                    forall|j: int|
                                        0 <= j < fields@.len() ==> field_trans_spec(
                                            fsv[j],
                                        ) is Ok,
                                    crate::rust_gen::ast::rfields_views(new_fields@)
                                        + mapped_fields_spec(fsv, i as int) =~= mapped_fields_spec(
                                        fsv,
                                        0,
                                    ),
                                decreases fields.len() - i,
                            {
                                let f = match Field::translate(&fields[i]) {
                                    Ok(f) => f,
                                    Err(_) => {
                                        proof {
                                            assert(false);
                                        }
                                        Field { name: Name { tokens: Vec::new() }, rust_type: Type::Unit }
                                    },
                                };
                                new_fields.push(f);
                                proof {
                                    assert(crate::rust_gen::ast::rfields_views(new_fields@)
                                        + mapped_fields_spec(fsv, i as int + 1)
                                        =~= mapped_fields_spec(fsv, 0));
                                }
                                i += 1;
                            }
                            proof {
                                assert(mapped_fields_spec(fsv, fields@.len() as int)
                                    =~= Seq::<RFieldV>::empty());
                                assert(crate::rust_gen::ast::rfields_views(new_fields@)
                                    =~= mapped_fields_spec(fsv, 0));
                            }
                            let fqtn = generate_fully_qualified_ty_name(path, &name);
                            let ctn = generate_capnp_ty_name(filename, path, &name);
                            Ok(
                                crate::rust_gen::ast::TypeDef::Struct(
                                    crate::rust_gen::ast::Struct {
                                        id: nid,
                                        name,
                                        fully_qualified_type_name: fqtn,
                                        capnp_type_name: ctn,
                                        fields: new_fields,
                                    },
                                ),
                            )
                        }
                    },
                }
            },
        }
    }
}


/// The text of the accessor-derive use declaration every generated module
/// starts with.
pub open spec fn use_decl_text() -> Seq<char> {
    "crate::getset::{Getters, CopyGetters, MutGetters, Setters}"@
}

/// Builds the accessor-derive use declaration.
fn use_decl_string() -> (r: String)
    ensures
        r@ == use_decl_text(),
{
    let lit = "crate::getset::{Getters, CopyGetters, MutGetters, Setters}";
    let r = lit.to_string();
    proof {
        vstd::string::to_string_from_display_ensures_for_str(lit, r);
    }
    r
}

/// The views of a sequence of module elements.
pub open spec fn elem_list_views(s: Seq<crate::rust_gen::ast::ModuleElement>) -> Seq<
    crate::rust_gen::ast::ModuleElementV,
> {
    s.map_values(|e: crate::rust_gen::ast::ModuleElement| e@)
}

/// A prefix prepended to the elements of a fold result.
pub open spec fn melems_prepend(
    pre: Seq<crate::rust_gen::ast::ModuleElementV>,
    r: Result<Seq<crate::rust_gen::ast::ModuleElementV>, TranslateError>,
) -> Result<Seq<crate::rust_gen::ast::ModuleElementV>, TranslateError> {
    match r {
        Ok(rest) => Ok(pre + rest),
        Err(e) => Err(e),
    }
}

/// What the nested nodes of a module contribute, from position `i` on:
/// per nested node that the context knows, its type definition (for enum
/// and struct nodes) and its own module; a nested id the context does not
/// know is skipped.
pub open spec fn nested_fold_spec(
    ctx: ContextV,
    filename: Seq<char>,
    subpath: crate::rust_gen::ast::FqnV,
    nested: Seq<schema::node::NestedNode>,
    i: int,
    fuel: nat,
) -> Result<Seq<crate::rust_gen::ast::ModuleElementV>, TranslateError>
    decreases fuel, nested.len() - i + 1,
{
    if i < 0 || i >= nested.len() {
        Ok(Seq::empty())
    } else {
        let nid = nested[i].id;
        if !ctx.nodes.contains_key(nid) {
            nested_fold_spec(ctx, filename, subpath, nested, i + 1, fuel)
        } else {
            let child = ctx.nodes[nid];
            let tds: Result<Seq<crate::rust_gen::ast::ModuleElementV>, TranslateError> = match (
            child.which) {
                schema::node::WhichV::Enum(_) => match typedef_spec(ctx, filename, subpath, child) {
                    Ok(td) => Ok(seq![crate::rust_gen::ast::ModuleElementV::TypeDef(td)]),
                    Err(e) => Err(e),
                },
                schema::node::WhichV::Struct { .. } => match typedef_spec(
                    ctx,
                    filename,
                    subpath,
                    child,
                ) {
                    Ok(td) => Ok(seq![crate::rust_gen::ast::ModuleElementV::TypeDef(td)]),
                    Err(e) => Err(e),
                },
                _ => Ok(Seq::empty()),
            };
            match tds {
                Err(e) => Err(e),
                Ok(tdl) => match module_spec(ctx, filename, subpath, child, fuel) {
                    Err(e) => Err(e),
                    Ok(m) => match nested_fold_spec(ctx, filename, subpath, nested, i + 1, fuel) {
                        Err(e) => Err(e),
                        Ok(rest) => Ok(
                            tdl + seq![crate::rust_gen::ast::ModuleElementV::Module(m)] + rest,
                        ),
                    },
                },
            }
        }
    }
}

/// The companion enum of a partial union: one variant per discriminated
/// field, under the module's own path.
pub open spec fn which_enum_spec(
    filename: Seq<char>,
    path: crate::rust_gen::ast::FqnV,
    subpath: crate::rust_gen::ast::FqnV,
    mname: crate::rust_gen::ast::NameTokens,
    fs: Seq<schema::Field>,
    wid: u64,
) -> crate::rust_gen::ast::EnumV {
    crate::rust_gen::ast::EnumV {
        id: wid,
        name: name_tokens_spec("Which"@),
        fully_qualified_type_name: subpath.push(name_tokens_spec("Which"@)),
        capnp_type_name: capnp_type_name_spec(filename, path, mname),
        enum_origin: EnumOrigin::WhichForPartialUnion,
        enumerants: disc_enumerants_spec(fs, 0),
    }
}

/// What translating a node as a module yields: its children's definitions
/// and modules, preceded by the accessor use declaration, and, for a
/// partial union, the synthesized companion enum at the end.
pub open spec fn module_spec(
    ctx: ContextV,
    filename: Seq<char>,
    path: crate::rust_gen::ast::FqnV,
    n: schema::NodeV,
    fuel: nat,
) -> Result<crate::rust_gen::ast::ModuleV, TranslateError>
    decreases fuel, 0int,
{
    if fuel == 0 {
        Err(TranslateError { node_id: n.id, kind: ErrorKind::NestingTooDeep })
    } else if !ctx.names.contains_key(n.id) {
        Err(TranslateError { node_id: n.id, kind: ErrorKind::MissingName })
    } else {
        let mname = ctx.names[n.id];
        let subpath = path.push(mname);
        match nested_fold_spec(ctx, filename, subpath, n.nested_nodes, 0, (fuel - 1) as nat) {
            Err(e) => Err(e),
            Ok(kids) => {
                let base = seq![
                    crate::rust_gen::ast::ModuleElementV::UseDecl(use_decl_text()),
                ] + kids;
                match n.which {
                    schema::node::WhichV::Struct { discriminant_count, fields, .. } => {
                        if discriminant_count > 0 && (discriminant_count as int) < fields.len() {
                            match disc_fields_err_spec(fields, 0) {
                                Some(k) => Err(TranslateError { node_id: n.id, kind: k }),
                                None => match which_id_spec(ctx.synth_base, n.id) {
                                    None => Err(
                                        TranslateError {
                                            node_id: n.id,
                                            kind: ErrorKind::IdSpaceExhausted,
                                        },
                                    ),
                                    Some(wid) => Ok(
                                        crate::rust_gen::ast::ModuleV {
                                            name: mname,
                                            elements: base.push(
                                                crate::rust_gen::ast::ModuleElementV::TypeDef(
                                                    crate::rust_gen::ast::TypeDefV::Enum(
                                                        which_enum_spec(
                                                            filename,
                                                            path,
                                                            subpath,
                                                            mname,
                                                            fields,
                                                            wid,
                                                        ),
                                                    ),
                                                ),
                                            ),
                                        },
                                    ),
                                },
                            }
                        } else {
                            Ok(crate::rust_gen::ast::ModuleV { name: mname, elements: base })
                        }
                    },
                    _ => Ok(crate::rust_gen::ast::ModuleV { name: mname, elements: base }),
                }
            },
        }
    }
}

/// The model of an executable module translation result.
pub open spec fn mres(
    r: Result<crate::rust_gen::ast::Module, TranslateError>,
) -> Result<crate::rust_gen::ast::ModuleV, TranslateError> {
    match r {
        Ok(m) => Ok(m@),
        Err(e) => Err(e),
    }
}

impl crate::rust_gen::ast::Module {
    /// Translates a node as a module: each nested child contributes its
    /// type definition (for enum and struct nodes) and its own module; a
    /// partial union gets its companion enum appended.
    #[verifier::loop_isolation(false)]
    pub fn translate(
        ctx: &TranslationContext,
        filename: &String,
        path: &FullyQualifiedName,
        n: &schema::Node,
        fuel: u64,
    ) -> (r: Result<crate::rust_gen::ast::Module, TranslateError>)
        ensures
            mres(r) == module_spec(ctx@, filename@, path@, n@, fuel as nat),
        decreases fuel,
    {
        if fuel == 0 {
            return Err(TranslateError { node_id: n.id, kind: ErrorKind::NestingTooDeep });
        }
        let mname = match lookup_name(ctx, n.id) {
            None => {
                return Err(TranslateError { node_id: n.id, kind: ErrorKind::MissingName });
            },
            Some(nm) => nm,
        };
        let subpath = path.with(&mname);
        let ghost ctxv = ctx@;
        let ghost fnv = filename@;
        let ghost spv = subpath@;
        let ghost nnv = n.nested_nodes@;
        let ghost f1 = (fuel - 1) as nat;
        let mut kids: Vec<crate::rust_gen::ast::ModuleElement> = Vec::new();
        let mut i: usize = 0;
        proof {
            assert(elem_list_views(kids@) =~= Seq::<crate::rust_gen::ast::ModuleElementV>::empty());
            assert(melems_prepend(elem_list_views(kids@), nested_fold_spec(ctxv, fnv, spv, nnv, 0, f1))
                == nested_fold_spec(ctxv, fnv, spv, nnv, 0, f1)) by {
                match nested_fold_spec(ctxv, fnv, spv, nnv, 0, f1) {
                    Ok(rest) => {
                        assert(elem_list_views(kids@) + rest =~= rest);
                    },
                    Err(_) => {},
                }
            }
        }
        while i < n.nested_nodes.len()
            invariant
                i <= n.nested_nodes@.len(),
                melems_prepend(elem_list_views(kids@), nested_fold_spec(ctxv, fnv, spv, nnv, i as int, f1))
                    == nested_fold_spec(ctxv, fnv, spv, nnv, 0, f1),
            decreases n.nested_nodes@.len() - i,
        {
            let nid = n.nested_nodes[i].id;
            let ghost before = elem_list_views(kids@);
            match ctx.nodes.get(&nid) {
                None => {
                    proof {
                        assert(!ctxv.nodes.contains_key(nid));
                    }
                },
                Some(child) => {
                    proof {
                        assert(ctxv.nodes.contains_key(nid));
                        assert(ctxv.nodes[nid] == child@);
                    }
                    let is_def = match &child.which {
                        schema::node::Which::Enum(_) => true,
                        schema::node::Which::Struct { .. } => true,
                        _ => false,
                    };
                    if is_def {
                        match crate::rust_gen::ast::TypeDef::translate(ctx, filename, &subpath, child) {
                            Err(e) => {
                                return Err(e);
                            },
                            Ok(td) => {
                                kids.push(crate::rust_gen::ast::ModuleElement::TypeDef(td));
                            },
                        }
                    }
                    match crate::rust_gen::ast::Module::translate(ctx, filename, &subpath, child, fuel - 1) {
                        Err(e) => {
                            return Err(e);
                        },
                        Ok(m) => {
                            kids.push(crate::rust_gen::ast::ModuleElement::Module(m));
                        },
                    }
                    proof {
                        let tdl: Seq<crate::rust_gen::ast::ModuleElementV> = if child@.which matches schema::node::WhichV::Enum(_) || child@.which matches schema::node::WhichV::Struct { .. } {
                            match typedef_spec(ctxv, fnv, spv, child@) {
                                Ok(td) => seq![crate::rust_gen::ast::ModuleElementV::TypeDef(td)],
                                Err(_) => Seq::empty(),
                            }
                        } else {
                            Seq::empty()
                        };
                        let mv = match module_spec(ctxv, fnv, spv, child@, f1) {
                            Ok(m) => m,
                            Err(_) => vstd::pervasive::arbitrary(),
                        };
                        assert(elem_list_views(kids@) =~= before + tdl + seq![
                            crate::rust_gen::ast::ModuleElementV::Module(mv),
                        ]);
                        assert(nested_fold_spec(ctxv, fnv, spv, nnv, i as int, f1) == (match nested_fold_spec(ctxv, fnv, spv, nnv, i as int + 1, f1) {
                            Err(e) => Err::<Seq<crate::rust_gen::ast::ModuleElementV>, TranslateError>(e),
                            Ok(rest) => Ok(tdl + seq![crate::rust_gen::ast::ModuleElementV::Module(mv)] + rest),
                        }));
                        match nested_fold_spec(ctxv, fnv, spv, nnv, i as int + 1, f1) {
                            Err(_) => {},
                            Ok(rest) => {
                                assert(before + (tdl + seq![crate::rust_gen::ast::ModuleElementV::Module(mv)] + rest)
                                    =~= elem_list_views(kids@) + rest);
                            },
                        }
                    }
                },
            }
            i += 1;
        }
        proof {
            assert(nested_fold_spec(ctxv, fnv, spv, nnv, nnv.len() as int, f1)
                == Ok::<Seq<crate::rust_gen::ast::ModuleElementV>, TranslateError>(Seq::empty()));
            match nested_fold_spec(ctxv, fnv, spv, nnv, 0, f1) {
                Ok(rest) => {
                    assert(elem_list_views(kids@) + Seq::<crate::rust_gen::ast::ModuleElementV>::empty()
                        =~= elem_list_views(kids@));
                    assert(rest == elem_list_views(kids@));
                },
                Err(_) => {
                    assert(false);
                },
            }
        }
        let mut elements: Vec<crate::rust_gen::ast::ModuleElement> = Vec::new();
        elements.push(crate::rust_gen::ast::ModuleElement::UseDecl(use_decl_string()));
        let mut kk = kids;
        elements.append(&mut kk);
        let ghost base = seq![crate::rust_gen::ast::ModuleElementV::UseDecl(use_decl_text())]
            + (match nested_fold_spec(ctxv, fnv, spv, nnv, 0, f1) {
            Ok(rest) => rest,
            Err(_) => Seq::empty(),
        });
        proof {
            assert(elem_list_views(elements@) =~= base);
        }
        match &n.which {
            schema::node::Which::Struct { discriminant_count, fields, .. } => {
                let dc = *discriminant_count;
                if dc > 0 && (dc as usize) < fields.len() {
                    let ghost fsv = fields@;
                    let mut vi: usize = 0;
                    while vi < fields.len()
                        invariant
                            vi <= fields@.len(),
                            disc_fields_err_spec(fsv, vi as int) == disc_fields_err_spec(fsv, 0),
                            forall|j: int|
                                0 <= j < vi && fsv[j].discriminant_value
                                    != crate::schema::field::NO_DISCRIMINANT ==> field_trans_spec(
                                    fsv[j],
                                ) is Ok,
                        decreases fields@.len() - vi,
                    {
                        if fields[vi].discriminant_value != crate::schema::field::NO_DISCRIMINANT {
                            match Field::translate(&fields[vi]) {
                                Err(k) => {
                                    proof {
                                        assert(disc_fields_err_spec(fsv, vi as int) == Some(k));
                                    }
                                    return Err(TranslateError { node_id: n.id, kind: k });
                                },
                                Ok(_) => {},
                            }
                        }
                        vi += 1;
                    }
                    proof {
                        assert(disc_fields_err_spec(fsv, fields@.len() as int) is None);
                    }
                    match generate_id_for_which_enum(ctx.synth_base, n.id) {
                        None => {
                            return Err(
                                TranslateError { node_id: n.id, kind: ErrorKind::IdSpaceExhausted },
                            );
                        },
                        Some(wid) => {
                            let mut enumerants: Vec<Enumerant> = Vec::new();
                            let mut ei: usize = 0;
                            while ei < fields.len()
                                invariant
                                    ei <= fields@.len(),
                                    forall|j: int|
                                        0 <= j < fields@.len() && fsv[j].discriminant_value
                                            != crate::schema::field::NO_DISCRIMINANT
                                            ==> field_trans_spec(fsv[j]) is Ok,
                                    crate::rust_gen::ast::enumerants_views(enumerants@)
                                        + disc_enumerants_spec(fsv, ei as int)
                                        =~= disc_enumerants_spec(fsv, 0),
                                decreases fields@.len() - ei,
                            {
                                if fields[ei].discriminant_value
                                    != crate::schema::field::NO_DISCRIMINANT {
                                    let e = match Enumerant::translate(&fields[ei]) {
                                        Ok(e) => e,
                                        Err(_) => {
                                            proof {
                                                assert(false);
                                            }
                                            Enumerant {
                                                name: Name { tokens: Vec::new() },
                                                rust_type: Type::Unit,
                                            }
                                        },
                                    };
                                    enumerants.push(e);
                                }
                                proof {
                                    assert(crate::rust_gen::ast::enumerants_views(enumerants@)
                                        + disc_enumerants_spec(fsv, ei as int + 1)
                                        =~= disc_enumerants_spec(fsv, 0));
                                }
                                ei += 1;
                            }
                            proof {
                                assert(disc_enumerants_spec(fsv, fields@.len() as int)
                                    =~= Seq::<EnumerantV>::empty());
                                assert(crate::rust_gen::ast::enumerants_views(enumerants@)
                                    =~= disc_enumerants_spec(fsv, 0));
                            }
                            let wname = Name::from("Which");
                            let wfqtn = generate_fully_qualified_ty_name(&subpath, &wname);
                            let wctn = generate_capnp_ty_name(filename, path, &mname);
                            let we = crate::rust_gen::ast::Enum {
                                id: wid,
                                name: wname,
                                fully_qualified_type_name: wfqtn,
                                capnp_type_name: wctn,
                                enum_origin: EnumOrigin::WhichForPartialUnion,
                                enumerants,
                            };
                            proof {
                                assert(we@ == which_enum_spec(fnv, path@, spv, mname@, fsv, wid));
                            }
                            elements.push(
                                crate::rust_gen::ast::ModuleElement::TypeDef(
                                    crate::rust_gen::ast::TypeDef::Enum(we),
                                ),
                            );
                            proof {
                                assert(elem_list_views(elements@) =~= base.push(
                                    crate::rust_gen::ast::ModuleElementV::TypeDef(
                                        crate::rust_gen::ast::TypeDefV::Enum(
                                            which_enum_spec(fnv, path@, spv, mname@, fsv, wid),
                                        ),
                                    ),
                                ));
                            }
                        },
                    }
                }
            },
            _ => {},
        }
        let r = crate::rust_gen::ast::Module { name: mname, elements };
        proof {
            crate::rust_gen::ast::lemma_elems_views_index(r.elements, 0);
            assert(crate::rust_gen::ast::elems_views(r.elements, 0) =~= elem_list_views(
                r.elements@,
            ));
        }
        Ok(r)
    }
}


/// The largest node id among the first `i` nodes, `0` for none.
pub open spec fn max_id_upto(cgr: Seq<schema::NodeV>, i: int) -> u64
    decreases i,
{
    if i <= 0 {
        0
    } else if cgr[i - 1].id > max_id_upto(cgr, i - 1) {
        cgr[i - 1].id
    } else {
        max_id_upto(cgr, i - 1)
    }
}

/// The names contributed by a node's nested-node entries, from `i` on,
/// added to `names`.
pub open spec fn nested_names_fold(
    names: Map<u64, crate::rust_gen::ast::NameTokens>,
    nested: Seq<schema::node::NestedNode>,
    i: int,
) -> Map<u64, crate::rust_gen::ast::NameTokens>
    decreases nested.len() - i,
{
    if i < 0 || i >= nested.len() {
        names
    } else {
        nested_names_fold(
            names.insert(nested[i].id, name_tokens_spec(nested[i].name@)),
            nested,
            i + 1,
        )
    }
}

/// One linear pass over the nodes, from `i` on: records each file node's
/// name (its display name, stripped of the namespace prefix), every
/// nested child's name, groups ids under their parent scope, and indexes
/// nodes by id. A repeated node id is fatal, as is a prefix length
/// outside the display name.
pub open spec fn build_fold_spec(
    cgr: Seq<schema::NodeV>,
    i: int,
    names: Map<u64, crate::rust_gen::ast::NameTokens>,
    children: Map<u64, Seq<u64>>,
    nodes: Map<u64, schema::NodeV>,
) -> Result<
    (Map<u64, crate::rust_gen::ast::NameTokens>, Map<u64, Seq<u64>>, Map<u64, schema::NodeV>),
    TranslateError,
>
    decreases cgr.len() - i,
{
    if i < 0 || i >= cgr.len() {
        Ok((names, children, nodes))
    } else {
        let n = cgr[i];
        if nodes.contains_key(n.id) {
            Err(TranslateError { node_id: n.id, kind: ErrorKind::DuplicateId })
        } else if (n.which matches schema::node::WhichV::File) && (n.display_name_prefix_length < 1
            || n.display_name_prefix_length > n.display_name@.len() + 1) {
            Err(TranslateError { node_id: n.id, kind: ErrorKind::BadPrefixLength })
        } else {
            let names1 = if (n.which matches schema::node::WhichV::File) {
                names.insert(
                    n.id,
                    name_tokens_spec(
                        n.display_name@.take(n.display_name_prefix_length - 1),
                    ),
                )
            } else {
                names
            };
            let names2 = nested_names_fold(names1, n.nested_nodes, 0);
            let children1 = if children.contains_key(n.scope_id) {
                children.insert(n.scope_id, children[n.scope_id].push(n.id))
            } else {
                children.insert(n.scope_id, seq![n.id])
            };
            let nodes1 = nodes.insert(n.id, n);
            build_fold_spec(cgr, i + 1, names2, children1, nodes1)
        }
    }
}


/// The error form of a context-building result.
pub open spec fn build_err(e: TranslateError) -> Result<
    (Map<u64, crate::rust_gen::ast::NameTokens>, Map<u64, Seq<u64>>, Map<u64, schema::NodeV>),
    TranslateError,
> {
    Err(e)
}

/// Builds the translation context in one linear pass and seeds the
/// synthetic-id base just above the largest real node id.
#[verifier::loop_isolation(false)]
pub fn build_translation_context_from_cgr(
    ctx: &mut TranslationContext,
    cgr: &schema::CodeGeneratorRequest,
) -> (r: Result<(), TranslateError>)
    ensures
        match r {
            Ok(()) => {
                &&& build_fold_spec(
                    cgr@,
                    0,
                    old(ctx)@.names,
                    old(ctx)@.children,
                    old(ctx)@.nodes,
                ) matches Ok(t)
                &&& final(ctx)@.names == t.0
                &&& final(ctx)@.children == t.1
                &&& final(ctx)@.nodes == t.2
                &&& max_id_upto(cgr@, cgr@.len() as int) < u64::MAX
                &&& final(ctx)@.synth_base == max_id_upto(cgr@, cgr@.len() as int) + 1
            },
            Err(e) => {
                (build_fold_spec(cgr@, 0, old(ctx)@.names, old(ctx)@.children, old(ctx)@.nodes)
                    == build_err(e)) || (build_fold_spec(
                    cgr@,
                    0,
                    old(ctx)@.names,
                    old(ctx)@.children,
                    old(ctx)@.nodes,
                ) is Ok && max_id_upto(cgr@, cgr@.len() as int) == u64::MAX && e
                    == (TranslateError { node_id: u64::MAX, kind: ErrorKind::IdSpaceExhausted }))
            },
        },
{
    let ghost cgrv = cgr@;
    let ghost names0 = old(ctx)@.names;
    let ghost children0 = old(ctx)@.children;
    let ghost nodes0 = old(ctx)@.nodes;
    let mut maxid: u64 = 0;
    let mut i: usize = 0;
    while i < cgr.nodes.len()
        invariant
            i <= cgr.nodes@.len(),
            cgrv.len() == cgr.nodes@.len(),
            maxid == max_id_upto(cgrv, i as int),
            build_fold_spec(cgrv, i as int, ctx@.names, ctx@.children, ctx@.nodes)
                == build_fold_spec(cgrv, 0, names0, children0, nodes0),
        decreases cgr.nodes@.len() - i,
    {
        let n = &cgr.nodes[i];
        let ghost nv = cgrv[i as int];
        let ghost names_in = ctx@.names;
        let ghost children_in = ctx@.children;
        let ghost nodes_in = ctx@.nodes;
        proof {
            assert(nv == n@);
        }
        if ctx.nodes.contains_key(&n.id) {
            proof {
                assert(ctx@.nodes.contains_key(n.id));
                assert(build_fold_spec(cgrv, i as int, names_in, children_in, nodes_in)
                    == build_err(TranslateError { node_id: nv.id, kind: ErrorKind::DuplicateId }));
            }
            return Err(TranslateError { node_id: n.id, kind: ErrorKind::DuplicateId });
        }
        proof {
            assert(!ctx@.nodes.contains_key(n.id));
        }
        let is_file = match &n.which {
            schema::node::Which::File => true,
            _ => false,
        };
        if is_file {
            let dchars = str_chars(n.display_name.as_str());
            if n.display_name_prefix_length < 1 || n.display_name_prefix_length - 1
                > dchars.len() {
                proof {
                    assert(nv.which matches schema::node::WhichV::File);
                    assert(nv.display_name_prefix_length < 1
                        || nv.display_name_prefix_length > nv.display_name@.len() + 1);
                }
                return Err(TranslateError { node_id: n.id, kind: ErrorKind::BadPrefixLength });
            }
            let mut stripped: Vec<char> = Vec::new();
            let plen = n.display_name_prefix_length - 1;
            let mut ci: usize = 0;
            while ci < plen
                invariant
                    ci <= plen,
                    plen <= dchars@.len(),
                    dchars@ == nv.display_name@,
                    stripped@ =~= nv.display_name@.take(ci as int),
                decreases plen - ci,
            {
                stripped.push(dchars[ci]);
                proof {
                    assert(stripped@ =~= nv.display_name@.take(ci as int + 1));
                }
                ci += 1;
            }
            let sanitized = crate::strutil::sanitize_chars(&stripped);
            let fname = Name::from_chars(&sanitized);
            ctx.names.insert(n.id, fname);
            proof {
                assert(ctx@.names =~= names_in.insert(
                    nv.id,
                    name_tokens_spec(nv.display_name@.take(nv.display_name_prefix_length - 1)),
                ));
            }
        }
        let ghost names1 = ctx@.names;
        let mut ni: usize = 0;
        while ni < n.nested_nodes.len()
            invariant
                ni <= n.nested_nodes@.len(),
                nested_names_fold(ctx@.names, nv.nested_nodes, ni as int) == nested_names_fold(
                    names1,
                    nv.nested_nodes,
                    0,
                ),
                ctx@.children == children_in,
                ctx@.nodes == nodes_in,
            decreases n.nested_nodes@.len() - ni,
        {
            let ghost names_at = ctx@.names;
            let nn = &n.nested_nodes[ni];
            let nm = Name::from(nn.name.as_str());
            ctx.names.insert(nn.id, nm);
            proof {
                assert(nv.nested_nodes[ni as int] == *nn);
                assert(ctx@.names =~= names_at.insert(nn.id, name_tokens_spec(nn.name@)));
                assert(nested_names_fold(names_at, nv.nested_nodes, ni as int)
                    == nested_names_fold(ctx@.names, nv.nested_nodes, ni as int + 1));
            }
            ni += 1;
        }
        proof {
            assert(nested_names_fold(ctx@.names, nv.nested_nodes, nv.nested_nodes.len() as int)
                == ctx@.names);
        }
        let ghost names2 = ctx@.names;
        mm_insert(&mut ctx.children, n.scope_id, n.id);
        proof {
            assert(ctx@.children == (if children_in.contains_key(nv.scope_id) {
                children_in.insert(nv.scope_id, children_in[nv.scope_id].push(nv.id))
            } else {
                children_in.insert(nv.scope_id, seq![nv.id])
            }));
        }
        let cn = n.clone();
        ctx.nodes.insert(n.id, cn);
        proof {
            assert(ctx@.nodes =~= nodes_in.insert(nv.id, nv));
        }
        if n.id > maxid {
            maxid = n.id;
        }
        proof {
            assert(maxid == max_id_upto(cgrv, i as int + 1));
            assert(build_fold_spec(cgrv, i as int, names_in, children_in, nodes_in)
                == build_fold_spec(cgrv, i as int + 1, ctx@.names, ctx@.children, ctx@.nodes));
        }
        i += 1;
    }
    if maxid == u64::MAX {
        return Err(TranslateError { node_id: maxid, kind: ErrorKind::IdSpaceExhausted });
    }
    ctx.synth_base = maxid + 1;
    proof {
        assert(build_fold_spec(cgrv, cgrv.len() as int, ctx@.names, ctx@.children, ctx@.nodes)
            == Ok::<
            (
                Map<u64, crate::rust_gen::ast::NameTokens>,
                Map<u64, Seq<u64>>,
                Map<u64, schema::NodeV>,
            ),
            TranslateError,
        >((ctx@.names, ctx@.children, ctx@.nodes)));
    }
    Ok(())
}


/// The display name of the first file node carrying `id`, if any.
pub open spec fn filename_spec(cgr: Seq<schema::NodeV>, i: int, id: u64) -> Option<Seq<char>>
    decreases cgr.len() - i,
{
    if i < 0 || i >= cgr.len() {
        None
    } else if (cgr[i].which matches schema::node::WhichV::File) && cgr[i].id == id {
        Some(cgr[i].display_name@)
    } else {
        filename_spec(cgr, i + 1, id)
    }
}

/// Finds the file name recorded for a file node's id: the display name of
/// the first file node with that id.
#[verifier::loop_isolation(false)]
pub fn get_filename_from_cgr(cgr: &schema::CodeGeneratorRequest, id: Id) -> (r: Result<
    String,
    TranslateError,
>)
    ensures
        match r {
            Ok(s) => filename_spec(cgr@, 0, id) == Some(s@),
            Err(e) => filename_spec(cgr@, 0, id) is None && e == (TranslateError {
                node_id: id,
                kind: ErrorKind::MissingFileName,
            }),
        },
{
    let ghost cgrv = cgr@;
    let mut i: usize = 0;
    while i < cgr.nodes.len()
        invariant
            i <= cgr.nodes@.len(),
            filename_spec(cgrv, i as int, id) == filename_spec(cgrv, 0, id),
        decreases cgr.nodes@.len() - i,
    {
        let n = &cgr.nodes[i];
        let is_file = match &n.which {
            schema::node::Which::File => true,
            _ => false,
        };
        if is_file && n.id == id {
            proof {
                assert(cgrv[i as int] == n@);
            }
            return Ok(n.display_name.clone());
        }
        i += 1;
    }
    proof {
        assert(filename_spec(cgrv, cgrv.len() as int, id) is None);
    }
    Err(TranslateError { node_id: id, kind: ErrorKind::MissingFileName })
}

/// What translating the whole request yields: one module per file node,
/// in request order.
pub open spec fn rust_ast_fold(ctx: ContextV, cgr: Seq<schema::NodeV>, i: int, fuel: nat) -> Result<
    Seq<crate::rust_gen::ast::ModuleV>,
    TranslateError,
>
    decreases cgr.len() - i,
{
    if i < 0 || i >= cgr.len() {
        Ok(Seq::empty())
    } else if (cgr[i].which matches schema::node::WhichV::File) {
        match filename_spec(cgr, 0, cgr[i].id) {
            None => Err(TranslateError { node_id: cgr[i].id, kind: ErrorKind::MissingFileName }),
            Some(fname) => match module_spec(ctx, fname, Seq::empty(), cgr[i], fuel) {
                Err(e) => Err(e),
                Ok(m) => match rust_ast_fold(ctx, cgr, i + 1, fuel) {
                    Err(e) => Err(e),
                    Ok(rest) => Ok(seq![m] + rest),
                },
            },
        }
    } else {
        rust_ast_fold(ctx, cgr, i + 1, fuel)
    }
}

/// A prefix prepended to a module fold result.
pub open spec fn mods_prepend(
    pre: Seq<crate::rust_gen::ast::ModuleV>,
    r: Result<Seq<crate::rust_gen::ast::ModuleV>, TranslateError>,
) -> Result<Seq<crate::rust_gen::ast::ModuleV>, TranslateError> {
    match r {
        Ok(rest) => Ok(pre + rest),
        Err(e) => Err(e),
    }
}

impl crate::rust_gen::ast::RustAst {
    /// Translates the whole request over a prepared context: one module
    /// per file node. The recursion fuel is one more than the number of
    /// nodes, which any acyclic nesting stays within.
    #[verifier::loop_isolation(false)]
    pub fn translate(ctx: &TranslationContext, cgr: &schema::CodeGeneratorRequest) -> (r: Result<
        crate::rust_gen::ast::RustAst,
        TranslateError,
    >)
        requires
            cgr@.len() < u64::MAX,
        ensures
            match r {
                Ok(ast) => rust_ast_fold(ctx@, cgr@, 0, (cgr@.len() + 1) as nat) == Ok::<
                    Seq<crate::rust_gen::ast::ModuleV>,
                    TranslateError,
                >(ast@.defs),
                Err(e) => rust_ast_fold(ctx@, cgr@, 0, (cgr@.len() + 1) as nat) == Err::<
                    Seq<crate::rust_gen::ast::ModuleV>,
                    TranslateError,
                >(e),
            },
    {
        let ghost ctxv = ctx@;
        let ghost cgrv = cgr@;
        let ghost fuelv = (cgrv.len() + 1) as nat;
        let fuel: u64 = (cgr.nodes.len() as u64) + 1;
        proof {
            assert(fuel as nat == fuelv);
        }
        let empty_path = FullyQualifiedName { names: Vec::new() };
        proof {
            assert(empty_path@ =~= Seq::<crate::rust_gen::ast::NameTokens>::empty());
        }
        let mut defs: Vec<crate::rust_gen::ast::Module> = Vec::new();
        let mut i: usize = 0;
        proof {
            assert(mods_prepend(
                crate::rust_gen::ast::modules_views(defs@),
                rust_ast_fold(ctxv, cgrv, 0, fuelv),
            ) == rust_ast_fold(ctxv, cgrv, 0, fuelv)) by {
                match rust_ast_fold(ctxv, cgrv, 0, fuelv) {
                    Ok(rest) => {
                        assert(crate::rust_gen::ast::modules_views(defs@) + rest =~= rest);
                    },
                    Err(_) => {},
                }
            }
        }
        while i < cgr.nodes.len()
            invariant
                i <= cgr.nodes@.len(),
                mods_prepend(
                    crate::rust_gen::ast::modules_views(defs@),
                    rust_ast_fold(ctxv, cgrv, i as int, fuelv),
                ) == rust_ast_fold(ctxv, cgrv, 0, fuelv),
            decreases cgr.nodes@.len() - i,
        {
            let n = &cgr.nodes[i];
            let ghost before = crate::rust_gen::ast::modules_views(defs@);
            let is_file = match &n.which {
                schema::node::Which::File => true,
                _ => false,
            };
            if is_file {
                proof {
                    assert(cgrv[i as int] == n@);
                }
                let fname = match get_filename_from_cgr(cgr, n.id) {
                    Err(e) => {
                        return Err(e);
                    },
                    Ok(fname) => fname,
                };
                match crate::rust_gen::ast::Module::translate(ctx, &fname, &empty_path, n, fuel) {
                    Err(e) => {
                        return Err(e);
                    },
                    Ok(m) => {
                        defs.push(m);
                        proof {
                            let mv = match module_spec(ctxv, fname@, Seq::empty(), n@, fuelv) {
                                Ok(m) => m,
                                Err(_) => vstd::pervasive::arbitrary(),
                            };
                            assert(crate::rust_gen::ast::modules_views(defs@) =~= before.push(mv));
                            match rust_ast_fold(ctxv, cgrv, i as int + 1, fuelv) {
                                Err(_) => {},
                                Ok(rest) => {
                                    assert(before + (seq![mv] + rest)
                                        =~= crate::rust_gen::ast::modules_views(defs@) + rest);
                                },
                            }
                        }
                    },
                }
            }
            i += 1;
        }
        proof {
            assert(rust_ast_fold(ctxv, cgrv, cgrv.len() as int, fuelv) == Ok::<
                Seq<crate::rust_gen::ast::ModuleV>,
                TranslateError,
            >(Seq::empty()));
            match rust_ast_fold(ctxv, cgrv, 0, fuelv) {
                Ok(rest) => {
                    assert(crate::rust_gen::ast::modules_views(defs@)
                        + Seq::<crate::rust_gen::ast::ModuleV>::empty()
                        =~= crate::rust_gen::ast::modules_views(defs@));
                },
                Err(_) => {
                    assert(false);
                },
            }
        }
        Ok(crate::rust_gen::ast::RustAst { defs })
    }
}

/// The number of discriminated fields from position `i` on.
pub open spec fn disc_count(fs: Seq<schema::Field>, i: int) -> nat
    decreases fs.len() - i,
{
    if i < 0 || i >= fs.len() {
        0
    } else if fs[i].discriminant_value == crate::schema::field::NO_DISCRIMINANT {
        disc_count(fs, i + 1)
    } else {
        1 + disc_count(fs, i + 1)
    }
}

pub proof fn lemma_field_enumerants_len(fs: Seq<schema::Field>, i: int)
    requires
        0 <= i <= fs.len(),
    ensures
        field_enumerants_spec(fs, i).len() == fs.len() - i,
        forall|j: int|
            0 <= j < fs.len() - i ==> #[trigger] field_enumerants_spec(fs, i)[j]
                == field_enumerant_spec(fs[i + j]),
    decreases fs.len() - i,
{
    if i < fs.len() {
        lemma_field_enumerants_len(fs, i + 1);
        assert forall|j: int|
            0 <= j < fs.len() - i implies #[trigger] field_enumerants_spec(fs, i)[j]
            == field_enumerant_spec(fs[i + j]) by {
            if j > 0 {
                assert(field_enumerants_spec(fs, i)[j] == field_enumerants_spec(fs, i + 1)[j - 1]);
            }
        }
    }
}

pub proof fn lemma_nondisc_len(fs: Seq<schema::Field>, i: int)
    requires
        0 <= i <= fs.len(),
    ensures
        nondisc_fields_spec(fs, i).len() == fs.len() - i - disc_count(fs, i),
        disc_enumerants_spec(fs, i).len() == disc_count(fs, i),
    decreases fs.len() - i,
{
    if i < fs.len() {
        lemma_nondisc_len(fs, i + 1);
    }
}

pub proof fn lemma_fields_err_none(fs: Seq<schema::Field>, i: int)
    requires
        0 <= i <= fs.len(),
        fields_err_spec(fs, i) is None,
    ensures
        forall|j: int| i <= j < fs.len() ==> field_trans_spec(#[trigger] fs[j]) is Ok,
    decreases fs.len() - i,
{
    if i < fs.len() {
        lemma_fields_err_none(fs, i + 1);
    }
}

/// Union-split totality: a struct node whose fields are all discriminated
/// translates to a tagged enum with exactly one enumerant per field, each
/// named after its field; one with some discriminated fields translates
/// to a struct holding each plain field plus one final `which` field, so
/// that with `k` discriminated fields among `n` it has `n - k + 1`
/// fields; and its companion enum carries exactly one enumerant per
/// discriminated field.
pub proof fn lemma_union_split(
    ctx: ContextV,
    filename: Seq<char>,
    path: crate::rust_gen::ast::FqnV,
    n: schema::NodeV,
    dc: u16,
    fs: Seq<schema::Field>,
)
    requires
        n.which matches schema::node::WhichV::Struct { discriminant_count, fields, .. }
            && discriminant_count == dc && fields == fs,
        ctx.names.contains_key(n.id),
        fields_err_spec(fs, 0) is None,
    ensures
        dc == fs.len() ==> (typedef_spec(ctx, filename, path, n) matches Ok(
            crate::rust_gen::ast::TypeDefV::Enum(e),
        ) && e.id == n.id && e.enum_origin == EnumOrigin::Struct && e.enumerants
            == field_enumerants_spec(fs, 0) && e.enumerants.len() == fs.len() && (
        forall|j: int|
            0 <= j < fs.len() ==> #[trigger] e.enumerants[j] == field_enumerant_spec(fs[j])) && (
        forall|j: int|
            0 <= j < fs.len() ==> #[trigger] e.enumerants[j].name == name_tokens_spec(
                fs[j].name@,
            ))),
        0 < dc < fs.len() && (which_id_spec(ctx.synth_base, n.id) matches Some(wid)) ==> (
        typedef_spec(ctx, filename, path, n) matches Ok(
            crate::rust_gen::ast::TypeDefV::Struct(s),
        ) && s.id == n.id && s.fields == nondisc_fields_spec(fs, 0).push(
            RFieldV {
                name: which_field_name(),
                rust_type: TypeV::RefId(which_id_spec(ctx.synth_base, n.id).unwrap()),
            },
        ) && s.fields.len() == fs.len() - disc_count(fs, 0) + 1 && s.fields.last().name
            == which_field_name()),
        disc_enumerants_spec(fs, 0).len() == disc_count(fs, 0),
{
    lemma_fields_err_none(fs, 0);
    lemma_nondisc_len(fs, 0);
    if dc == fs.len() {
        lemma_field_enumerants_len(fs, 0);
        let e = match typedef_spec(ctx, filename, path, n) {
            Ok(crate::rust_gen::ast::TypeDefV::Enum(e)) => e,
            _ => vstd::pervasive::arbitrary(),
        };
        assert(e.enumerants == field_enumerants_spec(fs, 0));
        assert forall|j: int|
            0 <= j < fs.len() implies #[trigger] e.enumerants[j] == field_enumerant_spec(
            fs[j],
        ) by {
            assert(field_enumerants_spec(fs, 0)[j] == field_enumerant_spec(fs[j]));
        }
        assert forall|j: int|
            0 <= j < fs.len() implies #[trigger] e.enumerants[j].name == name_tokens_spec(
            fs[j].name@,
        ) by {
            assert(e.enumerants[j] == field_enumerant_spec(fs[j]));
            assert(field_trans_spec(fs[j]) is Ok);
            assert(field_value_spec(fs[j]).name == name_tokens_spec(fs[j].name@));
        }
    }
}


/// What went wrong anywhere in the pipeline.
#[derive(Clone, Copy, Debug, PartialEq, Eq, Structural)]
pub enum PipelineError {
    Translate(TranslateError),
    Resolve(crate::err::ResolveError),
}

/// The context the pipeline builds for a request, meaningful only when
/// context building succeeds.
pub open spec fn pipeline_ctx_spec(cgr: Seq<schema::NodeV>) -> ContextV {
    match build_fold_spec(
        cgr,
        0,
        Map::<u64, crate::rust_gen::ast::NameTokens>::empty(),
        Map::<u64, Seq<u64>>::empty(),
        Map::<u64, schema::NodeV>::empty(),
    ) {
        Ok(t) => ContextV {
            names: t.0,
            children: t.1,
            nodes: t.2,
            synth_base: (max_id_upto(cgr, cgr.len() as int) + 1) as u64,
        },
        Err(_) => vstd::pervasive::arbitrary(),
    }
}

/// What the whole translation-and-resolution pipeline yields for a
/// request: the context is built, every file node is translated, every
/// definition's qualified name is recorded, and every by-id reference is
/// rewritten; any fatal step stops the run with its error.
pub open spec fn pipeline_spec(cgr: Seq<schema::NodeV>) -> Result<
    crate::rust_gen::ast::RustAstV,
    PipelineError,
> {
    match build_fold_spec(
        cgr,
        0,
        Map::<u64, crate::rust_gen::ast::NameTokens>::empty(),
        Map::<u64, Seq<u64>>::empty(),
        Map::<u64, schema::NodeV>::empty(),
    ) {
        Err(e) => Err(PipelineError::Translate(e)),
        Ok(_) => {
            if max_id_upto(cgr, cgr.len() as int) == u64::MAX {
                Err(
                    PipelineError::Translate(
                        TranslateError { node_id: u64::MAX, kind: ErrorKind::IdSpaceExhausted },
                    ),
                )
            } else {
                match rust_ast_fold(pipeline_ctx_spec(cgr), cgr, 0, (cgr.len() + 1) as nat) {
                    Err(e) => Err(PipelineError::Translate(e)),
                    Ok(defs) => {
                        let types = crate::rust_gen::resolve::bc_ast(
                            Map::<u64, crate::rust_gen::ast::FqnV>::empty(),
                            defs,
                            0,
                        );
                        match crate::rust_gen::resolve::rs_ast(
                            types,
                            crate::rust_gen::ast::RustAstV { defs },
                        ) {
                            Err(e) => Err(PipelineError::Resolve(e)),
                            Ok(resolved) => Ok(resolved),
                        }
                    },
                }
            }
        },
    }
}

/// Runs translation and reference resolution for a whole request.
pub fn translate(cgr: &schema::CodeGeneratorRequest) -> (r: Result<
    crate::rust_gen::ast::RustAst,
    PipelineError,
>)
    requires
        cgr@.len() < u64::MAX,
    ensures
        match r {
            Ok(ast) => pipeline_spec(cgr@) == Ok::<crate::rust_gen::ast::RustAstV, PipelineError>(
                ast@,
            ),
            Err(e) => pipeline_spec(cgr@) == Err::<crate::rust_gen::ast::RustAstV, PipelineError>(
                e,
            ),
        },
{
    let mut ctx = TranslationContext::new();
    proof {
        assert(ctx@.names =~= Map::<u64, crate::rust_gen::ast::NameTokens>::empty());
        assert(ctx@.children =~= Map::<u64, Seq<u64>>::empty());
        assert(ctx@.nodes =~= Map::<u64, schema::NodeV>::empty());
    }
    match build_translation_context_from_cgr(&mut ctx, cgr) {
        Err(e) => {
            return Err(PipelineError::Translate(e));
        },
        Ok(()) => {},
    }
    proof {
        assert(ctx@ == pipeline_ctx_spec(cgr@));
    }
    let translated = match crate::rust_gen::ast::RustAst::translate(&ctx, cgr) {
        Err(e) => {
            return Err(PipelineError::Translate(e));
        },
        Ok(t) => t,
    };
    let mut rctx = crate::rust_gen::resolve::ResolutionContext::new();
    crate::rust_gen::ast::RustAst::build_context(&mut rctx, &translated);
    match crate::rust_gen::ast::RustAst::resolve(&rctx, &translated) {
        Err(e) => Err(PipelineError::Resolve(e)),
        Ok(resolved) => Ok(resolved),
    }
}


/// Union-split totality, companion half: the module of a partial-union
/// struct ends with the synthesized companion enum, whose enumerants are
/// exactly the discriminated fields in field order, whose id is the
/// synthesized one, and whose qualified name lies under the module's own
/// path.
pub proof fn lemma_which_enum_totality(
    ctx: ContextV,
    filename: Seq<char>,
    path: crate::rust_gen::ast::FqnV,
    n: schema::NodeV,
    fuel: nat,
    dc: u16,
    fs: Seq<schema::Field>,
)
    requires
        module_spec(ctx, filename, path, n, fuel) is Ok,
        n.which matches schema::node::WhichV::Struct { discriminant_count, fields, .. }
            && discriminant_count == dc && fields == fs,
        0 < dc && (dc as int) < fs.len(),
    ensures
        module_spec(ctx, filename, path, n, fuel) matches Ok(m) && {
            let mname = ctx.names[n.id];
            let w = which_enum_spec(
                filename,
                path,
                path.push(mname),
                mname,
                fs,
                which_id_spec(ctx.synth_base, n.id).unwrap(),
            );
            &&& which_id_spec(ctx.synth_base, n.id) is Some
            &&& m.elements.len() >= 1
            &&& m.elements.last() == crate::rust_gen::ast::ModuleElementV::TypeDef(
                crate::rust_gen::ast::TypeDefV::Enum(w),
            )
            &&& w.enumerants == disc_enumerants_spec(fs, 0)
            &&& w.enumerants.len() == disc_count(fs, 0)
            &&& w.enum_origin == EnumOrigin::WhichForPartialUnion
            &&& w.name == name_tokens_spec("Which"@)
            &&& w.id == which_id_spec(ctx.synth_base, n.id).unwrap()
            &&& w.fully_qualified_type_name == path.push(mname).push(name_tokens_spec("Which"@))
        },
{
    lemma_nondisc_len(fs, 0);
}

} // verus!
