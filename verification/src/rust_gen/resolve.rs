//! Two-pass reference resolution over the translated AST.
//!
//! The first pass records, for every type definition, its fully-qualified
//! name keyed by its original numeric id; the second pass rewrites every
//! by-id reference into the recorded fully-qualified name. A reference to
//! an id that no definition recorded is a dangling reference and fatal.
//! Two passes are needed because types may refer to siblings, cousins, or
//! definitions that only appear later in traversal order.

use vstd::prelude::*;
use std::collections::HashMap;
use crate::err::ResolveError;
use crate::rust_gen::ast::{
    elems_views, enumerants_views, lemma_elems_views_index, modules_views, rfields_views,
    rnames_views, Enum, Enumerant, EnumerantV, EnumV, Field, FqnV, FullyQualifiedName, Module,
    ModuleElement, ModuleElementV, ModuleV, Name, RFieldV, RustAst, RustAstV, Struct, StructV,
    Type, TypeDef, TypeDefV, TypeV,
};

verus! {

pub type Id = u64;

/// The model of the resolution context: for every defined type's id, its
/// fully-qualified name.
pub type TypesV = Map<u64, FqnV>;

/// The resolution context, built by the first pass.
pub struct ResolutionContext {
    pub types: HashMap<Id, Vec<Name>>,
}

impl View for ResolutionContext {
    type V = TypesV;

    open spec fn view(&self) -> TypesV {
        self.types@.map_values(|v: Vec<Name>| rnames_views(v@))
    }
}

impl ResolutionContext {
    /// The empty context.
    pub fn new() -> (r: ResolutionContext)
        ensures
            r@ == Map::<u64, FqnV>::empty(),
    {
        let r = ResolutionContext { types: HashMap::new() };
        proof {
            assert(r@ =~= Map::<u64, FqnV>::empty());
        }
        r
    }
}

/// The context after recording one definition under `prefix`.
pub open spec fn bc_typedef(types: TypesV, prefix: FqnV, d: TypeDefV) -> TypesV {
    match d {
        TypeDefV::Enum(e) => types.insert(e.id, prefix.push(e.name)),
        TypeDefV::Struct(s) => types.insert(s.id, prefix.push(s.name)),
    }
}

/// The context after recording the elements from position `i` on.
pub open spec fn bc_elems(types: TypesV, prefix: FqnV, elems: Seq<ModuleElementV>, i: int) -> TypesV
    decreases elems, elems.len() - i + 1,
{
    if i < 0 || i >= elems.len() {
        types
    } else {
        let types1 = match elems[i] {
            ModuleElementV::TypeDef(d) => bc_typedef(types, prefix, d),
            ModuleElementV::Module(m) => bc_module(types, prefix, m),
            _ => types,
        };
        bc_elems(types1, prefix, elems, i + 1)
    }
}

/// The context after recording a module's definitions, with the module's
/// own name appended to the prefix.
pub open spec fn bc_module(types: TypesV, prefix: FqnV, m: ModuleV) -> TypesV
    decreases m, 0int,
{
    bc_elems(types, prefix.push(m.name), m.elements, 0)
}

/// The context after recording the modules from position `i` on, from the
/// compilation root.
pub open spec fn bc_ast(types: TypesV, ms: Seq<ModuleV>, i: int) -> TypesV
    decreases ms.len() - i,
{
    if i < 0 || i >= ms.len() {
        types
    } else {
        bc_ast(bc_module(types, Seq::empty(), ms[i]), ms, i + 1)
    }
}

/// What resolving a type yields: by-id references become the recorded
/// fully-qualified name; a reference to an unrecorded id is fatal.
pub open spec fn rs_type(types: TypesV, t: TypeV) -> Result<TypeV, ResolveError>
    decreases t,
{
    match t {
        TypeV::RefId(id) => if types.contains_key(id) {
            Ok(TypeV::RefName(types[id]))
        } else {
            Err(ResolveError { id })
        },
        TypeV::List(b) => match rs_type(types, *b) {
            Ok(v) => Ok(TypeV::List(Box::new(v))),
            Err(e) => Err(e),
        },
        other => Ok(other),
    }
}

/// What resolving an enumerant yields.
pub open spec fn rs_enumerant(types: TypesV, e: EnumerantV) -> Result<EnumerantV, ResolveError> {
    match rs_type(types, e.rust_type) {
        Ok(t) => Ok(EnumerantV { name: e.name, rust_type: t }),
        Err(err) => Err(err),
    }
}

/// What resolving a field yields.
pub open spec fn rs_field(types: TypesV, f: RFieldV) -> Result<RFieldV, ResolveError> {
    match rs_type(types, f.rust_type) {
        Ok(t) => Ok(RFieldV { name: f.name, rust_type: t }),
        Err(err) => Err(err),
    }
}

/// The enumerants from position `i` on, resolved in order.
pub open spec fn rs_enumerants(types: TypesV, es: Seq<EnumerantV>, i: int) -> Result<
    Seq<EnumerantV>,
    ResolveError,
>
    decreases es.len() - i,
{
    if i < 0 || i >= es.len() {
        Ok(Seq::empty())
    } else {
        match rs_enumerant(types, es[i]) {
            Err(e) => Err(e),
            Ok(v) => match rs_enumerants(types, es, i + 1) {
                Err(e) => Err(e),
                Ok(rest) => Ok(seq![v] + rest),
            },
        }
    }
}

/// The fields from position `i` on, resolved in order.
pub open spec fn rs_fields(types: TypesV, fs: Seq<RFieldV>, i: int) -> Result<
    Seq<RFieldV>,
    ResolveError,
>
    decreases fs.len() - i,
{
    if i < 0 || i >= fs.len() {
        Ok(Seq::empty())
    } else {
        match rs_field(types, fs[i]) {
            Err(e) => Err(e),
            Ok(v) => match rs_fields(types, fs, i + 1) {
                Err(e) => Err(e),
                Ok(rest) => Ok(seq![v] + rest),
            },
        }
    }
}

/// What resolving an enum yields.
pub open spec fn rs_enum(types: TypesV, e: EnumV) -> Result<EnumV, ResolveError> {
    match rs_enumerants(types, e.enumerants, 0) {
        Err(err) => Err(err),
        Ok(es) => Ok(
            EnumV {
                id: e.id,
                name: e.name,
                fully_qualified_type_name: e.fully_qualified_type_name,
                capnp_type_name: e.capnp_type_name,
                enum_origin: e.enum_origin,
                enumerants: es,
            },
        ),
    }
}

/// What resolving a struct yields.
pub open spec fn rs_struct(types: TypesV, s: StructV) -> Result<StructV, ResolveError> {
    match rs_fields(types, s.fields, 0) {
        Err(err) => Err(err),
        Ok(fs) => Ok(
            StructV {
                id: s.id,
                name: s.name,
                fully_qualified_type_name: s.fully_qualified_type_name,
                capnp_type_name: s.capnp_type_name,
                fields: fs,
            },
        ),
    }
}

/// What resolving a type definition yields.
pub open spec fn rs_typedef(types: TypesV, d: TypeDefV) -> Result<TypeDefV, ResolveError> {
    match d {
        TypeDefV::Enum(e) => match rs_enum(types, e) {
            Ok(v) => Ok(TypeDefV::Enum(v)),
            Err(err) => Err(err),
        },
        TypeDefV::Struct(s) => match rs_struct(types, s) {
            Ok(v) => Ok(TypeDefV::Struct(v)),
            Err(err) => Err(err),
        },
    }
}

/// What resolving one module element yields: declarations, trait markers
/// and impls pass through unchanged.
pub open spec fn rs_elem(types: TypesV, e: ModuleElementV) -> Result<ModuleElementV, ResolveError>
    decreases e, 0int,
{
    match e {
        ModuleElementV::TypeDef(d) => match rs_typedef(types, d) {
            Ok(v) => Ok(ModuleElementV::TypeDef(v)),
            Err(err) => Err(err),
        },
        ModuleElementV::Module(m) => match rs_module(types, m) {
            Ok(v) => Ok(ModuleElementV::Module(v)),
            Err(err) => Err(err),
        },
        other => Ok(other),
    }
}

/// The elements from position `i` on, resolved in order.
pub open spec fn rs_elems(types: TypesV, elems: Seq<ModuleElementV>, i: int) -> Result<
    Seq<ModuleElementV>,
    ResolveError,
>
    decreases elems, elems.len() - i + 1,
{
    if i < 0 || i >= elems.len() {
        Ok(Seq::empty())
    } else {
        match rs_elem(types, elems[i]) {
            Err(e) => Err(e),
            Ok(v) => match rs_elems(types, elems, i + 1) {
                Err(e) => Err(e),
                Ok(rest) => Ok(seq![v] + rest),
            },
        }
    }
}

/// What resolving a module yields.
pub open spec fn rs_module(types: TypesV, m: ModuleV) -> Result<ModuleV, ResolveError>
    decreases m, 1int,
{
    match rs_elems(types, m.elements, 0) {
        Err(e) => Err(e),
        Ok(es) => Ok(ModuleV { name: m.name, elements: es }),
    }
}

/// The modules from position `i` on, resolved in order.
pub open spec fn rs_modules(types: TypesV, ms: Seq<ModuleV>, i: int) -> Result<
    Seq<ModuleV>,
    ResolveError,
>
    decreases ms.len() - i,
{
    if i < 0 || i >= ms.len() {
        Ok(Seq::empty())
    } else {
        match rs_module(types, ms[i]) {
            Err(e) => Err(e),
            Ok(v) => match rs_modules(types, ms, i + 1) {
                Err(e) => Err(e),
                Ok(rest) => Ok(seq![v] + rest),
            },
        }
    }
}

/// What resolving the whole tree yields.
pub open spec fn rs_ast(types: TypesV, a: RustAstV) -> Result<RustAstV, ResolveError> {
    match rs_modules(types, a.defs, 0) {
        Err(e) => Err(e),
        Ok(ds) => Ok(RustAstV { defs: ds }),
    }
}

/// Whether a resolved type holds no by-id reference.
pub open spec fn no_refid_type(t: TypeV) -> bool
    decreases t,
{
    match t {
        TypeV::RefId(_) => false,
        TypeV::List(b) => no_refid_type(*b),
        _ => true,
    }
}

pub proof fn lemma_rs_type_no_refid(types: TypesV, t: TypeV)
    requires
        rs_type(types, t) is Ok,
    ensures
        no_refid_type(rs_type(types, t).unwrap()),
    decreases t,
{
    match t {
        TypeV::List(b) => {
            lemma_rs_type_no_refid(types, *b);
        },
        _ => {},
    }
}


impl Type {
    /// Resolves one type expression.
    pub fn resolve(ctx: &ResolutionContext, n: &Type) -> (r: Result<Type, ResolveError>)
        ensures
            match r {
                Ok(v) => rs_type(ctx@, n@) == Ok::<TypeV, ResolveError>(v@),
                Err(e) => rs_type(ctx@, n@) == Err::<TypeV, ResolveError>(e),
            },
        decreases *n,
    {
        match n {
            Type::RefId(id) => match ctx.types.get(id) {
                Some(names) => {
                    proof {
                        assert(ctx@.contains_key(*id));
                        assert(ctx@[*id] == rnames_views(names@));
                    }
                    let cloned = crate::util::clone_view_vec(names);
                    proof {
                        assert(rnames_views(cloned@) =~= rnames_views(names@));
                    }
                    Ok(Type::RefName(FullyQualifiedName { names: cloned }))
                },
                None => {
                    proof {
                        assert(!ctx@.contains_key(*id));
                    }
                    Err(ResolveError { id: *id })
                },
            },
            Type::List(b) => match Type::resolve(ctx, &**b) {
                Ok(v) => Ok(Type::List(Box::new(v))),
                Err(e) => Err(e),
            },
            Type::Unit => Ok(Type::Unit),
            Type::Bool => Ok(Type::Bool),
            Type::Int8 => Ok(Type::Int8),
            Type::Int16 => Ok(Type::Int16),
            Type::Int32 => Ok(Type::Int32),
            Type::Int64 => Ok(Type::Int64),
            Type::Uint8 => Ok(Type::Uint8),
            Type::Uint16 => Ok(Type::Uint16),
            Type::Uint32 => Ok(Type::Uint32),
            Type::Uint64 => Ok(Type::Uint64),
            Type::Float32 => Ok(Type::Float32),
            Type::Float64 => Ok(Type::Float64),
            Type::String => Ok(Type::String),
            Type::RefName(f) => Ok(Type::RefName(f.clone())),
        }
    }
}

impl Enumerant {
    /// Resolves one enumerant.
    pub fn resolve(ctx: &ResolutionContext, n: &Enumerant) -> (r: Result<Enumerant, ResolveError>)
        ensures
            match r {
                Ok(v) => rs_enumerant(ctx@, n@) == Ok::<EnumerantV, ResolveError>(v@),
                Err(e) => rs_enumerant(ctx@, n@) == Err::<EnumerantV, ResolveError>(e),
            },
    {
        match Type::resolve(ctx, &n.rust_type) {
            Ok(t) => Ok(Enumerant { name: n.name.clone(), rust_type: t }),
            Err(e) => Err(e),
        }
    }
}

impl Field {
    /// Resolves one field.
    pub fn resolve(ctx: &ResolutionContext, n: &Field) -> (r: Result<Field, ResolveError>)
        ensures
            match r {
                Ok(v) => rs_field(ctx@, n@) == Ok::<RFieldV, ResolveError>(v@),
                Err(e) => rs_field(ctx@, n@) == Err::<RFieldV, ResolveError>(e),
            },
    {
        match Type::resolve(ctx, &n.rust_type) {
            Ok(t) => Ok(Field { name: n.name.clone(), rust_type: t }),
            Err(e) => Err(e),
        }
    }
}

impl Enum {
    /// Records this enum's fully-qualified name under its id.
    pub fn build_context(ctx: &mut ResolutionContext, prefix: &FullyQualifiedName, n: &Enum)
        ensures
            final(ctx)@ == old(ctx)@.insert(n.id, prefix@.push(n@.name)),
    {
        let mut names = crate::util::clone_view_vec(&prefix.names);
        names.push(n.name.clone());
        ctx.types.insert(n.id, names);
        proof {
            assert(rnames_views(final(ctx).types@[n.id]@) =~= prefix@.push(n@.name));
            assert(final(ctx)@ =~= old(ctx)@.insert(n.id, prefix@.push(n@.name)));
        }
    }

    /// Resolves every enumerant of this enum.
    #[verifier::loop_isolation(false)]
    pub fn resolve(ctx: &ResolutionContext, n: &Enum) -> (r: Result<Enum, ResolveError>)
        ensures
            match r {
                Ok(v) => rs_enum(ctx@, n@) == Ok::<EnumV, ResolveError>(v@),
                Err(e) => rs_enum(ctx@, n@) == Err::<EnumV, ResolveError>(e),
            },
    {
        let ghost tv = ctx@;
        let ghost esv = enumerants_views(n.enumerants@);
        let mut es: Vec<Enumerant> = Vec::new();
        let mut i: usize = 0;
        proof {
            match rs_enumerants(tv, esv, 0) {
                Ok(rest) => {
                    assert(enumerants_views(es@) + rest =~= rest);
                },
                Err(_) => {},
            }
        }
        while i < n.enumerants.len()
            invariant
                i <= n.enumerants@.len(),
                (match rs_enumerants(tv, esv, i as int) {
                    Ok(rest) => rs_enumerants(tv, esv, 0) == Ok::<Seq<EnumerantV>, ResolveError>(
                        enumerants_views(es@) + rest,
                    ),
                    Err(e) => rs_enumerants(tv, esv, 0) == Err::<Seq<EnumerantV>, ResolveError>(e),
                }),
            decreases n.enumerants@.len() - i,
        {
            let ghost before = enumerants_views(es@);
            match Enumerant::resolve(ctx, &n.enumerants[i]) {
                Err(e) => {
                    return Err(e);
                },
                Ok(v) => {
                    es.push(v);
                    proof {
                        match rs_enumerants(tv, esv, i as int + 1) {
                            Ok(rest) => {
                                let vv = match rs_enumerant(tv, esv[i as int]) {
                                    Ok(vv) => vv,
                                    Err(_) => vstd::pervasive::arbitrary(),
                                };
                                assert(enumerants_views(es@) =~= before.push(vv));
                                assert(before + (seq![vv] + rest) =~= enumerants_views(es@) + rest);
                            },
                            Err(_) => {},
                        }
                    }
                },
            }
            i += 1;
        }
        proof {
            assert(rs_enumerants(tv, esv, n.enumerants@.len() as int) == Ok::<
                Seq<EnumerantV>,
                ResolveError,
            >(Seq::empty()));
            match rs_enumerants(tv, esv, 0) {
                Ok(rest) => {
                    assert(enumerants_views(es@) + Seq::<EnumerantV>::empty() =~= enumerants_views(
                        es@,
                    ));
                },
                Err(_) => {
                    assert(false);
                },
            }
        }
        Ok(
            Enum {
                id: n.id,
                name: n.name.clone(),
                fully_qualified_type_name: n.fully_qualified_type_name.clone(),
                capnp_type_name: n.capnp_type_name.clone(),
                enum_origin: n.enum_origin,
                enumerants: es,
            },
        )
    }
}

impl Struct {
    /// Records this struct's fully-qualified name under its id.
    pub fn build_context(ctx: &mut ResolutionContext, prefix: &FullyQualifiedName, n: &Struct)
        ensures
            final(ctx)@ == old(ctx)@.insert(n.id, prefix@.push(n@.name)),
    {
        let mut names = crate::util::clone_view_vec(&prefix.names);
        names.push(n.name.clone());
        ctx.types.insert(n.id, names);
        proof {
            assert(rnames_views(final(ctx).types@[n.id]@) =~= prefix@.push(n@.name));
            assert(final(ctx)@ =~= old(ctx)@.insert(n.id, prefix@.push(n@.name)));
        }
    }

    /// Resolves every field of this struct.
    #[verifier::loop_isolation(false)]
    pub fn resolve(ctx: &ResolutionContext, n: &Struct) -> (r: Result<Struct, ResolveError>)
        ensures
            match r {
                Ok(v) => rs_struct(ctx@, n@) == Ok::<StructV, ResolveError>(v@),
                Err(e) => rs_struct(ctx@, n@) == Err::<StructV, ResolveError>(e),
            },
    {
        let ghost tv = ctx@;
        let ghost fsv = rfields_views(n.fields@);
        let mut fs: Vec<Field> = Vec::new();
        let mut i: usize = 0;
        proof {
            match rs_fields(tv, fsv, 0) {
                Ok(rest) => {
                    assert(rfields_views(fs@) + rest =~= rest);
                },
                Err(_) => {},
            }
        }
        while i < n.fields.len()
            invariant
                i <= n.fields@.len(),
                (match rs_fields(tv, fsv, i as int) {
                    Ok(rest) => rs_fields(tv, fsv, 0) == Ok::<Seq<RFieldV>, ResolveError>(
                        rfields_views(fs@) + rest,
                    ),
                    Err(e) => rs_fields(tv, fsv, 0) == Err::<Seq<RFieldV>, ResolveError>(e),
                }),
            decreases n.fields@.len() - i,
        {
            let ghost before = rfields_views(fs@);
            match Field::resolve(ctx, &n.fields[i]) {
                Err(e) => {
                    return Err(e);
                },
                Ok(v) => {
                    fs.push(v);
                    proof {
                        match rs_fields(tv, fsv, i as int + 1) {
                            Ok(rest) => {
                                let vv = match rs_field(tv, fsv[i as int]) {
                                    Ok(vv) => vv,
                                    Err(_) => vstd::pervasive::arbitrary(),
                                };
                                assert(rfields_views(fs@) =~= before.push(vv));
                                assert(before + (seq![vv] + rest) =~= rfields_views(fs@) + rest);
                            },
                            Err(_) => {},
                        }
                    }
                },
            }
            i += 1;
        }
        proof {
            assert(rs_fields(tv, fsv, n.fields@.len() as int) == Ok::<Seq<RFieldV>, ResolveError>(
                Seq::empty(),
            ));
            match rs_fields(tv, fsv, 0) {
                Ok(rest) => {
                    assert(rfields_views(fs@) + Seq::<RFieldV>::empty() =~= rfields_views(fs@));
                },
                Err(_) => {
                    assert(false);
                },
            }
        }
        Ok(
            Struct {
                id: n.id,
                name: n.name.clone(),
                fully_qualified_type_name: n.fully_qualified_type_name.clone(),
                capnp_type_name: n.capnp_type_name.clone(),
                fields: fs,
            },
        )
    }
}

impl TypeDef {
    /// Records this definition's fully-qualified name; only type
    /// definitions can affect the resolution context.
    pub fn build_context(ctx: &mut ResolutionContext, prefix: &FullyQualifiedName, n: &TypeDef)
        ensures
            final(ctx)@ == bc_typedef(old(ctx)@, prefix@, n@),
    {
        match n {
            TypeDef::Enum(e) => Enum::build_context(ctx, prefix, e),
            TypeDef::Struct(s) => Struct::build_context(ctx, prefix, s),
        }
    }

    /// Resolves one type definition.
    pub fn resolve(ctx: &ResolutionContext, n: &TypeDef) -> (r: Result<TypeDef, ResolveError>)
        ensures
            match r {
                Ok(v) => rs_typedef(ctx@, n@) == Ok::<TypeDefV, ResolveError>(v@),
                Err(e) => rs_typedef(ctx@, n@) == Err::<TypeDefV, ResolveError>(e),
            },
    {
        match n {
            TypeDef::Enum(e) => match Enum::resolve(ctx, e) {
                Ok(v) => Ok(TypeDef::Enum(v)),
                Err(err) => Err(err),
            },
            TypeDef::Struct(s) => match Struct::resolve(ctx, s) {
                Ok(v) => Ok(TypeDef::Struct(v)),
                Err(err) => Err(err),
            },
        }
    }
}


impl ModuleElement {
    /// Records the definitions this element contributes.
    pub fn build_context(ctx: &mut ResolutionContext, prefix: &FullyQualifiedName, n: &ModuleElement)
        ensures
            final(ctx)@ == (match n@ {
                ModuleElementV::TypeDef(d) => bc_typedef(old(ctx)@, prefix@, d),
                ModuleElementV::Module(m) => bc_module(old(ctx)@, prefix@, m),
                _ => old(ctx)@,
            }),
        decreases *n,
    {
        match n {
            ModuleElement::TypeDef(d) => TypeDef::build_context(ctx, prefix, d),
            ModuleElement::Module(m) => Module::build_context(ctx, prefix, m),
            _ => {},
        }
    }

    /// Resolves one module element.
    pub fn resolve(ctx: &ResolutionContext, n: &ModuleElement) -> (r: Result<
        ModuleElement,
        ResolveError,
    >)
        ensures
            match r {
                Ok(v) => rs_elem(ctx@, n@) == Ok::<ModuleElementV, ResolveError>(v@),
                Err(e) => rs_elem(ctx@, n@) == Err::<ModuleElementV, ResolveError>(e),
            },
        decreases *n,
    {
        match n {
            ModuleElement::TypeDef(d) => match TypeDef::resolve(ctx, d) {
                Ok(v) => Ok(ModuleElement::TypeDef(v)),
                Err(e) => Err(e),
            },
            ModuleElement::Module(m) => match Module::resolve(ctx, m) {
                Ok(v) => Ok(ModuleElement::Module(v)),
                Err(e) => Err(e),
            },
            other => {
                let c = other.clone();
                proof {
                    assert(rs_elem(ctx@, n@) == Ok::<ModuleElementV, ResolveError>(c@));
                }
                Ok(c)
            },
        }
    }
}

impl Module {
    /// Records every definition of this module, under the prefix extended
    /// by the module's own name.
    #[verifier::loop_isolation(false)]
    pub fn build_context(ctx: &mut ResolutionContext, prefix: &FullyQualifiedName, n: &Module)
        ensures
            final(ctx)@ == bc_module(old(ctx)@, prefix@, n@),
        decreases *n,
    {
        let subprefix = prefix.with(&n.name);
        let ghost types0 = ctx@;
        let ghost ev = elems_views(n.elements, 0);
        proof {
            lemma_elems_views_index(n.elements, 0);
        }
        let mut i: usize = 0;
        while i < n.elements.len()
            invariant
                i <= n.elements@.len(),
                bc_elems(ctx@, subprefix@, ev, i as int) == bc_elems(types0, subprefix@, ev, 0),
            decreases n.elements@.len() - i,
        {
            proof {
                assert(decreases_to!(*n => n.elements));
                assert(decreases_to!(n.elements => n.elements@[i as int]));
                assert(ev[i as int] == n.elements@[i as int]@);
            }
            ModuleElement::build_context(ctx, &subprefix, &n.elements[i]);
            i += 1;
        }
        proof {
            assert(bc_elems(ctx@, subprefix@, ev, ev.len() as int) == ctx@);
        }
    }

    /// Resolves every element of this module.
    #[verifier::loop_isolation(false)]
    pub fn resolve(ctx: &ResolutionContext, n: &Module) -> (r: Result<Module, ResolveError>)
        ensures
            match r {
                Ok(v) => rs_module(ctx@, n@) == Ok::<ModuleV, ResolveError>(v@),
                Err(e) => rs_module(ctx@, n@) == Err::<ModuleV, ResolveError>(e),
            },
        decreases *n,
    {
        let ghost tv = ctx@;
        let ghost ev = elems_views(n.elements, 0);
        proof {
            lemma_elems_views_index(n.elements, 0);
        }
        let mut es: Vec<ModuleElement> = Vec::new();
        let mut i: usize = 0;
        proof {
            match rs_elems(tv, ev, 0) {
                Ok(rest) => {
                    assert(crate::rust_gen::translate::elem_list_views(es@) + rest =~= rest);
                },
                Err(_) => {},
            }
        }
        while i < n.elements.len()
            invariant
                i <= n.elements@.len(),
                (match rs_elems(tv, ev, i as int) {
                    Ok(rest) => rs_elems(tv, ev, 0) == Ok::<Seq<ModuleElementV>, ResolveError>(
                        crate::rust_gen::translate::elem_list_views(es@) + rest,
                    ),
                    Err(e) => rs_elems(tv, ev, 0) == Err::<Seq<ModuleElementV>, ResolveError>(e),
                }),
            decreases n.elements@.len() - i,
        {
            proof {
                assert(decreases_to!(*n => n.elements));
                assert(decreases_to!(n.elements => n.elements@[i as int]));
                assert(ev[i as int] == n.elements@[i as int]@);
            }
            let ghost before = crate::rust_gen::translate::elem_list_views(es@);
            match ModuleElement::resolve(ctx, &n.elements[i]) {
                Err(e) => {
                    return Err(e);
                },
                Ok(v) => {
                    es.push(v);
                    proof {
                        match rs_elems(tv, ev, i as int + 1) {
                            Ok(rest) => {
                                let vv = match rs_elem(tv, ev[i as int]) {
                                    Ok(vv) => vv,
                                    Err(_) => vstd::pervasive::arbitrary(),
                                };
                                assert(crate::rust_gen::translate::elem_list_views(es@)
                                    =~= before.push(vv));
                                assert(before + (seq![vv] + rest)
                                    =~= crate::rust_gen::translate::elem_list_views(es@) + rest);
                            },
                            Err(_) => {},
                        }
                    }
                },
            }
            i += 1;
        }
        proof {
            assert(rs_elems(tv, ev, ev.len() as int) == Ok::<Seq<ModuleElementV>, ResolveError>(
                Seq::empty(),
            ));
            match rs_elems(tv, ev, 0) {
                Ok(rest) => {
                    assert(crate::rust_gen::translate::elem_list_views(es@)
                        + Seq::<ModuleElementV>::empty()
                        =~= crate::rust_gen::translate::elem_list_views(es@));
                },
                Err(_) => {
                    assert(false);
                },
            }
        }
        let r = Module { name: n.name.clone(), elements: es };
        proof {
            lemma_elems_views_index(r.elements, 0);
            assert(elems_views(r.elements, 0) =~= crate::rust_gen::translate::elem_list_views(
                r.elements@,
            ));
        }
        Ok(r)
    }
}

impl RustAst {
    /// Records every definition of the whole tree; every definition is
    /// visited before any reference is rewritten.
    #[verifier::loop_isolation(false)]
    pub fn build_context(ctx: &mut ResolutionContext, n: &RustAst)
        ensures
            final(ctx)@ == bc_ast(old(ctx)@, n@.defs, 0),
    {
        let ghost types0 = ctx@;
        let ghost dv = modules_views(n.defs@);
        let empty_prefix = FullyQualifiedName { names: Vec::new() };
        proof {
            assert(empty_prefix@ =~= Seq::<crate::rust_gen::ast::NameTokens>::empty());
        }
        let mut i: usize = 0;
        while i < n.defs.len()
            invariant
                i <= n.defs@.len(),
                empty_prefix@ == Seq::<crate::rust_gen::ast::NameTokens>::empty(),
                bc_ast(ctx@, dv, i as int) == bc_ast(types0, dv, 0),
            decreases n.defs@.len() - i,
        {
            Module::build_context(ctx, &empty_prefix, &n.defs[i]);
            i += 1;
        }
        proof {
            assert(bc_ast(ctx@, dv, dv.len() as int) == ctx@);
        }
    }

    /// Resolves every module of the tree.
    #[verifier::loop_isolation(false)]
    pub fn resolve(ctx: &ResolutionContext, n: &RustAst) -> (r: Result<RustAst, ResolveError>)
        ensures
            match r {
                Ok(v) => rs_ast(ctx@, n@) == Ok::<RustAstV, ResolveError>(v@),
                Err(e) => rs_ast(ctx@, n@) == Err::<RustAstV, ResolveError>(e),
            },
    {
        let ghost tv = ctx@;
        let ghost dv = modules_views(n.defs@);
        let mut ds: Vec<Module> = Vec::new();
        let mut i: usize = 0;
        proof {
            match rs_modules(tv, dv, 0) {
                Ok(rest) => {
                    assert(modules_views(ds@) + rest =~= rest);
                },
                Err(_) => {},
            }
        }
        while i < n.defs.len()
            invariant
                i <= n.defs@.len(),
                (match rs_modules(tv, dv, i as int) {
                    Ok(rest) => rs_modules(tv, dv, 0) == Ok::<Seq<ModuleV>, ResolveError>(
                        modules_views(ds@) + rest,
                    ),
                    Err(e) => rs_modules(tv, dv, 0) == Err::<Seq<ModuleV>, ResolveError>(e),
                }),
            decreases n.defs@.len() - i,
        {
            let ghost before = modules_views(ds@);
            match Module::resolve(ctx, &n.defs[i]) {
                Err(e) => {
                    return Err(e);
                },
                Ok(v) => {
                    ds.push(v);
                    proof {
                        match rs_modules(tv, dv, i as int + 1) {
                            Ok(rest) => {
                                let vv = match rs_module(tv, dv[i as int]) {
                                    Ok(vv) => vv,
                                    Err(_) => vstd::pervasive::arbitrary(),
                                };
                                assert(modules_views(ds@) =~= before.push(vv));
                                assert(before + (seq![vv] + rest) =~= modules_views(ds@) + rest);
                            },
                            Err(_) => {},
                        }
                    }
                },
            }
            i += 1;
        }
        proof {
            assert(rs_modules(tv, dv, dv.len() as int) == Ok::<Seq<ModuleV>, ResolveError>(
                Seq::empty(),
            ));
            match rs_modules(tv, dv, 0) {
                Ok(rest) => {
                    assert(modules_views(ds@) + Seq::<ModuleV>::empty() =~= modules_views(ds@));
                },
                Err(_) => {
                    assert(false);
                },
            }
        }
        Ok(RustAst { defs: ds })
    }
}

/// Whether an enumerant holds no by-id reference.
pub open spec fn no_refid_enumerant(e: EnumerantV) -> bool {
    no_refid_type(e.rust_type)
}

/// Whether a field holds no by-id reference.
pub open spec fn no_refid_field(f: RFieldV) -> bool {
    no_refid_type(f.rust_type)
}

/// Whether a type definition holds no by-id reference.
pub open spec fn no_refid_typedef(d: TypeDefV) -> bool {
    match d {
        TypeDefV::Enum(e) => forall|j: int|
            0 <= j < e.enumerants.len() ==> no_refid_enumerant(#[trigger] e.enumerants[j]),
        TypeDefV::Struct(s) => forall|j: int|
            0 <= j < s.fields.len() ==> no_refid_field(#[trigger] s.fields[j]),
    }
}

/// Whether a module element holds no reachable by-id reference.
pub open spec fn no_refid_elem(e: ModuleElementV) -> bool
    decreases e, 0int,
{
    match e {
        ModuleElementV::TypeDef(d) => no_refid_typedef(d),
        ModuleElementV::Module(m) => no_refid_module(m),
        _ => true,
    }
}

/// Whether a module holds no reachable by-id reference.
pub open spec fn no_refid_module(m: ModuleV) -> bool
    decreases m, 1int,
{
    forall|j: int| 0 <= j < m.elements.len() ==> no_refid_elem(#[trigger] m.elements[j])
}

/// Whether the whole tree holds no reachable by-id reference.
pub open spec fn no_refid_ast(a: RustAstV) -> bool {
    forall|j: int| 0 <= j < a.defs.len() ==> no_refid_module(#[trigger] a.defs[j])
}

pub proof fn lemma_rs_enumerants_no_refid(types: TypesV, es: Seq<EnumerantV>, i: int)
    requires
        0 <= i,
        rs_enumerants(types, es, i) is Ok,
    ensures
        forall|j: int|
            0 <= j < rs_enumerants(types, es, i).unwrap().len() ==> no_refid_enumerant(
                #[trigger] rs_enumerants(types, es, i).unwrap()[j],
            ),
    decreases es.len() - i,
{
    if i < es.len() {
        lemma_rs_enumerants_no_refid(types, es, i + 1);
        let v = rs_enumerant(types, es[i]).unwrap();
        lemma_rs_type_no_refid(types, es[i].rust_type);
        let rest = rs_enumerants(types, es, i + 1).unwrap();
        assert forall|j: int|
            0 <= j < rs_enumerants(types, es, i).unwrap().len() implies no_refid_enumerant(
            #[trigger] rs_enumerants(types, es, i).unwrap()[j],
        ) by {
            if j == 0 {
                assert(rs_enumerants(types, es, i).unwrap()[0] == v);
            } else {
                assert(rs_enumerants(types, es, i).unwrap()[j] == rest[j - 1]);
            }
        }
    }
}

pub proof fn lemma_rs_fields_no_refid(types: TypesV, fs: Seq<RFieldV>, i: int)
    requires
        0 <= i,
        rs_fields(types, fs, i) is Ok,
    ensures
        forall|j: int|
            0 <= j < rs_fields(types, fs, i).unwrap().len() ==> no_refid_field(
                #[trigger] rs_fields(types, fs, i).unwrap()[j],
            ),
    decreases fs.len() - i,
{
    if i < fs.len() {
        lemma_rs_fields_no_refid(types, fs, i + 1);
        let v = rs_field(types, fs[i]).unwrap();
        lemma_rs_type_no_refid(types, fs[i].rust_type);
        let rest = rs_fields(types, fs, i + 1).unwrap();
        assert forall|j: int|
            0 <= j < rs_fields(types, fs, i).unwrap().len() implies no_refid_field(
            #[trigger] rs_fields(types, fs, i).unwrap()[j],
        ) by {
            if j == 0 {
                assert(rs_fields(types, fs, i).unwrap()[0] == v);
            } else {
                assert(rs_fields(types, fs, i).unwrap()[j] == rest[j - 1]);
            }
        }
    }
}

pub proof fn lemma_rs_typedef_no_refid(types: TypesV, d: TypeDefV)
    requires
        rs_typedef(types, d) is Ok,
    ensures
        no_refid_typedef(rs_typedef(types, d).unwrap()),
{
    match d {
        TypeDefV::Enum(e) => {
            lemma_rs_enumerants_no_refid(types, e.enumerants, 0);
        },
        TypeDefV::Struct(s) => {
            lemma_rs_fields_no_refid(types, s.fields, 0);
        },
    }
}

pub proof fn lemma_rs_elems_no_refid(types: TypesV, elems: Seq<ModuleElementV>, i: int)
    requires
        0 <= i,
        rs_elems(types, elems, i) is Ok,
    ensures
        forall|j: int|
            0 <= j < rs_elems(types, elems, i).unwrap().len() ==> no_refid_elem(
                #[trigger] rs_elems(types, elems, i).unwrap()[j],
            ),
    decreases elems, elems.len() - i + 1,
{
    if 0 <= i < elems.len() {
        lemma_rs_elems_no_refid(types, elems, i + 1);
        let v = rs_elem(types, elems[i]).unwrap();
        assert(no_refid_elem(v)) by {
            match elems[i] {
                ModuleElementV::TypeDef(d) => {
                    lemma_rs_typedef_no_refid(types, d);
                },
                ModuleElementV::Module(m) => {
                    lemma_rs_module_no_refid(types, m);
                },
                _ => {},
            }
        }
        let rest = rs_elems(types, elems, i + 1).unwrap();
        assert forall|j: int|
            0 <= j < rs_elems(types, elems, i).unwrap().len() implies no_refid_elem(
            #[trigger] rs_elems(types, elems, i).unwrap()[j],
        ) by {
            if j == 0 {
                assert(rs_elems(types, elems, i).unwrap()[0] == v);
            } else {
                assert(rs_elems(types, elems, i).unwrap()[j] == rest[j - 1]);
            }
        }
    }
}

pub proof fn lemma_rs_module_no_refid(types: TypesV, m: ModuleV)
    requires
        rs_module(types, m) is Ok,
    ensures
        no_refid_module(rs_module(types, m).unwrap()),
    decreases m, 2int,
{
    lemma_rs_elems_no_refid(types, m.elements, 0);
}

/// Resolution completeness: a resolution that succeeds leaves no by-id
/// reference reachable anywhere in the tree; a dangling reference never
/// survives into a successful run.
pub proof fn lemma_resolution_completeness(types: TypesV, a: RustAstV)
    requires
        rs_ast(types, a) is Ok,
    ensures
        no_refid_ast(rs_ast(types, a).unwrap()),
{
    lemma_rs_modules_no_refid(types, a.defs, 0);
}

pub proof fn lemma_rs_modules_no_refid(types: TypesV, ms: Seq<ModuleV>, i: int)
    requires
        0 <= i,
        rs_modules(types, ms, i) is Ok,
    ensures
        forall|j: int|
            0 <= j < rs_modules(types, ms, i).unwrap().len() ==> no_refid_module(
                #[trigger] rs_modules(types, ms, i).unwrap()[j],
            ),
    decreases ms.len() - i,
{
    if i < ms.len() {
        lemma_rs_modules_no_refid(types, ms, i + 1);
        let v = rs_module(types, ms[i]).unwrap();
        lemma_rs_module_no_refid(types, ms[i]);
        let rest = rs_modules(types, ms, i + 1).unwrap();
        assert forall|j: int|
            0 <= j < rs_modules(types, ms, i).unwrap().len() implies no_refid_module(
            #[trigger] rs_modules(types, ms, i).unwrap()[j],
        ) by {
            if j == 0 {
                assert(rs_modules(types, ms, i).unwrap()[0] == v);
            } else {
                assert(rs_modules(types, ms, i).unwrap()[j] == rest[j - 1]);
            }
        }
    }
}


/// The bindings one definition contributes on its own, under `prefix`.
pub open spec fn bindings_typedef(prefix: FqnV, d: TypeDefV) -> TypesV {
    bc_typedef(Map::empty(), prefix, d)
}

/// The bindings the elements from position `i` on contribute on their
/// own: every type definition's id, mapped to its enclosing module chain
/// plus the definition's own name; a later binding for a repeated id
/// wins, as in the recording pass itself.
pub open spec fn bindings_elems(prefix: FqnV, elems: Seq<ModuleElementV>, i: int) -> TypesV
    decreases elems, elems.len() - i + 1,
{
    if i < 0 || i >= elems.len() {
        Map::empty()
    } else {
        let head = match elems[i] {
            ModuleElementV::TypeDef(d) => bindings_typedef(prefix, d),
            ModuleElementV::Module(m) => bindings_module(prefix, m),
            _ => Map::empty(),
        };
        head.union_prefer_right(bindings_elems(prefix, elems, i + 1))
    }
}

/// The bindings a module contributes on its own: those of its elements,
/// one name deeper.
pub open spec fn bindings_module(prefix: FqnV, m: ModuleV) -> TypesV
    decreases m, 0int,
{
    bindings_elems(prefix.push(m.name), m.elements, 0)
}

pub proof fn lemma_bc_elems_exact(types: TypesV, prefix: FqnV, elems: Seq<ModuleElementV>, i: int)
    ensures
        bc_elems(types, prefix, elems, i) == types.union_prefer_right(
            bindings_elems(prefix, elems, i),
        ),
    decreases elems, elems.len() - i + 1,
{
    if i < 0 || i >= elems.len() {
        assert(bc_elems(types, prefix, elems, i) =~= types.union_prefer_right(
            bindings_elems(prefix, elems, i),
        ));
    } else {
        let head = match elems[i] {
            ModuleElementV::TypeDef(d) => bindings_typedef(prefix, d),
            ModuleElementV::Module(m) => bindings_module(prefix, m),
            _ => Map::<u64, FqnV>::empty(),
        };
        let types1 = match elems[i] {
            ModuleElementV::TypeDef(d) => bc_typedef(types, prefix, d),
            ModuleElementV::Module(m) => bc_module(types, prefix, m),
            _ => types,
        };
        match elems[i] {
            ModuleElementV::TypeDef(d) => {
                assert(types1 =~= types.union_prefer_right(head));
            },
            ModuleElementV::Module(m) => {
                lemma_bc_module_exact(types, prefix, m);
            },
            _ => {
                assert(types1 =~= types.union_prefer_right(head));
            },
        }
        lemma_bc_elems_exact(types1, prefix, elems, i + 1);
        assert(types.union_prefer_right(head).union_prefer_right(
            bindings_elems(prefix, elems, i + 1),
        ) =~= types.union_prefer_right(
            head.union_prefer_right(bindings_elems(prefix, elems, i + 1)),
        ));
    }
}

/// Context building is exact: recording a module under `prefix` yields
/// the old context overridden by precisely the module's own bindings —
/// each nested definition's id mapped to the full module chain plus the
/// definition's own name, as `bindings_module` spells out — and an id
/// with no definition under the module keeps whatever the old context
/// said of it.
pub proof fn lemma_bc_module_exact(types: TypesV, prefix: FqnV, m: ModuleV)
    ensures
        bc_module(types, prefix, m) == types.union_prefer_right(bindings_module(prefix, m)),
        forall|k: u64|
            !bindings_module(prefix, m).contains_key(k) ==> (#[trigger] bc_module(
                types,
                prefix,
                m,
            ).contains_key(k) == types.contains_key(k) && (types.contains_key(k) ==> bc_module(
                types,
                prefix,
                m,
            )[k] == types[k])),
    decreases m, 1int,
{
    lemma_bc_elems_exact(types, prefix.push(m.name), m.elements, 0);
}

/// Context building over the whole tree is exact in the same way: the
/// modules' own bindings, later trees overriding earlier ones on a
/// repeated id, and nothing else.
pub open spec fn bindings_ast(ms: Seq<ModuleV>, i: int) -> TypesV
    decreases ms.len() - i,
{
    if i < 0 || i >= ms.len() {
        Map::empty()
    } else {
        bindings_module(Seq::empty(), ms[i]).union_prefer_right(bindings_ast(ms, i + 1))
    }
}

pub proof fn lemma_bc_ast_exact(types: TypesV, ms: Seq<ModuleV>, i: int)
    ensures
        bc_ast(types, ms, i) == types.union_prefer_right(bindings_ast(ms, i)),
    decreases ms.len() - i,
{
    if i < 0 || i >= ms.len() {
        assert(bc_ast(types, ms, i) =~= types.union_prefer_right(bindings_ast(ms, i)));
    } else {
        lemma_bc_module_exact(types, Seq::empty(), ms[i]);
        lemma_bc_ast_exact(bc_module(types, Seq::empty(), ms[i]), ms, i + 1);
        assert(types.union_prefer_right(bindings_module(Seq::empty(), ms[i])).union_prefer_right(
            bindings_ast(ms, i + 1),
        ) =~= types.union_prefer_right(
            bindings_module(Seq::empty(), ms[i]).union_prefer_right(bindings_ast(ms, i + 1)),
        ));
    }
}

} // verus!
