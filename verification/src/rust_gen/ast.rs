//! The Rust target AST: names, fully-qualified names, type expressions,
//! struct and enum definitions, modules and the whole translated tree.

use vstd::prelude::*;
use crate::strutil::{
    chars_string, check_reserved_seq, join_chars, join_seq, lower_seq, name_tokens_spec, seq_views,
    str_chars, strs_views, upper_chars,
};
use crate::util::clone_value_vec;

verus! {

pub type Id = u64;

/// The model of a name: its word tokens, as character sequences.
pub type NameTokens = Seq<Seq<char>>;

/// The views of a sequence of strings.
pub open spec fn tokens_views(ts: Seq<String>) -> NameTokens {
    ts.map_values(|t: String| t@)
}

/// A case-neutral identifier: an ordered sequence of word tokens.
#[derive(Debug, PartialEq)]
pub struct Name {
    pub tokens: Vec<String>,
}

impl View for Name {
    type V = NameTokens;

    open spec fn view(&self) -> NameTokens {
        tokens_views(self.tokens@)
    }
}

impl Clone for Name {
    fn clone(&self) -> (r: Self)
        ensures
            r@ == self@,
    {
        let r = Name { tokens: clone_value_vec(&self.tokens) };
        proof {
            assert(tokens_views(r.tokens@) =~= tokens_views(self.tokens@));
        }
        r
    }
}

/// A single token capitalized: first character uppercased, rest lowercased.
pub open spec fn cap_token(t: Seq<char>) -> Seq<char> {
    if t.len() == 0 {
        Seq::empty()
    } else {
        upper_chars(t[0]) + lower_seq(t.skip(1))
    }
}

/// Every token lowercased.
pub open spec fn lowered(tokens: NameTokens) -> NameTokens {
    tokens.map_values(|t: Seq<char>| lower_seq(t))
}

/// Every token capitalized.
pub open spec fn capped(tokens: NameTokens) -> NameTokens {
    tokens.map_values(|t: Seq<char>| cap_token(t))
}

/// The snake_case rendering of a name.
pub open spec fn snake_of(tokens: NameTokens, reserved: Seq<Seq<char>>) -> Seq<char> {
    check_reserved_seq(join_seq(lowered(tokens), seq!['_']), reserved)
}

/// The CamelCase rendering of a name.
pub open spec fn camel_of(tokens: NameTokens, reserved: Seq<Seq<char>>) -> Seq<char> {
    check_reserved_seq(join_seq(capped(tokens), Seq::empty()), reserved)
}

impl Name {
    /// Splits `name` into word tokens: sanitizes path and plus characters,
    /// then starts a new token wherever an uppercase character follows a
    /// lowercase one.
    pub fn from(name: &str) -> (r: Name)
        ensures
            r@ == name_tokens_spec(name@),
    {
        let sanitized = crate::strutil::sanitize_chars(&str_chars(name));
        Name::from_chars(&sanitized)
    }

    /// Splits an already sanitized character vector into a name.
    pub fn from_chars(v: &Vec<char>) -> (r: Name)
        ensures
            r@ == crate::strutil::tokenize_spec(v@, 0, Seq::empty(), false),
    {
        let toks = crate::strutil::tokenize_chars(v);
        let mut tokens: Vec<String> = Vec::new();
        let mut i: usize = 0;
        while i < toks.len()
            invariant
                i <= toks.len(),
                tokens@.len() == i,
                forall|j: int| 0 <= j < i ==> tokens@[j]@ == toks@[j]@,
            decreases toks.len() - i,
        {
            let t = chars_string(&toks[i]);
            tokens.push(t);
            i += 1;
        }
        proof {
            assert(tokens_views(tokens@) =~= seq_views(toks@));
        }
        Name { tokens }
    }

    /// Appends an underscore when the rendered string is a reserved word.
    pub fn check_reserved(s: String, reserved: &[&str]) -> (r: String)
        ensures
            r@ == check_reserved_seq(s@, strs_views(reserved@)),
    {
        let sc = str_chars(s.as_str());
        let mut i: usize = 0;
        while i < reserved.len()
            invariant
                i <= reserved@.len(),
                sc@ == s@,
                forall|j: int| 0 <= j < i ==> strs_views(reserved@)[j] != s@,
            decreases reserved@.len() - i,
        {
            let rc = str_chars(reserved[i]);
            if crate::strutil::char_vecs_eq(&sc, &rc) {
                proof {
                    assert(strs_views(reserved@)[i as int] == s@);
                    assert(strs_views(reserved@).contains(s@));
                }
                let mut out = sc;
                out.push('_');
                return chars_string(&out);
            }
            i += 1;
        }
        proof {
            assert(strs_views(reserved@).len() == reserved@.len());
            assert(!strs_views(reserved@).contains(s@));
        }
        s
    }

    /// Renders the tokens in snake_case.
    pub fn to_snake_case(&self, reserved: &[&str]) -> (r: String)
        ensures
            r@ == snake_of(self@, strs_views(reserved@)),
    {
        let mut parts: Vec<Vec<char>> = Vec::new();
        let mut i: usize = 0;
        while i < self.tokens.len()
            invariant
                i <= self.tokens.len(),
                parts@.len() == i,
                forall|j: int| 0 <= j < i ==> parts@[j]@ == lower_seq(self.tokens@[j]@),
            decreases self.tokens.len() - i,
        {
            let tc = str_chars(self.tokens[i].as_str());
            let low = crate::strutil::lower_vec(&tc);
            parts.push(low);
            i += 1;
        }
        proof {
            assert(seq_views(parts@) =~= lowered(self@));
        }
        let mut sep: Vec<char> = Vec::new();
        sep.push('_');
        let joined = join_chars(&parts, &sep);
        Name::check_reserved(chars_string(&joined), reserved)
    }

    /// Renders the tokens in CamelCase.
    pub fn to_camel_case(&self, reserved: &[&str]) -> (r: String)
        ensures
            r@ == camel_of(self@, strs_views(reserved@)),
    {
        let mut parts: Vec<Vec<char>> = Vec::new();
        let mut i: usize = 0;
        while i < self.tokens.len()
            invariant
                i <= self.tokens.len(),
                parts@.len() == i,
                forall|j: int| 0 <= j < i ==> parts@[j]@ == cap_token(self.tokens@[j]@),
            decreases self.tokens.len() - i,
        {
            let tc = str_chars(self.tokens[i].as_str());
            let capped_tok = Name::capitalize(&tc);
            parts.push(capped_tok);
            i += 1;
        }
        proof {
            assert(seq_views(parts@) =~= capped(self@));
        }
        let sep: Vec<char> = Vec::new();
        let joined = join_chars(&parts, &sep);
        Name::check_reserved(chars_string(&joined), reserved)
    }

    /// Capitalizes one token.
    fn capitalize(t: &Vec<char>) -> (r: Vec<char>)
        ensures
            r@ == cap_token(t@),
    {
        if t.len() == 0 {
            let r: Vec<char> = Vec::new();
            return r;
        }
        let mut r = crate::strutil::upper_char(t[0]);
        let mut rest: Vec<char> = Vec::new();
        let mut i: usize = 1;
        while i < t.len()
            invariant
                1 <= i <= t.len(),
                t@.len() >= 1,
                rest@ =~= t@.subrange(1, i as int),
            decreases t.len() - i,
        {
            rest.push(t[i]);
            i += 1;
        }
        proof {
            assert(rest@ =~= t@.skip(1));
        }
        let mut low = crate::strutil::lower_vec(&rest);
        r.append(&mut low);
        r
    }
}

/// The model of a fully-qualified name: the token lists of its names.
pub type FqnV = Seq<NameTokens>;

/// The views of a sequence of names.
pub open spec fn rnames_views(ns: Seq<Name>) -> FqnV {
    ns.map_values(|n: Name| n@)
}

/// A path of names from the compilation root to a definition.
#[derive(Debug, PartialEq)]
pub struct FullyQualifiedName {
    pub names: Vec<Name>,
}

impl View for FullyQualifiedName {
    type V = FqnV;

    open spec fn view(&self) -> FqnV {
        rnames_views(self.names@)
    }
}

impl Clone for FullyQualifiedName {
    fn clone(&self) -> (r: Self)
        ensures
            r@ == self@,
    {
        let names = crate::util::clone_view_vec(&self.names);
        proof {
            assert(rnames_views(names@) =~= rnames_views(self.names@));
        }
        FullyQualifiedName { names }
    }
}

impl FullyQualifiedName {
    /// This path extended by one more name.
    pub fn with(&self, subname: &Name) -> (r: FullyQualifiedName)
        ensures
            r@ == self@.push(subname@),
    {
        let mut names = crate::util::clone_view_vec(&self.names);
        names.push(subname.clone());
        let r = FullyQualifiedName { names };
        proof {
            assert(r@ =~= self@.push(subname@));
        }
        r
    }
}

/// Where a target enum came from: a schema enum, a fully discriminated
/// struct, or the synthesized companion of a partial union.
#[derive(Clone, Copy, Debug, PartialEq, Eq, Structural)]
pub enum EnumOrigin {
    Enum,
    Struct,
    WhichForPartialUnion,
}

/// The model of a Rust type expression.
pub enum TypeV {
    Unit,
    Bool,
    Int8,
    Int16,
    Int32,
    Int64,
    Uint8,
    Uint16,
    Uint32,
    Uint64,
    Float32,
    Float64,
    String,
    List(Box<TypeV>),
    RefId(Id),
    RefName(FqnV),
}

/// A Rust type expression; `RefId` is an unresolved reference to another
/// definition by schema node id, `RefName` its resolved form.
#[derive(Debug, PartialEq)]
pub enum Type {
    Unit,
    Bool,
    Int8,
    Int16,
    Int32,
    Int64,
    Uint8,
    Uint16,
    Uint32,
    Uint64,
    Float32,
    Float64,
    String,
    List(Box<Type>),
    RefId(Id),
    RefName(FullyQualifiedName),
}

impl View for Type {
    type V = TypeV;

    open spec fn view(&self) -> TypeV
        decreases self,
    {
        match self {
            Type::Unit => TypeV::Unit,
            Type::Bool => TypeV::Bool,
            Type::Int8 => TypeV::Int8,
            Type::Int16 => TypeV::Int16,
            Type::Int32 => TypeV::Int32,
            Type::Int64 => TypeV::Int64,
            Type::Uint8 => TypeV::Uint8,
            Type::Uint16 => TypeV::Uint16,
            Type::Uint32 => TypeV::Uint32,
            Type::Uint64 => TypeV::Uint64,
            Type::Float32 => TypeV::Float32,
            Type::Float64 => TypeV::Float64,
            Type::String => TypeV::String,
            Type::List(t) => TypeV::List(Box::new((**t)@)),
            Type::RefId(id) => TypeV::RefId(*id),
            Type::RefName(f) => TypeV::RefName(f@),
        }
    }
}

impl Clone for Type {
    fn clone(&self) -> (r: Self)
        ensures
            r@ == self@,
        decreases *self,
    {
        match self {
            Type::Unit => Type::Unit,
            Type::Bool => Type::Bool,
            Type::Int8 => Type::Int8,
            Type::Int16 => Type::Int16,
            Type::Int32 => Type::Int32,
            Type::Int64 => Type::Int64,
            Type::Uint8 => Type::Uint8,
            Type::Uint16 => Type::Uint16,
            Type::Uint32 => Type::Uint32,
            Type::Uint64 => Type::Uint64,
            Type::Float32 => Type::Float32,
            Type::Float64 => Type::Float64,
            Type::String => Type::String,
            Type::List(t) => Type::List(Box::new((**t).clone())),
            Type::RefId(id) => Type::RefId(*id),
            Type::RefName(f) => Type::RefName(f.clone()),
        }
    }
}

/// Whether a type maps to a plain copyable target value.
pub open spec fn is_primitive_spec(t: TypeV) -> bool {
    match t {
        TypeV::Unit => true,
        TypeV::Bool => true,
        TypeV::Int8 => true,
        TypeV::Int16 => true,
        TypeV::Int32 => true,
        TypeV::Int64 => true,
        TypeV::Uint8 => true,
        TypeV::Uint16 => true,
        TypeV::Uint32 => true,
        TypeV::Uint64 => true,
        TypeV::Float32 => true,
        TypeV::Float64 => true,
        TypeV::String => false,
        TypeV::List(_) => false,
        TypeV::RefId(_) => false,
        TypeV::RefName(_) => false,
    }
}

impl Type {
    /// Whether the type maps to a plain copyable target value.
    pub fn is_primitive(&self) -> (r: bool)
        ensures
            r == is_primitive_spec(self@),
    {
        match self {
            Type::Unit => true,
            Type::Bool => true,
            Type::Int8 => true,
            Type::Int16 => true,
            Type::Int32 => true,
            Type::Int64 => true,
            Type::Uint8 => true,
            Type::Uint16 => true,
            Type::Uint32 => true,
            Type::Uint64 => true,
            Type::Float32 => true,
            Type::Float64 => true,
            Type::String => false,
            Type::List(_) => false,
            Type::RefId(_) => false,
            Type::RefName(_) => false,
        }
    }
}

/// The model of an enumerant: its name and its payload type.
pub struct EnumerantV {
    pub name: NameTokens,
    pub rust_type: TypeV,
}

/// One variant of a target enum, with an optional payload type (`Unit`
/// stands for no payload).
#[derive(Debug, PartialEq)]
pub struct Enumerant {
    pub name: Name,
    pub rust_type: Type,
}

impl View for Enumerant {
    type V = EnumerantV;

    open spec fn view(&self) -> EnumerantV {
        EnumerantV { name: self.name@, rust_type: self.rust_type@ }
    }
}

impl Clone for Enumerant {
    fn clone(&self) -> (r: Self)
        ensures
            r@ == self@,
    {
        Enumerant { name: self.name.clone(), rust_type: self.rust_type.clone() }
    }
}

/// The model of a target enum definition.
pub struct EnumV {
    pub id: Id,
    pub name: NameTokens,
    pub fully_qualified_type_name: FqnV,
    pub capnp_type_name: FqnV,
    pub enum_origin: EnumOrigin,
    pub enumerants: Seq<EnumerantV>,
}

/// A target enum: its identity, both its target and wire-format qualified
/// names, where it came from, and its variants.
#[derive(Debug, PartialEq)]
pub struct Enum {
    pub id: Id,
    pub name: Name,
    pub fully_qualified_type_name: FullyQualifiedName,
    pub capnp_type_name: FullyQualifiedName,
    pub enum_origin: EnumOrigin,
    pub enumerants: Vec<Enumerant>,
}

/// The views of a sequence of enumerants.
pub open spec fn enumerants_views(es: Seq<Enumerant>) -> Seq<EnumerantV> {
    es.map_values(|e: Enumerant| e@)
}

impl View for Enum {
    type V = EnumV;

    open spec fn view(&self) -> EnumV {
        EnumV {
            id: self.id,
            name: self.name@,
            fully_qualified_type_name: self.fully_qualified_type_name@,
            capnp_type_name: self.capnp_type_name@,
            enum_origin: self.enum_origin,
            enumerants: enumerants_views(self.enumerants@),
        }
    }
}

impl Clone for Enum {
    fn clone(&self) -> (r: Self)
        ensures
            r@ == self@,
    {
        let enumerants = crate::util::clone_view_vec(&self.enumerants);
        proof {
            assert(enumerants_views(enumerants@) =~= enumerants_views(self.enumerants@));
        }
        Enum {
            id: self.id,
            name: self.name.clone(),
            fully_qualified_type_name: self.fully_qualified_type_name.clone(),
            capnp_type_name: self.capnp_type_name.clone(),
            enum_origin: self.enum_origin,
            enumerants,
        }
    }
}

/// The model of a struct field.
pub struct RFieldV {
    pub name: NameTokens,
    pub rust_type: TypeV,
}

/// One field of a target struct.
#[derive(Debug, PartialEq)]
pub struct Field {
    pub name: Name,
    pub rust_type: Type,
}

impl View for Field {
    type V = RFieldV;

    open spec fn view(&self) -> RFieldV {
        RFieldV { name: self.name@, rust_type: self.rust_type@ }
    }
}

impl Clone for Field {
    fn clone(&self) -> (r: Self)
        ensures
            r@ == self@,
    {
        Field { name: self.name.clone(), rust_type: self.rust_type.clone() }
    }
}

/// The model of a target struct definition.
pub struct StructV {
    pub id: Id,
    pub name: NameTokens,
    pub fully_qualified_type_name: FqnV,
    pub capnp_type_name: FqnV,
    pub fields: Seq<RFieldV>,
}

/// A target struct: its identity, both its qualified names, and its fields.
#[derive(Debug, PartialEq)]
pub struct Struct {
    pub id: Id,
    pub name: Name,
    pub fully_qualified_type_name: FullyQualifiedName,
    pub capnp_type_name: FullyQualifiedName,
    pub fields: Vec<Field>,
}

/// The views of a sequence of fields.
pub open spec fn rfields_views(fs: Seq<Field>) -> Seq<RFieldV> {
    fs.map_values(|f: Field| f@)
}

impl View for Struct {
    type V = StructV;

    open spec fn view(&self) -> StructV {
        StructV {
            id: self.id,
            name: self.name@,
            fully_qualified_type_name: self.fully_qualified_type_name@,
            capnp_type_name: self.capnp_type_name@,
            fields: rfields_views(self.fields@),
        }
    }
}

impl Clone for Struct {
    fn clone(&self) -> (r: Self)
        ensures
            r@ == self@,
    {
        let fields = crate::util::clone_view_vec(&self.fields);
        proof {
            assert(rfields_views(fields@) =~= rfields_views(self.fields@));
        }
        Struct {
            id: self.id,
            name: self.name.clone(),
            fully_qualified_type_name: self.fully_qualified_type_name.clone(),
            capnp_type_name: self.capnp_type_name.clone(),
            fields,
        }
    }
}

/// The model of a type definition.
pub enum TypeDefV {
    Enum(EnumV),
    Struct(StructV),
}

/// A definition of a target type: an enum or a struct.
#[derive(Debug, PartialEq)]
pub enum TypeDef {
    Enum(Enum),
    Struct(Struct),
}

impl View for TypeDef {
    type V = TypeDefV;

    open spec fn view(&self) -> TypeDefV {
        match self {
            TypeDef::Enum(e) => TypeDefV::Enum(e@),
            TypeDef::Struct(s) => TypeDefV::Struct(s@),
        }
    }
}

impl Clone for TypeDef {
    fn clone(&self) -> (r: Self)
        ensures
            r@ == self@,
    {
        match self {
            TypeDef::Enum(e) => TypeDef::Enum(e.clone()),
            TypeDef::Struct(s) => TypeDef::Struct(s.clone()),
        }
    }
}

/// The serialization direction a generated impl covers.
#[derive(Clone, Copy, Debug, PartialEq, Eq, Structural)]
pub enum SerdeTrait {
    ReadFrom,
    WriteTo,
}

/// The model of a generated serialization impl.
pub struct ImplV {
    pub trait_type: SerdeTrait,
    pub for_type: TypeDefV,
}

/// A generated serialization impl: a direction and the type it covers.
#[derive(Debug, PartialEq)]
pub struct Impl {
    pub trait_type: SerdeTrait,
    pub for_type: TypeDef,
}

impl View for Impl {
    type V = ImplV;

    open spec fn view(&self) -> ImplV {
        ImplV { trait_type: self.trait_type, for_type: self.for_type@ }
    }
}

impl Clone for Impl {
    fn clone(&self) -> (r: Self)
        ensures
            r@ == self@,
    {
        Impl { trait_type: self.trait_type, for_type: self.for_type.clone() }
    }
}

/// The model of one element of a module.
pub enum ModuleElementV {
    ExternCrateDecl(Seq<char>),
    UseDecl(Seq<char>),
    TypeDef(TypeDefV),
    TraitDef(SerdeTrait),
    Module(ModuleV),
    Impl(ImplV),
}

/// The model of a module.
pub struct ModuleV {
    pub name: NameTokens,
    pub elements: Seq<ModuleElementV>,
}

/// One element of a module: a declaration, a type definition, a nested
/// module, or a generated impl.
#[derive(Debug, PartialEq)]
pub enum ModuleElement {
    ExternCrateDecl(String),
    UseDecl(String),
    TypeDef(TypeDef),
    TraitDef(SerdeTrait),
    Module(Module),
    Impl(Impl),
}

/// A named module holding an ordered list of elements.
#[derive(Debug, PartialEq)]
pub struct Module {
    pub name: Name,
    pub elements: Vec<ModuleElement>,
}

/// The views of a vector of module elements.
pub open spec fn elems_views(v: Vec<ModuleElement>, i: int) -> Seq<ModuleElementV>
    decreases v, v@.len() - i,
{
    if i < 0 || i >= v@.len() {
        Seq::empty()
    } else {
        seq![v@[i]@] + elems_views(v, i + 1)
    }
}

impl View for ModuleElement {
    type V = ModuleElementV;

    open spec fn view(&self) -> ModuleElementV
        decreases self,
    {
        match self {
            ModuleElement::ExternCrateDecl(s) => ModuleElementV::ExternCrateDecl(s@),
            ModuleElement::UseDecl(s) => ModuleElementV::UseDecl(s@),
            ModuleElement::TypeDef(t) => ModuleElementV::TypeDef(t@),
            ModuleElement::TraitDef(t) => ModuleElementV::TraitDef(*t),
            ModuleElement::Module(m) => ModuleElementV::Module(m@),
            ModuleElement::Impl(i) => ModuleElementV::Impl(i@),
        }
    }
}

impl View for Module {
    type V = ModuleV;

    open spec fn view(&self) -> ModuleV
        decreases self,
    {
        ModuleV { name: self.name@, elements: elems_views(self.elements, 0) }
    }
}

pub proof fn lemma_elems_views_index(v: Vec<ModuleElement>, i: int)
    requires
        0 <= i <= v@.len(),
    ensures
        elems_views(v, i).len() == v@.len() - i,
        forall|j: int| 0 <= j < v@.len() - i ==> elems_views(v, i)[j] == v@[i + j]@,
    decreases v@.len() - i,
{
    if i < v@.len() {
        lemma_elems_views_index(v, i + 1);
        assert(elems_views(v, i) == seq![v@[i]@] + elems_views(v, i + 1));
        assert(elems_views(v, i).len() == v@.len() - i);
        assert forall|j: int| 0 <= j < v@.len() - i implies elems_views(v, i)[j] == v@[i + j]@ by {
            assert(elems_views(v, i) == seq![v@[i]@] + elems_views(v, i + 1));
            if j > 0 {
                assert(elems_views(v, i)[j] == elems_views(v, i + 1)[j - 1]);
            }
        }
    } else {
        assert(elems_views(v, i) == Seq::<ModuleElementV>::empty());
    }
}

impl Clone for ModuleElement {
    fn clone(&self) -> (r: Self)
        ensures
            r@ == self@,
        decreases *self,
    {
        match self {
            ModuleElement::ExternCrateDecl(s) => ModuleElement::ExternCrateDecl(s.clone()),
            ModuleElement::UseDecl(s) => ModuleElement::UseDecl(s.clone()),
            ModuleElement::TypeDef(t) => ModuleElement::TypeDef(t.clone()),
            ModuleElement::TraitDef(t) => ModuleElement::TraitDef(*t),
            ModuleElement::Module(m) => ModuleElement::Module(m.clone()),
            ModuleElement::Impl(i) => ModuleElement::Impl(i.clone()),
        }
    }
}

impl Clone for Module {
    fn clone(&self) -> (r: Self)
        ensures
            r@ == self@,
        decreases *self,
    {
        let mut elements: Vec<ModuleElement> = Vec::new();
        let mut i: usize = 0;
        while i < self.elements.len()
            invariant
                i <= self.elements.len(),
                elements@.len() == i,
                forall|j: int| 0 <= j < i ==> elements@[j]@ == self.elements@[j]@,
            decreases self.elements.len() - i,
        {
            proof {
                assert(decreases_to!(*self => self.elements));
                assert(decreases_to!(self.elements => self.elements@[i as int]));
            }
            let e = self.elements[i].clone();
            elements.push(e);
            i += 1;
        }
        let r = Module { name: self.name.clone(), elements };
        proof {
            lemma_elems_views_index(r.elements, 0);
            lemma_elems_views_index(self.elements, 0);
            assert(elems_views(r.elements, 0) =~= elems_views(self.elements, 0));
        }
        r
    }
}

/// The model of the whole translated tree.
pub struct RustAstV {
    pub defs: Seq<ModuleV>,
}

/// The whole translated tree: one module per input file.
#[derive(Debug, PartialEq)]
pub struct RustAst {
    pub defs: Vec<Module>,
}

/// The views of a sequence of modules.
pub open spec fn modules_views(ms: Seq<Module>) -> Seq<ModuleV> {
    ms.map_values(|m: Module| m@)
}

impl View for RustAst {
    type V = RustAstV;

    open spec fn view(&self) -> RustAstV {
        RustAstV { defs: modules_views(self.defs@) }
    }
}

} // verus!
