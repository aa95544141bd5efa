//! Generation of serialization glue over the resolved AST: for every type
//! definition of the tree, one read impl and one write impl are appended
//! to a dedicated serialization module.

use vstd::prelude::*;
use std::collections::HashMap;
use multimap::MultiMap;
use crate::multi_map::{mm_empty, mm_view, mm_with_capacity};
use crate::rust_gen::ast::{
    elems_views, lemma_elems_views_index, modules_views, Impl, ImplV, Module, ModuleElement,
    ModuleElementV, ModuleV, Name, RustAst, RustAstV, SerdeTrait,
};
use crate::schema;
use crate::strutil::name_tokens_spec;

verus! {

pub type Id = u64;

/// The context the serialization generator is threaded with; the walk
/// itself reads none of it.
pub struct SerdeGenerationContext {
    pub type_to_path: HashMap<Id, Vec<Name>>,
    pub children: MultiMap<u64, u64>,
    pub nodes: HashMap<Id, schema::Node>,
}

impl SerdeGenerationContext {
    /// The empty context.
    pub fn new() -> (r: SerdeGenerationContext)
        ensures
            r.type_to_path@ == Map::<u64, Vec<Name>>::empty(),
            mm_view(r.children) == mm_empty(),
            r.nodes@ == Map::<u64, schema::Node>::empty(),
    {
        SerdeGenerationContext {
            type_to_path: HashMap::new(),
            children: mm_with_capacity(0),
            nodes: HashMap::new(),
        }
    }
}

/// The serialization elements accumulated over the elements of one
/// module, from position `i` on: for every type definition, a read impl
/// and a write impl; nested modules contribute recursively.
pub open spec fn serde_elems(
    acc: Seq<ModuleElementV>,
    elems: Seq<ModuleElementV>,
    i: int,
) -> Seq<ModuleElementV>
    decreases elems, elems.len() - i + 1,
{
    if i < 0 || i >= elems.len() {
        acc
    } else {
        let acc1 = match elems[i] {
            ModuleElementV::TypeDef(t) => acc.push(
                ModuleElementV::Impl(ImplV { trait_type: SerdeTrait::ReadFrom, for_type: t }),
            ).push(ModuleElementV::Impl(ImplV { trait_type: SerdeTrait::WriteTo, for_type: t })),
            ModuleElementV::Module(m) => serde_module_spec(acc, m),
            _ => acc,
        };
        serde_elems(acc1, elems, i + 1)
    }
}

/// The serialization elements accumulated over one module.
pub open spec fn serde_module_spec(acc: Seq<ModuleElementV>, m: ModuleV) -> Seq<ModuleElementV>
    decreases m, 0int,
{
    serde_elems(acc, m.elements, 0)
}

impl Module {
    /// Appends, to the serialization module, one read impl and one write
    /// impl for every type definition reachable under `n`.
    #[verifier::loop_isolation(false)]
    pub fn generate_serde(
        ctx: &SerdeGenerationContext,
        serde_module: &mut Module,
        n: &Module,
    )
        ensures
            final(serde_module)@.name == old(serde_module)@.name,
            final(serde_module)@.elements == serde_module_spec(old(serde_module)@.elements, n@),
        decreases *n,
    {
        let ghost ev = elems_views(n.elements, 0);
        let ghost acc0 = serde_module@.elements;
        proof {
            lemma_elems_views_index(n.elements, 0);
        }
        let mut i: usize = 0;
        while i < n.elements.len()
            invariant
                i <= n.elements@.len(),
                serde_module@.name == old(serde_module)@.name,
                serde_elems(serde_module@.elements, ev, i as int) == serde_elems(acc0, ev, 0),
            decreases n.elements@.len() - i,
        {
            proof {
                assert(decreases_to!(*n => n.elements));
                assert(decreases_to!(n.elements => n.elements@[i as int]));
                assert(ev[i as int] == n.elements@[i as int]@);
            }
            let ghost acc_at = serde_module@.elements;
            proof {
                lemma_elems_views_index(serde_module.elements, 0);
            }
            match &n.elements[i] {
                ModuleElement::TypeDef(t) => {
                    let t1 = t.clone();
                    let t2 = t.clone();
                    serde_module.elements.push(
                        ModuleElement::Impl(Impl { trait_type: SerdeTrait::ReadFrom, for_type: t1 }),
                    );
                    serde_module.elements.push(
                        ModuleElement::Impl(Impl { trait_type: SerdeTrait::WriteTo, for_type: t2 }),
                    );
                    proof {
                        lemma_elems_views_index(serde_module.elements, 0);
                        assert(serde_module@.elements =~= acc_at.push(
                            ModuleElementV::Impl(
                                ImplV { trait_type: SerdeTrait::ReadFrom, for_type: t@ },
                            ),
                        ).push(
                            ModuleElementV::Impl(
                                ImplV { trait_type: SerdeTrait::WriteTo, for_type: t@ },
                            ),
                        ));
                    }
                },
                ModuleElement::Module(m) => {
                    Module::generate_serde(ctx, serde_module, m);
                },
                _ => {},
            }
            i += 1;
        }
        proof {
            assert(serde_elems(serde_module@.elements, ev, ev.len() as int)
                == serde_module@.elements);
        }
    }
}

/// The accumulated serialization elements over the modules from `i` on.
pub open spec fn serde_all(acc: Seq<ModuleElementV>, defs: Seq<ModuleV>, i: int) -> Seq<
    ModuleElementV,
>
    decreases defs.len() - i,
{
    if i < 0 || i >= defs.len() {
        acc
    } else {
        serde_all(serde_module_spec(acc, defs[i]), defs, i + 1)
    }
}

/// The elements every serialization module starts with: the wire error
/// import and the two serialization trait definitions.
pub open spec fn serde_seed() -> Seq<ModuleElementV> {
    seq![
        ModuleElementV::UseDecl("capnp::Error"@),
        ModuleElementV::TraitDef(SerdeTrait::ReadFrom),
        ModuleElementV::TraitDef(SerdeTrait::WriteTo),
    ]
}

/// What serialization generation yields: the original modules, followed by
/// one serialization module holding the seed elements and the impl pairs
/// of every type definition of the tree.
pub open spec fn serde_ast_spec(defs: Seq<ModuleV>) -> RustAstV {
    RustAstV {
        defs: defs + seq![
            ModuleV {
                name: name_tokens_spec("serde"@),
                elements: serde_all(serde_seed(), defs, 0),
            },
        ],
    }
}

impl RustAst {
    /// Builds the tree with its serialization module appended.
    #[verifier::loop_isolation(false)]
    pub fn generate_serde(ctx: &SerdeGenerationContext, n: &RustAst) -> (r: RustAst)
        ensures
            r@ == serde_ast_spec(n@.defs),
    {
        let ghost dv = modules_views(n.defs@);
        let mut serde_module = Module { name: Name::from("serde"), elements: Vec::new() };
        let cap = "capnp::Error";
        let caps = cap.to_string();
        proof {
            vstd::string::to_string_from_display_ensures_for_str(cap, caps);
        }
        serde_module.elements.push(ModuleElement::UseDecl(caps));
        serde_module.elements.push(ModuleElement::TraitDef(SerdeTrait::ReadFrom));
        serde_module.elements.push(ModuleElement::TraitDef(SerdeTrait::WriteTo));
        proof {
            lemma_elems_views_index(serde_module.elements, 0);
            assert(serde_module@.elements =~= serde_seed());
        }
        let mut defs: Vec<Module> = Vec::new();
        let mut i: usize = 0;
        while i < n.defs.len()
            invariant
                i <= n.defs@.len(),
                defs@.len() == i,
                forall|j: int| 0 <= j < i ==> defs@[j]@ == dv[j],
                serde_module@.name == name_tokens_spec("serde"@),
                serde_all(serde_module@.elements, dv, i as int) == serde_all(
                    serde_seed(),
                    dv,
                    0,
                ),
            decreases n.defs@.len() - i,
        {
            let d = n.defs[i].clone();
            defs.push(d);
            Module::generate_serde(ctx, &mut serde_module, &n.defs[i]);
            i += 1;
        }
        proof {
            assert(serde_all(serde_module@.elements, dv, dv.len() as int)
                == serde_module@.elements);
        }
        defs.push(serde_module);
        let r = RustAst { defs };
        proof {
            assert(modules_views(r.defs@) =~= dv + seq![
                ModuleV {
                    name: name_tokens_spec("serde"@),
                    elements: serde_all(serde_seed(), dv, 0),
                },
            ]);
        }
        r
    }
}

} // verus!
