//! The structural emission contract: which modules carry any definition
//! worth emitting. A module is trivial when it holds no type definition,
//! trait definition or impl, and every nested module is trivial in turn.

use vstd::prelude::*;
use crate::rust_gen::ast::{elems_views, lemma_elems_views_index, Module, ModuleElementV, ModuleV};

verus! {

/// Whether one element is a definition that makes its module worth
/// emitting.
pub open spec fn elem_is_def(e: ModuleElementV) -> bool {
    match e {
        ModuleElementV::TypeDef(_) => true,
        ModuleElementV::TraitDef(_) => true,
        ModuleElementV::Impl(_) => true,
        _ => false,
    }
}

/// Whether any element from position `i` on is a definition.
pub open spec fn any_def(elems: Seq<ModuleElementV>, i: int) -> bool
    decreases elems.len() - i,
{
    if i < 0 || i >= elems.len() {
        false
    } else {
        elem_is_def(elems[i]) || any_def(elems, i + 1)
    }
}

/// Whether every nested module from position `i` on is trivial.
pub open spec fn subs_trivial(elems: Seq<ModuleElementV>, i: int) -> bool
    decreases elems, elems.len() - i + 1,
{
    if i < 0 || i >= elems.len() {
        true
    } else {
        (match elems[i] {
            ModuleElementV::Module(m) => trivial_spec(m),
            _ => true,
        }) && subs_trivial(elems, i + 1)
    }
}

/// Whether a module holds nothing worth emitting: no definition of its
/// own, and only trivial nested modules.
pub open spec fn trivial_spec(m: ModuleV) -> bool
    decreases m, 0int,
{
    !any_def(m.elements, 0) && subs_trivial(m.elements, 0)
}

/// Whether a module holds nothing worth emitting.
#[verifier::loop_isolation(false)]
pub fn is_trivial_module(m: &Module) -> (r: bool)
    ensures
        r == trivial_spec(m@),
    decreases *m,
{
    let ghost ev = elems_views(m.elements, 0);
    proof {
        lemma_elems_views_index(m.elements, 0);
    }
    let mut i: usize = 0;
    while i < m.elements.len()
        invariant
            i <= m.elements@.len(),
            !any_def(ev, 0) == !any_def(ev, i as int),
        decreases m.elements@.len() - i,
    {
        proof {
            assert(ev[i as int] == m.elements@[i as int]@);
        }
        let is_def = match &m.elements[i] {
            crate::rust_gen::ast::ModuleElement::TypeDef(_) => true,
            crate::rust_gen::ast::ModuleElement::TraitDef(_) => true,
            crate::rust_gen::ast::ModuleElement::Impl(_) => true,
            _ => false,
        };
        if is_def {
            proof {
                assert(any_def(ev, i as int));
                assert(any_def(ev, 0));
            }
            return false;
        }
        i += 1;
    }
    proof {
        assert(!any_def(ev, ev.len() as int));
        assert(!any_def(ev, 0));
    }
    let mut j: usize = 0;
    while j < m.elements.len()
        invariant
            j <= m.elements@.len(),
            subs_trivial(ev, 0) == subs_trivial(ev, j as int),
        decreases m.elements@.len() - j,
    {
        proof {
            assert(decreases_to!(*m => m.elements));
            assert(decreases_to!(m.elements => m.elements@[j as int]));
            assert(ev[j as int] == m.elements@[j as int]@);
        }
        match &m.elements[j] {
            crate::rust_gen::ast::ModuleElement::Module(sub) => {
                if !is_trivial_module(sub) {
                    proof {
                        assert(!subs_trivial(ev, j as int));
                    }
                    return false;
                }
            },
            _ => {},
        }
        j += 1;
    }
    proof {
        assert(subs_trivial(ev, ev.len() as int));
        assert(subs_trivial(ev, 0));
    }
    true
}

} // verus!
