//! Dependency ordering of sibling definitions.
//!
//! For each sibling group the orderer computes, per entity, the list of
//! siblings it depends on, and then linearizes the group depth-first so
//! that every dependency precedes its dependent. A transient queue of the
//! entities currently being placed breaks dependency cycles instead of
//! recursing forever.

use vstd::prelude::*;
use std::collections::HashMap;
use crate::cpp::ast::{
    fqns_views, names_views, CppTypeV, FullyQualifiedName, Name, NameV, Namespace, NamespaceV,
};

verus! {

/// A dependency table: each entity, with the siblings it depends on,
/// in insertion order.
pub type DepMap = Vec<(Name, Vec<Name>)>;

/// The model of a dependency table.
pub open spec fn dm_views(m: Seq<(Name, Vec<Name>)>) -> Seq<(NameV, Seq<NameV>)> {
    m.map_values(|p: (Name, Vec<Name>)| (p.0@, names_views(p.1@)))
}

/// The dependency list of the first entry for `k`, if any.
pub open spec fn dep_lookup(m: Seq<(NameV, Seq<NameV>)>, k: NameV) -> Option<Seq<NameV>>
    decreases m.len(),
{
    if m.len() == 0 {
        None
    } else if m[0].0 == k {
        Some(m[0].1)
    } else {
        dep_lookup(m.skip(1), k)
    }
}

/// The dependencies of `k`: empty when `k` has no entry.
pub open spec fn deps_of(m: Seq<(NameV, Seq<NameV>)>, k: NameV) -> Seq<NameV> {
    match dep_lookup(m, k) {
        Some(l) => l,
        None => Seq::empty(),
    }
}

/// Whether `a` depends directly on `b`.
pub open spec fn edge(m: Seq<(NameV, Seq<NameV>)>, a: NameV, b: NameV) -> bool {
    deps_of(m, a).contains(b)
}

/// Whether consecutive elements of `p` are linked by dependency edges.
pub open spec fn is_chain(m: Seq<(NameV, Seq<NameV>)>, p: Seq<NameV>) -> bool {
    p.len() >= 2 && forall|i: int| 0 <= i < p.len() - 1 ==> #[trigger] edge(m, p[i], p[i + 1])
}

/// Whether `a` depends on `b` through one or more edges.
pub open spec fn dep_path(m: Seq<(NameV, Seq<NameV>)>, a: NameV, b: NameV) -> bool {
    exists|p: Seq<NameV>| is_chain(m, p) && p.first() == a && p.last() == b
}

/// Whether no two distinct entities depend on each other through chains
/// of edges. An entity listing itself among its own dependencies is
/// allowed: the dependency lists the pipeline builds always carry the
/// definition's own name, and the orderer skips an entity already being
/// placed.
pub open spec fn acyclic_between_distinct(m: Seq<(NameV, Seq<NameV>)>) -> bool {
    forall|a: NameV, b: NameV|
        a != b ==> !(#[trigger] dep_path(m, a, b) && #[trigger] dep_path(m, b, a))
}

/// Every placed entity has each of its dependencies placed before it,
/// except dependencies that lie with it on a dependency cycle.
pub open spec fn ordered_modulo(dst: Seq<NameV>, m: Seq<(NameV, Seq<NameV>)>) -> bool {
    forall|i: int, d: NameV|
        0 <= i < dst.len() && #[trigger] edge(m, dst[i], d) ==> (exists|j: int|
            0 <= j < i && dst[j] == d) || dep_path(m, d, dst[i])
}

/// The queue is a chain of edges whose last element depends on `name`.
pub open spec fn queue_chain(m: Seq<(NameV, Seq<NameV>)>, queue: Seq<NameV>, name: NameV) -> bool {
    (forall|i: int| 0 <= i < queue.len() - 1 ==> #[trigger] edge(m, queue[i], queue[i + 1])) && (queue.len()
        > 0 ==> edge(m, queue.last(), name))
}

/// Every key and every dependency of the table lies in `univ`.
pub open spec fn dm_in_univ(m: Seq<(NameV, Seq<NameV>)>, univ: Set<NameV>) -> bool {
    forall|i: int|
        0 <= i < m.len() ==> univ.contains(#[trigger] m[i].0) && (forall|j: int|
            0 <= j < m[i].1.len() ==> univ.contains(#[trigger] m[i].1[j]))
}

/// What one depth-first placement yields: nothing if the entity is placed
/// or being placed; otherwise its dependencies are placed first and the
/// entity appended.
pub open spec fn insert_spec(
    dst: Seq<NameV>,
    name: NameV,
    m: Seq<(NameV, Seq<NameV>)>,
    queue: Seq<NameV>,
    fuel: nat,
) -> Seq<NameV>
    decreases fuel, 0int,
{
    if fuel == 0 {
        dst
    } else if dst.contains(name) {
        dst
    } else if queue.contains(name) {
        dst
    } else {
        insert_deps_spec(
            dst,
            deps_of(m, name),
            0,
            m,
            queue.push(name),
            (fuel - 1) as nat,
        ).push(name)
    }
}

/// The dependencies from position `i` on, placed in order.
pub open spec fn insert_deps_spec(
    dst: Seq<NameV>,
    ds: Seq<NameV>,
    i: int,
    m: Seq<(NameV, Seq<NameV>)>,
    queue: Seq<NameV>,
    fuel: nat,
) -> Seq<NameV>
    decreases fuel, ds.len() - i + 1,
{
    if i < 0 || i >= ds.len() {
        dst
    } else {
        insert_deps_spec(insert_spec(dst, ds[i], m, queue, fuel), ds, i + 1, m, queue, fuel)
    }
}

pub proof fn lemma_deps_in_univ(m: Seq<(NameV, Seq<NameV>)>, univ: Set<NameV>, k: NameV)
    requires
        dm_in_univ(m, univ),
    ensures
        forall|j: int| 0 <= j < deps_of(m, k).len() ==> univ.contains(#[trigger] deps_of(m, k)[j]),
    decreases m.len(),
{
    if m.len() == 0 {
        assert(deps_of(m, k) =~= Seq::<NameV>::empty());
    } else if m[0].0 == k {
        assert(deps_of(m, k) == m[0].1);
        assert forall|j: int|
            0 <= j < deps_of(m, k).len() implies univ.contains(#[trigger] deps_of(m, k)[j]) by {
            assert(univ.contains(m[0].1[j]));
        }
    } else {
        assert forall|i: int| 0 <= i < m.skip(1).len() implies univ.contains(
            #[trigger] m.skip(1)[i].0,
        ) && (forall|j: int|
            0 <= j < m.skip(1)[i].1.len() ==> univ.contains(#[trigger] m.skip(1)[i].1[j])) by {
            assert(m.skip(1)[i] == m[i + 1]);
            assert(univ.contains(m[i + 1].0));
        }
        lemma_deps_in_univ(m.skip(1), univ, k);
        assert(deps_of(m, k) == deps_of(m.skip(1), k));
        assert forall|j: int|
            0 <= j < deps_of(m, k).len() implies univ.contains(#[trigger] deps_of(m, k)[j]) by {
            assert(univ.contains(deps_of(m.skip(1), k)[j]));
        }
    }
}

pub proof fn lemma_queue_path(
    m: Seq<(NameV, Seq<NameV>)>,
    queue: Seq<NameV>,
    name: NameV,
    j: int,
)
    requires
        queue_chain(m, queue, name),
        0 <= j < queue.len(),
    ensures
        dep_path(m, queue[j], name),
{
    let p = queue.subrange(j, queue.len() as int).push(name);
    assert forall|i: int| 0 <= i < p.len() - 1 implies #[trigger] edge(m, p[i], p[i + 1]) by {
        if i < p.len() - 2 {
            assert(p[i] == queue[j + i] && p[i + 1] == queue[j + i + 1]);
        } else {
            assert(p[i] == queue.last() && p[i + 1] == name);
        }
    }
    assert(is_chain(m, p) && p.first() == queue[j] && p.last() == name);
}

pub proof fn lemma_edge_path(m: Seq<(NameV, Seq<NameV>)>, a: NameV, b: NameV)
    requires
        edge(m, a, b),
    ensures
        dep_path(m, a, b),
{
    let p = seq![a, b];
    assert(p.len() == 2 && p[0] == a && p[1] == b);
    assert(is_chain(m, p) && p.first() == a && p.last() == b);
}

/// The placement lemma: one placement only appends, places the entity
/// unless it is on the transient queue, and preserves the ordering
/// property modulo cycles.
pub proof fn lemma_insert_props(
    dst: Seq<NameV>,
    name: NameV,
    m: Seq<(NameV, Seq<NameV>)>,
    queue: Seq<NameV>,
    fuel: nat,
    univ: Set<NameV>,
)
    requires
        univ.finite(),
        dm_in_univ(m, univ),
        univ.contains(name),
        forall|i: int| 0 <= i < queue.len() ==> univ.contains(#[trigger] queue[i]),
        fuel >= univ.difference(queue.to_set()).len() + 1,
        queue_chain(m, queue, name),
        ordered_modulo(dst, m),
    ensures
        ({
            let r = insert_spec(dst, name, m, queue, fuel);
            &&& r.len() >= dst.len()
            &&& forall|j: int| 0 <= j < dst.len() ==> r[j] == dst[j]
            &&& r.contains(name) || queue.contains(name)
            &&& ordered_modulo(r, m)
        }),
    decreases fuel, 0int,
{
    assert(univ.difference(queue.to_set()).len() >= 0);
    if dst.contains(name) || queue.contains(name) {
    } else {
        let ds = deps_of(m, name);
        let nq = queue.push(name);
        assert forall|a: NameV| #[trigger]
            nq.contains(a) implies queue.contains(a) || a == name by {
            let j = choose|j: int| 0 <= j < nq.len() && nq[j] == a;
            if j < queue.len() {
                assert(queue[j] == a);
            }
        }
        assert forall|a: NameV| queue.contains(a) || a == name implies nq.contains(a) by {
            if a == name {
                assert(nq[queue.len() as int] == name);
            } else {
                let j = choose|j: int| 0 <= j < queue.len() && queue[j] == a;
                assert(nq[j] == a);
            }
        }
        assert(nq.to_set() =~= queue.to_set().insert(name));
        assert(!queue.to_set().contains(name));
        assert(univ.difference(nq.to_set()) =~= univ.difference(queue.to_set()).remove(name));
        assert(univ.difference(queue.to_set()).contains(name));
        vstd::set::axiom_set_difference_finite(univ, queue.to_set());
        vstd::set::axiom_set_remove_len(univ.difference(queue.to_set()), name);
        assert(univ.difference(nq.to_set()).len() == univ.difference(queue.to_set()).len() - 1);
        assert forall|i: int| 0 <= i < nq.len() implies univ.contains(#[trigger] nq[i]) by {
            if i < queue.len() {
            } else {
                assert(nq[i] == name);
            }
        }
        lemma_deps_in_univ(m, univ, name);
        assert forall|j: int| 0 <= j < ds.len() implies edge(m, nq.last(), #[trigger] ds[j]) by {
            assert(nq.last() == name);
            assert(deps_of(m, name)[j] == ds[j]);
            assert(deps_of(m, name).contains(ds[j]));
        }
        assert forall|i: int| 0 <= i < nq.len() - 1 implies #[trigger] edge(m, nq[i], nq[i + 1]) by {
            if i < queue.len() - 1 {
            } else {
                assert(nq[i] == queue.last() && nq[i + 1] == name);
            }
        }
        lemma_insert_deps_props(dst, ds, 0, m, nq, (fuel - 1) as nat, univ);
        let r2 = insert_deps_spec(dst, ds, 0, m, nq, (fuel - 1) as nat);
        let r = r2.push(name);
        assert(r[r2.len() as int] == name);
        assert(r.contains(name));
        assert(insert_spec(dst, name, m, queue, fuel) == r);
        assert forall|i: int, d: NameV|
            0 <= i < r.len() && #[trigger] edge(m, r[i], d) implies (exists|j: int|
            0 <= j < i && r[j] == d) || dep_path(m, d, r[i]) by {
            if i < r2.len() {
                assert(r[i] == r2[i]);
                assert(ordered_modulo(r2, m));
                assert(0 <= i < r2.len() && edge(m, r2[i], d));
                if exists|j: int| 0 <= j < i && r2[j] == d {
                    let j = choose|j: int| 0 <= j < i && r2[j] == d;
                    assert(r[j] == d);
                }
            } else {
                assert(r[i] == name);
                let k = choose|k: int| 0 <= k < ds.len() && ds[k] == d;
                assert(r2.contains(d) || nq.contains(d));
                if r2.contains(d) {
                    let j = choose|j: int| 0 <= j < r2.len() && r2[j] == d;
                    assert(r[j] == d);
                } else {
                    let j = choose|j: int| 0 <= j < nq.len() && nq[j] == d;
                    if j < queue.len() {
                        lemma_queue_path(m, queue, name, j);
                    } else {
                        assert(d == name);
                        lemma_edge_path(m, name, name);
                    }
                }
            }
        }
    }
}

/// The placement lemma for a dependency list, from position `i` on.
pub proof fn lemma_insert_deps_props(
    dst: Seq<NameV>,
    ds: Seq<NameV>,
    i: int,
    m: Seq<(NameV, Seq<NameV>)>,
    queue: Seq<NameV>,
    fuel: nat,
    univ: Set<NameV>,
)
    requires
        0 <= i,
        univ.finite(),
        dm_in_univ(m, univ),
        forall|j: int| 0 <= j < ds.len() ==> univ.contains(#[trigger] ds[j]),
        forall|j: int| 0 <= j < queue.len() ==> univ.contains(#[trigger] queue[j]),
        fuel >= univ.difference(queue.to_set()).len() + 1,
        queue.len() > 0,
        forall|j: int| 0 <= j < queue.len() - 1 ==> #[trigger] edge(m, queue[j], queue[j + 1]),
        forall|j: int| 0 <= j < ds.len() ==> edge(m, queue.last(), #[trigger] ds[j]),
        ordered_modulo(dst, m),
    ensures
        ({
            let r = insert_deps_spec(dst, ds, i, m, queue, fuel);
            &&& r.len() >= dst.len()
            &&& forall|j: int| 0 <= j < dst.len() ==> r[j] == dst[j]
            &&& forall|k: int|
                i <= k < ds.len() ==> r.contains(#[trigger] ds[k]) || queue.contains(ds[k])
            &&& ordered_modulo(r, m)
        }),
    decreases fuel, ds.len() - i + 1,
{
    if 0 <= i < ds.len() {
        assert(queue_chain(m, queue, ds[i]));
        lemma_insert_props(dst, ds[i], m, queue, fuel, univ);
        let mid = insert_spec(dst, ds[i], m, queue, fuel);
        lemma_insert_deps_props(mid, ds, i + 1, m, queue, fuel, univ);
        let r = insert_deps_spec(mid, ds, i + 1, m, queue, fuel);
        assert forall|k: int|
            i <= k < ds.len() implies r.contains(#[trigger] ds[k]) || queue.contains(ds[k]) by {
            if k == i {
                if mid.contains(ds[i]) {
                    let j = choose|j: int| 0 <= j < mid.len() && mid[j] == ds[i];
                    assert(r[j] == ds[i]);
                }
            }
        }
    }
}

/// The names that take part in ordering: every listed entity and every
/// key and dependency of the table.
pub open spec fn dm_univ_set(m: Seq<(NameV, Seq<NameV>)>) -> Set<NameV>
    decreases m.len(),
{
    if m.len() == 0 {
        Set::empty()
    } else {
        set![m[0].0].union(m[0].1.to_set()).union(dm_univ_set(m.skip(1)))
    }
}

/// The universe of one ordering run.
pub open spec fn order_univ(ns: Seq<NameV>, m: Seq<(NameV, Seq<NameV>)>) -> Set<NameV> {
    ns.to_set().union(dm_univ_set(m))
}

/// Enough fuel to place every name of the universe once.
pub open spec fn order_fuel(ns: Seq<NameV>, m: Seq<(NameV, Seq<NameV>)>) -> nat {
    order_univ(ns, m).len() + 1
}

/// The order that placing the names from position `i` on yields.
pub open spec fn order_fold(
    dst: Seq<NameV>,
    ns: Seq<NameV>,
    i: int,
    m: Seq<(NameV, Seq<NameV>)>,
) -> Seq<NameV>
    decreases ns.len() - i,
{
    if i < 0 || i >= ns.len() {
        dst
    } else {
        order_fold(insert_spec(dst, ns[i], m, Seq::empty(), order_fuel(ns, m)), ns, i + 1, m)
    }
}

/// The dependency order of a sibling group: each entity placed depth-first
/// after its dependencies, in the group's own iteration order.
pub open spec fn order_spec(ns: Seq<NameV>, m: Seq<(NameV, Seq<NameV>)>) -> Seq<NameV> {
    order_fold(Seq::empty(), ns, 0, m)
}

pub proof fn lemma_dm_univ_finite(m: Seq<(NameV, Seq<NameV>)>)
    ensures
        dm_univ_set(m).finite(),
    decreases m.len(),
{
    broadcast use vstd::seq_lib::seq_to_set_is_finite;

    if m.len() > 0 {
        lemma_dm_univ_finite(m.skip(1));
    }
}

pub proof fn lemma_dm_univ_contains(m: Seq<(NameV, Seq<NameV>)>)
    ensures
        dm_in_univ(m, dm_univ_set(m)),
    decreases m.len(),
{
    if m.len() > 0 {
        lemma_dm_univ_contains(m.skip(1));
        assert forall|i: int| 0 <= i < m.len() implies dm_univ_set(m).contains(#[trigger] m[i].0)
            && (forall|j: int|
            0 <= j < m[i].1.len() ==> dm_univ_set(m).contains(#[trigger] m[i].1[j])) by {
            if i == 0 {
                assert(dm_univ_set(m).contains(m[0].0));
                assert forall|j: int|
                    0 <= j < m[0].1.len() implies dm_univ_set(m).contains(
                    #[trigger] m[0].1[j],
                ) by {
                    assert(m[0].1.to_set().contains(m[0].1[j]));
                }
            } else {
                assert(m.skip(1)[i - 1] == m[i]);
                assert(dm_univ_set(m.skip(1)).contains(m[i].0));
                assert forall|j: int|
                    0 <= j < m[i].1.len() implies dm_univ_set(m).contains(
                    #[trigger] m[i].1[j],
                ) by {
                    assert(dm_univ_set(m.skip(1)).contains(m.skip(1)[i - 1].1[j]));
                }
            }
        }
    }
}

/// Whether every listed name lies in the universe, with enough fuel.
pub proof fn lemma_order_univ_ok(ns: Seq<NameV>, m: Seq<(NameV, Seq<NameV>)>)
    ensures
        order_univ(ns, m).finite(),
        dm_in_univ(m, order_univ(ns, m)),
        forall|i: int| 0 <= i < ns.len() ==> order_univ(ns, m).contains(#[trigger] ns[i]),
{
    broadcast use vstd::seq_lib::seq_to_set_is_finite;

    lemma_dm_univ_finite(m);
    lemma_dm_univ_contains(m);
    assert forall|i: int|
        0 <= i < ns.len() implies order_univ(ns, m).contains(#[trigger] ns[i]) by {
        assert(ns.to_set().contains(ns[i]));
    }
}

/// The whole fold preserves the ordering property modulo cycles.
pub proof fn lemma_order_fold_props(
    dst: Seq<NameV>,
    ns: Seq<NameV>,
    i: int,
    m: Seq<(NameV, Seq<NameV>)>,
)
    requires
        0 <= i,
        ordered_modulo(dst, m),
    ensures
        ordered_modulo(order_fold(dst, ns, i, m), m),
    decreases ns.len() - i,
{
    if i < ns.len() {
        lemma_order_univ_ok(ns, m);
        assert(Seq::<NameV>::empty().to_set() =~= Set::<NameV>::empty());
        assert(order_univ(ns, m).difference(Set::<NameV>::empty()) =~= order_univ(ns, m));
        lemma_insert_props(dst, ns[i], m, Seq::empty(), order_fuel(ns, m), order_univ(ns, m));
        lemma_order_fold_props(
            insert_spec(dst, ns[i], m, Seq::empty(), order_fuel(ns, m)),
            ns,
            i + 1,
            m,
        );
    }
}

/// Ordering correctness: over a dependency table whose only cycles are
/// self-edges — the shape the pipeline's dependency lists have, since
/// each list carries the definition's own name — every entity in the
/// computed order comes strictly after each of its dependencies other
/// than itself.
pub proof fn lemma_ordering_correctness(ns: Seq<NameV>, m: Seq<(NameV, Seq<NameV>)>)
    requires
        acyclic_between_distinct(m),
    ensures
        forall|i: int, d: NameV|
            0 <= i < order_spec(ns, m).len() && #[trigger] edge(m, order_spec(ns, m)[i], d) && d
                != order_spec(ns, m)[i] ==> exists|j: int| 0 <= j < i && order_spec(ns, m)[j] == d,
{
    assert(ordered_modulo(Seq::<NameV>::empty(), m));
    lemma_order_fold_props(Seq::empty(), ns, 0, m);
    lemma_ordered_strict(order_spec(ns, m), m);
}

/// Ordering stability: the dependency order is a function of the sibling
/// group and its dependency table alone, so running the orderer twice on
/// the same input — acyclic but for the self-edges the dependency lists
/// always carry — yields the same order.
pub proof fn lemma_ordering_stability(
    ns: Seq<NameV>,
    m: Seq<(NameV, Seq<NameV>)>,
    a: Seq<NameV>,
    b: Seq<NameV>,
)
    requires
        acyclic_between_distinct(m),
        a == order_spec(ns, m),
        b == order_spec(ns, m),
    ensures
        a == b,
{
}

/// In a table whose only cycles are self-edges, the ordering property
/// modulo cycles is strict: every dependency of a placed entity other
/// than the entity itself is placed strictly before it.
pub proof fn lemma_ordered_strict(dst: Seq<NameV>, m: Seq<(NameV, Seq<NameV>)>)
    requires
        acyclic_between_distinct(m),
        ordered_modulo(dst, m),
    ensures
        forall|i: int, d: NameV|
            0 <= i < dst.len() && #[trigger] edge(m, dst[i], d) && d != dst[i] ==> exists|j: int|
                0 <= j < i && dst[j] == d,
{
    assert forall|i: int, d: NameV|
        0 <= i < dst.len() && #[trigger] edge(m, dst[i], d) && d != dst[i] implies exists|j: int|
        0 <= j < i && dst[j] == d by {
        if !(exists|j: int| 0 <= j < i && dst[j] == d) {
            assert(dep_path(m, d, dst[i]));
            lemma_edge_path(m, dst[i], d);
            assert(dep_path(m, dst[i], d) && dep_path(m, d, dst[i]));
        }
    }
}


/// Whether `x` occurs in `v`.
pub fn name_in(v: &Vec<Name>, x: &Name) -> (r: bool)
    ensures
        r == names_views(v@).contains(x@),
{
    let mut i: usize = 0;
    while i < v.len()
        invariant
            i <= v.len(),
            forall|j: int| 0 <= j < i ==> v@[j]@ != x@,
        decreases v.len() - i,
    {
        if v[i].eq(x) {
            proof {
                assert(names_views(v@)[i as int] == x@);
            }
            return true;
        }
        i += 1;
    }
    proof {
        assert(names_views(v@).len() == v@.len());
        if names_views(v@).contains(x@) {
            let j = choose|j: int| 0 <= j < names_views(v@).len() && names_views(v@)[j] == x@;
            assert(v@[j]@ == x@);
        }
    }
    false
}

pub proof fn lemma_dep_lookup_at(m: Seq<(NameV, Seq<NameV>)>, k: NameV, i: int)
    requires
        0 <= i < m.len(),
        m[i].0 == k,
        forall|j: int| 0 <= j < i ==> m[j].0 != k,
    ensures
        dep_lookup(m, k) == Some(m[i].1),
    decreases i,
{
    if i > 0 {
        assert(m[0].0 != k);
        assert(m.skip(1)[i - 1] == m[i]);
        assert forall|j: int| 0 <= j < i - 1 implies m.skip(1)[j].0 != k by {
            assert(m.skip(1)[j] == m[j + 1]);
        }
        lemma_dep_lookup_at(m.skip(1), k, i - 1);
    }
}

pub proof fn lemma_dep_lookup_none(m: Seq<(NameV, Seq<NameV>)>, k: NameV)
    requires
        forall|j: int| 0 <= j < m.len() ==> m[j].0 != k,
    ensures
        dep_lookup(m, k) is None,
    decreases m.len(),
{
    if m.len() > 0 {
        assert forall|j: int| 0 <= j < m.skip(1).len() implies m.skip(1)[j].0 != k by {
            assert(m.skip(1)[j] == m[j + 1]);
        }
        lemma_dep_lookup_none(m.skip(1), k);
    }
}

/// The dependency list recorded for `k`, if any.
fn dep_find<'a>(m: &'a DepMap, k: &Name) -> (r: Option<&'a Vec<Name>>)
    ensures
        match r {
            Some(l) => dep_lookup(dm_views(m@), k@) == Some(names_views(l@)),
            None => dep_lookup(dm_views(m@), k@) is None,
        },
{
    let mut i: usize = 0;
    while i < m.len()
        invariant
            i <= m.len(),
            forall|j: int| 0 <= j < i ==> m@[j].0@ != k@,
        decreases m.len() - i,
    {
        if m[i].0.eq(k) {
            proof {
                assert(dm_views(m@)[i as int] == (m@[i as int].0@, names_views(m@[i as int].1@)));
                assert(forall|j: int|
                    0 <= j < i ==> #[trigger] dm_views(m@)[j].0 == m@[j].0@);
                lemma_dep_lookup_at(dm_views(m@), k@, i as int);
            }
            return Some(&m[i].1);
        }
        i += 1;
    }
    proof {
        assert(dm_views(m@).len() == m@.len());
        assert(forall|j: int|
            0 <= j < m@.len() ==> #[trigger] dm_views(m@)[j].0 == m@[j].0@);
        lemma_dep_lookup_none(dm_views(m@), k@);
    }
    None
}

/// Places `name` after its dependencies: dependencies are placed
/// depth-first, and an entity already placed, or on the transient queue
/// of entities being placed, is skipped; the queue is what breaks
/// dependency cycles.
pub fn insert_names_sorted_by_dependencies(
    dst: &mut Vec<Name>,
    name: &Name,
    deps: &DepMap,
    queue: &Vec<Name>,
    univ: Ghost<Set<NameV>>,
    fuel: Ghost<nat>,
)
    requires
        univ@.finite(),
        dm_in_univ(dm_views(deps@), univ@),
        univ@.contains(name@),
        forall|i: int| 0 <= i < queue@.len() ==> univ@.contains(#[trigger] queue@[i]@),
        fuel@ >= univ@.difference(names_views(queue@).to_set()).len() + 1,
    ensures
        names_views(final(dst)@) == insert_spec(
            names_views(old(dst)@),
            name@,
            dm_views(deps@),
            names_views(queue@),
            fuel@,
        ),
    decreases fuel@,
{
    let ghost m_v = dm_views(deps@);
    let ghost q_v = names_views(queue@);
    let ghost dst0 = names_views(dst@);
    proof {
        assert(univ@.difference(q_v.to_set()).len() >= 0);
        assert forall|i: int| 0 <= i < q_v.len() implies univ@.contains(#[trigger] q_v[i]) by {
            assert(q_v[i] == queue@[i]@);
        }
    }
    if name_in(dst, name) {
        return;
    }
    if name_in(queue, name) {
        return;
    }
    let ghost ds = deps_of(m_v, name@);
    let ghost nq_v = q_v.push(name@);
    let mut new_queue: Vec<Name> = Vec::new();
    let mut qi: usize = 0;
    while qi < queue.len()
        invariant
            qi <= queue.len(),
            new_queue@.len() == qi,
            forall|j: int| 0 <= j < qi ==> new_queue@[j]@ == queue@[j]@,
        decreases queue.len() - qi,
    {
        let n = queue[qi].clone();
        new_queue.push(n);
        qi += 1;
    }
    new_queue.push(name.clone());
    proof {
        assert(names_views(new_queue@) =~= nq_v);
        assert forall|a: NameV| #[trigger] nq_v.contains(a) implies q_v.contains(a) || a == name@ by {
            let j = choose|j: int| 0 <= j < nq_v.len() && nq_v[j] == a;
            if j < q_v.len() {
                assert(q_v[j] == a);
            }
        }
        assert forall|a: NameV| q_v.contains(a) || a == name@ implies nq_v.contains(a) by {
            if a == name@ {
                assert(nq_v[q_v.len() as int] == name@);
            } else {
                let j = choose|j: int| 0 <= j < q_v.len() && q_v[j] == a;
                assert(nq_v[j] == a);
            }
        }
        assert(nq_v.to_set() =~= q_v.to_set().insert(name@));
        assert(!q_v.to_set().contains(name@));
        assert(univ@.difference(nq_v.to_set()) =~= univ@.difference(q_v.to_set()).remove(name@));
        assert(univ@.difference(q_v.to_set()).contains(name@));
        vstd::set::axiom_set_difference_finite(univ@, q_v.to_set());
        vstd::set::axiom_set_remove_len(univ@.difference(q_v.to_set()), name@);
        assert forall|i: int| 0 <= i < new_queue@.len() implies univ@.contains(
            #[trigger] new_queue@[i]@,
        ) by {
            if i < queue@.len() {
                assert(new_queue@[i]@ == queue@[i]@);
            } else {
                assert(new_queue@[i]@ == name@);
            }
        }
        lemma_deps_in_univ(m_v, univ@, name@);
    }
    match dep_find(deps, name) {
        Some(dep_list) => {
            proof {
                assert(ds == names_views(dep_list@));
            }
            let mut i: usize = 0;
            while i < dep_list.len()
                invariant
                    i <= dep_list.len(),
                    ds == names_views(dep_list@),
                    univ@.finite(),
                    dm_in_univ(m_v, univ@),
                    m_v == dm_views(deps@),
                    nq_v == names_views(new_queue@),
                    forall|j: int|
                        0 <= j < new_queue@.len() ==> univ@.contains(#[trigger] new_queue@[j]@),
                    fuel@ - 1 >= univ@.difference(nq_v.to_set()).len() + 1,
                    forall|j: int| 0 <= j < ds.len() ==> univ@.contains(#[trigger] ds[j]),
                    insert_deps_spec(names_views(dst@), ds, i as int, m_v, nq_v, (fuel@ - 1) as nat)
                        == insert_deps_spec(dst0, ds, 0, m_v, nq_v, (fuel@ - 1) as nat),
                decreases dep_list.len() - i,
            {
                proof {
                    assert(ds[i as int] == dep_list@[i as int]@);
                }
                let ghost before = names_views(dst@);
                insert_names_sorted_by_dependencies(
                    dst,
                    &dep_list[i],
                    deps,
                    &new_queue,
                    Ghost(univ@),
                    Ghost((fuel@ - 1) as nat),
                );
                proof {
                    assert(names_views(dst@) == insert_spec(
                        before,
                        ds[i as int],
                        m_v,
                        nq_v,
                        (fuel@ - 1) as nat,
                    ));
                    assert(insert_deps_spec(before, ds, i as int, m_v, nq_v, (fuel@ - 1) as nat)
                        == insert_deps_spec(
                        names_views(dst@),
                        ds,
                        i as int + 1,
                        m_v,
                        nq_v,
                        (fuel@ - 1) as nat,
                    ));
                }
                i += 1;
            }
            proof {
                assert(insert_deps_spec(
                    names_views(dst@),
                    ds,
                    dep_list@.len() as int,
                    m_v,
                    nq_v,
                    (fuel@ - 1) as nat,
                ) == names_views(dst@));
            }
        },
        None => {
            proof {
                assert(ds =~= Seq::<NameV>::empty());
                assert(insert_deps_spec(names_views(dst@), ds, 0, m_v, nq_v, (fuel@ - 1) as nat)
                    == names_views(dst@));
            }
        },
    }
    let placed = name.clone();
    dst.push(placed);
    proof {
        assert(names_views(dst@) =~= insert_deps_spec(
            dst0,
            ds,
            0,
            m_v,
            nq_v,
            (fuel@ - 1) as nat,
        ).push(name@));
    }
}


/// Linearizes a sibling group: every entity is placed after the siblings
/// it depends on, dependency cycles broken at the entity currently being
/// placed.
pub fn order_names(group: &Vec<Name>, deps: &DepMap) -> (r: Vec<Name>)
    ensures
        names_views(r@) == order_spec(names_views(group@), dm_views(deps@)),
{
    let ghost ns_v = names_views(group@);
    let ghost m_v = dm_views(deps@);
    let ghost ouniv = order_univ(ns_v, m_v);
    let ghost fuel = order_fuel(ns_v, m_v);
    let ghost empty_dst: Seq<NameV> = Seq::empty();
    let ghost total = order_fold(empty_dst, ns_v, 0, m_v);
    proof {
        lemma_order_univ_ok(ns_v, m_v);
    }
    let mut dst: Vec<Name> = Vec::new();
    let queue: Vec<Name> = Vec::new();
    let mut i: usize = 0;
    proof {
        assert(names_views(dst@) =~= empty_dst);
        assert(names_views(queue@) =~= empty_dst);
        assert(empty_dst.to_set() =~= Set::<NameV>::empty());
        assert(ouniv.difference(empty_dst.to_set()) =~= ouniv);
    }
    while i < group.len()
        invariant
            i <= group.len(),
            ns_v == names_views(group@),
            m_v == dm_views(deps@),
            names_views(queue@) == empty_dst,
            empty_dst.len() == 0,
            ouniv == order_univ(ns_v, m_v),
            fuel == order_fuel(ns_v, m_v),
            ouniv.finite(),
            dm_in_univ(m_v, ouniv),
            forall|j: int| 0 <= j < ns_v.len() ==> ouniv.contains(#[trigger] ns_v[j]),
            ouniv.difference(names_views(queue@).to_set()) == ouniv,
            order_fold(names_views(dst@), ns_v, i as int, m_v) == total,
        decreases group.len() - i,
    {
        proof {
            assert(ns_v[i as int] == group@[i as int]@);
        }
        let ghost before = names_views(dst@);
        insert_names_sorted_by_dependencies(
            &mut dst,
            &group[i],
            deps,
            &queue,
            Ghost(ouniv),
            Ghost(fuel),
        );
        proof {
            assert(names_views(dst@) == insert_spec(before, ns_v[i as int], m_v, empty_dst, fuel));
            assert(empty_dst =~= Seq::<NameV>::empty());
            assert(order_fold(before, ns_v, i as int, m_v) == order_fold(
                names_views(dst@),
                ns_v,
                i as int + 1,
                m_v,
            ));
        }
        i += 1;
    }
    proof {
        assert(order_fold(names_views(dst@), ns_v, group@.len() as int, m_v) == names_views(
            dst@,
        ));
        assert(names_views(dst@) == total);
    }
    dst
}


/// The model of what the orderer knows of one type: its name and its
/// fully-qualified name.
pub struct TypeInfoV {
    pub name: NameV,
    pub fqn: Seq<NameV>,
}

/// What the orderer knows of one type definition.
#[derive(Debug)]
pub struct TypeInfo {
    pub name: Name,
    pub fqn: FullyQualifiedName,
}

impl View for TypeInfo {
    type V = TypeInfoV;

    open spec fn view(&self) -> TypeInfoV {
        TypeInfoV { name: self.name@, fqn: self.fqn@ }
    }
}

impl Clone for TypeInfo {
    fn clone(&self) -> (r: Self)
        ensures
            r@ == self@,
    {
        TypeInfo { name: self.name.clone(), fqn: self.fqn.clone() }
    }
}

/// The model of the ordering context.
pub struct ContextV {
    pub type_info: Map<u64, TypeInfoV>,
    pub current_namespace: Seq<NameV>,
}

/// The ordering context: every definition's name and fully-qualified
/// name by id, and the namespace currently being ordered.
pub struct Context {
    pub type_info: HashMap<u64, TypeInfo>,
    pub current_namespace: FullyQualifiedName,
}

impl View for Context {
    type V = ContextV;

    open spec fn view(&self) -> ContextV {
        ContextV {
            type_info: self.type_info@.map_values(|t: TypeInfo| t@),
            current_namespace: self.current_namespace@,
        }
    }
}

impl Context {
    /// The empty context at the compilation root.
    pub fn new() -> (r: Context)
        ensures
            r@.type_info == Map::<u64, TypeInfoV>::empty(),
            r@.current_namespace == Seq::<NameV>::empty(),
    {
        let r = Context {
            type_info: HashMap::new(),
            current_namespace: FullyQualifiedName::empty(),
        };
        proof {
            assert(r@.type_info =~= Map::<u64, TypeInfoV>::empty());
        }
        r
    }

    /// The same knowledge, one namespace deeper.
    pub fn with_child_namespace(&self, name: &Name) -> (r: Context)
        ensures
            r@.type_info == self@.type_info,
            r@.current_namespace == self@.current_namespace.push(name@),
    {
        Context {
            type_info: self.type_info.clone(),
            current_namespace: self.current_namespace.with_appended(name),
        }
    }
}

/// The knowledge after recording one definition under `fqn`: the
/// definition itself, and, for a class, its inner types one level deeper.
pub open spec fn ti_add_def(
    ti: Map<u64, TypeInfoV>,
    fqn: Seq<NameV>,
    d: crate::cpp::ast::ComplexTypeDefV,
) -> Map<u64, TypeInfoV>
    decreases d, 0int,
{
    match d {
        crate::cpp::ast::ComplexTypeDefV::EnumClass(e) => ti.insert(
            e.id,
            TypeInfoV { name: e.name, fqn: fqn.push(e.name) },
        ),
        crate::cpp::ast::ComplexTypeDefV::Class(c) => ti_add_defs(
            ti.insert(c.id, TypeInfoV { name: c.name, fqn: fqn.push(c.name) }),
            fqn.push(c.name),
            c.inner_types,
            0,
        ),
    }
}

/// The knowledge after recording the definitions from position `i` on.
pub open spec fn ti_add_defs(
    ti: Map<u64, TypeInfoV>,
    fqn: Seq<NameV>,
    ds: Seq<crate::cpp::ast::ComplexTypeDefV>,
    i: int,
) -> Map<u64, TypeInfoV>
    decreases ds, ds.len() - i + 1,
{
    if i < 0 || i >= ds.len() {
        ti
    } else {
        ti_add_defs(ti_add_def(ti, fqn, ds[i]), fqn, ds, i + 1)
    }
}

/// The knowledge after recording a namespace: its definitions at `fqn`,
/// then every child namespace one level deeper.
pub open spec fn ti_add_ns(ti: Map<u64, TypeInfoV>, fqn: Seq<NameV>, n: NamespaceV) -> Map<
    u64,
    TypeInfoV,
>
    decreases n, 0int,
{
    ti_add_pairs(ti_add_defs(ti, fqn, n.defs, 0), fqn, n.namespaces, 0)
}

/// The knowledge after recording the child namespaces from `i` on.
pub open spec fn ti_add_pairs(
    ti: Map<u64, TypeInfoV>,
    fqn: Seq<NameV>,
    pairs: Seq<(NameV, NamespaceV)>,
    i: int,
) -> Map<u64, TypeInfoV>
    decreases pairs, pairs.len() - i + 1,
{
    if i < 0 || i >= pairs.len() {
        ti
    } else {
        ti_add_pairs(ti_add_ns(ti, fqn.push(pairs[i].0), pairs[i].1), fqn, pairs, i + 1)
    }
}

impl Context {
    /// Records one definition and, for a class, its inner types.
    #[verifier::loop_isolation(false)]
    pub fn set_type_info_from_complex_type_def(
        &mut self,
        fqn: &FullyQualifiedName,
        t: &crate::cpp::ast::ComplexTypeDef,
    )
        ensures
            final(self)@.type_info == ti_add_def(old(self)@.type_info, fqn@, t@),
            final(self)@.current_namespace == old(self)@.current_namespace,
        decreases *t,
    {
        match t {
            crate::cpp::ast::ComplexTypeDef::EnumClass(e) => {
                let ghost ti0 = self@.type_info;
                let info = TypeInfo { name: e.name.clone(), fqn: fqn.with_appended(&e.name) };
                self.type_info.insert(e.id, info);
                proof {
                    assert(self@.type_info =~= ti0.insert(
                        e.id,
                        TypeInfoV { name: e@.name, fqn: fqn@.push(e@.name) },
                    ));
                }
            },
            crate::cpp::ast::ComplexTypeDef::Class(c) => {
                let ghost ti0 = self@.type_info;
                let info = TypeInfo { name: c.name.clone(), fqn: fqn.with_appended(&c.name) };
                self.type_info.insert(c.id, info);
                proof {
                    assert(self@.type_info =~= ti0.insert(
                        c.id,
                        TypeInfoV { name: c@.name, fqn: fqn@.push(c@.name) },
                    ));
                }
                let sub = fqn.with_appended(&c.name);
                let ghost dsv = crate::cpp::ast::ctd_views(c.inner_types, 0);
                proof {
                    crate::cpp::ast::lemma_ctd_views_index(c.inner_types, 0);
                }
                let ghost ti1 = self@.type_info;
                let mut i: usize = 0;
                while i < c.inner_types.len()
                    invariant
                        i <= c.inner_types@.len(),
                        ti_add_defs(self@.type_info, sub@, dsv, i as int) == ti_add_defs(
                            ti1,
                            sub@,
                            dsv,
                            0,
                        ),
                        self@.current_namespace == old(self)@.current_namespace,
                    decreases c.inner_types@.len() - i,
                {
                    proof {
                        assert(decreases_to!(*t => *c));
                        assert(decreases_to!(*c => c.inner_types));
                        assert(decreases_to!(c.inner_types => c.inner_types@[i as int]));
                        assert(dsv[i as int] == c.inner_types@[i as int]@);
                    }
                    self.set_type_info_from_complex_type_def(&sub, &c.inner_types[i]);
                    i += 1;
                }
                proof {
                    assert(ti_add_defs(self@.type_info, sub@, dsv, dsv.len() as int)
                        == self@.type_info);
                }
            },
        }
    }

    /// Records a namespace's definitions, then its children.
    #[verifier::loop_isolation(false)]
    pub fn set_type_info_from_namespace(&mut self, fqn: &FullyQualifiedName, n: &Namespace)
        ensures
            final(self)@.type_info == ti_add_ns(old(self)@.type_info, fqn@, n@),
            final(self)@.current_namespace == old(self)@.current_namespace,
        decreases *n,
    {
        let ghost dsv = crate::cpp::ast::ctd_views(n.defs, 0);
        let ghost ti0 = self@.type_info;
        proof {
            crate::cpp::ast::lemma_ctd_views_index(n.defs, 0);
        }
        let mut i: usize = 0;
        while i < n.defs.len()
            invariant
                i <= n.defs@.len(),
                ti_add_defs(self@.type_info, fqn@, dsv, i as int) == ti_add_defs(ti0, fqn@, dsv, 0),
                self@.current_namespace == old(self)@.current_namespace,
            decreases n.defs@.len() - i,
        {
            proof {
                assert(dsv[i as int] == n.defs@[i as int]@);
            }
            self.set_type_info_from_complex_type_def(fqn, &n.defs[i]);
            i += 1;
        }
        proof {
            assert(ti_add_defs(self@.type_info, fqn@, dsv, dsv.len() as int) == self@.type_info);
        }
        let ghost prs = crate::cpp::ast::ns_pairs_views(n.namespaces, 0);
        let ghost ti1 = self@.type_info;
        proof {
            crate::cpp::ast::lemma_ns_pairs_views_index(n.namespaces, 0);
        }
        let mut j: usize = 0;
        while j < n.namespaces.len()
            invariant
                j <= n.namespaces@.len(),
                ti_add_pairs(self@.type_info, fqn@, prs, j as int) == ti_add_pairs(
                    ti1,
                    fqn@,
                    prs,
                    0,
                ),
                self@.current_namespace == old(self)@.current_namespace,
            decreases n.namespaces@.len() - j,
        {
            proof {
                assert(decreases_to!(*n => n.namespaces));
                assert(decreases_to!(n.namespaces => n.namespaces@[j as int]));
                assert(decreases_to!(n.namespaces@[j as int] => n.namespaces@[j as int].1));
                assert(prs[j as int] == (n.namespaces@[j as int].0@, n.namespaces@[j as int].1@));
            }
            let sub = fqn.with_appended(&n.namespaces[j].0);
            self.set_type_info_from_namespace(&sub, &n.namespaces[j].1);
            j += 1;
        }
        proof {
            assert(ti_add_pairs(self@.type_info, fqn@, prs, prs.len() as int) == self@.type_info);
        }
    }

    /// Records one compilation unit's whole namespace tree.
    pub fn set_type_info_from_file(&mut self, f: &crate::cpp::ast::CompilationUnit)
        ensures
            final(self)@.type_info == ti_add_ns(
                old(self)@.type_info,
                Seq::empty(),
                f@.namespace,
            ),
            final(self)@.current_namespace == old(self)@.current_namespace,
    {
        let root = FullyQualifiedName::empty();
        self.set_type_info_from_namespace(&root, &f.namespace);
    }

    /// Records every compilation unit of the output.
    #[verifier::loop_isolation(false)]
    pub fn set_type_info_from(&mut self, ast: &crate::cpp::ast::CppAst)
        ensures
            final(self)@.type_info == ti_add_units(
                old(self)@.type_info,
                crate::cpp::ast::units_views(ast.files@),
                0,
            ),
            final(self)@.current_namespace == old(self)@.current_namespace,
    {
        let ghost uv = crate::cpp::ast::units_views(ast.files@);
        let ghost ti0 = self@.type_info;
        let mut i: usize = 0;
        while i < ast.files.len()
            invariant
                i <= ast.files@.len(),
                ti_add_units(self@.type_info, uv, i as int) == ti_add_units(ti0, uv, 0),
                self@.current_namespace == old(self)@.current_namespace,
            decreases ast.files@.len() - i,
        {
            proof {
                assert(uv[i as int] == ast.files@[i as int]@);
            }
            self.set_type_info_from_file(&ast.files[i]);
            i += 1;
        }
        proof {
            assert(ti_add_units(self@.type_info, uv, uv.len() as int) == self@.type_info);
        }
    }
}

/// The knowledge after recording the units from position `i` on.
pub open spec fn ti_add_units(
    ti: Map<u64, TypeInfoV>,
    us: Seq<crate::cpp::ast::CompilationUnitV>,
    i: int,
) -> Map<u64, TypeInfoV>
    decreases us.len() - i,
{
    if i < 0 || i >= us.len() {
        ti
    } else {
        ti_add_units(ti_add_ns(ti, Seq::empty(), us[i].namespace), us, i + 1)
    }
}

/// The fully-qualified names a type expression uses: the definition a
/// reference names, as far as the context knows it, through vectors.
pub open spec fn used_by_type_spec(ti: Map<u64, TypeInfoV>, t: CppTypeV) -> Seq<Seq<NameV>>
    decreases t,
{
    match t {
        CppTypeV::RefId(id) => if ti.contains_key(id) {
            seq![ti[id].fqn]
        } else {
            Seq::empty()
        },
        CppTypeV::Vector(b) => used_by_type_spec(ti, *b),
        _ => Seq::empty(),
    }
}

/// Lists the fully-qualified names a type expression uses.
pub fn generate_all_types_used_by_cpp_type(ctx: &Context, cpp_type: &crate::cpp::ast::CppType) -> (r:
    Vec<FullyQualifiedName>)
    ensures
        fqns_views(r@) == used_by_type_spec(ctx@.type_info, cpp_type@),
    decreases *cpp_type,
{
    match cpp_type {
        crate::cpp::ast::CppType::RefId(id) => match ctx.type_info.get(id) {
            Some(info) => {
                proof {
                    assert(ctx@.type_info.contains_key(*id));
                    assert(ctx@.type_info[*id] == info@);
                }
                let mut r: Vec<FullyQualifiedName> = Vec::new();
                r.push(info.fqn.clone());
                proof {
                    assert(fqns_views(r@) =~= used_by_type_spec(ctx@.type_info, cpp_type@));
                }
                r
            },
            None => {
                proof {
                    assert(!ctx@.type_info.contains_key(*id));
                }
                let r: Vec<FullyQualifiedName> = Vec::new();
                proof {
                    assert(fqns_views(r@) =~= used_by_type_spec(ctx@.type_info, cpp_type@));
                }
                r
            },
        },
        crate::cpp::ast::CppType::Vector(b) => generate_all_types_used_by_cpp_type(ctx, &**b),
        _ => {
            let r: Vec<FullyQualifiedName> = Vec::new();
            proof {
                assert(fqns_views(r@) =~= used_by_type_spec(ctx@.type_info, cpp_type@));
            }
            r
        },
    }
}


/// The names each field's type uses, from position `i` on.
pub open spec fn used_fields(
    ti: Map<u64, TypeInfoV>,
    fs: Seq<crate::cpp::ast::FieldV>,
    i: int,
) -> Seq<Seq<NameV>>
    decreases fs.len() - i,
{
    if i < 0 || i >= fs.len() {
        Seq::empty()
    } else {
        used_by_type_spec(ti, fs[i].cpp_type) + used_fields(ti, fs, i + 1)
    }
}

/// The names the union's fields refer to directly, from position `i` on.
pub open spec fn union_used(
    ti: Map<u64, TypeInfoV>,
    fs: Seq<crate::cpp::ast::FieldV>,
    i: int,
) -> Seq<Seq<NameV>>
    decreases fs.len() - i,
{
    if i < 0 || i >= fs.len() {
        Seq::empty()
    } else {
        (match fs[i].cpp_type {
            CppTypeV::RefId(id) => if ti.contains_key(id) {
                seq![ti[id].fqn]
            } else {
                Seq::empty()
            },
            _ => Seq::empty(),
        }) + union_used(ti, fs, i + 1)
    }
}

/// A definition's own fully-qualified name, as far as the context knows
/// it.
pub open spec fn own_fqn(ti: Map<u64, TypeInfoV>, id: u64) -> Seq<Seq<NameV>> {
    if ti.contains_key(id) {
        seq![ti[id].fqn]
    } else {
        Seq::empty()
    }
}

/// Every fully-qualified name a definition uses: its fields' types, its
/// inner types recursively, its union members, and the definition itself.
pub open spec fn used_by_def_spec(
    ti: Map<u64, TypeInfoV>,
    d: crate::cpp::ast::ComplexTypeDefV,
) -> Seq<Seq<NameV>>
    decreases d, 0int,
{
    match d {
        crate::cpp::ast::ComplexTypeDefV::EnumClass(e) => own_fqn(ti, e.id),
        crate::cpp::ast::ComplexTypeDefV::Class(c) => used_fields(ti, c.fields, 0) + inners_used(
            ti,
            c.inner_types,
            0,
        ) + (match c.union {
            Some(u) => union_used(ti, u.fields, 0),
            None => Seq::empty(),
        }) + own_fqn(ti, c.id),
    }
}

/// What the inner definitions use, from position `i` on.
pub open spec fn inners_used(
    ti: Map<u64, TypeInfoV>,
    ds: Seq<crate::cpp::ast::ComplexTypeDefV>,
    i: int,
) -> Seq<Seq<NameV>>
    decreases ds, ds.len() - i + 1,
{
    if i < 0 || i >= ds.len() {
        Seq::empty()
    } else {
        used_by_def_spec(ti, ds[i]) + inners_used(ti, ds, i + 1)
    }
}

/// Lists every fully-qualified name a definition uses.
#[verifier::loop_isolation(false)]
pub fn generate_all_types_used_by_type(
    ctx: &Context,
    def: &crate::cpp::ast::ComplexTypeDef,
) -> (r: Vec<FullyQualifiedName>)
    ensures
        fqns_views(r@) == used_by_def_spec(ctx@.type_info, def@),
    decreases *def,
{
    let ghost ti = ctx@.type_info;
    let mut deps: Vec<FullyQualifiedName> = Vec::new();
    match def {
        crate::cpp::ast::ComplexTypeDef::EnumClass(e) => {
            match ctx.type_info.get(&e.id) {
                Some(info) => {
                    proof {
                        assert(ti.contains_key(e.id));
                        assert(ti[e.id] == info@);
                    }
                    deps.push(info.fqn.clone());
                },
                None => {
                    proof {
                        assert(!ti.contains_key(e.id));
                    }
                },
            }
            proof {
                assert(fqns_views(deps@) =~= used_by_def_spec(ti, def@));
            }
            deps
        },
        crate::cpp::ast::ComplexTypeDef::Class(c) => {
            let ghost fsv = crate::cpp::ast::fields_views(c.fields@);
            let mut i: usize = 0;
            while i < c.fields.len()
                invariant
                    i <= c.fields@.len(),
                    fqns_views(deps@) + used_fields(ti, fsv, i as int) =~= used_fields(
                        ti,
                        fsv,
                        0,
                    ),
                decreases c.fields@.len() - i,
            {
                let mut used = generate_all_types_used_by_cpp_type(ctx, &c.fields[i].cpp_type);
                let ghost before = fqns_views(deps@);
                deps.append(&mut used);
                proof {
                    assert(fsv[i as int] == c.fields@[i as int]@);
                    assert(fqns_views(deps@) =~= before + used_by_type_spec(
                        ti,
                        fsv[i as int].cpp_type,
                    ));
                    assert(fqns_views(deps@) + used_fields(ti, fsv, i as int + 1) =~= used_fields(
                        ti,
                        fsv,
                        0,
                    ));
                }
                i += 1;
            }
            proof {
                assert(used_fields(ti, fsv, fsv.len() as int) =~= Seq::<Seq<NameV>>::empty());
                assert(fqns_views(deps@) =~= used_fields(ti, fsv, 0));
            }
            let ghost dsv = crate::cpp::ast::ctd_views(c.inner_types, 0);
            proof {
                crate::cpp::ast::lemma_ctd_views_index(c.inner_types, 0);
            }
            let mut j: usize = 0;
            while j < c.inner_types.len()
                invariant
                    j <= c.inner_types@.len(),
                    fqns_views(deps@) + inners_used(ti, dsv, j as int) =~= used_fields(ti, fsv, 0)
                        + inners_used(ti, dsv, 0),
                decreases c.inner_types@.len() - j,
            {
                proof {
                    assert(decreases_to!(*def => *c));
                    assert(decreases_to!(*c => c.inner_types));
                    assert(decreases_to!(c.inner_types => c.inner_types@[j as int]));
                    assert(dsv[j as int] == c.inner_types@[j as int]@);
                }
                let mut used = generate_all_types_used_by_type(ctx, &c.inner_types[j]);
                let ghost before = fqns_views(deps@);
                deps.append(&mut used);
                proof {
                    assert(fqns_views(deps@) =~= before + used_by_def_spec(ti, dsv[j as int]));
                    assert(fqns_views(deps@) + inners_used(ti, dsv, j as int + 1) =~= used_fields(
                        ti,
                        fsv,
                        0,
                    ) + inners_used(ti, dsv, 0));
                }
                j += 1;
            }
            proof {
                assert(inners_used(ti, dsv, dsv.len() as int) =~= Seq::<Seq<NameV>>::empty());
                assert(fqns_views(deps@) =~= used_fields(ti, fsv, 0) + inners_used(ti, dsv, 0));
            }
            let ghost ufsv = (match c@.union {
                Some(u) => u.fields,
                None => Seq::<crate::cpp::ast::FieldV>::empty(),
            });
            match &c.union {
                Some(u) => {
                    let mut k: usize = 0;
                    while k < u.fields.len()
                        invariant
                            k <= u.fields@.len(),
                            ufsv == crate::cpp::ast::fields_views(u.fields@),
                            fqns_views(deps@) + union_used(ti, ufsv, k as int) =~= used_fields(
                                ti,
                                fsv,
                                0,
                            ) + inners_used(ti, dsv, 0) + union_used(ti, ufsv, 0),
                        decreases u.fields@.len() - k,
                    {
                        proof {
                            assert(ufsv[k as int] == u.fields@[k as int]@);
                        }
                        match &u.fields[k].cpp_type {
                            crate::cpp::ast::CppType::RefId(id) => {
                                match ctx.type_info.get(id) {
                                    Some(info) => {
                                        proof {
                                            assert(ti.contains_key(*id));
                                            assert(ti[*id] == info@);
                                        }
                                        deps.push(info.fqn.clone());
                                    },
                                    None => {
                                        proof {
                                            assert(!ti.contains_key(*id));
                                        }
                                    },
                                }
                            },
                            _ => {},
                        }
                        proof {
                            assert(fqns_views(deps@) + union_used(ti, ufsv, k as int + 1)
                                =~= used_fields(ti, fsv, 0) + inners_used(ti, dsv, 0) + union_used(
                                ti,
                                ufsv,
                                0,
                            ));
                        }
                        k += 1;
                    }
                    proof {
                        assert(union_used(ti, ufsv, ufsv.len() as int) =~= Seq::<
                            Seq<NameV>,
                        >::empty());
                    }
                },
                None => {
                    proof {
                        assert(union_used(ti, ufsv, 0) =~= Seq::<Seq<NameV>>::empty());
                    }
                },
            }
            proof {
                assert(fqns_views(deps@) =~= used_fields(ti, fsv, 0) + inners_used(ti, dsv, 0)
                    + union_used(ti, ufsv, 0));
            }
            match ctx.type_info.get(&c.id) {
                Some(info) => {
                    proof {
                        assert(ti.contains_key(c.id));
                        assert(ti[c.id] == info@);
                    }
                    deps.push(info.fqn.clone());
                },
                None => {
                    proof {
                        assert(!ti.contains_key(c.id));
                    }
                },
            }
            proof {
                assert(fqns_views(deps@) =~= used_by_def_spec(ti, def@));
            }
            deps
        },
    }
}

/// The sibling names kept from the used list: those directly inside the
/// definition's own namespace, at the definition's own depth.
pub open spec fn dep_filter(
    used: Seq<Seq<NameV>>,
    i: int,
    path: Seq<NameV>,
    plen: int,
) -> Seq<NameV>
    decreases used.len() - i,
{
    if i < 0 || i >= used.len() {
        Seq::empty()
    } else if path.is_prefix_of(used[i]) && used[i].len() == plen && plen > 0 {
        seq![used[i].last()] + dep_filter(used, i + 1, path, plen)
    } else {
        dep_filter(used, i + 1, path, plen)
    }
}

/// The sibling dependencies of one definition: every type it uses whose
/// fully-qualified name lies in the same namespace at the same depth,
/// reduced to the sibling's own name.
pub open spec fn dep_list_for_type_spec(
    ti: Map<u64, TypeInfoV>,
    d: crate::cpp::ast::ComplexTypeDefV,
) -> Seq<NameV> {
    if !ti.contains_key(crate::cpp::ast::ctd_id(d)) {
        Seq::empty()
    } else {
        let f = ti[crate::cpp::ast::ctd_id(d)].fqn;
        let path = if f.len() == 0 {
            f
        } else {
            f.take(f.len() - 1)
        };
        dep_filter(used_by_def_spec(ti, d), 0, path, f.len() as int)
    }
}

/// Lists the sibling names one definition depends on.
#[verifier::loop_isolation(false)]
pub fn generate_dependency_list_for_type(
    ctx: &Context,
    def: &crate::cpp::ast::ComplexTypeDef,
) -> (r: Vec<Name>)
    ensures
        names_views(r@) == dep_list_for_type_spec(ctx@.type_info, def@),
{
    let ghost ti = ctx@.type_info;
    let id = def.id();
    let info = match ctx.type_info.get(&id) {
        None => {
            proof {
                assert(!ti.contains_key(id));
            }
            let r: Vec<Name> = Vec::new();
            proof {
                assert(names_views(r@) =~= dep_list_for_type_spec(ti, def@));
            }
            return r;
        },
        Some(info) => {
            proof {
                assert(ti.contains_key(id));
                assert(ti[id] == info@);
            }
            info.clone()
        },
    };
    let def_path = info.fqn.parent();
    let def_len = info.fqn.names.len();
    let used = generate_all_types_used_by_type(ctx, def);
    let ghost usedv = fqns_views(used@);
    let ghost pathv = def_path@;
    let mut r: Vec<Name> = Vec::new();
    let mut i: usize = 0;
    proof {
        assert(names_views(r@) + dep_filter(usedv, 0, pathv, def_len as int) =~= dep_filter(
            usedv,
            0,
            pathv,
            def_len as int,
        ));
    }
    while i < used.len()
        invariant
            i <= used@.len(),
            names_views(r@) + dep_filter(usedv, i as int, pathv, def_len as int) =~= dep_filter(
                usedv,
                0,
                pathv,
                def_len as int,
            ),
        decreases used@.len() - i,
    {
        proof {
            assert(usedv[i as int] == used@[i as int]@);
        }
        if used[i].is_prefixed_by(&def_path) && used[i].names.len() == def_len && def_len > 0 {
            let last = used[i].names[used[i].names.len() - 1].clone();
            r.push(last);
            proof {
                assert(names_views(r@) + dep_filter(usedv, i as int + 1, pathv, def_len as int)
                    =~= dep_filter(usedv, 0, pathv, def_len as int));
            }
        }
        i += 1;
    }
    proof {
        assert(dep_filter(usedv, usedv.len() as int, pathv, def_len as int) =~= Seq::<
            NameV,
        >::empty());
        assert(names_views(r@) =~= dep_list_for_type_spec(ti, def@));
    }
    r
}

/// What the definitions of a namespace use, from position `i` on.
pub open spec fn defs_all_deps(
    ti: Map<u64, TypeInfoV>,
    ds: Seq<crate::cpp::ast::ComplexTypeDefV>,
    i: int,
) -> Seq<Seq<NameV>>
    decreases ds.len() - i,
{
    if i < 0 || i >= ds.len() {
        Seq::empty()
    } else {
        used_by_def_spec(ti, ds[i]) + defs_all_deps(ti, ds, i + 1)
    }
}

/// Every fully-qualified name used anywhere under a namespace: child
/// namespaces first, then the namespace's own definitions.
pub open spec fn ns_all_deps(ti: Map<u64, TypeInfoV>, n: NamespaceV) -> Seq<Seq<NameV>>
    decreases n, 0int,
{
    pairs_all_deps(ti, n.namespaces, 0) + defs_all_deps(ti, n.defs, 0)
}

/// What the child namespaces use, from position `i` on.
pub open spec fn pairs_all_deps(
    ti: Map<u64, TypeInfoV>,
    pairs: Seq<(NameV, NamespaceV)>,
    i: int,
) -> Seq<Seq<NameV>>
    decreases pairs, pairs.len() - i + 1,
{
    if i < 0 || i >= pairs.len() {
        Seq::empty()
    } else {
        ns_all_deps(ti, pairs[i].1) + pairs_all_deps(ti, pairs, i + 1)
    }
}

/// Lists every fully-qualified name used anywhere under a namespace.
#[verifier::loop_isolation(false)]
pub fn generate_all_type_dependencies_recursive(ctx: &Context, namespace: &Namespace) -> (r: Vec<
    FullyQualifiedName,
>)
    ensures
        fqns_views(r@) == ns_all_deps(ctx@.type_info, namespace@),
    decreases *namespace,
{
    let ghost ti = ctx@.type_info;
    let ghost prs = crate::cpp::ast::ns_pairs_views(namespace.namespaces, 0);
    proof {
        crate::cpp::ast::lemma_ns_pairs_views_index(namespace.namespaces, 0);
    }
    let mut deps: Vec<FullyQualifiedName> = Vec::new();
    let mut i: usize = 0;
    while i < namespace.namespaces.len()
        invariant
            i <= namespace.namespaces@.len(),
            fqns_views(deps@) + pairs_all_deps(ti, prs, i as int) =~= pairs_all_deps(ti, prs, 0),
        decreases namespace.namespaces@.len() - i,
    {
        proof {
            assert(decreases_to!(*namespace => namespace.namespaces));
            assert(decreases_to!(namespace.namespaces => namespace.namespaces@[i as int]));
            assert(decreases_to!(namespace.namespaces@[i as int] => namespace.namespaces@[i as int].1));
            assert(prs[i as int] == (
                namespace.namespaces@[i as int].0@,
                namespace.namespaces@[i as int].1@,
            ));
        }
        let mut used = generate_all_type_dependencies_recursive(ctx, &namespace.namespaces[i].1);
        let ghost before = fqns_views(deps@);
        deps.append(&mut used);
        proof {
            assert(fqns_views(deps@) =~= before + ns_all_deps(ti, prs[i as int].1));
            assert(fqns_views(deps@) + pairs_all_deps(ti, prs, i as int + 1) =~= pairs_all_deps(
                ti,
                prs,
                0,
            ));
        }
        i += 1;
    }
    proof {
        assert(pairs_all_deps(ti, prs, prs.len() as int) =~= Seq::<Seq<NameV>>::empty());
        assert(fqns_views(deps@) =~= pairs_all_deps(ti, prs, 0));
    }
    let ghost dsv = crate::cpp::ast::ctd_views(namespace.defs, 0);
    proof {
        crate::cpp::ast::lemma_ctd_views_index(namespace.defs, 0);
    }
    let mut j: usize = 0;
    while j < namespace.defs.len()
        invariant
            j <= namespace.defs@.len(),
            fqns_views(deps@) + defs_all_deps(ti, dsv, j as int) =~= pairs_all_deps(ti, prs, 0)
                + defs_all_deps(ti, dsv, 0),
        decreases namespace.defs@.len() - j,
    {
        proof {
            assert(dsv[j as int] == namespace.defs@[j as int]@);
        }
        let mut used = generate_all_types_used_by_type(ctx, &namespace.defs[j]);
        let ghost before = fqns_views(deps@);
        deps.append(&mut used);
        proof {
            assert(fqns_views(deps@) =~= before + used_by_def_spec(ti, dsv[j as int]));
            assert(fqns_views(deps@) + defs_all_deps(ti, dsv, j as int + 1) =~= pairs_all_deps(
                ti,
                prs,
                0,
            ) + defs_all_deps(ti, dsv, 0));
        }
        j += 1;
    }
    proof {
        assert(defs_all_deps(ti, dsv, dsv.len() as int) =~= Seq::<Seq<NameV>>::empty());
        assert(fqns_views(deps@) =~= ns_all_deps(ti, namespace@));
    }
    deps
}

/// The distinct names found one level below `flen` in the used list,
/// from position `i` on, in first-seen order.
pub open spec fn nsdep_fold(
    acc: Seq<NameV>,
    used: Seq<Seq<NameV>>,
    i: int,
    flen: int,
) -> Seq<NameV>
    decreases used.len() - i,
{
    if i < 0 || i >= used.len() {
        acc
    } else {
        let acc1 = if used[i].len() > flen && flen > 0 {
            if acc.contains(used[i][flen]) {
                acc
            } else {
                acc.push(used[i][flen])
            }
        } else {
            acc
        };
        nsdep_fold(acc1, used, i + 1, flen)
    }
}

/// The sibling child-namespace names that anything under `namespace`
/// depends on, relative to the namespace at `fqn`.
pub open spec fn dep_list_for_ns_spec(
    ti: Map<u64, TypeInfoV>,
    fqn: Seq<NameV>,
    n: NamespaceV,
) -> Seq<NameV> {
    nsdep_fold(Seq::empty(), ns_all_deps(ti, n), 0, fqn.len() as int)
}

/// Lists the sibling child-namespace names a namespace depends on.
#[verifier::loop_isolation(false)]
pub fn generate_dependency_list_for_namespaces(
    ctx: &Context,
    fqn: &FullyQualifiedName,
    namespace: &Namespace,
) -> (r: Vec<Name>)
    ensures
        names_views(r@) == dep_list_for_ns_spec(ctx@.type_info, fqn@, namespace@),
{
    let ghost ti = ctx@.type_info;
    let flen = fqn.names.len();
    let used = generate_all_type_dependencies_recursive(ctx, namespace);
    let ghost usedv = fqns_views(used@);
    let mut r: Vec<Name> = Vec::new();
    let mut i: usize = 0;
    proof {
        assert(names_views(r@) =~= Seq::<NameV>::empty());
    }
    while i < used.len()
        invariant
            i <= used@.len(),
            nsdep_fold(names_views(r@), usedv, i as int, flen as int) == nsdep_fold(
                Seq::empty(),
                usedv,
                0,
                flen as int,
            ),
        decreases used@.len() - i,
    {
        proof {
            assert(usedv[i as int] == used@[i as int]@);
        }
        let ghost before = names_views(r@);
        if used[i].names.len() > flen && flen > 0 {
            let depname = used[i].names[flen].clone();
            if !name_in(&r, &depname) {
                r.push(depname);
                proof {
                    assert(names_views(r@) =~= before.push(usedv[i as int][flen as int]));
                }
            }
        }
        i += 1;
    }
    proof {
        assert(nsdep_fold(names_views(r@), usedv, usedv.len() as int, flen as int) == names_views(
            r@,
        ));
    }
    r
}

} // verus!
