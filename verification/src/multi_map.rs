//! Trusted interface to the `multimap` crate, which keeps, for every key,
//! the vector of all values inserted under it. The pipeline uses it to
//! group schema nodes by their parent scope.

use vstd::prelude::*;
use multimap::MultiMap;

verus! {

#[verifier::external_type_specification]
#[verifier::external_body]
#[verifier::reject_recursive_types(K)]
#[verifier::reject_recursive_types(V)]
#[verifier::reject_recursive_types(S)]
pub struct ExMultiMap<K, V, S>(multimap::MultiMap<K, V, S>);

/// The multimap instantiation the pipeline uses: node ids grouped by
/// their parent scope id.
pub type IdMultiMap = MultiMap<u64, u64>;

/// The contents of a multimap that holds nothing.
pub open spec fn mm_empty() -> Map<u64, Seq<u64>> {
    Map::empty()
}

/// Relies on `multimap::MultiMap::with_capacity`: the new multimap holds
/// nothing, whatever space was set aside.
#[verifier::external_body]
pub fn mm_with_capacity(capacity: usize) -> (created: IdMultiMap)
    ensures
        mm_view(created) == mm_empty(),
{
    multimap::MultiMap::with_capacity(capacity)
}

/// Relies on `multimap::MultiMap::insert`: the value is pushed onto the
/// key's vector, or starts a fresh one-element vector.
#[verifier::external_body]
pub fn mm_insert(m: &mut MultiMap<u64, u64>, k: u64, v: u64)
    ensures
        mm_view(*final(m)) == if mm_view(*old(m)).contains_key(k) {
            mm_view(*old(m)).insert(k, mm_view(*old(m))[k].push(v))
        } else {
            mm_view(*old(m)).insert(k, seq![v])
        },
{
    m.insert(k, v)
}

/// Relies on `multimap::MultiMap::get_vec`: the vector of values under the
/// key, or nothing when the key was never inserted.
#[verifier::external_body]
pub fn mm_get_vec<'a>(m: &'a MultiMap<u64, u64>, k: &u64) -> (r: Option<&'a Vec<u64>>)
    ensures
        match r {
            Some(vs) => mm_view(*m).contains_key(*k) && vs@ == mm_view(*m)[*k],
            None => !mm_view(*m).contains_key(*k),
        },
{
    m.get_vec(k)
}

/// What an id multimap holds: for each key present, the values inserted
/// under it, in insertion order.
pub uninterp spec fn mm_view(m: MultiMap<u64, u64>) -> Map<u64, Seq<u64>>;

} // verus!
