//! Small generic helpers shared across the crate.

use vstd::prelude::*;

verus! {

/// Clones a vector of values whose `clone` returns the value itself.
pub fn clone_value_vec<T: Clone>(v: &Vec<T>) -> (r: Vec<T>)
    requires
        forall|x: T, y: T| call_ensures(T::clone, (&x,), y) ==> y == x,
    ensures
        r@ == v@,
{
    let mut r: Vec<T> = Vec::new();
    let mut i: usize = 0;
    while i < v.len()
        invariant
            i <= v.len(),
            r@ == v@.take(i as int),
            forall|x: T, y: T| call_ensures(T::clone, (&x,), y) ==> y == x,
        decreases v.len() - i,
    {
        let c = v[i].clone();
        r.push(c);
        proof {
            assert(r@ =~= v@.take(i + 1));
        }
        i += 1;
    }
    proof {
        assert(v@.take(v@.len() as int) =~= v@);
    }
    r
}

/// Clones a vector of values whose `clone` preserves the view.
pub fn clone_view_vec<T: Clone + View>(v: &Vec<T>) -> (r: Vec<T>)
    requires
        forall|x: T, y: T| call_ensures(T::clone, (&x,), y) ==> y@ == x@,
    ensures
        r@.len() == v@.len(),
        forall|i: int| 0 <= i < v@.len() ==> r@[i]@ == v@[i]@,
{
    let mut r: Vec<T> = Vec::new();
    let mut i: usize = 0;
    while i < v.len()
        invariant
            i <= v.len(),
            r@.len() == i,
            forall|j: int| 0 <= j < i ==> r@[j]@ == v@[j]@,
            forall|x: T, y: T| call_ensures(T::clone, (&x,), y) ==> y@ == x@,
        decreases v.len() - i,
    {
        let c = v[i].clone();
        r.push(c);
        i += 1;
    }
    r
}

} // verus!
