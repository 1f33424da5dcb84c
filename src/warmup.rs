//! Small vector exercises: shifting every element, and keeping the first
//! occurrence of each value.

use std::collections::HashSet;
use vstd::prelude::*;

verus! {

broadcast use vstd::std_specs::hash::group_hash_axioms;

/// Adding `n` to every element stays within `i32`.
pub open spec fn fits_after_add(v: Seq<i32>, n: i32) -> bool {
    forall|i: int| 0 <= i < v.len() ==> i32::MIN <= #[trigger] v[i] + n <= i32::MAX
}

/// A copy of `v` with `n` added to every element.
pub fn add_n(v: Vec<i32>, n: i32) -> (r: Vec<i32>)
    requires
        fits_after_add(v@, n),
    ensures
        r@.len() == v@.len(),
        forall|i: int| 0 <= i < v@.len() ==> #[trigger] r@[i] == v@[i] + n,
{
    let mut v2 = v.clone();
    add_n_inplace(&mut v2, n);
    v2
}

/// Adds `n` to every element of `v`.
pub fn add_n_inplace(v: &mut Vec<i32>, n: i32)
    requires
        fits_after_add(old(v)@, n),
    ensures
        final(v)@.len() == old(v)@.len(),
        forall|i: int| 0 <= i < old(v)@.len() ==> #[trigger] final(v)@[i] == old(v)@[i] + n,
{
    let len = v.len();
    let mut i: usize = 0;
    while i < len
        invariant
            len == v@.len(),
            len == old(v)@.len(),
            i <= len,
            fits_after_add(old(v)@, n),
            forall|k: int| 0 <= k < i ==> #[trigger] v@[k] == old(v)@[k] + n,
            forall|k: int| i <= k < len ==> #[trigger] v@[k] == old(v)@[k],
        decreases len - i,
    {
        let x = v[i] + n;
        v.set(i, x);
        i = i + 1;
    }
}

/// `s` with every value after its first occurrence removed.
pub open spec fn first_occurrences(s: Seq<i32>) -> Seq<i32>
    decreases s.len(),
{
    if s.len() == 0 {
        s
    } else {
        let kept = first_occurrences(s.drop_last());
        if s.drop_last().contains(s.last()) {
            kept
        } else {
            kept.push(s.last())
        }
    }
}

/// Removes every value that already occurred earlier in `v`, keeping the
/// order of the rest.
pub fn dedup(v: &mut Vec<i32>)
    ensures
        final(v)@ == first_occurrences(old(v)@),
{
    let mut seen: HashSet<i32> = HashSet::new();
    let mut out: Vec<i32> = Vec::new();
    let len = v.len();
    let mut i: usize = 0;
    while i < len
        invariant
            len == v@.len(),
            v@ == old(v)@,
            i <= len,
            out@ == first_occurrences(v@.take(i as int)),
            forall|x: i32| #[trigger] seen@.contains(x) <==> v@.take(i as int).contains(x),
        decreases len - i,
    {
        let x = v[i];
        let ghost prefix = v@.take(i as int);
        assert(v@.take(i + 1).drop_last() =~= prefix);
        assert(v@.take(i + 1).last() == x);
        if !seen.contains(&x) {
            out.push(x);
        }
        seen.insert(x);
        proof {
            let ghost next = v@.take(i + 1);
            assert forall|y: i32| #[trigger] seen@.contains(y) <==> next.contains(y) by {
                if next.contains(y) && y != x {
                    let k = choose|k: int| 0 <= k < i + 1 && #[trigger] next[k] == y;
                    assert(prefix[k] == y);
                }
                if prefix.contains(y) {
                    let k = choose|k: int| 0 <= k < i && #[trigger] prefix[k] == y;
                    assert(next[k] == y);
                }
                if y == x {
                    assert(next[i as int] == x);
                }
            }
        }
        i = i + 1;
    }
    assert(v@.take(len as int) =~= v@);
    *v = out;
}

} // verus!
