//! Sets of `u64` kept as vectors in increasing order, searched by bisection.
use vstd::prelude::*;

verus! {

/// Every element is at most the ones after it.
pub open spec fn sorted(s: Seq<u64>) -> bool {
    forall|i: int, j: int| 0 <= i < j < s.len() ==> s[i] <= s[j]
}

/// Every element is smaller than the ones after it.
pub open spec fn strictly_sorted(s: Seq<u64>) -> bool {
    forall|i: int, j: int| 0 <= i < j < s.len() ==> s[i] < s[j]
}

/// Bisection search for `x`. `Ok(i)` gives a position of `x`; `Err(i)` a
/// position where it is absent. On a sorted vector `Err(i)` means `x` does
/// not occur, and `i` is where it would have to be inserted.
pub fn binary_search(v: &Vec<u64>, x: u64) -> (r: Result<usize, usize>)
    ensures
        match r {
            Ok(i) => i < v@.len() && v@[i as int] == x,
            Err(i) => i <= v@.len(),
        },
        sorted(v@) ==> match r {
            Ok(_) => true,
            Err(i) => (forall|j: int| 0 <= j < i ==> v@[j] < x) && (forall|j: int|
                i <= j < v@.len() ==> v@[j] > x),
        },
{
    let mut lo: usize = 0;
    let mut hi: usize = v.len();
    while lo < hi
        invariant
            lo <= hi <= v@.len(),
            sorted(v@) ==> forall|j: int| 0 <= j < lo ==> v@[j] < x,
            sorted(v@) ==> forall|j: int| hi <= j < v@.len() ==> v@[j] > x,
        decreases hi - lo,
    {
        let mid = lo + (hi - lo) / 2;
        let m = v[mid];
        if m < x {
            lo = mid + 1;
        } else if m > x {
            hi = mid;
        } else {
            return Ok(mid);
        }
    }
    Err(lo)
}

/// Adds `x` at the position that bisection finds for it, unless bisection
/// finds `x` present.
pub fn sorted_insert(v: &mut Vec<u64>, x: u64)
    ensures
        final(v)@.contains(x),
        final(v)@ == old(v)@ || exists|i: int| 0 <= i <= old(v)@.len() && final(v)@ == old(v)@.insert(i, x),
        sorted(old(v)@) ==> sorted(final(v)@),
        strictly_sorted(old(v)@) ==> strictly_sorted(final(v)@),
        sorted(old(v)@) ==> (final(v)@ == old(v)@ <==> old(v)@.contains(x)),
{
    match binary_search(v, x) {
        Ok(i) => {
            assert(v@[i as int] == x);
        },
        Err(index) => {
            let ghost o = v@;
            v.insert(index, x);
            assert(v@[index as int] == x);
            proof {
                if sorted(o) {
                    assert(!o.contains(x));
                    assert(v@ != o) by {
                        if v@ == o {
                            assert(v@.len() == o.len() + 1);
                        }
                    }
                }
            }
        },
    }
}

/// Removes the occurrence of `x` that bisection finds, if it finds one.
pub fn sorted_remove(v: &mut Vec<u64>, x: u64)
    ensures
        final(v)@ == old(v)@ || exists|i: int| 0 <= i < old(v)@.len() && old(v)@[i] == x && final(v)@ == old(v)@.remove(i),
        sorted(old(v)@) ==> sorted(final(v)@),
        strictly_sorted(old(v)@) ==> strictly_sorted(final(v)@),
        sorted(old(v)@) ==> (final(v)@ == old(v)@ <==> !old(v)@.contains(x)),
{
    match binary_search(v, x) {
        Ok(index) => {
            let ghost o = v@;
            v.remove(index);
            assert(o[index as int] == x);
            assert(v@ != o) by {
                if v@ == o {
                    assert(v@.len() + 1 == o.len());
                }
            }
        },
        Err(_) => {},
    }
}

/// In a strictly sorted vector that lacks `x`, removing `x` after adding it
/// gives the vector back.
pub proof fn lemma_insert_then_remove(s: Seq<u64>, x: u64, inserted: Seq<u64>, removed: Seq<u64>)
    requires
        strictly_sorted(s),
        !s.contains(x),
        strictly_sorted(inserted),
        exists|i: int| 0 <= i <= s.len() && inserted == s.insert(i, x),
        exists|i: int| 0 <= i < inserted.len() && inserted[i] == x && removed == inserted.remove(i),
    ensures
        removed == s,
{
    let i = choose|i: int| 0 <= i <= s.len() && inserted == s.insert(i, x);
    let j = choose|j: int| 0 <= j < inserted.len() && inserted[j] == x && removed == inserted.remove(j);
    assert(inserted[i] == x);
    if i < j {
        assert(inserted[i] < inserted[j]);
    } else if j < i {
        assert(inserted[j] < inserted[i]);
    }
    assert(removed =~= s);
}

} // verus!
