//! Search for a run of elements inside a slice.

use vstd::prelude::*;
use vstd::std_specs::cmp::PartialEqSpec;

verus! {

/// Whether `needle` occurs in `haystack` starting at position `at`, comparing elements with
/// the element type's own equality.
pub open spec fn occurs_at<A: PartialEq>(haystack: Seq<A>, needle: Seq<A>, at: int) -> bool {
    &&& 0 <= at
    &&& at + needle.len() <= haystack.len()
    &&& forall|k: int| 0 <= k < needle.len() ==> (#[trigger] haystack[at + k]).eq_spec(&needle[k])
}

/// Whether the first `n` elements of `needle` agree with `haystack` from position `at` on.
pub open spec fn prefix_occurs_at<A: PartialEq>(
    haystack: Seq<A>,
    needle: Seq<A>,
    at: int,
    n: int,
) -> bool {
    forall|k: int| 0 <= k < n ==> (#[trigger] haystack[at + k]).eq_spec(&needle[k])
}

/// Compares `b` with the window of `a` that starts at `at`.
fn window_eq<A: Eq>(a: &[A], b: &[A], at: usize) -> (r: bool)
    requires
        at + b.len() <= a.len(),
    ensures
        A::obeys_eq_spec() ==> r == occurs_at(a@, b@, at as int),
{
    let mut k: usize = 0;
    while k < b.len()
        invariant
            k <= b.len(),
            at + b.len() <= a.len(),
            A::obeys_eq_spec() ==> prefix_occurs_at(a@, b@, at as int, k as int),
        decreases b.len() - k,
    {
        if !(a[at + k] == b[k]) {
            assert(A::obeys_eq_spec() ==> !(a@[at + k]).eq_spec(&b@[k as int]));
            return false;
        }
        k += 1;
    }
    true
}

/// Finds the first position at which `b` occurs in `a`.
///
/// Returns `Some(i)` for the smallest `i` such that `a[i..i + b.len()]` equals `b`, and
/// `None` when `b` occurs nowhere in `a`. An empty `b` occurs at position 0.
pub fn memfind<A: Eq>(a: &[A], b: &[A]) -> (r: Option<usize>)
    requires
        a.len() >= b.len(),
    ensures
        A::obeys_eq_spec() ==> match r {
            Some(i) => {
                &&& occurs_at(a@, b@, i as int)
                &&& forall|j: int| 0 <= j < i ==> !occurs_at(a@, b@, j)
            },
            None => forall|j: int| !occurs_at(a@, b@, j),
        },
{
    let last: usize = a.len() - b.len();
    let mut i: usize = 0;
    loop
        invariant
            i <= last,
            last == a.len() - b.len(),
            A::obeys_eq_spec() ==> forall|j: int| 0 <= j < i ==> !occurs_at(a@, b@, j),
        decreases last - i,
    {
        if window_eq(a, b, i) {
            return Some(i);
        }
        if i == last {
            return None;
        }
        i += 1;
    }
}

} // verus!
