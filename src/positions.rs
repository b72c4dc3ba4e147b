//! Position-wise comparison of sequences.
use vstd::prelude::*;
use vstd::std_specs::cmp::PartialEqSpec;

verus! {

/// Some position below `a.len()` holds equal elements in `a` and `b`.
pub open spec fn clash<T: PartialEq>(a: Seq<T>, b: Seq<T>) -> bool {
    exists|i: int| 0 <= i < a.len() && #[trigger] a[i].eq_spec(&b[i])
}

/// Some position below `a.len()` holds in `a` an element equal to the one
/// `b` or `c` holds there.
pub open spec fn extended_clash<T: PartialEq>(a: Seq<T>, b: Seq<T>, c: Seq<T>) -> bool {
    exists|i: int| 0 <= i < a.len() && (a[i].eq_spec(&b[i]) || a[i].eq_spec(&c[i]))
}

/// Whether some position of `a` holds an element equal to the one at the same
/// position of `b`.
pub fn any_eq<T: PartialEq>(a: &[T], b: &[T]) -> (r: bool)
    requires
        a@.len() <= b@.len(),
        T::obeys_eq_spec(),
    ensures
        r == clash(a@, b@),
{
    let mut i: usize = 0;
    while i < a.len()
        invariant
            i <= a@.len() <= b@.len(),
            T::obeys_eq_spec(),
            forall|j: int| 0 <= j < i ==> !(#[trigger] a@[j].eq_spec(&b@[j])),
        decreases a@.len() - i,
    {
        if a[i] == b[i] {
            return true;
        }
        i = i + 1;
    }
    false
}

/// Whether some position of `a` holds an element equal to the one at the same
/// position of `b` or of `c`.
pub fn extended_any_eq<T: PartialEq>(a: &[T], b: &[T], c: &[T]) -> (r: bool)
    requires
        a@.len() <= b@.len(),
        a@.len() <= c@.len(),
        T::obeys_eq_spec(),
    ensures
        r == extended_clash(a@, b@, c@),
{
    let mut i: usize = 0;
    while i < a.len()
        invariant
            i <= a@.len() <= b@.len(),
            a@.len() <= c@.len(),
            T::obeys_eq_spec(),
            forall|j: int| 0 <= j < i ==> !(#[trigger] a@[j].eq_spec(&b@[j])),
            forall|j: int| 0 <= j < i ==> !(#[trigger] a@[j].eq_spec(&c@[j])),
        decreases a@.len() - i,
    {
        if a[i] == b[i] {
            return true;
        }
        if a[i] == c[i] {
            return true;
        }
        i = i + 1;
    }
    false
}

} // verus!
