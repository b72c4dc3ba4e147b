//! Drawing derangements by rejection.
use vstd::prelude::*;
use vstd::std_specs::cmp::PartialEqSpec;
use vstd::seq_lib::{to_multiset_contains, to_multiset_len};
use rand::rngs::StdRng;
use crate::positions::{any_eq, extended_any_eq, clash, extended_clash};
use crate::random::permute;

verus! {

/// `c` holds, position by position, a clone of each element of `s`.
pub open spec fn copies_of<T: Clone>(c: Seq<T>, s: Seq<T>) -> bool {
    &&& c.len() == s.len()
    &&& forall|i: int| 0 <= i < s.len() ==> cloned(s[i], #[trigger] c[i])
}

/// `r` is a rearrangement of clones of the elements of `s`: each element of a
/// copy of `s` occurs in `r` as often as in that copy.
pub open spec fn is_shuffle_of<T: Clone>(r: Seq<T>, s: Seq<T>) -> bool {
    exists|c: Seq<T>| #[trigger] copies_of(c, s) && c.to_multiset() == r.to_multiset()
}

/// A fresh vector holding a clone of each element of `s`, in order.
fn copy_of<T: Clone>(s: &[T]) -> (v: Vec<T>)
    ensures
        copies_of(v@, s@),
{
    let mut v: Vec<T> = Vec::new();
    let mut i: usize = 0;
    while i < s.len()
        invariant
            i <= s@.len(),
            v@.len() == i,
            forall|j: int| 0 <= j < i ==> cloned(s@[j], #[trigger] v@[j]),
        decreases s@.len() - i,
    {
        let x = s[i].clone();
        v.push(x);
        i = i + 1;
    }
    v
}

/// Shuffles a copy of `s` until no position holds an element equal to the one
/// `s` holds there, drawing at most `max_attempts` permutations from `rng`.
/// Gives `None` when every draw allowed failed.
pub fn shuffle_within<T: PartialEq + Clone>(rng: &mut StdRng, s: &[T], max_attempts: u64) -> (r:
    Option<Vec<T>>)
    requires
        T::obeys_eq_spec(),
    ensures
        s@.len() == 0 ==> (r is Some && r->0@.len() == 0),
        match r {
            Some(v) => v@.len() == s@.len() && is_shuffle_of(v@, s@) && !clash(v@, s@),
            None => s@.len() > 0,
        },
{
    let mut v = copy_of(s);
    let ghost c = v@;
    let mut attempts: u64 = 0;
    while any_eq(v.as_slice(), s)
        invariant
            T::obeys_eq_spec(),
            copies_of(c, s@),
            v@.len() == s@.len(),
            v@.to_multiset() == c.to_multiset(),
            attempts <= max_attempts,
        decreases max_attempts - attempts,
    {
        if attempts == max_attempts {
            return None;
        }
        permute(rng, &mut v);
        attempts = attempts + 1;
    }
    assert(copies_of(c, s@) && c.to_multiset() == v@.to_multiset());
    Some(v)
}

/// Shuffles a copy of `s` until no position holds an element equal to the one
/// `s` holds there. The number of draws is bounded only by `u64::MAX`: on an
/// input that has no derangement it does not come back in any useful time,
/// and `None` marks that bound reached.
pub fn shuffle<T: PartialEq + Clone>(r: &mut StdRng, s: &[T]) -> (res: Option<Vec<T>>)
    requires
        T::obeys_eq_spec(),
    ensures
        s@.len() == 0 ==> (res is Some && res->0@.len() == 0),
        match res {
            Some(v) => v@.len() == s@.len() && is_shuffle_of(v@, s@) && !clash(v@, s@),
            None => s@.len() > 0,
        },
{
    shuffle_within(r, s, u64::MAX)
}

/// Shuffles a copy of `s` until no position holds an element equal to the one
/// `s` or `p` holds there, drawing at most `max_attempts` permutations from
/// `rng`. Gives `None` when every draw allowed failed.
pub fn extended_shuffle_within<T: PartialEq + Clone>(
    rng: &mut StdRng,
    s: &[T],
    p: &[T],
    max_attempts: u64,
) -> (r: Option<Vec<T>>)
    requires
        T::obeys_eq_spec(),
        p@.len() == s@.len(),
    ensures
        s@.len() == 0 ==> (r is Some && r->0@.len() == 0),
        match r {
            Some(v) => v@.len() == s@.len() && is_shuffle_of(v@, s@) && !extended_clash(v@, s@, p@),
            None => s@.len() > 0,
        },
{
    let mut v = copy_of(s);
    let ghost c = v@;
    let mut attempts: u64 = 0;
    while extended_any_eq(v.as_slice(), s, p)
        invariant
            T::obeys_eq_spec(),
            p@.len() == s@.len(),
            copies_of(c, s@),
            v@.len() == s@.len(),
            v@.to_multiset() == c.to_multiset(),
            attempts <= max_attempts,
        decreases max_attempts - attempts,
    {
        if attempts == max_attempts {
            return None;
        }
        permute(rng, &mut v);
        attempts = attempts + 1;
    }
    assert(copies_of(c, s@) && c.to_multiset() == v@.to_multiset());
    Some(v)
}

/// Shuffles a copy of `s` until no position holds an element equal to the one
/// `s` or `p` holds there. The number of draws is bounded only by `u64::MAX`,
/// as for `shuffle`.
pub fn extended_shuffle<T: PartialEq + Clone>(r: &mut StdRng, s: &[T], p: &[T]) -> (res: Option<
    Vec<T>,
>)
    requires
        T::obeys_eq_spec(),
        p@.len() == s@.len(),
    ensures
        s@.len() == 0 ==> (res is Some && res->0@.len() == 0),
        match res {
            Some(v) => v@.len() == s@.len() && is_shuffle_of(v@, s@) && !extended_clash(v@, s@, p@),
            None => s@.len() > 0,
        },
{
    extended_shuffle_within(r, s, p, u64::MAX)
}

/// Where cloning a `T` gives back an equal value, a shuffle of `s` holds
/// exactly the elements of `s`, each as often as `s` holds it.
pub proof fn lemma_shuffle_keeps_elements<T: Clone>(r: Seq<T>, s: Seq<T>)
    requires
        is_shuffle_of(r, s),
        forall|a: T, b: T| #[trigger] cloned(a, b) ==> a == b,
    ensures
        r.to_multiset() == s.to_multiset(),
        r.len() == s.len(),
{
    let c = choose|c: Seq<T>| #[trigger] copies_of(c, s) && c.to_multiset() == r.to_multiset();
    assert(c =~= s);
    to_multiset_len(r);
    to_multiset_len(s);
}

/// A sequence of one element that equals itself has no derangement: every
/// shuffle of it clashes with it, so a bounded shuffle of it never succeeds.
pub proof fn lemma_single_element_clashes<T: PartialEq + Clone>(r: Seq<T>, s: Seq<T>)
    requires
        s.len() == 1,
        s[0].eq_spec(&s[0]),
        forall|a: T, b: T| #[trigger] cloned(a, b) ==> a == b,
        is_shuffle_of(r, s),
    ensures
        clash(r, s),
{
    lemma_shuffle_keeps_elements(r, s);
    let x = r[0];
    assert(r.contains(x)) by {
        assert(r[0] == x);
    }
    to_multiset_contains(r, x);
    to_multiset_contains(s, x);
    let j = choose|j: int| 0 <= j < s.len() && s[j] == x;
    assert(j == 0);
    assert(r[0].eq_spec(&s[0]));
}

} // verus!
