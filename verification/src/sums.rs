//! Summation of an integer-valued function over a finite set.

use vstd::prelude::*;
use vstd::set::fold::is_fun_commutative;
use vstd::set::fold::lemma_fold_empty;
use vstd::set::fold::lemma_fold_insert;
use vstd::set_lib::lemma_set_empty_equivalency_len;

verus! {

/// The sum of `f` over the finite set `s`.
pub open spec fn sum_over<A>(s: Set<A>, f: spec_fn(A) -> int) -> int {
    s.fold(0, |acc: int, x: A| acc + f(x))
}

pub proof fn lemma_sum_empty<A>(f: spec_fn(A) -> int)
    ensures
        sum_over(Set::<A>::empty(), f) == 0,
{
    lemma_fold_empty(0, |acc: int, x: A| acc + f(x));
}

pub proof fn lemma_sum_insert<A>(s: Set<A>, f: spec_fn(A) -> int, x: A)
    requires
        s.finite(),
        !s.contains(x),
    ensures
        sum_over(s.insert(x), f) == sum_over(s, f) + f(x),
{
    let g = |acc: int, y: A| acc + f(y);
    assert(is_fun_commutative(g));
    lemma_fold_insert(s, 0, g, x);
}

pub proof fn lemma_sum_remove<A>(s: Set<A>, f: spec_fn(A) -> int, x: A)
    requires
        s.finite(),
        s.contains(x),
    ensures
        sum_over(s, f) == sum_over(s.remove(x), f) + f(x),
{
    let s0 = s.remove(x);
    assert(s0.insert(x) =~= s);
    lemma_sum_insert(s0, f, x);
}

pub proof fn lemma_sum_nonneg<A>(s: Set<A>, f: spec_fn(A) -> int)
    requires
        s.finite(),
        forall|x: A| s.contains(x) ==> f(x) >= 0,
    ensures
        sum_over(s, f) >= 0,
    decreases s.len(),
{
    if s.len() == 0 {
        lemma_set_empty_equivalency_len(s);
        assert(s =~= Set::<A>::empty());
        lemma_sum_empty(f);
    } else {
        let x = s.choose();
        assert(s.contains(x));
        lemma_sum_remove(s, f, x);
        lemma_sum_nonneg(s.remove(x), f);
    }
}

pub proof fn lemma_sum_congruent<A>(s: Set<A>, f: spec_fn(A) -> int, g: spec_fn(A) -> int)
    requires
        s.finite(),
        forall|x: A| s.contains(x) ==> f(x) == g(x),
    ensures
        sum_over(s, f) == sum_over(s, g),
    decreases s.len(),
{
    if s.len() == 0 {
        lemma_set_empty_equivalency_len(s);
        assert(s =~= Set::<A>::empty());
        lemma_sum_empty(f);
        lemma_sum_empty(g);
    } else {
        let x = s.choose();
        assert(s.contains(x));
        lemma_sum_remove(s, f, x);
        lemma_sum_remove(s, g, x);
        lemma_sum_congruent(s.remove(x), f, g);
    }
}

/// Each element of a set of non-negative contributions is bounded by the sum.
pub proof fn lemma_sum_element_bound<A>(s: Set<A>, f: spec_fn(A) -> int, x: A)
    requires
        s.finite(),
        s.contains(x),
        forall|y: A| s.contains(y) ==> f(y) >= 0,
    ensures
        f(x) <= sum_over(s, f),
{
    lemma_sum_remove(s, f, x);
    lemma_sum_nonneg(s.remove(x), f);
}

} // verus!
