//! Spec-level vocabulary shared by the whole crate: sums over sequences
//! and the lemmas that track how a sum moves when one element changes.

use vstd::prelude::*;

verus! {

/// Sum of `f` over all elements of `s`.
pub open spec fn sum_by<T>(s: Seq<T>, f: spec_fn(T) -> int) -> int
    decreases s.len(),
{
    if s.len() == 0 {
        0
    } else {
        f(s[0]) + sum_by(s.drop_first(), f)
    }
}

/// Appending one element adds its contribution to the sum.
pub proof fn lemma_sum_by_push<T>(s: Seq<T>, f: spec_fn(T) -> int, v: T)
    ensures
        sum_by(s.push(v), f) == sum_by(s, f) + f(v),
    decreases s.len(),
{
    if s.len() == 0 {
        assert(s.push(v).drop_first() =~= Seq::<T>::empty());
        assert(s.push(v)[0] == v);
        assert(sum_by(s.push(v).drop_first(), f) == 0);
    } else {
        assert(s.push(v).drop_first() =~= s.drop_first().push(v));
        assert(s.push(v)[0] == s[0]);
        lemma_sum_by_push(s.drop_first(), f, v);
    }
}

/// Replacing one element moves the sum by the difference of the
/// contributions.
pub proof fn lemma_sum_by_update<T>(s: Seq<T>, f: spec_fn(T) -> int, i: int, v: T)
    requires
        0 <= i < s.len(),
    ensures
        sum_by(s.update(i, v), f) == sum_by(s, f) - f(s[i]) + f(v),
    decreases s.len(),
{
    if i == 0 {
        assert(s.update(0, v).drop_first() =~= s.drop_first());
    } else {
        assert(s.update(i, v).drop_first() =~= s.drop_first().update(i - 1, v));
        lemma_sum_by_update(s.drop_first(), f, i - 1, v);
    }
}

/// When every contribution is nonnegative, the sum dominates each single
/// contribution.
pub proof fn lemma_sum_by_bounds_elem<T>(s: Seq<T>, f: spec_fn(T) -> int, i: int)
    requires
        0 <= i < s.len(),
        forall|j: int| 0 <= j < s.len() ==> f(#[trigger] s[j]) >= 0,
    ensures
        sum_by(s, f) >= f(s[i]),
    decreases s.len(),
{
    if i == 0 {
        lemma_sum_by_nonneg(s.drop_first(), f);
    } else {
        assert(forall|j: int|
            0 <= j < s.drop_first().len() ==> f(#[trigger] s.drop_first()[j]) >= 0);
        lemma_sum_by_bounds_elem(s.drop_first(), f, i - 1);
    }
}

/// A sum of nonnegative contributions is nonnegative.
pub proof fn lemma_sum_by_nonneg<T>(s: Seq<T>, f: spec_fn(T) -> int)
    requires
        forall|j: int| 0 <= j < s.len() ==> f(#[trigger] s[j]) >= 0,
    ensures
        sum_by(s, f) >= 0,
    decreases s.len(),
{
    if s.len() > 0 {
        assert(forall|j: int|
            0 <= j < s.drop_first().len() ==> f(#[trigger] s.drop_first()[j]) >= 0);
        lemma_sum_by_nonneg(s.drop_first(), f);
    }
}

/// A sum of all-zero contributions is zero.
pub proof fn lemma_sum_by_zero<T>(s: Seq<T>, f: spec_fn(T) -> int)
    requires
        forall|j: int| 0 <= j < s.len() ==> f(#[trigger] s[j]) == 0,
    ensures
        sum_by(s, f) == 0,
    decreases s.len(),
{
    if s.len() > 0 {
        assert(forall|j: int|
            0 <= j < s.drop_first().len() ==> f(#[trigger] s.drop_first()[j]) == 0);
        lemma_sum_by_zero(s.drop_first(), f);
    }
}

/// A three-element sum, written out.
pub proof fn lemma_sum_by_three<T>(s: Seq<T>, f: spec_fn(T) -> int)
    requires
        s.len() == 3,
    ensures
        sum_by(s, f) == f(s[0]) + f(s[1]) + f(s[2]),
{
    assert(s.drop_first()[0] == s[1]);
    assert(s.drop_first().drop_first()[0] == s[2]);
    assert(s.drop_first().drop_first().drop_first() =~= Seq::<T>::empty());
    assert(sum_by(s.drop_first().drop_first().drop_first(), f) == 0);
    assert(sum_by(s.drop_first().drop_first(), f) == f(s[2]));
    assert(sum_by(s.drop_first(), f) == f(s[1]) + f(s[2]));
}

/// With nonnegative contributions, a prefix never sums to more than the
/// whole sequence.
pub proof fn lemma_sum_by_prefix_le<T>(s: Seq<T>, f: spec_fn(T) -> int, j: int)
    requires
        0 <= j <= s.len(),
        forall|k: int| 0 <= k < s.len() ==> f(#[trigger] s[k]) >= 0,
    ensures
        sum_by(s.take(j), f) <= sum_by(s, f),
    decreases s.len(),
{
    if j == 0 {
        assert(s.take(0) =~= Seq::<T>::empty());
        lemma_sum_by_nonneg(s, f);
    } else {
        assert(s.take(j)[0] == s[0]);
        assert(s.take(j).drop_first() =~= s.drop_first().take(j - 1));
        assert(forall|k: int|
            0 <= k < s.drop_first().len() ==> f(#[trigger] s.drop_first()[k]) >= 0);
        lemma_sum_by_prefix_le(s.drop_first(), f, j - 1);
    }
}

} // verus!
