use vstd::prelude::*;

verus! {

/// The sum of `f` over the items of `s`.
pub open spec fn total<T>(s: Seq<T>, f: spec_fn(T) -> int) -> int
    decreases s.len(),
{
    if s.len() == 0 {
        0
    } else {
        total(s.drop_last(), f) + f(s.last())
    }
}

pub proof fn lemma_total_push<T>(s: Seq<T>, x: T, f: spec_fn(T) -> int)
    ensures
        total(s.push(x), f) == total(s, f) + f(x),
{
    assert(s.push(x).drop_last() =~= s);
}

pub proof fn lemma_total_update<T>(s: Seq<T>, i: int, x: T, f: spec_fn(T) -> int)
    requires
        0 <= i < s.len(),
    ensures
        total(s.update(i, x), f) == total(s, f) - f(s[i]) + f(x),
    decreases s.len(),
{
    if i == s.len() - 1 {
        assert(s.update(i, x).drop_last() =~= s.drop_last());
    } else {
        lemma_total_update(s.drop_last(), i, x, f);
        assert(s.update(i, x).drop_last() =~= s.drop_last().update(i, x));
    }
}

/// A sum of pointwise smaller terms is smaller.
pub proof fn lemma_total_le<T>(s: Seq<T>, f: spec_fn(T) -> int, g: spec_fn(T) -> int)
    requires
        forall|j: int| 0 <= j < s.len() ==> f(#[trigger] s[j]) <= g(s[j]),
    ensures
        total(s, f) <= total(s, g),
    decreases s.len(),
{
    if s.len() > 0 {
        lemma_total_le(s.drop_last(), f, g);
    }
}

/// Sums add term by term.
pub proof fn lemma_total_add<T>(
    s: Seq<T>,
    f: spec_fn(T) -> int,
    g: spec_fn(T) -> int,
    h: spec_fn(T) -> int,
)
    requires
        forall|j: int| 0 <= j < s.len() ==> h(#[trigger] s[j]) == f(s[j]) + g(s[j]),
    ensures
        total(s, h) == total(s, f) + total(s, g),
    decreases s.len(),
{
    if s.len() > 0 {
        lemma_total_add(s.drop_last(), f, g, h);
    }
}

/// A sum of terms that are each at most one is at most the number of terms.
pub proof fn lemma_total_at_most_len<T>(s: Seq<T>, f: spec_fn(T) -> int)
    requires
        forall|j: int| 0 <= j < s.len() ==> f(#[trigger] s[j]) <= 1,
    ensures
        total(s, f) <= s.len(),
    decreases s.len(),
{
    if s.len() > 0 {
        lemma_total_at_most_len(s.drop_last(), f);
    }
}

/// Among terms that are not negative, each is at most the sum.
pub proof fn lemma_total_bounds_term<T>(s: Seq<T>, f: spec_fn(T) -> int, i: int)
    requires
        forall|j: int| 0 <= j < s.len() ==> f(#[trigger] s[j]) >= 0,
        0 <= i < s.len(),
    ensures
        0 <= f(s[i]) <= total(s, f),
    decreases s.len(),
{
    lemma_total_nonneg(s.drop_last(), f);
    if i < s.len() - 1 {
        lemma_total_bounds_term(s.drop_last(), f, i);
    }
}

pub proof fn lemma_total_nonneg<T>(s: Seq<T>, f: spec_fn(T) -> int)
    requires
        forall|j: int| 0 <= j < s.len() ==> f(#[trigger] s[j]) >= 0,
    ensures
        0 <= total(s, f),
    decreases s.len(),
{
    if s.len() > 0 {
        lemma_total_nonneg(s.drop_last(), f);
    }
}

} // verus!
