//! Sequence helpers shared by the feature enumerations.

use vstd::prelude::*;

verus! {

/// The values `f` keeps from `s`, in order: each element `a` contributes
/// `b` when `f(a) == Some(b)` and nothing when `f(a) == None`.
pub open spec fn spec_collect<A, B>(s: Seq<A>, f: spec_fn(A) -> Option<B>) -> Seq<B>
    decreases s.len(),
{
    if s.len() == 0 {
        Seq::empty()
    } else {
        let prev = spec_collect(s.drop_last(), f);
        match f(s.last()) {
            Some(b) => prev.push(b),
            None => prev,
        }
    }
}

/// Extending the prefix by one element extends the collection by what `f`
/// keeps of that element.
pub proof fn lemma_collect_step<A, B>(s: Seq<A>, f: spec_fn(A) -> Option<B>, i: int)
    requires
        0 <= i < s.len(),
    ensures
        spec_collect(s.take(i + 1), f) == match f(s[i]) {
            Some(b) => spec_collect(s.take(i), f).push(b),
            None => spec_collect(s.take(i), f),
        },
{
    assert(s.take(i + 1).drop_last() =~= s.take(i));
    assert(s.take(i + 1).last() == s[i]);
}

/// Collecting over a whole sequence is collecting over its full prefix.
pub proof fn lemma_collect_take_all<A, B>(s: Seq<A>, f: spec_fn(A) -> Option<B>)
    ensures
        spec_collect(s.take(s.len() as int), f) == spec_collect(s, f),
{
    assert(s.take(s.len() as int) =~= s);
}

/// The collection never has more elements than its source.
pub proof fn lemma_collect_len<A, B>(s: Seq<A>, f: spec_fn(A) -> Option<B>)
    ensures
        spec_collect(s, f).len() <= s.len(),
    decreases s.len(),
{
    if s.len() > 0 {
        lemma_collect_len(s.drop_last(), f);
    }
}

/// Every collected value is `f`'s value on some element of the source.
pub proof fn lemma_collect_origin<A, B>(s: Seq<A>, f: spec_fn(A) -> Option<B>, j: int)
    requires
        0 <= j < spec_collect(s, f).len(),
    ensures
        exists|i: int| 0 <= i < s.len() && f(s[i]) == Some(spec_collect(s, f)[j]),
    decreases s.len(),
{
    if s.len() > 0 {
        let prev = spec_collect(s.drop_last(), f);
        lemma_collect_len(s.drop_last(), f);
        if j < prev.len() {
            lemma_collect_origin(s.drop_last(), f, j);
            let i = choose|i: int| 0 <= i < s.drop_last().len() && f(s.drop_last()[i]) == Some(prev[j]);
            assert(s[i] == s.drop_last()[i]);
            match f(s.last()) {
                Some(b) => {
                    assert(spec_collect(s, f)[j] == prev[j]);
                },
                None => {},
            }
        } else {
            assert(f(s[s.len() - 1]) == Some(spec_collect(s, f)[j]));
        }
    }
}


/// Sum of `f` over the elements of `s`.
pub open spec fn spec_sum<A>(s: Seq<A>, f: spec_fn(A) -> int) -> int
    decreases s.len(),
{
    if s.len() == 0 {
        0
    } else {
        spec_sum(s.drop_last(), f) + f(s.last())
    }
}

pub proof fn lemma_sum_step<A>(s: Seq<A>, f: spec_fn(A) -> int, i: int)
    requires
        0 <= i < s.len(),
    ensures
        spec_sum(s.take(i + 1), f) == spec_sum(s.take(i), f) + f(s[i]),
{
    assert(s.take(i + 1).drop_last() =~= s.take(i));
    assert(s.take(i + 1).last() == s[i]);
}

pub proof fn lemma_sum_take_all<A>(s: Seq<A>, f: spec_fn(A) -> int)
    ensures
        spec_sum(s.take(s.len() as int), f) == spec_sum(s, f),
{
    assert(s.take(s.len() as int) =~= s);
}

/// A sum of terms bounded by `m` in absolute value is bounded by `m` times
/// the number of terms.
pub proof fn lemma_sum_bound<A>(s: Seq<A>, f: spec_fn(A) -> int, m: int)
    requires
        m >= 0,
        forall|i: int| 0 <= i < s.len() ==> -m <= #[trigger] f(s[i]) <= m,
    ensures
        -m * s.len() <= spec_sum(s, f) <= m * s.len(),
    decreases s.len(),
{
    if s.len() > 0 {
        assert forall|i: int| 0 <= i < s.drop_last().len() implies -m <= #[trigger] f(s.drop_last()[i]) <= m by {
            assert(s.drop_last()[i] == s[i]);
        }
        lemma_sum_bound(s.drop_last(), f, m);
        assert(f(s.last()) == f(s[s.len() - 1]));
        let n = s.len() as int;
        assert(m * n == m * (n - 1) + m) by (nonlinear_arith);
        assert(-m * n == -m * (n - 1) - m) by (nonlinear_arith);
        assert(s.drop_last().len() == n - 1);
    }
}


/// The sum over a concatenation is the sum of the two sums.
pub proof fn lemma_sum_concat<A>(a: Seq<A>, b: Seq<A>, f: spec_fn(A) -> int)
    ensures
        spec_sum(a + b, f) == spec_sum(a, f) + spec_sum(b, f),
    decreases b.len(),
{
    if b.len() == 0 {
        assert(a + b =~= a);
    } else {
        lemma_sum_concat(a, b.drop_last(), f);
        assert((a + b).drop_last() =~= a + b.drop_last());
        assert((a + b).last() == b.last());
    }
}

/// A sum of terms that all equal `c` is `c` times the number of terms.
pub proof fn lemma_sum_const<A>(s: Seq<A>, f: spec_fn(A) -> int, c: int)
    requires
        forall|i: int| 0 <= i < s.len() ==> #[trigger] f(s[i]) == c,
    ensures
        spec_sum(s, f) == c * s.len(),
    decreases s.len(),
{
    if s.len() > 0 {
        assert forall|i: int| 0 <= i < s.drop_last().len() implies #[trigger] f(s.drop_last()[i]) == c by {
            assert(s.drop_last()[i] == s[i]);
        }
        lemma_sum_const(s.drop_last(), f, c);
        assert(f(s.last()) == f(s[s.len() - 1]));
        let n = s.len() as int;
        assert(c * n == c * (n - 1) + c) by (nonlinear_arith);
    }
}


/// Sums of two functions that agree on every element are equal.
pub proof fn lemma_sum_congruent<A>(s: Seq<A>, f: spec_fn(A) -> int, g: spec_fn(A) -> int)
    requires
        forall|i: int| 0 <= i < s.len() ==> #[trigger] f(s[i]) == g(s[i]),
    ensures
        spec_sum(s, f) == spec_sum(s, g),
    decreases s.len(),
{
    if s.len() > 0 {
        assert forall|i: int| 0 <= i < s.drop_last().len() implies #[trigger] f(s.drop_last()[i]) == g(
            s.drop_last()[i],
        ) by {
            assert(s.drop_last()[i] == s[i]);
        }
        lemma_sum_congruent(s.drop_last(), f, g);
        assert(f(s.last()) == g(s[s.len() - 1]));
    }
}

/// The sequences `f` gives for the elements of `s`, concatenated in order.
pub open spec fn spec_flat_map<A, B>(s: Seq<A>, f: spec_fn(A) -> Seq<B>) -> Seq<B>
    decreases s.len(),
{
    if s.len() == 0 {
        Seq::empty()
    } else {
        spec_flat_map(s.drop_last(), f) + f(s.last())
    }
}

pub proof fn lemma_flat_map_step<A, B>(s: Seq<A>, f: spec_fn(A) -> Seq<B>, i: int)
    requires
        0 <= i < s.len(),
    ensures
        spec_flat_map(s.take(i + 1), f) == spec_flat_map(s.take(i), f) + f(s[i]),
{
    assert(s.take(i + 1).drop_last() =~= s.take(i));
    assert(s.take(i + 1).last() == s[i]);
}

pub proof fn lemma_flat_map_take_all<A, B>(s: Seq<A>, f: spec_fn(A) -> Seq<B>)
    ensures
        spec_flat_map(s.take(s.len() as int), f) == spec_flat_map(s, f),
{
    assert(s.take(s.len() as int) =~= s);
}

/// Summing over a flat map is summing, element by element, the sums over
/// the pieces.
pub proof fn lemma_sum_flat_map<A, B>(s: Seq<A>, f: spec_fn(A) -> Seq<B>, g: spec_fn(B) -> int)
    ensures
        spec_sum(spec_flat_map(s, f), g) == spec_sum(s, |a: A| spec_sum(f(a), g)),
    decreases s.len(),
{
    if s.len() > 0 {
        lemma_sum_flat_map(s.drop_last(), f, g);
        lemma_sum_concat(spec_flat_map(s.drop_last(), f), f(s.last()), g);
    }
}

} // verus!
