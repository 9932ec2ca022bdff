//! Association lists: finite maps written as sequences of pairs, in which a
//! later pair hides an earlier one with the same key.

use vstd::prelude::*;

verus! {

/// A finite map from names to `T`, as a sequence of pairs.
pub type Assoc<T> = Seq<(Seq<char>, T)>;

/// The position of the last pair with key `x`, if there is one.
pub open spec fn find<T>(env: Assoc<T>, x: Seq<char>) -> Option<int>
    decreases env.len(),
{
    if env.len() == 0 {
        None
    } else if env.last().0 == x {
        Some(env.len() - 1)
    } else {
        find(env.drop_last(), x)
    }
}

/// What the map holds for `x`.
pub open spec fn lookup<T>(env: Assoc<T>, x: Seq<char>) -> Option<T> {
    match find(env, x) {
        Some(i) => if 0 <= i < env.len() {
            Some(env[i].1)
        } else {
            None
        },
        None => None,
    }
}

/// The pairs of `diff` whose key `base` does not hold, in order.
pub open spec fn minus<T, U>(diff: Assoc<T>, base: Assoc<U>) -> Assoc<T>
    decreases diff.len(),
{
    if diff.len() == 0 {
        Seq::empty()
    } else if find(base, diff.last().0).is_some() {
        minus(diff.drop_last(), base)
    } else {
        minus(diff.drop_last(), base).push(diff.last())
    }
}

/// `find` gives the last position that holds the key, and `None` only if no
/// position holds it.
pub proof fn lemma_find<T>(env: Assoc<T>, x: Seq<char>)
    ensures
        match find(env, x) {
            Some(i) => 0 <= i < env.len() && env[i].0 == x && forall|j: int|
                i < j < env.len() ==> (#[trigger] env[j]).0 != x,
            None => forall|j: int| 0 <= j < env.len() ==> (#[trigger] env[j]).0 != x,
        },
    decreases env.len(),
{
    if env.len() > 0 && env.last().0 != x {
        lemma_find(env.drop_last(), x);
        assert forall|j: int| 0 <= j < env.len() - 1 implies env[j] == env.drop_last()[j] by {}
    }
}

/// A position that holds the key, with no later one that does, is what
/// `find` gives.
pub proof fn lemma_find_at<T>(env: Assoc<T>, x: Seq<char>, i: int)
    requires
        0 <= i < env.len(),
        env[i].0 == x,
        forall|j: int| i < j < env.len() ==> (#[trigger] env[j]).0 != x,
    ensures
        find(env, x) == Some(i),
    decreases env.len(),
{
    if env.last().0 != x {
        lemma_find_at(env.drop_last(), x, i);
    }
}

/// No position holds the key: `find` gives `None`.
pub proof fn lemma_find_none<T>(env: Assoc<T>, x: Seq<char>)
    requires
        forall|j: int| 0 <= j < env.len() ==> (#[trigger] env[j]).0 != x,
    ensures
        find(env, x).is_none(),
    decreases env.len(),
{
    if env.len() > 0 {
        lemma_find_none(env.drop_last(), x);
    }
}

/// In a concatenation the second part is searched first.
pub proof fn lemma_lookup_concat<T>(a: Assoc<T>, b: Assoc<T>, x: Seq<char>)
    ensures
        lookup(a + b, x) == (match lookup(b, x) {
            Some(t) => Some(t),
            None => lookup(a, x),
        }),
{
    lemma_find(a, x);
    lemma_find(b, x);
    match find(b, x) {
        Some(i) => {
            lemma_find_at(a + b, x, a.len() + i);
        },
        None => {
            match find(a, x) {
                Some(i) => {
                    lemma_find_at(a + b, x, i);
                },
                None => {
                    lemma_find_none(a + b, x);
                },
            }
        },
    }
}

/// A key that `base` does not hold is looked up in `minus(diff, base)` as in
/// `diff`; one that it holds is not found there.
pub proof fn lemma_lookup_minus<T, U>(diff: Assoc<T>, base: Assoc<U>, x: Seq<char>)
    ensures
        lookup(minus(diff, base), x) == (if find(base, x).is_some() {
            None
        } else {
            lookup(diff, x)
        }),
    decreases diff.len(),
{
    if diff.len() > 0 {
        lemma_lookup_minus(diff.drop_last(), base, x);
        let m = minus(diff, base);
        lemma_find(diff.drop_last(), x);
        lemma_find(minus(diff.drop_last(), base), x);
        lemma_find(m, x);
        lemma_find(diff, x);
        if find(base, diff.last().0).is_none() {
            assert(m.drop_last() =~= minus(diff.drop_last(), base));
        }
    }
}

/// The list with each value replaced by its image under `f`.
pub open spec fn map_values<T, U>(env: Assoc<T>, f: spec_fn(T) -> U) -> Assoc<U> {
    Seq::new(env.len(), |i: int| (env[i].0, f(env[i].1)))
}

/// Replacing the values keeps the keys where they are.
pub proof fn lemma_find_map<T, U>(env: Assoc<T>, f: spec_fn(T) -> U, x: Seq<char>)
    ensures
        find(map_values(env, f), x) == find(env, x),
    decreases env.len(),
{
    if env.len() > 0 {
        assert(map_values(env, f).drop_last() =~= map_values(env.drop_last(), f));
        if env.last().0 != x {
            lemma_find_map(env.drop_last(), f, x);
        }
    }
}

/// `minus` looks only at the keys of its second argument.
pub proof fn lemma_minus_keys<T, U, V>(diff: Assoc<T>, base: Assoc<U>, other: Assoc<V>)
    requires
        forall|x: Seq<char>| find(base, x).is_some() == find(other, x).is_some(),
    ensures
        minus(diff, base) == minus(diff, other),
    decreases diff.len(),
{
    if diff.len() > 0 {
        lemma_minus_keys(diff.drop_last(), base, other);
    }
}

/// `minus` and `map_values` may be taken in either order.
pub proof fn lemma_minus_map<T, U, V>(diff: Assoc<T>, base: Assoc<V>, f: spec_fn(T) -> U)
    ensures
        minus(map_values(diff, f), base) == map_values(minus(diff, base), f),
    decreases diff.len(),
{
    if diff.len() > 0 {
        lemma_minus_map(diff.drop_last(), base, f);
        assert(map_values(diff, f).drop_last() =~= map_values(diff.drop_last(), f));
        assert(minus(map_values(diff, f), base) =~= map_values(minus(diff, base), f));
    } else {
        assert(minus(map_values(diff, f), base) =~= map_values(minus(diff, base), f));
    }
}

/// A concatenation holds a key when one of its parts does.
pub proof fn lemma_find_concat<T>(a: Assoc<T>, b: Assoc<T>, x: Seq<char>)
    ensures
        find(a + b, x).is_some() == (find(a, x).is_some() || find(b, x).is_some()),
{
    lemma_find(a, x);
    lemma_find(b, x);
    match find(b, x) {
        Some(i) => {
            lemma_find_at(a + b, x, a.len() + i);
        },
        None => {
            match find(a, x) {
                Some(i) => {
                    lemma_find_at(a + b, x, i);
                },
                None => {
                    lemma_find_none(a + b, x);
                },
            }
        },
    }
}

/// `minus(diff, base)` holds the keys of `diff` that `base` does not hold.
pub proof fn lemma_find_minus<T, U>(diff: Assoc<T>, base: Assoc<U>, x: Seq<char>)
    ensures
        find(minus(diff, base), x).is_some() == (find(diff, x).is_some() && find(base, x).is_none()),
{
    lemma_lookup_minus(diff, base, x);
    lemma_find(minus(diff, base), x);
    lemma_find(diff, x);
}

/// `minus` of a concatenation is the concatenation of the two `minus`.
pub proof fn lemma_minus_concat<T, U>(a: Assoc<T>, b: Assoc<T>, base: Assoc<U>)
    ensures
        minus(a + b, base) == minus(a, base) + minus(b, base),
    decreases b.len(),
{
    if b.len() == 0 {
        assert(a + b =~= a);
        assert(minus(a, base) + minus(b, base) =~= minus(a, base));
    } else {
        assert((a + b).drop_last() =~= a + b.drop_last());
        lemma_minus_concat(a, b.drop_last(), base);
        assert(minus(a + b, base) =~= minus(a, base) + minus(b, base));
    }
}

/// Taking out the keys of `d` and then those of `e` is taking out the keys
/// of any list that holds the keys of both.
pub proof fn lemma_minus_minus<T, U, V, W>(g: Assoc<T>, d: Assoc<U>, e: Assoc<V>, both: Assoc<W>)
    requires
        forall|x: Seq<char>|
            find(both, x).is_some() == (find(d, x).is_some() || find(e, x).is_some()),
    ensures
        minus(minus(g, d), e) == minus(g, both),
    decreases g.len(),
{
    if g.len() > 0 {
        lemma_minus_minus(g.drop_last(), d, e, both);
        if find(d, g.last().0).is_none() {
            assert(minus(g, d).drop_last() =~= minus(g.drop_last(), d));
        }
    }
}

} // verus!
