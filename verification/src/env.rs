//! Deferred substitutions: looking a variable up, pushing a substitution
//! onto a type, and composing two substitutions.

use vstd::prelude::*;
use std::rc::Rc;
use crate::assoc::{find, lemma_find, lemma_find_at, lemma_find_none, lookup, minus};
use crate::kind::Kind;
use crate::sharing::rc_clone;
use crate::span::{Name, TypeV};
use crate::types::{clone_kd, lemma_type_model, Env, EnvM, RcType, Type, TypeM};

verus! {

impl TypeM {
    /// The type with `diff` pushed onto its deferred substitution: `diff` is
    /// to be applied after what the type already defers.
    pub open spec fn subst(self, diff: EnvM) -> TypeM
        decreases self, 0nat,
    {
        TypeM { synty: self.synty, kd: self.kd, env: env_append(diff, self.env) }
    }
}

/// The entries of `base`, each with `diff` pushed onto its type.
pub open spec fn env_pushed(diff: EnvM, base: EnvM) -> EnvM
    decreases base, 0nat,
{
    Seq::new(
        base.len(),
        |i: int|
            if 0 <= i < base.len() {
                (base[i].0, base[i].1.subst(diff))
            } else {
                arbitrary()
            },
    )
}

/// The composition of two substitutions, `diff` after `base`: a variable
/// that `base` replaces goes to what `base` gives it with `diff` pushed onto
/// that; any other variable goes where `diff` sends it.
pub open spec fn env_append(diff: EnvM, base: EnvM) -> EnvM
    decreases base, 1nat,
{
    minus(diff, base) + env_pushed(diff, base)
}

/// The substitution that sends each parameter to the argument at its place.
pub open spec fn env_zip(params: Seq<Seq<char>>, args: Seq<TypeM>) -> EnvM {
    Seq::new(params.len(), |i: int| (params[i], args[i]))
}

/// What a composition holds for a variable.
pub proof fn lemma_lookup_append(diff: EnvM, base: EnvM, x: Seq<char>)
    ensures
        lookup(env_append(diff, base), x) == (match lookup(base, x) {
            Some(t) => Some(t.subst(diff)),
            None => lookup(diff, x),
        }),
{
    let pushed = env_pushed(diff, base);
    crate::assoc::lemma_lookup_concat(minus(diff, base), pushed, x);
    crate::assoc::lemma_lookup_minus(diff, base, x);
    lemma_find(base, x);
    match find(base, x) {
        Some(i) => {
            lemma_find_at(pushed, x, i);
        },
        None => {
            lemma_find_none(pushed, x);
        },
    }
}

/// Substitution composes: pushing `first` and then `then` onto a type is
/// pushing the composition of the two, `then` after `first`.
pub proof fn lemma_subst_twice(t: TypeM, first: EnvM, then: EnvM)
    ensures
        t.subst(first).subst(then) == t.subst(env_append(then, first)),
    decreases t, 1nat,
{
    lemma_append_associative(then, first, t.env);
}

/// Composition of substitutions is associative.
pub proof fn lemma_append_associative(g: EnvM, d: EnvM, e: EnvM)
    ensures
        env_append(g, env_append(d, e)) == env_append(env_append(g, d), e),
    decreases e, 0nat,
{
    let f = |t: TypeM| t.subst(g);
    let h = |t: TypeM| t.subst(d);
    let de = env_append(d, e);
    let gd = env_append(g, d);
    let d_kept = minus(d, e);
    let d_pushed = env_pushed(d, e);
    // the pushed part
    assert(env_pushed(g, de) =~= env_pushed(g, d_kept) + env_pushed(g, d_pushed));
    assert forall|i: int| 0 <= i < e.len() implies #[trigger] env_pushed(gd, e)[i] == env_pushed(
        g,
        d_pushed,
    )[i] by {
        lemma_subst_twice(e[i].1, d, g);
    }
    assert(env_pushed(gd, e) =~= env_pushed(g, d_pushed));
    // the kept part
    crate::assoc::lemma_minus_concat(minus(g, d), env_pushed(g, d), e);
    assert(env_pushed(g, d) =~= crate::assoc::map_values(d, f));
    assert(env_pushed(g, d_kept) =~= crate::assoc::map_values(d_kept, f));
    crate::assoc::lemma_minus_map(d, e, f);
    assert(d_pushed =~= crate::assoc::map_values(e, h));
    assert forall|x: Seq<char>|
        find(de, x).is_some() == (find(d, x).is_some() || find(e, x).is_some()) by {
        crate::assoc::lemma_find_concat(d_kept, d_pushed, x);
        crate::assoc::lemma_find_minus(d, e, x);
        crate::assoc::lemma_find_map(e, h, x);
    }
    crate::assoc::lemma_minus_minus(g, d, e, de);
    assert(env_append(g, de) =~= env_append(gd, e));
}

impl Env {
    /// The substitution that replaces `x` by `t` and nothing else.
    pub fn singleton(x: TypeV, t: RcType) -> (r: Env)
        ensures
            r@ == seq![(x@, t@)],
    {
        let mut entries: Vec<(TypeV, RcType)> = Vec::new();
        entries.push((x, t));
        let r = Env { entries };
        assert(r@ =~= seq![(x@, t@)]);
        r
    }

    /// The substitution that sends each parameter to the argument at its
    /// place, or `None` if there are not as many arguments as parameters.
    pub fn init(params: &Vec<(TypeV, Kind)>, args: &Vec<RcType>) -> (r: Option<Env>)
        ensures
            r.is_some() == (params.len() == args.len()),
            r matches Some(e) ==> e@ == env_zip(
                Seq::new(params@.len(), |i: int| params@[i].0@),
                crate::types::types_model(args@),
            ),
    {
        if params.len() != args.len() {
            return None;
        }
        let mut entries: Vec<(TypeV, RcType)> = Vec::new();
        let mut i: usize = 0;
        while i < params.len()
            invariant
                i <= params.len(),
                params.len() == args.len(),
                entries.len() == i,
                forall|j: int|
                    0 <= j < i ==> (#[trigger] entries@[j]).0@ == params@[j].0@ && entries@[j].1
                        == args@[j],
            decreases params.len() - i,
        {
            entries.push((params[i].0.clone(), rc_clone(&args[i])));
            i += 1;
        }
        let e = Env { entries };
        assert(e@ =~= env_zip(
            Seq::new(params@.len(), |i: int| params@[i].0@),
            crate::types::types_model(args@),
        ));
        Some(e)
    }

    /// The place of the entry that counts for `x`, if there is one.
    pub fn find(&self, x: &Name) -> (r: Option<usize>)
        ensures
            (match r {
                Some(i) => Some(i as int),
                None => None,
            }) == find(self@, x@),
            r matches Some(i) ==> i < self.entries@.len(),
    {
        let mut i: usize = self.entries.len();
        while i > 0
            invariant
                i <= self.entries.len(),
                forall|j: int| i <= j < self.entries.len() ==> (#[trigger] self@[j]).0 != x@,
            decreases i,
        {
            i -= 1;
            if self.entries[i].0.same(x) {
                proof {
                    lemma_find_at(self@, x@, i as int);
                }
                return Some(i);
            }
        }
        proof {
            lemma_find_none(self@, x@);
        }
        None
    }

    /// What the substitution holds for `x`.
    pub fn lookup(&self, x: &Name) -> (r: Option<&RcType>)
        ensures
            (match r {
                Some(t) => Some(t@),
                None => None,
            }) == lookup(self@, x@),
    {
        match self.find(x) {
            Some(i) => Some(&self.entries[i].1),
            None => None,
        }
    }

    /// The composition of two substitutions, `self` after `base`.
    #[verifier::loop_isolation(false)]
    pub fn append(&self, base: &Env) -> (r: Env)
        ensures
            r@ == env_append(self@, base@),
        decreases base,
    {
        let mut out: Vec<(TypeV, RcType)> = Vec::new();
        let mut i: usize = 0;
        while i < self.entries.len()
            invariant
                i <= self.entries.len(),
                crate::types::entries_model(out@) == minus(self@.take(i as int), base@),
            decreases self.entries.len() - i,
        {
            assert(self@.take(i + 1).drop_last() =~= self@.take(i as int));
            let ghost before = out@;
            if base.lookup(&self.entries[i].0).is_none() {
                out.push((self.entries[i].0.clone(), rc_clone(&self.entries[i].1)));
                assert(crate::types::entries_model(out@) =~= crate::types::entries_model(
                    before,
                ).push(self@[i as int]));
            }
            proof {
                lemma_find(base@, self@[i as int].0);
            }
            i += 1;
        }
        assert(self@.take(self.entries.len() as int) =~= self@);
        let ghost kept = out@;
        let mut k: usize = 0;
        while k < base.entries.len()
            invariant
                k <= base.entries.len(),
                out.len() == kept.len() + k,
                forall|j: int| 0 <= j < kept.len() ==> out@[j] == kept[j],
                forall|j: int|
                    0 <= j < k ==> (#[trigger] out@[kept.len() + j]).0@ == base@[j].0 && out@[kept.len()
                        + j].1@ == base@[j].1.subst(self@),
            decreases base.entries.len() - k,
        {
            let t = (*base.entries[k].1).inner.subst_ref(self);
            out.push((base.entries[k].0.clone(), Rc::new(base.entries[k].1.info.make(t))));
            k += 1;
        }
        let r = Env { entries: out };
        assert(r@ =~= env_append(self@, base@)) by {
            assert forall|j: int| 0 <= j < r@.len() implies r@[j] == env_append(self@, base@)[j] by {
                if j >= kept.len() {
                    assert(out@[kept.len() + (j - kept.len())].1@ == base@[j - kept.len()].1.subst(
                        self@,
                    ));
                } else {
                    assert(crate::types::entries_model(kept)[j] == minus(self@, base@)[j]);
                }
            }
        }
        r
    }
}

impl Type {
    /// The type with `diff` pushed onto its deferred substitution.
    pub fn subst(self, diff: Env) -> (r: Type)
        ensures
            r@ == self@.subst(diff@),
    {
        self.subst_ref(&diff)
    }

    /// The type with `diff` pushed onto its deferred substitution; the type
    /// itself is left as it is.
    pub fn subst_ref(&self, diff: &Env) -> (r: Type)
        ensures
            r@ == self@.subst(diff@),
        decreases self,
    {
        let env = diff.append(&self.env);
        let r = Type { synty: self.synty.clone(), kd: clone_kd(&self.kd), env };
        proof {
            lemma_type_model(r);
            lemma_type_model(*self);
        }
        r
    }
}

} // verus!
