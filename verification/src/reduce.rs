//! Head reduction and equivalence of types.

use vstd::prelude::*;
use crate::assoc::{find, lemma_find, lemma_find_map, lemma_find_none, map_values, minus, Assoc};
use crate::env::{env_append, env_pushed};
use crate::tree::{compose, lemma_subst_compose, lemma_subst_nothing, replaced, substs, Tree};
use std::rc::Rc;
use crate::kind::Kind;
use crate::tree::{abst, lemma_arg_size, lemma_subst_leaf_size};
use crate::types::{
    clone_kd, lemma_type_model, types_model, AbstVar, Env, EnvM, Exists, Forall, RcType, SynType,
    SynTypeM, Type, TypeApp, TypeM,
};

verus! {

/// The trees of a sequence of types, in order.
pub open spec fn closed_all(args: Seq<TypeM>) -> Seq<Tree>
    decreases args,
{
    Seq::new(
        args.len(),
        |i: int|
            if 0 <= i < args.len() {
                args[i].closed()
            } else {
                arbitrary()
            },
    )
}

/// The tree substitution that a deferred substitution stands for.
pub open spec fn closed_env(env: EnvM) -> Assoc<Tree>
    decreases env,
{
    Seq::new(
        env.len(),
        |i: int|
            if 0 <= i < env.len() {
                (env[i].0, env[i].1.closed())
            } else {
                arbitrary()
            },
    )
}

/// The tree of a head whose own deferred substitution is yet to be applied:
/// the types inside it are closed, the head's variables are not replaced.
pub open spec fn head_tree(s: SynTypeM) -> Tree
    decreases s,
{
    match s {
        SynTypeM::App(x, args) => Tree::App(x, closed_all(args)),
        SynTypeM::Forall(a, k, b) => Tree::Forall(a, k, Box::new(b.closed())),
        SynTypeM::Exists(a, k, b) => Tree::Exists(a, k, Box::new(b.closed())),
        SynTypeM::AbstVar(n) => Tree::AbstVar(n),
        SynTypeM::Hole => Tree::Hole,
    }
}

/// The types of a sequence, each with `env` pushed onto it.
pub open spec fn pushed_all(args: Seq<TypeM>, env: EnvM) -> Seq<TypeM> {
    Seq::new(args.len(), |i: int| args[i].subst(env))
}

impl TypeM {
    /// The type with all substitutions carried out: the types inside the
    /// head are closed first, then the type's own deferred substitution is
    /// applied to the result.
    pub open spec fn closed(self) -> Tree
        decreases self,
    {
        head_tree(self.synty).subst(closed_env(self.env))
    }

    /// Type equivalence: the two types agree once all substitutions are
    /// carried out, up to the names of bound variables. `n` is the number
    /// of abstract variables in use.
    pub open spec fn eqv(self, other: TypeM, n: nat) -> bool {
        self.closed().eqv(other.closed(), n)
    }

    /// Whether the head is a variable that the type's own deferred
    /// substitution replaces.
    pub open spec fn head_bound(self) -> bool {
        self.synty matches SynTypeM::App(x, args) && args.len() == 0 && find(self.env, x).is_some()
    }

    /// Head reduction. A variable that the deferred substitution replaces
    /// is followed to the type that stands for it, and that type is reduced
    /// in turn. Any other head stays, with the deferred substitution pushed
    /// onto the types directly inside it; nothing is left deferred on the
    /// result.
    pub open spec fn head_reduce(self) -> TypeM
        decreases self,
    {
        match self.synty {
            SynTypeM::App(x, args) => {
                let hit = find(self.env, x);
                if args.len() == 0 && hit.is_some() && 0 <= hit.unwrap() < self.env.len() {
                    self.env[hit.unwrap()].1.head_reduce()
                } else {
                    TypeM {
                        synty: SynTypeM::App(x, pushed_all(args, self.env)),
                        kd: self.kd,
                        env: Seq::empty(),
                    }
                }
            },
            SynTypeM::Forall(a, k, b) => TypeM {
                synty: SynTypeM::Forall(a, k, Box::new(b.subst(self.env))),
                kd: self.kd,
                env: Seq::empty(),
            },
            SynTypeM::Exists(a, k, b) => TypeM {
                synty: SynTypeM::Exists(a, k, Box::new(b.subst(self.env))),
                kd: self.kd,
                env: Seq::empty(),
            },
            _ => TypeM { synty: self.synty, kd: self.kd, env: Seq::empty() },
        }
    }
}

/// A deferred substitution and the tree substitution it stands for hold the
/// same variables at the same places.
pub proof fn lemma_closed_env_find(env: EnvM, x: Seq<char>)
    ensures
        find(closed_env(env), x) == find(env, x),
        closed_env(env) == map_values(env, |t: TypeM| t.closed()),
{
    assert(closed_env(env) =~= map_values(env, |t: TypeM| t.closed()));
    lemma_find_map(env, |t: TypeM| t.closed(), x);
}

/// The tree of a type with `diff` pushed onto it is the type's tree with
/// the trees of `diff` replaced in.
pub proof fn lemma_closed_subst(t: TypeM, diff: EnvM)
    ensures
        t.subst(diff).closed() == t.closed().subst(closed_env(diff)),
    decreases t, 1nat,
{
    lemma_closed_env_append(diff, t.env);
    lemma_subst_compose(head_tree(t.synty), closed_env(t.env), closed_env(diff));
}

/// The tree substitution of a composition is the composition of the tree
/// substitutions.
pub proof fn lemma_closed_env_append(diff: EnvM, base: EnvM)
    ensures
        closed_env(env_append(diff, base)) == compose(closed_env(diff), closed_env(base)),
    decreases base, 0nat,
{
    let cd = closed_env(diff);
    let co = closed_env(base);
    let f = |t: TypeM| t.closed();
    let kept = minus(diff, base);
    let pushed = env_pushed(diff, base);
    assert(closed_env(kept) =~= map_values(kept, f));
    assert(cd =~= map_values(diff, f));
    crate::assoc::lemma_minus_map(diff, base, f);
    assert forall|x: Seq<char>| find(base, x).is_some() == find(co, x).is_some() by {
        lemma_closed_env_find(base, x);
    }
    crate::assoc::lemma_minus_keys(cd, base, co);
    assert(closed_env(kept) == minus(cd, co));
    assert forall|i: int| 0 <= i < base.len() implies #[trigger] closed_env(pushed)[i] == replaced(
        cd,
        co,
    )[i] by {
        lemma_closed_subst(base[i].1, diff);
    }
    assert(closed_env(pushed) =~= replaced(cd, co));
    assert(closed_env(kept + pushed) =~= closed_env(kept) + closed_env(pushed));
}

/// Pushing the empty substitution onto a type leaves it as it is.
pub proof fn lemma_subst_empty(t: TypeM)
    ensures
        t.subst(Seq::empty()) == t,
    decreases t,
{
    let e = Seq::<(Seq<char>, TypeM)>::empty();
    assert forall|i: int| 0 <= i < t.env.len() implies #[trigger] env_pushed(e, t.env)[i]
        == t.env[i] by {
        lemma_subst_empty(t.env[i].1);
    }
    assert(env_pushed(e, t.env) =~= t.env);
    assert(minus(e, t.env) =~= Seq::empty());
    assert(env_append(e, t.env) =~= t.env);
}

/// Head reduction leaves nothing deferred on its result, and does not
/// change what the type is once all substitutions are carried out.
pub proof fn lemma_head_reduce(t: TypeM)
    ensures
        t.head_reduce().env == Seq::<(Seq<char>, TypeM)>::empty(),
        !t.head_reduce().head_bound(),
        t.head_reduce().closed() == t.closed(),
    decreases t,
{
    let r = t.head_reduce();
    let ce = closed_env(t.env);
    assert(closed_env(Seq::empty()) =~= Seq::empty());
    match t.synty {
        SynTypeM::App(x, args) => {
            lemma_find(t.env, x);
            lemma_closed_env_find(t.env, x);
            if args.len() == 0 && find(t.env, x).is_some() {
                let i = find(t.env, x).unwrap();
                lemma_head_reduce(t.env[i].1);
                assert(closed_all(args).len() == 0);
                assert(ce[i].1 == t.env[i].1.closed());
                assert(t.closed() == t.env[i].1.closed());
            } else {
                let pushed = pushed_all(args, t.env);
                lemma_subst_nothing(head_tree(r.synty));
                lemma_find_none(r.env, x);
                assert(r.closed() == Tree::App(x, closed_all(pushed)));
                if args.len() == 0 {
                    assert(pushed =~= args);
                    assert(closed_all(args).len() == 0);
                    assert(t.closed() == Tree::App(x, closed_all(args)));
                } else {
                    assert(closed_all(args).len() > 0);
                    assert(t.closed() == Tree::App(x, substs(closed_all(args), ce)));
                    assert forall|i: int| 0 <= i < args.len() implies #[trigger] closed_all(
                        pushed,
                    )[i] == substs(closed_all(args), ce)[i] by {
                        lemma_closed_subst(args[i], t.env);
                    }
                    assert(closed_all(pushed) =~= substs(closed_all(args), ce));
                }
            }
        },
        SynTypeM::Forall(a, k, b) => {
            lemma_subst_nothing(head_tree(r.synty));
            lemma_closed_subst(*b, t.env);
        },
        SynTypeM::Exists(a, k, b) => {
            lemma_subst_nothing(head_tree(r.synty));
            lemma_closed_subst(*b, t.env);
        },
        _ => {
            lemma_subst_nothing(head_tree(r.synty));
        },
    }
}

/// The tree of a head-reduced type, read off its head.
pub proof fn lemma_head_reduce_tree(t: TypeM)
    ensures
        t.closed() == head_tree(t.head_reduce().synty),
{
    lemma_head_reduce(t);
    assert(closed_env(Seq::empty()) =~= Seq::empty());
    lemma_subst_nothing(head_tree(t.head_reduce().synty));
}

/// Head reduction is idempotent: a head-reduced type is its own head
/// reduction.
pub proof fn lemma_head_reduce_idempotent(t: TypeM)
    ensures
        t.head_reduce().head_reduce() == t.head_reduce(),
    decreases t,
{
    let r = t.head_reduce();
    let e = Seq::<(Seq<char>, TypeM)>::empty();
    match t.synty {
        SynTypeM::App(x, args) => {
            lemma_find(t.env, x);
            if args.len() == 0 && find(t.env, x).is_some() {
                lemma_head_reduce_idempotent(t.env[find(t.env, x).unwrap()].1);
            } else {
                let pushed = pushed_all(args, t.env);
                assert forall|i: int| 0 <= i < pushed.len() implies #[trigger] pushed_all(
                    pushed,
                    e,
                )[i] == pushed[i] by {
                    lemma_subst_empty(pushed[i]);
                }
                assert(pushed_all(pushed, e) =~= pushed);
            }
        },
        SynTypeM::Forall(a, k, b) => {
            lemma_subst_empty(b.subst(t.env));
        },
        SynTypeM::Exists(a, k, b) => {
            lemma_subst_empty(b.subst(t.env));
        },
        _ => {},
    }
}

/// Equivalence of types is reflexive.
pub proof fn lemma_type_eqv_reflexive(t: TypeM, n: nat)
    ensures
        t.eqv(t, n),
{
    crate::tree::lemma_eqv_reflexive(t.closed(), n);
}

/// Equivalence of types is symmetric.
pub proof fn lemma_type_eqv_symmetric(t: TypeM, u: TypeM, n: nat)
    requires
        t.eqv(u, n),
    ensures
        u.eqv(t, n),
{
    crate::tree::lemma_eqv_symmetric(t.closed(), u.closed(), n);
}

/// Equivalence of types is transitive.
pub proof fn lemma_type_eqv_transitive(t: TypeM, u: TypeM, v: TypeM, n: nat)
    requires
        t.eqv(u, n),
        u.eqv(v, n),
    ensures
        t.eqv(v, n),
{
    crate::tree::lemma_eqv_transitive(t.closed(), u.closed(), v.closed(), n);
}

/// A type is equivalent to its head reduction.
pub proof fn lemma_head_reduce_eqv(t: TypeM, n: nat)
    ensures
        t.eqv(t.head_reduce(), n),
{
    lemma_head_reduce(t);
    crate::tree::lemma_eqv_reflexive(t.closed(), n);
}

/// The tree of the body of a quantified type once the abstract variable
/// `$n` has been pushed onto it in the place of the bound variable.
pub proof fn lemma_closed_abst(body: TypeM, a: Seq<char>, n: nat)
    ensures
        body.subst(seq![(a, TypeM::plain(SynTypeM::AbstVar(n)))]).closed() == body.closed().subst(
            abst(a, n),
        ),
{
    let v = TypeM::plain(SynTypeM::AbstVar(n));
    let s = seq![(a, v)];
    lemma_closed_subst(body, s);
    assert(closed_env(Seq::empty()) =~= Seq::empty());
    lemma_subst_nothing(head_tree(v.synty));
    assert(closed_env(s) =~= abst(a, n));
}

/// The abstract variable `$n` as a type.
pub open spec fn abst_type(n: nat) -> TypeM {
    TypeM::plain(SynTypeM::AbstVar(n))
}

/// Equivalence, read off the heads. Two types are equivalent when their
/// head reductions have heads of the same form that agree: applications of
/// the same name to as many arguments, equivalent one by one; quantified
/// types of the same sort over variables of equivalent kinds, whose bodies
/// are equivalent once the abstract variable `$n` has been pushed onto
/// both in the place of the bound variables; the same abstract variable;
/// two holes.
pub open spec fn eqv_by_heads(t: TypeM, u: TypeM, n: nat) -> bool {
    match (t.head_reduce().synty, u.head_reduce().synty) {
        (SynTypeM::App(x, xs), SynTypeM::App(y, ys)) => {
            &&& x == y
            &&& xs.len() == ys.len()
            &&& forall|i: int| 0 <= i < xs.len() ==> (#[trigger] xs[i]).eqv(ys[i], n)
        },
        (SynTypeM::Forall(a, j, p), SynTypeM::Forall(b, k, q)) => j.eqv(k) && p.subst(
            seq![(a, abst_type(n))],
        ).eqv(q.subst(seq![(b, abst_type(n))]), n + 1),
        (SynTypeM::Exists(a, j, p), SynTypeM::Exists(b, k, q)) => j.eqv(k) && p.subst(
            seq![(a, abst_type(n))],
        ).eqv(q.subst(seq![(b, abst_type(n))]), n + 1),
        (SynTypeM::AbstVar(i), SynTypeM::AbstVar(j)) => i == j,
        (SynTypeM::Hole, SynTypeM::Hole) => true,
        _ => false,
    }
}

/// Equivalence of types is what is read off the heads of their head
/// reductions.
pub proof fn lemma_eqv_by_heads(t: TypeM, u: TypeM, n: nat)
    ensures
        t.eqv(u, n) == eqv_by_heads(t, u, n),
{
    lemma_head_reduce_tree(t);
    lemma_head_reduce_tree(u);
    match (t.head_reduce().synty, u.head_reduce().synty) {
        (SynTypeM::App(x, xs), SynTypeM::App(y, ys)) => {
            let l = closed_all(xs);
            let r = closed_all(ys);
            if x == y && xs.len() == ys.len() {
                if t.eqv(u, n) {
                    assert forall|i: int| 0 <= i < xs.len() implies (#[trigger] xs[i]).eqv(
                        ys[i],
                        n,
                    ) by {
                        assert(l[i].eqv(r[i], n));
                    }
                }
                if eqv_by_heads(t, u, n) {
                    assert forall|i: int| 0 <= i < l.len() implies (#[trigger] l[i]).eqv(r[i], n) by {
                        assert(xs[i].eqv(ys[i], n));
                    }
                }
            }
        },
        (SynTypeM::Forall(a, j, p), SynTypeM::Forall(b, k, q)) => {
            lemma_closed_abst(*p, a, n);
            lemma_closed_abst(*q, b, n);
        },
        (SynTypeM::Exists(a, j, p), SynTypeM::Exists(b, k, q)) => {
            lemma_closed_abst(*p, a, n);
            lemma_closed_abst(*q, b, n);
        },
        _ => {},
    }
}

impl Type {
    /// Head reduction: the type with its head laid bare.
    #[verifier::loop_isolation(false)]
    pub fn head_reduction(&self) -> (r: Type)
        ensures
            r@ == self@.head_reduce(),
        decreases self,
    {
        proof {
            lemma_type_model(*self);
        }
        let r = match &self.synty {
            SynType::TypeApp(app) => {
                if app.args.len() == 0 {
                    match self.env.find(&app.tvar) {
                        Some(i) => {
                            return (*self.env.entries[i].1).inner.head_reduction();
                        },
                        None => {},
                    }
                }
                let mut args: Vec<RcType> = Vec::new();
                let mut i: usize = 0;
                while i < app.args.len()
                    invariant
                        i <= app.args.len(),
                        args.len() == i,
                        forall|j: int| 0 <= j < i ==> (#[trigger] args@[j])@ == app.args@[j]@.subst(self.env@),
                    decreases app.args.len() - i,
                {
                    args.push(
                        Rc::new(app.args[i].info.make((*app.args[i]).inner.subst_ref(&self.env))),
                    );
                    i += 1;
                }
                assert(types_model(args@) =~= pushed_all(types_model(app.args@), self.env@));
                Type {
                    synty: SynType::TypeApp(TypeApp { tvar: app.tvar.clone(), args }),
                    kd: clone_kd(&self.kd),
                    env: Env::new(),
                }
            },
            SynType::Forall(q) => Type {
                synty: SynType::Forall(
                    Forall {
                        param: (q.param.0.clone(), q.param.1.clone()),
                        ty: Rc::new(q.ty.info.make((*q.ty).inner.subst_ref(&self.env))),
                    },
                ),
                kd: clone_kd(&self.kd),
                env: Env::new(),
            },
            SynType::Exists(q) => Type {
                synty: SynType::Exists(
                    Exists {
                        param: (q.param.0.clone(), q.param.1.clone()),
                        ty: Rc::new(q.ty.info.make((*q.ty).inner.subst_ref(&self.env))),
                    },
                ),
                kd: clone_kd(&self.kd),
                env: Env::new(),
            },
            SynType::AbstVar(a) => Type {
                synty: SynType::AbstVar(*a),
                kd: clone_kd(&self.kd),
                env: Env::new(),
            },
            SynType::Hole(h) => Type {
                synty: SynType::Hole(*h),
                kd: clone_kd(&self.kd),
                env: Env::new(),
            },
        };
        proof {
            lemma_type_model(r);
        }
        r
    }

    /// The body of a quantified type with the abstract variable `$n` pushed
    /// onto it in the place of the bound variable `a`.
    fn freshen(body: &RcType, a: &crate::span::TypeV, n: usize) -> (r: Type)
        ensures
            r@ == body@.subst(seq![(a@, TypeM::plain(SynTypeM::AbstVar(n as nat)))]),
    {
        let v = Type::new(SynType::AbstVar(AbstVar(n)));
        proof {
            lemma_type_model(v);
        }
        let s = Env::singleton(a.clone(), Rc::new(a.info.make(v)));
        (**body).inner.subst_ref(&s)
    }

    /// Whether the bodies of two quantified types over variables of kinds
    /// `j` and `k` make the types equivalent.
    fn eqv_bodies(
        p: &RcType,
        a: &crate::span::TypeV,
        j: &Kind,
        q: &RcType,
        b: &crate::span::TypeV,
        k: &Kind,
        abst: &Vec<Kind>,
        Ghost(bound): Ghost<nat>,
    ) -> (r: bool)
        requires
            p@.closed().size() < bound,
        ensures
            r == (j@.eqv(k@) && p@.closed().subst(crate::tree::abst(a@, abst@.len() as nat)).eqv(
                q@.closed().subst(crate::tree::abst(b@, abst@.len() as nat)),
                abst@.len() as nat + 1,
            )),
        decreases bound, 0nat,
    {
        if !j.eqv(k) {
            return false;
        }
        let n = abst.len();
        let lb = Type::freshen(p, a, n);
        let rb = Type::freshen(q, b, n);
        let mut inner = abst.clone();
        inner.push(j.clone());
        proof {
            lemma_closed_abst(p@, a@, n as nat);
            lemma_closed_abst(q@, b@, n as nat);
            lemma_subst_leaf_size(p@.closed(), a@, n as nat);
        }
        lb.eqv(&rb, &inner)
    }

    /// Holds this type against `other`: nothing is wrong if the two are
    /// equivalent, and `err` is reported if they are not.
    pub fn eqv_or(&self, other: &Type, abst: &Vec<Kind>, err: crate::err::TyckError) -> (r: Result<
        (),
        crate::err::TyckError,
    >)
        ensures
            r == (if self@.eqv(other@, abst@.len() as nat) {
                Ok::<(), crate::err::TyckError>(())
            } else {
                Err(err)
            }),
    {
        if self.eqv(other, abst) {
            Ok(())
        } else {
            Err(err)
        }
    }

    /// Type equivalence. `abst` holds the kinds of the abstract variables
    /// in use: a quantifier met on the way is opened with the next one.
    #[verifier::loop_isolation(false)]
    pub fn eqv(&self, other: &Type, abst: &Vec<Kind>) -> (r: bool)
        ensures
            r == self@.eqv(other@, abst@.len() as nat),
        decreases self@.closed().size(), 1nat,
    {
        let l = self.head_reduction();
        let r = other.head_reduction();
        proof {
            lemma_head_reduce_tree(self@);
            lemma_head_reduce_tree(other@);
            lemma_type_model(l);
            lemma_type_model(r);
        }
        let ghost lt = self@.closed();
        let ghost rt = other@.closed();
        let ghost n = abst@.len() as nat;
        match (&l.synty, &r.synty) {
            (SynType::TypeApp(a), SynType::TypeApp(b)) => {
                if !a.tvar.same(&b.tvar) {
                    return false;
                }
                if a.args.len() != b.args.len() {
                    return false;
                }
                let mut i: usize = 0;
                while i < a.args.len()
                    invariant
                        i <= a.args.len(),
                        forall|j: int| 0 <= j < i ==> (#[trigger] lt->App_1[j]).eqv(rt->App_1[j], n),
                    decreases a.args.len() - i,
                {
                    proof {
                        lemma_arg_size(lt, i as int);
                    }
                    if !(*a.args[i]).inner.eqv(&(*b.args[i]).inner, abst) {
                        assert(!lt->App_1[i as int].eqv(rt->App_1[i as int], n));
                        return false;
                    }
                    i += 1;
                }
                true
            },
            (SynType::Forall(p), SynType::Forall(q)) => {
                Type::eqv_bodies(
                    &p.ty,
                    &p.param.0,
                    &p.param.1,
                    &q.ty,
                    &q.param.0,
                    &q.param.1,
                    abst,
                    Ghost(lt.size()),
                )
            },
            (SynType::Exists(p), SynType::Exists(q)) => {
                Type::eqv_bodies(
                    &p.ty,
                    &p.param.0,
                    &p.param.1,
                    &q.ty,
                    &q.param.0,
                    &q.param.1,
                    abst,
                    Ghost(lt.size()),
                )
            },
            (SynType::AbstVar(i), SynType::AbstVar(j)) => i.0 == j.0,
            (SynType::Hole(_), SynType::Hole(_)) => true,
            _ => false,
        }
    }
}

} // verus!
