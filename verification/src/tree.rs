//! Type trees: what a type is once every deferred substitution has been
//! carried out. Two types are equivalent when their trees agree up to the
//! names of bound variables.

use vstd::prelude::*;
use crate::assoc::{find, lemma_find, lemma_find_at, lemma_find_none, lookup, minus, Assoc};
use crate::kind::KindM;

verus! {

/// A type with nothing left to substitute.
pub enum Tree {
    App(Seq<char>, Seq<Tree>),
    Forall(Seq<char>, KindM, Box<Tree>),
    Exists(Seq<char>, KindM, Box<Tree>),
    AbstVar(nat),
    Hole,
}

/// The sum of a sequence of numbers.
pub open spec fn total(s: Seq<nat>) -> nat
    decreases s.len(),
{
    if s.len() == 0 {
        0
    } else {
        total(s.drop_last()) + s.last()
    }
}

/// No member of a sequence is more than the sum.
pub proof fn lemma_total_bound(s: Seq<nat>, i: int)
    requires
        0 <= i < s.len(),
    ensures
        s[i] <= total(s),
    decreases s.len(),
{
    if i < s.len() - 1 {
        lemma_total_bound(s.drop_last(), i);
    }
}

impl Tree {
    /// The number of nodes.
    pub open spec fn size(self) -> nat
        decreases self,
    {
        match self {
            Tree::App(_, args) => 1 + total(sizes(args)),
            Tree::Forall(_, _, b) => 1 + b.size(),
            Tree::Exists(_, _, b) => 1 + b.size(),
            _ => 1,
        }
    }

    /// The tree with each variable that `s` holds replaced by what `s` holds
    /// for it. A variable is a name applied to nothing; a name applied to
    /// arguments stays, and its arguments are replaced in.
    pub open spec fn subst(self, s: Assoc<Tree>) -> Tree
        decreases self,
    {
        match self {
            Tree::App(x, args) => if args.len() == 0 {
                match lookup(s, x) {
                    Some(t) => t,
                    None => self,
                }
            } else {
                Tree::App(x, substs(args, s))
            },
            Tree::Forall(a, k, b) => Tree::Forall(a, k, Box::new(b.subst(s))),
            Tree::Exists(a, k, b) => Tree::Exists(a, k, Box::new(b.subst(s))),
            _ => self,
        }
    }

    /// Equivalence of two trees. Applications agree when the names are equal
    /// and the arguments agree one by one. Quantified types agree when the
    /// kinds of their variables are equivalent and the bodies agree once the
    /// abstract variable `$n` has taken the place of both variables. An
    /// abstract variable agrees only with itself.
    pub open spec fn eqv(self, other: Tree, n: nat) -> bool
        decreases self.size(),
    {
        match (self, other) {
            (Tree::App(x, xs), Tree::App(y, ys)) => {
                &&& x == y
                &&& xs.len() == ys.len()
                &&& forall|i: int|
                    0 <= i < xs.len() ==> {
                        proof {
                            lemma_arg_size(self, i);
                        }
                        (#[trigger] xs[i]).eqv(ys[i], n)
                    }
            },
            (Tree::Forall(a, j, p), Tree::Forall(b, k, q)) => {
                proof {
                    lemma_subst_leaf_size(*p, a, n);
                }
                j.eqv(k) && p.subst(abst(a, n)).eqv(q.subst(abst(b, n)), n + 1)
            },
            (Tree::Exists(a, j, p), Tree::Exists(b, k, q)) => {
                proof {
                    lemma_subst_leaf_size(*p, a, n);
                }
                j.eqv(k) && p.subst(abst(a, n)).eqv(q.subst(abst(b, n)), n + 1)
            },
            (Tree::AbstVar(i), Tree::AbstVar(j)) => i == j,
            (Tree::Hole, Tree::Hole) => true,
            _ => false,
        }
    }
}

/// The sizes of a sequence of trees, in order.
pub open spec fn sizes(args: Seq<Tree>) -> Seq<nat>
    decreases args,
{
    Seq::new(
        args.len(),
        |i: int|
            if 0 <= i < args.len() {
                args[i].size()
            } else {
                0
            },
    )
}

/// The trees of a sequence, each with `s` replaced in.
pub open spec fn substs(args: Seq<Tree>, s: Assoc<Tree>) -> Seq<Tree>
    decreases args,
{
    Seq::new(
        args.len(),
        |i: int|
            if 0 <= i < args.len() {
                args[i].subst(s)
            } else {
                arbitrary()
            },
    )
}

/// The substitution that puts the abstract variable `$n` in the place of
/// the variable `a`.
pub open spec fn abst(a: Seq<char>, n: nat) -> Assoc<Tree> {
    seq![(a, Tree::AbstVar(n))]
}

/// An argument of an application is smaller than the application.
pub proof fn lemma_arg_size(t: Tree, i: int)
    requires
        t is App,
        0 <= i < t->App_1.len(),
    ensures
        t->App_1[i].size() < t.size(),
{
    lemma_total_bound(sizes(t->App_1), i);
}

/// Putting an abstract variable in the place of a variable keeps the size.
pub proof fn lemma_subst_leaf_size(t: Tree, a: Seq<char>, n: nat)
    ensures
        t.subst(abst(a, n)).size() == t.size(),
    decreases t,
{
    let s = abst(a, n);
    match t {
        Tree::App(x, args) => {
            if args.len() == 0 {
                lemma_find(s, x);
                assert(sizes(args) =~= Seq::<nat>::empty());
                assert(sizes(Seq::<Tree>::empty()) =~= Seq::<nat>::empty());
            } else {
                let out = substs(args, s);
                assert forall|i: int| 0 <= i < args.len() implies (#[trigger] out[i]).size()
                    == args[i].size() by {
                    lemma_subst_leaf_size(args[i], a, n);
                }
                assert(sizes(out) =~= sizes(args));
            }
        },
        Tree::Forall(_, _, b) => {
            lemma_subst_leaf_size(*b, a, n);
        },
        Tree::Exists(_, _, b) => {
            lemma_subst_leaf_size(*b, a, n);
        },
        _ => {},
    }
}

/// Replacing nothing leaves the tree as it is.
pub proof fn lemma_subst_nothing(t: Tree)
    ensures
        t.subst(Seq::empty()) == t,
    decreases t,
{
    match t {
        Tree::App(x, args) => {
            if args.len() > 0 {
                let out = substs(args, Seq::empty());
                assert forall|i: int| 0 <= i < args.len() implies #[trigger] out[i] == args[i] by {
                    lemma_subst_nothing(args[i]);
                }
                assert(out =~= args);
            }
        },
        Tree::Forall(_, _, b) => {
            lemma_subst_nothing(*b);
        },
        Tree::Exists(_, _, b) => {
            lemma_subst_nothing(*b);
        },
        _ => {},
    }
}

/// The entries of `first`, each with `then` replaced into its tree.
pub open spec fn replaced(then: Assoc<Tree>, first: Assoc<Tree>) -> Assoc<Tree> {
    Seq::new(first.len(), |i: int| (first[i].0, first[i].1.subst(then)))
}

/// The composition of two tree substitutions, `then` after `first`.
pub open spec fn compose(then: Assoc<Tree>, first: Assoc<Tree>) -> Assoc<Tree> {
    minus(then, first) + replaced(then, first)
}

/// What a composition holds for a variable.
pub proof fn lemma_lookup_compose(then: Assoc<Tree>, first: Assoc<Tree>, x: Seq<char>)
    ensures
        lookup(compose(then, first), x) == (match lookup(first, x) {
            Some(t) => Some(t.subst(then)),
            None => lookup(then, x),
        }),
{
    let r = replaced(then, first);
    crate::assoc::lemma_lookup_concat(minus(then, first), r, x);
    crate::assoc::lemma_lookup_minus(then, first, x);
    lemma_find(first, x);
    match find(first, x) {
        Some(i) => {
            lemma_find_at(r, x, i);
        },
        None => {
            lemma_find_none(r, x);
        },
    }
}

/// Replacing with `first` and then with `then` is replacing with their
/// composition.
pub proof fn lemma_subst_compose(t: Tree, first: Assoc<Tree>, then: Assoc<Tree>)
    ensures
        t.subst(first).subst(then) == t.subst(compose(then, first)),
    decreases t,
{
    match t {
        Tree::App(x, args) => {
            if args.len() == 0 {
                lemma_lookup_compose(then, first, x);
            } else {
                let mid = substs(args, first);
                let lhs = substs(mid, then);
                let rhs = substs(args, compose(then, first));
                assert forall|i: int| 0 <= i < args.len() implies #[trigger] lhs[i] == rhs[i] by {
                    lemma_subst_compose(args[i], first, then);
                }
                assert(lhs =~= rhs);
            }
        },
        Tree::Forall(_, _, b) => {
            lemma_subst_compose(*b, first, then);
        },
        Tree::Exists(_, _, b) => {
            lemma_subst_compose(*b, first, then);
        },
        _ => {},
    }
}

/// Every tree is equivalent to itself.
pub proof fn lemma_eqv_reflexive(t: Tree, n: nat)
    ensures
        t.eqv(t, n),
    decreases t.size(),
{
    match t {
        Tree::App(x, xs) => {
            assert forall|i: int| 0 <= i < xs.len() implies (#[trigger] xs[i]).eqv(xs[i], n) by {
                lemma_arg_size(t, i);
                lemma_eqv_reflexive(xs[i], n);
            }
        },
        Tree::Forall(a, k, p) => {
            lemma_subst_leaf_size(*p, a, n);
            lemma_eqv_reflexive(p.subst(abst(a, n)), n + 1);
        },
        Tree::Exists(a, k, p) => {
            lemma_subst_leaf_size(*p, a, n);
            lemma_eqv_reflexive(p.subst(abst(a, n)), n + 1);
        },
        _ => {},
    }
}

/// Equivalence does not depend on the side a tree stands on.
pub proof fn lemma_eqv_symmetric(t: Tree, u: Tree, n: nat)
    requires
        t.eqv(u, n),
    ensures
        u.eqv(t, n),
    decreases t.size(),
{
    match (t, u) {
        (Tree::App(x, xs), Tree::App(y, ys)) => {
            assert forall|i: int| 0 <= i < ys.len() implies (#[trigger] ys[i]).eqv(xs[i], n) by {
                lemma_arg_size(t, i);
                assert(xs[i].eqv(ys[i], n));
                lemma_eqv_symmetric(xs[i], ys[i], n);
            }
        },
        (Tree::Forall(a, j, p), Tree::Forall(b, k, q)) => {
            lemma_subst_leaf_size(*p, a, n);
            lemma_eqv_symmetric(p.subst(abst(a, n)), q.subst(abst(b, n)), n + 1);
        },
        (Tree::Exists(a, j, p), Tree::Exists(b, k, q)) => {
            lemma_subst_leaf_size(*p, a, n);
            lemma_eqv_symmetric(p.subst(abst(a, n)), q.subst(abst(b, n)), n + 1);
        },
        _ => {},
    }
}

/// Two trees that are equivalent to a third are equivalent to each other.
pub proof fn lemma_eqv_transitive(t: Tree, u: Tree, v: Tree, n: nat)
    requires
        t.eqv(u, n),
        u.eqv(v, n),
    ensures
        t.eqv(v, n),
    decreases t.size(),
{
    match (t, u, v) {
        (Tree::App(x, xs), Tree::App(y, ys), Tree::App(z, zs)) => {
            assert forall|i: int| 0 <= i < xs.len() implies (#[trigger] xs[i]).eqv(zs[i], n) by {
                lemma_arg_size(t, i);
                assert(xs[i].eqv(ys[i], n));
                assert(ys[i].eqv(zs[i], n));
                lemma_eqv_transitive(xs[i], ys[i], zs[i], n);
            }
        },
        (Tree::Forall(a, j, p), Tree::Forall(b, k, q), Tree::Forall(c, l, r)) => {
            lemma_subst_leaf_size(*p, a, n);
            lemma_eqv_transitive(
                p.subst(abst(a, n)),
                q.subst(abst(b, n)),
                r.subst(abst(c, n)),
                n + 1,
            );
        },
        (Tree::Exists(a, j, p), Tree::Exists(b, k, q), Tree::Exists(c, l, r)) => {
            lemma_subst_leaf_size(*p, a, n);
            lemma_eqv_transitive(
                p.subst(abst(a, n)),
                q.subst(abst(b, n)),
                r.subst(abst(c, n)),
                n + 1,
            );
        },
        _ => {},
    }
}

} // verus!
