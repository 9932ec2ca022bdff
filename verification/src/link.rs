//! The linker: from checked terms to the terms that the machine runs.
//!
//! Linking erases what only the type checker reads: annotations, type
//! abstractions and type applications give way to the term inside them, a
//! `pack` to the value packed, and a `matchpack` to a `let`. Each
//! primitive that a module declares is bound to its implementation.

use vstd::prelude::*;
use std::rc::Rc;
use crate::dynamics::prim::prim_named;
use crate::linked;
use crate::linked::{ArmM, CompM, ModuleM, PrimOp, ValM};
use crate::span::{names_of, Name, Span, TermV};
use crate::term::{
    Comatcher, DeclSymbol, Define, DefineExt, Matcher, Program, RcValue, TermComputation,
    TermValue,
};

verus! {

/// The linked form of a value.
pub open spec fn link_value(v: Span<TermValue>) -> ValM
    decreases v,
{
    match v.inner {
        TermValue::Annotation { term, ty } => link_value(*term),
        TermValue::Var(x) => ValM::Var(x@),
        TermValue::Thunk(c) => ValM::Thunk(Box::new(link_comp(*c))),
        TermValue::Ctor { ctor, args } => ValM::Ctor(ctor@, link_values(args@)),
        TermValue::Literal(l) => ValM::Literal(l@),
        TermValue::Pack { ty, body } => link_value(*body),
    }
}

/// The linked forms of a sequence of values, in order.
pub open spec fn link_values(args: Seq<RcValue>) -> Seq<ValM>
    decreases args,
{
    Seq::new(
        args.len(),
        |i: int|
            if 0 <= i < args.len() {
                link_value(*args[i])
            } else {
                arbitrary()
            },
    )
}

/// The linked forms of the arms of a `match`, in order.
pub open spec fn link_matchers(arms: Seq<Matcher>) -> Seq<ArmM>
    decreases arms,
{
    Seq::new(
        arms.len(),
        |i: int|
            if 0 <= i < arms.len() {
                ArmM {
                    tag: arms[i].ctor@,
                    vars: names_of(arms[i].vars@),
                    body: link_comp(*arms[i].body),
                }
            } else {
                arbitrary()
            },
    )
}

/// The linked forms of the arms of a `comatch`, in order.
pub open spec fn link_comatchers(arms: Seq<Comatcher>) -> Seq<ArmM>
    decreases arms,
{
    Seq::new(
        arms.len(),
        |i: int|
            if 0 <= i < arms.len() {
                ArmM {
                    tag: arms[i].dtor@,
                    vars: names_of(arms[i].vars@),
                    body: link_comp(*arms[i].body),
                }
            } else {
                arbitrary()
            },
    )
}

/// The linked form of a computation.
pub open spec fn link_comp(c: Span<TermComputation>) -> CompM
    decreases c,
{
    match c.inner {
        TermComputation::Annotation { term, ty } => link_comp(*term),
        TermComputation::Ret(v) => CompM::Ret(Box::new(link_value(*v))),
        TermComputation::Force(v) => CompM::Force(Box::new(link_value(*v))),
        TermComputation::Let { var, def, body } => CompM::Let(
            var@,
            Box::new(link_value(*def)),
            Box::new(link_comp(*body)),
        ),
        TermComputation::Do { var, comp, body } => CompM::Do(
            var@,
            Box::new(link_comp(*comp)),
            Box::new(link_comp(*body)),
        ),
        TermComputation::Rec { var, body } => CompM::Rec(var@, Box::new(link_comp(*body))),
        TermComputation::Match { scrut, arms } => CompM::Match(
            Box::new(link_value(*scrut)),
            link_matchers(arms@),
        ),
        TermComputation::Comatch { arms } => CompM::Comatch(link_comatchers(arms@)),
        TermComputation::Dtor { body, dtor, args } => CompM::Dtor(
            Box::new(link_comp(*body)),
            dtor@,
            link_values(args@),
        ),
        TermComputation::TyAbsTerm { param, body } => link_comp(*body),
        TermComputation::TyAppTerm { body, arg } => link_comp(*body),
        TermComputation::MatchPack { scrut, tvar, var, body } => CompM::Let(
            var@,
            Box::new(link_value(*scrut)),
            Box::new(link_comp(*body)),
        ),
    }
}

/// The value that a primitive is bound to: a thunk of the primitive.
pub open spec fn prim_value(op: PrimOp) -> ValM {
    ValM::Thunk(Box::new(CompM::Prim(op.spec_arity(), op)))
}

/// The bindings of the first `n` declared primitives, or the name of the
/// first that has no implementation.
pub open spec fn link_externs(ds: Seq<DeclSymbol<DefineExt>>, n: nat) -> Result<
    Seq<(Seq<char>, ValM)>,
    Name,
>
    decreases n,
{
    if n == 0 {
        Ok(Seq::empty())
    } else {
        match link_externs(ds, (n - 1) as nat) {
            Err(x) => Err(x),
            Ok(bound) => match prim_named(ds[n - 1].inner.name@) {
                None => Err(ds[n - 1].inner.name),
                Some(op) => Ok(bound.push((ds[n - 1].inner.name@, prim_value(op)))),
            },
        }
    }
}

/// The bindings of the definitions of a module, in order.
pub open spec fn link_defines(ds: Seq<DeclSymbol<Define>>) -> Seq<(Seq<char>, ValM)> {
    Seq::new(ds.len(), |i: int| (ds[i].inner.name@, link_value(*ds[i].inner.def)))
}

/// The linked form of a program: the primitives are bound first, then the
/// definitions; a primitive without an implementation is reported by name.
pub open spec fn link_program(p: Program) -> Result<ModuleM, Name> {
    let m = p.module.inner;
    match link_externs(m.define_ext@, m.define_ext@.len()) {
        Err(x) => Err(x),
        Ok(bound) => Ok(
            ModuleM {
                name: crate::linked::name_model(m.name),
                define: bound + link_defines(m.define@),
                entry: link_comp(p.entry),
            },
        ),
    }
}

/// A declared primitive that the runtime has no implementation for.
#[derive(Debug, PartialEq, Eq)]
pub struct LinkError {
    pub name: TermV,
}

/// The mathematical value of the outcome of linking a program.
pub open spec fn link_result_model(r: Result<linked::Module, LinkError>) -> Result<
    ModuleM,
    Name,
> {
    match r {
        Ok(m) => Ok(m@),
        Err(e) => Err(e.name),
    }
}

/// Once a primitive has no implementation, linking more fails the same.
pub proof fn lemma_link_externs_fails(ds: Seq<DeclSymbol<DefineExt>>, n: nat, m: nat)
    requires
        n <= m,
        link_externs(ds, n) is Err,
    ensures
        link_externs(ds, m) == link_externs(ds, n),
    decreases m,
{
    if n < m {
        lemma_link_externs_fails(ds, n, (m - 1) as nat);
    }
}

impl Span<TermValue> {
    /// The linked form of the value.
    #[verifier::loop_isolation(false)]
    pub fn link(&self) -> (r: linked::TermValue)
        ensures
            r@ == link_value(*self),
        decreases self,
    {
        match &self.inner {
            TermValue::Annotation { term, ty } => (**term).link(),
            TermValue::Var(x) => linked::TermValue::Var(x.clone()),
            TermValue::Thunk(c) => linked::TermValue::Thunk(Rc::new((**c).link())),
            TermValue::Ctor { ctor, args } => linked::TermValue::Ctor {
                ctor: ctor.clone(),
                args: link_args(args),
            },
            TermValue::Literal(l) => linked::TermValue::Literal(l.clone()),
            TermValue::Pack { ty, body } => (**body).link(),
        }
    }
}

/// The linked forms of a sequence of values.
#[verifier::loop_isolation(false)]
fn link_args(args: &Vec<RcValue>) -> (r: Vec<linked::RcValue>)
    ensures
        linked::vals_model(r@) == link_values(args@),
    decreases args,
{
    let mut out: Vec<linked::RcValue> = Vec::new();
    let mut i: usize = 0;
    while i < args.len()
        invariant
            i <= args.len(),
            out.len() == i,
            forall|j: int| 0 <= j < i ==> (#[trigger] out@[j])@ == link_value(*args@[j]),
        decreases args.len() - i,
    {
        out.push(Rc::new((*args[i]).link()));
        i += 1;
    }
    assert(linked::vals_model(out@) =~= link_values(args@));
    out
}

impl Span<TermComputation> {
    /// The linked form of the computation.
    #[verifier::loop_isolation(false)]
    pub fn link(&self) -> (r: linked::TermComputation)
        ensures
            r@ == link_comp(*self),
        decreases self,
    {
        match &self.inner {
            TermComputation::Annotation { term, ty } => (**term).link(),
            TermComputation::Ret(v) => linked::TermComputation::Ret(Rc::new((**v).link())),
            TermComputation::Force(v) => linked::TermComputation::Force(Rc::new((**v).link())),
            TermComputation::Let { var, def, body } => linked::TermComputation::Let {
                var: var.clone(),
                def: Rc::new((**def).link()),
                body: Rc::new((**body).link()),
            },
            TermComputation::Do { var, comp, body } => linked::TermComputation::Do {
                var: var.clone(),
                comp: Rc::new((**comp).link()),
                body: Rc::new((**body).link()),
            },
            TermComputation::Rec { var, body } => linked::TermComputation::Rec {
                var: var.clone(),
                body: Rc::new((**body).link()),
            },
            TermComputation::Match { scrut, arms } => {
                let mut out: Vec<linked::Matcher> = Vec::new();
                let mut i: usize = 0;
                while i < arms.len()
                    invariant
                        i <= arms.len(),
                        out.len() == i,
                        forall|j: int|
                            0 <= j < i ==> (#[trigger] out@[j]).ctor@ == arms@[j].ctor@ && names_of(
                                out@[j].vars@,
                            ) == names_of(arms@[j].vars@) && out@[j].body@ == link_comp(
                                *arms@[j].body,
                            ),
                    decreases arms.len() - i,
                {
                    out.push(
                        linked::Matcher {
                            ctor: arms[i].ctor.clone(),
                            vars: clone_names(&arms[i].vars),
                            body: Rc::new((*arms[i].body).link()),
                        },
                    );
                    i += 1;
                }
                assert(linked::matchers_model(out@) =~= link_matchers(arms@));
                linked::TermComputation::Match { scrut: Rc::new((**scrut).link()), arms: out }
            },
            TermComputation::Comatch { arms } => {
                let mut out: Vec<linked::Comatcher> = Vec::new();
                let mut i: usize = 0;
                while i < arms.len()
                    invariant
                        i <= arms.len(),
                        out.len() == i,
                        forall|j: int|
                            0 <= j < i ==> (#[trigger] out@[j]).dtor@ == arms@[j].dtor@ && names_of(
                                out@[j].vars@,
                            ) == names_of(arms@[j].vars@) && out@[j].body@ == link_comp(
                                *arms@[j].body,
                            ),
                    decreases arms.len() - i,
                {
                    out.push(
                        linked::Comatcher {
                            dtor: arms[i].dtor.clone(),
                            vars: clone_names(&arms[i].vars),
                            body: Rc::new((*arms[i].body).link()),
                        },
                    );
                    i += 1;
                }
                assert(linked::comatchers_model(out@) =~= link_comatchers(arms@));
                linked::TermComputation::Comatch { arms: out }
            },
            TermComputation::Dtor { body, dtor, args } => linked::TermComputation::Dtor {
                body: Rc::new((**body).link()),
                dtor: dtor.clone(),
                args: link_args(args),
            },
            TermComputation::TyAbsTerm { param, body } => (**body).link(),
            TermComputation::TyAppTerm { body, arg } => (**body).link(),
            TermComputation::MatchPack { scrut, tvar, var, body } => linked::TermComputation::Let {
                var: var.clone(),
                def: Rc::new((**scrut).link()),
                body: Rc::new((**body).link()),
            },
        }
    }
}

/// A copy of a list of names.
pub fn clone_names(v: &Vec<Name>) -> (r: Vec<Name>)
    ensures
        r@ == v@,
{
    let mut out: Vec<Name> = Vec::new();
    let mut i: usize = 0;
    while i < v.len()
        invariant
            i <= v.len(),
            out.len() == i,
            forall|j: int| 0 <= j < i ==> out@[j] == v@[j],
        decreases v.len() - i,
    {
        out.push(v[i].clone());
        i += 1;
    }
    assert(out@ =~= v@);
    out
}

impl PrimOp {
    /// The value that the primitive is bound to: a thunk of the primitive.
    pub fn value(self) -> (r: linked::TermValue)
        ensures
            r@ == prim_value(self),
    {
        let c = linked::TermComputation::Prim { arity: self.arity(), body: self };
        assert(c@ == CompM::Prim(self.spec_arity(), self));
        linked::TermValue::Thunk(Rc::new(c))
    }
}

impl Program {
    /// The linked form of the program.
    #[verifier::loop_isolation(false)]
    pub fn link(&self) -> (r: Result<linked::Module, LinkError>)
        ensures
            link_result_model(r) == link_program(*self),
            r matches Ok(linked) ==> linked.name == self.module.inner.name,
    {
        let m = &self.module.inner;
        let mut define: Vec<(TermV, linked::RcValue)> = Vec::new();
        let mut i: usize = 0;
        assert(linked::defines_model(define@) =~= Seq::empty());
        while i < m.define_ext.len()
            invariant
                i <= m.define_ext.len(),
                link_externs(m.define_ext@, i as nat) == Ok::<Seq<(Seq<char>, ValM)>, Name>(
                    linked::defines_model(define@),
                ),
            decreases m.define_ext.len() - i,
        {
            let d = &m.define_ext[i].inner;
            let ghost before = linked::defines_model(define@);
            match PrimOp::lookup(&d.name) {
                Some(op) => {
                    let v = op.value();
                    define.push((d.name.clone(), Rc::new(v)));
                    assert(linked::defines_model(define@) =~= before.push((d.name@, v@)));
                },
                None => {
                    proof {
                        lemma_link_externs_fails(
                            m.define_ext@,
                            (i + 1) as nat,
                            m.define_ext@.len(),
                        );
                    }
                    return Err(LinkError { name: d.name.clone() });
                },
            }
            i += 1;
        }
        let ghost bound = linked::defines_model(define@);
        let mut k: usize = 0;
        while k < m.define.len()
            invariant
                k <= m.define.len(),
                linked::defines_model(define@) == bound + link_defines(m.define@).take(k as int),
            decreases m.define.len() - k,
        {
            let d = &m.define[k].inner;
            let ghost before = linked::defines_model(define@);
            let v = (*d.def).link();
            define.push((d.name.clone(), Rc::new(v)));
            assert(linked::defines_model(define@) =~= before.push((d.name@, v@)));
            assert(bound + link_defines(m.define@).take(k + 1) =~= (bound + link_defines(
                m.define@,
            ).take(k as int)).push((d.name@, v@)));
            k += 1;
        }
        assert(link_defines(m.define@).take(m.define@.len() as int) =~= link_defines(m.define@));
        let name = match &m.name {
            Some(n) => Some(n.clone()),
            None => None,
        };
        Ok(linked::Module { name, define, entry: Rc::new(self.entry.link()) })
    }
}

} // verus!
