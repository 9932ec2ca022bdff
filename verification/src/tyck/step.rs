//! The checker as a trampoline. A step of it does the work that a term
//! asks for before its last subterm, and hands that subterm back with the
//! mode it is to be checked in; the driver takes steps until one is done.
//! A chain of `let`s and `do`s is then checked in a loop, however long.

use vstd::prelude::*;
use std::rc::Rc;
use crate::ctx::{Ctx, CtxM};
use crate::err::{error_model, type_result_model, TyckError, TyckErrorM};
use crate::kind::{Kind, KindM};
use crate::span::Span;
use crate::term::{TermComputation, TermValue};
use crate::tyck::kinding::ensure_kind;
use crate::tyck::rules::{ana_comp, ana_value, pack_ctx, syn_comp, syn_value};
use crate::tyck::support::{do_bound, ensure_computation_type};
use crate::types::{Type, TypeM};

verus! {

/// What a step of the checker hands back: a term to synthesise a type
/// for, a term to analyse against a type, or the type that was found.
pub enum Step<In, Out> {
    SynMode(In),
    AnaMode(In, Out),
    Done(Out),
}

/// A step on a value: the context and the value that is still to be
/// checked.
pub type ValueStep<'a> = Step<(Ctx, &'a Span<TermValue>), Type>;

/// A step on a computation: the context and the computation that is still
/// to be checked.
pub type CompStep<'a> = Step<(Ctx, &'a Span<TermComputation>), Type>;

/// The mathematical value of a step on a term of sort `T`: the mode, the
/// context, the term that is handed back, and the type.
pub enum StepM<T> {
    SynMode(CtxM, T),
    AnaMode(CtxM, T, TypeM),
    Done(TypeM),
}

/// The mathematical value of a step on a value.
pub open spec fn value_step_view(step: ValueStep) -> StepM<Span<TermValue>> {
    match step {
        Step::SynMode((ctx, v)) => StepM::SynMode(ctx@, *v),
        Step::AnaMode((ctx, v), typ) => StepM::AnaMode(ctx@, *v, typ@),
        Step::Done(typ) => StepM::Done(typ@),
    }
}

/// The mathematical value of a step on a computation.
pub open spec fn comp_step_view(step: CompStep) -> StepM<Span<TermComputation>> {
    match step {
        Step::SynMode((ctx, c)) => StepM::SynMode(ctx@, *c),
        Step::AnaMode((ctx, c), typ) => StepM::AnaMode(ctx@, *c, typ@),
        Step::Done(typ) => StepM::Done(typ@),
    }
}

/// The mathematical value of the outcome of a step on a value.
pub open spec fn value_step_model(r: Result<ValueStep, TyckError>) -> Result<
    StepM<Span<TermValue>>,
    TyckErrorM,
> {
    match r {
        Ok(step) => Ok(value_step_view(step)),
        Err(e) => Err(error_model(e)),
    }
}

/// The mathematical value of the outcome of a step on a computation.
pub open spec fn comp_step_model(r: Result<CompStep, TyckError>) -> Result<
    StepM<Span<TermComputation>>,
    TyckErrorM,
> {
    match r {
        Ok(step) => Ok(comp_step_view(step)),
        Err(e) => Err(error_model(e)),
    }
}

/// The step that is done with the type that a judgment gave.
pub open spec fn done<T>(r: Result<TypeM, TyckErrorM>) -> Result<StepM<T>, TyckErrorM> {
    match r {
        Ok(t) => Ok(StepM::Done(t)),
        Err(e) => Err(e),
    }
}

/// The outcome of an analysis as the driver gives it: the type that the
/// term was held against, if it has that type.
pub open spec fn holds(r: Result<(), TyckErrorM>, typ: TypeM) -> Result<TypeM, TyckErrorM> {
    match r {
        Ok(_) => Ok(typ),
        Err(e) => Err(e),
    }
}

/// One step of synthesis on a value. An annotated value, once the
/// annotation is known to be a value type, hands back the value under the
/// annotation, to be analysed against the annotation in the same context;
/// any other value is done with the type that synthesis gives.
pub open spec fn syn_value_step(v: Span<TermValue>, ctx: CtxM) -> Result<
    StepM<Span<TermValue>>,
    TyckErrorM,
> {
    match v.inner {
        TermValue::Annotation { term, ty } => match ty@.ana_kind(
            KindM::VType,
            ctx,
            ty.info,
            "value term annotation"@,
        ) {
            Err(e) => Err(e),
            Ok(_) => Ok(StepM::AnaMode(ctx, *term, ty@)),
        },
        _ => done(syn_value(v, ctx)),
    }
}

/// One step of analysis on a value against `typ`: the value is done with
/// `typ`, if it has that type.
pub open spec fn ana_value_step(v: Span<TermValue>, typ: TypeM, ctx: CtxM) -> Result<
    StepM<Span<TermValue>>,
    TyckErrorM,
> {
    done(holds(ana_value(v, typ, ctx), typ))
}

/// One step of synthesis on a computation. An annotated computation, once
/// the annotation is known to be a computation type, hands back the
/// computation under the annotation, to be analysed against the annotation
/// in the same context. A `let` and a `do` hand back their body, to be
/// synthesised with the variable bound to the type of what it is bound to;
/// a `matchpack` hands back its body, to be synthesised in the context of
/// the body. Any other computation is done with the type that synthesis
/// gives.
pub open spec fn syn_comp_step(c: Span<TermComputation>, ctx: CtxM) -> Result<
    StepM<Span<TermComputation>>,
    TyckErrorM,
> {
    let info = c.info;
    match c.inner {
        TermComputation::Annotation { term, ty } => match ty@.ana_kind(
            KindM::CType,
            ctx,
            ty.info,
            "computation term annotation"@,
        ) {
            Err(e) => Err(e),
            Ok(_) => Ok(StepM::AnaMode(ctx, *term, ty@)),
        },
        TermComputation::Let { var, def, body } => match syn_value(*def, ctx) {
            Err(e) => Err(e),
            Ok(t) => match ensure_kind(t.syn_kind(ctx, info), KindM::VType, info, "let"@) {
                Err(e) => Err(e),
                Ok(_) => Ok(StepM::SynMode(ctx.bind_term(var@, t), *body)),
            },
        },
        TermComputation::Do { var, comp, body } => match syn_comp(*comp, ctx) {
            Err(e) => Err(e),
            Ok(t) => match crate::tyck::rules::do_bound(t, ctx, info) {
                Err(e) => Err(e),
                Ok(a) => Ok(StepM::SynMode(ctx.bind_term(var@, a), *body)),
            },
        },
        TermComputation::MatchPack { scrut, tvar, var, body } => match pack_ctx(c, ctx) {
            Err(e) => Err(e),
            Ok(inner) => Ok(StepM::SynMode(inner, *body)),
        },
        _ => done(syn_comp(c, ctx)),
    }
}

/// One step of analysis on a computation against `typ`, which must be a
/// computation type. A `let` and a `do` hand back their body, to be
/// analysed against `typ` with the variable bound to the type of what it
/// is bound to; a `rec` hands back its body, to be analysed against `typ`
/// with the variable bound to the type of thunks of `typ`; a `matchpack`
/// hands back its body, to be analysed against `typ` in the context of the
/// body. Any other computation is done with `typ`, if it has that type.
pub open spec fn ana_comp_step(c: Span<TermComputation>, typ: TypeM, ctx: CtxM) -> Result<
    StepM<Span<TermComputation>>,
    TyckErrorM,
> {
    let info = c.info;
    match ensure_kind(typ.syn_kind(ctx, info), KindM::CType, info, "ana computation"@) {
        Err(e) => Err(e),
        Ok(_) => match c.inner {
            TermComputation::Let { var, def, body } => match syn_value(*def, ctx) {
                Err(e) => Err(e),
                Ok(t) => match ensure_kind(t.syn_kind(ctx, info), KindM::VType, info, "let"@) {
                    Err(e) => Err(e),
                    Ok(_) => Ok(StepM::AnaMode(ctx.bind_term(var@, t), *body, typ)),
                },
            },
            TermComputation::Do { var, comp, body } => match syn_comp(*comp, ctx) {
                Err(e) => Err(e),
                Ok(t) => match crate::tyck::rules::do_bound(t, ctx, info) {
                    Err(e) => Err(e),
                    Ok(a) => Ok(StepM::AnaMode(ctx.bind_term(var@, a), *body, typ)),
                },
            },
            TermComputation::Rec { var, body } => Ok(
                StepM::AnaMode(ctx.bind_term(var@, TypeM::thunk(typ)), *body, typ),
            ),
            TermComputation::MatchPack { scrut, tvar, var, body } => match pack_ctx(c, ctx) {
                Err(e) => Err(e),
                Ok(inner) => Ok(StepM::AnaMode(inner, *body, typ)),
            },
            _ => done(holds(ana_comp(c, typ, ctx), typ)),
        },
    }
}

/// What the driver gives from a step on a value.
pub open spec fn value_outcome(step: StepM<Span<TermValue>>) -> Result<TypeM, TyckErrorM> {
    match step {
        StepM::SynMode(ctx, v) => syn_value(v, ctx),
        StepM::AnaMode(ctx, v, typ) => holds(ana_value(v, typ, ctx), typ),
        StepM::Done(typ) => Ok(typ),
    }
}

/// What the driver gives from a step on a computation.
pub open spec fn comp_outcome(step: StepM<Span<TermComputation>>) -> Result<TypeM, TyckErrorM> {
    match step {
        StepM::SynMode(ctx, c) => syn_comp(c, ctx),
        StepM::AnaMode(ctx, c, typ) => holds(ana_comp(c, typ, ctx), typ),
        StepM::Done(typ) => Ok(typ),
    }
}

/// What the driver gives from the outcome of a step on a value.
pub open spec fn value_driven(r: Result<StepM<Span<TermValue>>, TyckErrorM>) -> Result<
    TypeM,
    TyckErrorM,
> {
    match r {
        Ok(step) => value_outcome(step),
        Err(e) => Err(e),
    }
}

/// What the driver gives from the outcome of a step on a computation.
pub open spec fn comp_driven(r: Result<StepM<Span<TermComputation>>, TyckErrorM>) -> Result<
    TypeM,
    TyckErrorM,
> {
    match r {
        Ok(step) => comp_outcome(step),
        Err(e) => Err(e),
    }
}

/// How many steps the driver takes at most on a value before a step is
/// done.
pub open spec fn value_tail(v: Span<TermValue>) -> nat
    decreases v,
{
    match v.inner {
        TermValue::Annotation { term, ty } => 1 + value_tail(*term),
        _ => 0,
    }
}

/// How many steps the driver takes at most on a computation before a step
/// is done.
pub open spec fn comp_tail(c: Span<TermComputation>) -> nat
    decreases c,
{
    match c.inner {
        TermComputation::Annotation { term, ty } => 1 + comp_tail(*term),
        TermComputation::Let { var, def, body } => 1 + comp_tail(*body),
        TermComputation::Do { var, comp, body } => 1 + comp_tail(*body),
        TermComputation::Rec { var, body } => 1 + comp_tail(*body),
        TermComputation::MatchPack { scrut, tvar, var, body } => 1 + comp_tail(*body),
        _ => 0,
    }
}

/// How many more steps the driver takes at most after a step on a value.
pub open spec fn value_steps_left(step: StepM<Span<TermValue>>) -> nat {
    match step {
        StepM::SynMode(ctx, v) => 1 + value_tail(v),
        StepM::AnaMode(ctx, v, typ) => 1 + value_tail(v),
        StepM::Done(typ) => 0,
    }
}

/// How many more steps the driver takes at most after a step on a
/// computation.
pub open spec fn comp_steps_left(step: StepM<Span<TermComputation>>) -> nat {
    match step {
        StepM::SynMode(ctx, c) => 1 + comp_tail(c),
        StepM::AnaMode(ctx, c, typ) => 1 + comp_tail(c),
        StepM::Done(typ) => 0,
    }
}

/// A step of synthesis on a value does not change what the driver gives,
/// and brings the driver nearer to its end.
pub proof fn lemma_syn_value_step(v: Span<TermValue>, ctx: CtxM)
    ensures
        value_driven(syn_value_step(v, ctx)) == syn_value(v, ctx),
        syn_value_step(v, ctx) matches Ok(step) ==> value_steps_left(step) <= value_tail(v),
{
}

/// A step of analysis on a value does not change what the driver gives,
/// and brings the driver nearer to its end.
pub proof fn lemma_ana_value_step(v: Span<TermValue>, typ: TypeM, ctx: CtxM)
    ensures
        value_driven(ana_value_step(v, typ, ctx)) == holds(ana_value(v, typ, ctx), typ),
        ana_value_step(v, typ, ctx) matches Ok(step) ==> value_steps_left(step) <= value_tail(v),
{
}

/// A step of synthesis on a computation does not change what the driver
/// gives, and brings the driver nearer to its end.
pub proof fn lemma_syn_comp_step(c: Span<TermComputation>, ctx: CtxM)
    ensures
        comp_driven(syn_comp_step(c, ctx)) == syn_comp(c, ctx),
        syn_comp_step(c, ctx) matches Ok(step) ==> comp_steps_left(step) <= comp_tail(c),
{
}

/// A step of analysis on a computation does not change what the driver
/// gives, and brings the driver nearer to its end.
pub proof fn lemma_ana_comp_step(c: Span<TermComputation>, typ: TypeM, ctx: CtxM)
    ensures
        comp_driven(ana_comp_step(c, typ, ctx)) == holds(ana_comp(c, typ, ctx), typ),
        ana_comp_step(c, typ, ctx) matches Ok(step) ==> comp_steps_left(step) <= comp_tail(c),
{
}

impl Span<TermValue> {
    /// One step of synthesis.
    pub fn syn_step<'a>(&'a self, ctx: Ctx) -> (r: Result<ValueStep<'a>, TyckError>)
        ensures
            value_step_model(r) == syn_value_step(*self, ctx@),
    {
        match &self.inner {
            TermValue::Annotation { term, ty } => {
                match (**ty).inner.ana_kind(&Kind::VType, &ctx, ty.info, "value term annotation") {
                    Ok(_) => Ok(Step::AnaMode((ctx, &**term), (**ty).inner.clone())),
                    Err(e) => Err(e),
                }
            },
            _ => match self.syn(&ctx) {
                Ok(t) => Ok(Step::Done(t)),
                Err(e) => Err(e),
            },
        }
    }

    /// One step of analysis against `typ`. The type that the step carries
    /// is `typ` itself.
    pub fn ana_step<'a>(&'a self, typ: Type, ctx: Ctx) -> (r: Result<ValueStep<'a>, TyckError>)
        ensures
            value_step_model(r) == ana_value_step(*self, typ@, ctx@),
            r matches Ok(Step::Done(t)) ==> t == typ,
    {
        match self.ana(&typ, &ctx) {
            Ok(_) => Ok(Step::Done(typ)),
            Err(e) => Err(e),
        }
    }

    /// The driver: takes steps from `step` on until one is done.
    #[verifier::loop_isolation(false)]
    pub fn tyck(step: ValueStep) -> (r: Result<Type, TyckError>)
        ensures
            type_result_model(r) == value_outcome(value_step_view(step)),
    {
        let ghost target = value_outcome(value_step_view(step));
        let mut step = step;
        loop
            invariant
                value_outcome(value_step_view(step)) == target,
            decreases value_steps_left(value_step_view(step)),
        {
            let taken = match step {
                Step::SynMode((ctx, v)) => {
                    proof {
                        lemma_syn_value_step(*v, ctx@);
                    }
                    v.syn_step(ctx)
                },
                Step::AnaMode((ctx, v), typ) => {
                    proof {
                        lemma_ana_value_step(*v, typ@, ctx@);
                    }
                    v.ana_step(typ, ctx)
                },
                Step::Done(typ) => {
                    return Ok(typ);
                },
            };
            step = match taken {
                Ok(next) => next,
                Err(e) => {
                    return Err(e);
                },
            };
        }
    }
}

impl Span<TermComputation> {
    /// One step of synthesis.
    pub fn syn_step<'a>(&'a self, ctx: Ctx) -> (r: Result<CompStep<'a>, TyckError>)
        ensures
            comp_step_model(r) == syn_comp_step(*self, ctx@),
    {
        let info = self.info;
        match &self.inner {
            TermComputation::Annotation { term, ty } => {
                match (**ty).inner.ana_kind(&Kind::CType, &ctx, ty.info, "computation term annotation") {
                    Ok(_) => Ok(Step::AnaMode((ctx, &**term), (**ty).inner.clone())),
                    Err(e) => Err(e),
                }
            },
            TermComputation::Let { var, def, body } => {
                let t = match (**def).syn(&ctx) {
                    Ok(t) => t,
                    Err(e) => {
                        return Err(e);
                    },
                };
                let k = match t.syn_kind(&ctx, info) {
                    Ok(k) => k,
                    Err(e) => {
                        return Err(e);
                    },
                };
                match k.ensure(&Kind::VType, info, "let") {
                    Ok(_) => Ok(Step::SynMode((ctx.bind_term(var, t), &**body))),
                    Err(e) => Err(e),
                }
            },
            TermComputation::Do { var, comp, body } => {
                let t = match (**comp).syn(&ctx) {
                    Ok(t) => t,
                    Err(e) => {
                        return Err(e);
                    },
                };
                match do_bound(&t, &ctx, info) {
                    Ok(a) => Ok(Step::SynMode((ctx.bind_term(var, a), &**body))),
                    Err(e) => Err(e),
                }
            },
            TermComputation::MatchPack { scrut, tvar, var, body } => {
                match self.open_pack(&ctx) {
                    Ok(inner) => Ok(Step::SynMode((inner, &**body))),
                    Err(e) => Err(e),
                }
            },
            _ => match self.syn(&ctx) {
                Ok(t) => Ok(Step::Done(t)),
                Err(e) => Err(e),
            },
        }
    }

    /// One step of analysis against `typ`. The type that the step carries
    /// is `typ` itself.
    pub fn ana_step<'a>(&'a self, typ: Type, ctx: Ctx) -> (r: Result<CompStep<'a>, TyckError>)
        ensures
            comp_step_model(r) == ana_comp_step(*self, typ@, ctx@),
            r matches Ok(Step::Done(t)) ==> t == typ,
            r matches Ok(Step::AnaMode(_, t)) ==> t == typ,
            !(r matches Ok(Step::SynMode(_))),
    {
        let info = self.info;
        match ensure_computation_type(&typ, &ctx, info) {
            Ok(_) => {},
            Err(e) => {
                return Err(e);
            },
        }
        match &self.inner {
            TermComputation::Let { var, def, body } => {
                let t = match (**def).syn(&ctx) {
                    Ok(t) => t,
                    Err(e) => {
                        return Err(e);
                    },
                };
                let k = match t.syn_kind(&ctx, info) {
                    Ok(k) => k,
                    Err(e) => {
                        return Err(e);
                    },
                };
                match k.ensure(&Kind::VType, info, "let") {
                    Ok(_) => Ok(Step::AnaMode((ctx.bind_term(var, t), &**body), typ)),
                    Err(e) => Err(e),
                }
            },
            TermComputation::Do { var, comp, body } => {
                let t = match (**comp).syn(&ctx) {
                    Ok(t) => t,
                    Err(e) => {
                        return Err(e);
                    },
                };
                match do_bound(&t, &ctx, info) {
                    Ok(a) => Ok(Step::AnaMode((ctx.bind_term(var, a), &**body), typ)),
                    Err(e) => Err(e),
                }
            },
            TermComputation::Rec { var, body } => {
                let inner = ctx.bind_term(var, Type::make_thunk(Rc::new(info.make(typ.clone()))));
                Ok(Step::AnaMode((inner, &**body), typ))
            },
            TermComputation::MatchPack { scrut, tvar, var, body } => {
                match self.open_pack(&ctx) {
                    Ok(inner) => Ok(Step::AnaMode((inner, &**body), typ)),
                    Err(e) => Err(e),
                }
            },
            _ => match self.ana(&typ, &ctx) {
                Ok(_) => Ok(Step::Done(typ)),
                Err(e) => Err(e),
            },
        }
    }

    /// The driver: takes steps from `step` on until one is done.
    #[verifier::loop_isolation(false)]
    pub fn tyck(step: CompStep) -> (r: Result<Type, TyckError>)
        ensures
            type_result_model(r) == comp_outcome(comp_step_view(step)),
    {
        let ghost target = comp_outcome(comp_step_view(step));
        let mut step = step;
        loop
            invariant
                comp_outcome(comp_step_view(step)) == target,
            decreases comp_steps_left(comp_step_view(step)),
        {
            let taken = match step {
                Step::SynMode((ctx, c)) => {
                    proof {
                        lemma_syn_comp_step(*c, ctx@);
                    }
                    c.syn_step(ctx)
                },
                Step::AnaMode((ctx, c), typ) => {
                    proof {
                        lemma_ana_comp_step(*c, typ@, ctx@);
                    }
                    c.ana_step(typ, ctx)
                },
                Step::Done(typ) => {
                    return Ok(typ);
                },
            };
            step = match taken {
                Ok(next) => next,
                Err(e) => {
                    return Err(e);
                },
            };
        }
    }
}

} // verus!
