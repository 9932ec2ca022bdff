//! The checker for terms: synthesis and analysis of values and
//! computations.

use vstd::prelude::*;
use std::rc::Rc;
use crate::ctx::Ctx;
use crate::err::{type_result_model, unit_result_model, TyckError, TypeCheckError};
use crate::kind::Kind;
use crate::sharing::rc_clone;
use crate::span::Span;
use crate::term::{Literal, TermComputation, TermValue};
use crate::tyck::kinding::fail;
use crate::tyck::outcome::{lemma_first_err_at, lemma_first_err_none};
use crate::tyck::rules;
use crate::tyck::support::{
    arm_ctx, branches_agree, comatcher_names, comatchers_consistent, ensure_computation_type,
    expect_elim, expect_thunk,
    matcher_names,
    force_body, do_bound, matchers_consistent, open_codata, open_data, scrutinee_data, subsume,
};
use crate::types::{lemma_type_model, owned_types_model, types_model, Env, Forall, SynType, Type};

verus! {

impl Literal {
    /// The type of the literal.
    pub fn syn(&self) -> (r: Type)
        ensures
            r@ == rules::literal_type(*self),
    {
        assert(types_model(Seq::empty()) =~= Seq::empty());
        match self {
            Literal::Int(_) => Type::internal("Int", Vec::new()),
            Literal::String(_) => Type::internal("String", Vec::new()),
            Literal::Char(_) => Type::internal("Char", Vec::new()),
        }
    }
}

impl Span<TermValue> {
    /// Synthesis: the type of the value in the context `ctx`.
    pub fn syn(&self, ctx: &Ctx) -> (r: Result<Type, TyckError>)
        ensures
            type_result_model(r) == rules::syn_value(*self, ctx@),
        decreases *self, 1nat,
    {
        let info = self.info;
        match &self.inner {
            TermValue::Annotation { term, ty } => {
                match (**ty).inner.ana_kind(&Kind::VType, ctx, ty.info, "value term annotation") {
                    Ok(_) => {},
                    Err(e) => {
                        return Err(e);
                    },
                }
                match (**term).ana(&(**ty).inner, ctx) {
                    Ok(_) => Ok((**ty).inner.clone()),
                    Err(e) => Err(e),
                }
            },
            TermValue::Var(x) => match ctx.type_of(x) {
                Some(t) => Ok(t.clone()),
                None => fail(info, TypeCheckError::UnboundVar { var: x.clone() }),
            },
            TermValue::Thunk(c) => {
                let t = match (**c).syn(ctx) {
                    Ok(t) => t,
                    Err(e) => {
                        return Err(e);
                    },
                };
                let k = match t.syn_kind(ctx, info) {
                    Ok(k) => k,
                    Err(e) => {
                        return Err(e);
                    },
                };
                match k.ensure(&Kind::CType, info, "thunk") {
                    Ok(_) => Ok(Type::make_thunk(Rc::new(info.make(t)))),
                    Err(e) => Err(e),
                }
            },
            TermValue::Ctor { .. } => fail(
                info,
                TypeCheckError::NeedAnnotation { content: "ctor".to_owned() },
            ),
            TermValue::Literal(l) => Ok(l.syn()),
            TermValue::Pack { .. } => fail(
                info,
                TypeCheckError::NeedAnnotation { content: "pack".to_owned() },
            ),
        }
    }

    /// Analysis of a constructor applied to arguments against `typ`.
    #[verifier::loop_isolation(false)]
    fn ana_ctor(&self, typ: &Type, ctx: &Ctx) -> (r: Result<(), TyckError>)
        ensures
            unit_result_model(r) == rules::ana_ctor(*self, typ@, ctx@),
        decreases *self, 0nat,
    {
        let info = self.info;
        match &self.inner {
            TermValue::Ctor { ctor, args } => {
                let (d, diff) = match open_data(typ, ctx, info, "ctor", false) {
                    Ok(found) => found,
                    Err(e) => {
                        return Err(e);
                    },
                };
                let j = match d.find_ctor(ctor) {
                    Some(j) => j,
                    None => {
                        return fail(info, TypeCheckError::UnknownConstructor { ctor: ctor.clone() });
                    },
                };
                let tys = &d.ctors[j].tys;
                if args.len() != tys.len() {
                    return fail(
                        info,
                        TypeCheckError::ArityMismatch {
                            context: "ctor".to_owned(),
                            expected: tys.len(),
                            found: args.len(),
                        },
                    );
                }
                let ghost checks = rules::ana_values(args@, types_model(tys@), diff@, ctx@);
                let mut i: usize = 0;
                while i < args.len()
                    invariant
                        i <= args.len(),
                        forall|k: int| 0 <= k < i ==> (#[trigger] checks[k]) is Ok,
                    decreases args.len() - i,
                {
                    let t = (*tys[i]).inner.subst_ref(&diff);
                    match (*args[i]).ana(&t, ctx) {
                        Ok(_) => {},
                        Err(e) => {
                            proof {
                                lemma_first_err_at(checks, i as int);
                            }
                            return Err(e);
                        },
                    }
                    i += 1;
                }
                proof {
                    lemma_first_err_none(checks);
                }
                Ok(())
            },
            _ => Ok(()),
        }
    }

    /// Analysis: whether the value has the type `typ` in the context `ctx`.
    pub fn ana(&self, typ: &Type, ctx: &Ctx) -> (r: Result<(), TyckError>)
        ensures
            unit_result_model(r) == rules::ana_value(*self, typ@, ctx@),
        decreases *self, 2nat,
    {
        let info = self.info;
        match &self.inner {
            TermValue::Thunk(c) => {
                match expect_thunk(typ, info) {
                    Ok(t) => (**c).ana(&t, ctx),
                    Err(e) => Err(e),
                }
            },
            TermValue::Ctor { .. } => self.ana_ctor(typ, ctx),
            TermValue::Pack { ty, body } => {
                let reduced = typ.head_reduction();
                proof {
                    lemma_type_model(reduced);
                }
                match &reduced.synty {
                    SynType::Exists(q) => {
                        match (**ty).inner.ana_kind(&q.param.1, ctx, ty.info, "pack") {
                            Ok(_) => {},
                            Err(e) => {
                                return Err(e);
                            },
                        }
                        let s = Env::singleton(q.param.0.clone(), rc_clone(ty));
                        let t = (*q.ty).inner.subst_ref(&s);
                        (**body).ana(&t, ctx)
                    },
                    _ => fail(
                        info,
                        TypeCheckError::TypeExpected {
                            context: "pack".to_owned(),
                            expected: "exists".to_owned(),
                            found: typ.clone(),
                        },
                    ),
                }
            },
            _ => {
                match self.syn(ctx) {
                    Ok(found) => subsume(&found, typ, ctx, info),
                    Err(e) => Err(e),
                }
            },
        }
    }
}

impl Span<TermComputation> {
    /// Synthesis for a `match`.
    #[verifier::loop_isolation(false)]
    fn syn_match(&self, ctx: &Ctx) -> (r: Result<Type, TyckError>)
        ensures
            type_result_model(r) == rules::syn_match(*self, ctx@),
        decreases *self, 0nat,
    {
        let info = self.info;
        match &self.inner {
            TermComputation::Match { scrut, arms } => {
                let t = match (**scrut).syn(ctx) {
                    Ok(t) => t,
                    Err(e) => {
                        return Err(e);
                    },
                };
                let (d, diff) = match scrutinee_data(&t, ctx, info) {
                    Ok(found) => found,
                    Err(e) => {
                        return Err(e);
                    },
                };
                let ghost rs = rules::syn_matchers(arms@, d@, diff@, ctx@);
                let mut types: Vec<Type> = Vec::new();
                let mut i: usize = 0;
                assert(rs.take(0) =~= Seq::empty());
                assert(owned_types_model(types@) =~= Seq::empty());
                while i < arms.len()
                    invariant
                        i <= arms.len(),
                        forall|k: int| 0 <= k < i ==> (#[trigger] rs[k]) is Ok,
                        owned_types_model(types@) == rules::arm_types(rs.take(i as int)),
                    decreases arms.len() - i,
                {
                    assert(rs.take(i + 1).drop_last() =~= rs.take(i as int));
                    let ghost before = types@;
                    match d.find_ctor(&arms[i].ctor) {
                        None => {},
                        Some(j) => {
                            let inner = arm_ctx(ctx, &arms[i].vars, &d.ctors[j].tys, &diff);
                            let found = match (*arms[i].body).syn(&inner) {
                                Ok(t) => match t.syn_kind(&inner, arms[i].body.info) {
                                    Ok(k) => match k.ensure(
                                        &Kind::CType,
                                        arms[i].body.info,
                                        "match arm",
                                    ) {
                                        Ok(_) => Ok(t),
                                        Err(e) => Err(e),
                                    },
                                    Err(e) => Err(e),
                                },
                                Err(e) => Err(e),
                            };
                            match found {
                                Ok(t) => {
                                    types.push(t);
                                    assert(owned_types_model(types@) =~= owned_types_model(
                                        before,
                                    ).push(t@));
                                },
                                Err(e) => {
                                    proof {
                                        lemma_first_err_at(rs, i as int);
                                    }
                                    return Err(e);
                                },
                            }
                        },
                    }
                    i += 1;
                }
                proof {
                    lemma_first_err_none(rs);
                    assert(rs.take(arms.len() as int) =~= rs);
                }
                let names = matcher_names(arms);
                let ctors = d.ctor_names();
                match matchers_consistent(&names, &ctors, info) {
                    Ok(_) => {},
                    Err(e) => {
                        return Err(e);
                    },
                }
                branches_agree(types, ctx, info)
            },
            _ => fail(info, TypeCheckError::Subsumption),
        }
    }

    /// Analysis of a `match` against `typ`.
    #[verifier::loop_isolation(false)]
    fn ana_match(&self, typ: &Type, ctx: &Ctx) -> (r: Result<(), TyckError>)
        ensures
            unit_result_model(r) == rules::ana_match(*self, typ@, ctx@),
        decreases *self, 0nat,
    {
        let info = self.info;
        match &self.inner {
            TermComputation::Match { scrut, arms } => {
                let t = match (**scrut).syn(ctx) {
                    Ok(t) => t,
                    Err(e) => {
                        return Err(e);
                    },
                };
                let (d, diff) = match scrutinee_data(&t, ctx, info) {
                    Ok(found) => found,
                    Err(e) => {
                        return Err(e);
                    },
                };
                let ghost rs = rules::ana_matchers(arms@, d@, diff@, typ@, ctx@);
                let mut i: usize = 0;
                while i < arms.len()
                    invariant
                        i <= arms.len(),
                        forall|k: int| 0 <= k < i ==> (#[trigger] rs[k]) is Ok,
                    decreases arms.len() - i,
                {
                    match d.find_ctor(&arms[i].ctor) {
                        None => {},
                        Some(j) => {
                            let inner = arm_ctx(ctx, &arms[i].vars, &d.ctors[j].tys, &diff);
                            match (*arms[i].body).ana(typ, &inner) {
                                Ok(_) => {},
                                Err(e) => {
                                    proof {
                                        lemma_first_err_at(rs, i as int);
                                    }
                                    return Err(e);
                                },
                            }
                        },
                    }
                    i += 1;
                }
                proof {
                    lemma_first_err_none(rs);
                }
                let names = matcher_names(arms);
                let ctors = d.ctor_names();
                matchers_consistent(&names, &ctors, info)
            },
            _ => Ok(()),
        }
    }

    /// Analysis of a `comatch` against `typ`.
    #[verifier::loop_isolation(false)]
    fn ana_comatch(&self, typ: &Type, ctx: &Ctx) -> (r: Result<(), TyckError>)
        ensures
            unit_result_model(r) == rules::ana_comatch(*self, typ@, ctx@),
        decreases *self, 0nat,
    {
        let info = self.info;
        match &self.inner {
            TermComputation::Comatch { arms } => {
                let (d, diff) = match open_codata(typ, ctx, info, "comatch", true) {
                    Ok(found) => found,
                    Err(e) => {
                        return Err(e);
                    },
                };
                let ghost rs = rules::ana_comatchers(arms@, d@, diff@, ctx@);
                let mut i: usize = 0;
                while i < arms.len()
                    invariant
                        i <= arms.len(),
                        forall|k: int| 0 <= k < i ==> (#[trigger] rs[k]) is Ok,
                    decreases arms.len() - i,
                {
                    match d.find_dtor(&arms[i].dtor) {
                        None => {},
                        Some(j) => {
                            let inner = arm_ctx(ctx, &arms[i].vars, &d.dtors[j].tys, &diff);
                            let t = (*d.dtors[j].ty).inner.subst_ref(&diff);
                            match (*arms[i].body).ana(&t, &inner) {
                                Ok(_) => {},
                                Err(e) => {
                                    proof {
                                        lemma_first_err_at(rs, i as int);
                                    }
                                    return Err(e);
                                },
                            }
                        },
                    }
                    i += 1;
                }
                proof {
                    lemma_first_err_none(rs);
                }
                let names = comatcher_names(arms);
                let dtors = d.dtor_names();
                comatchers_consistent(&names, &dtors, info)
            },
            _ => Ok(()),
        }
    }

    /// Synthesis for a destructor applied to arguments.
    #[verifier::loop_isolation(false)]
    fn syn_dtor(&self, ctx: &Ctx) -> (r: Result<Type, TyckError>)
        ensures
            type_result_model(r) == rules::syn_dtor(*self, ctx@),
        decreases *self, 0nat,
    {
        let info = self.info;
        match &self.inner {
            TermComputation::Dtor { body, dtor, args } => {
                let t = match (**body).syn(ctx) {
                    Ok(t) => t,
                    Err(e) => {
                        return Err(e);
                    },
                };
                let (d, diff) = match open_codata(&t, ctx, info, "dtor", true) {
                    Ok(found) => found,
                    Err(e) => {
                        return Err(e);
                    },
                };
                let j = match d.find_dtor(dtor) {
                    Some(j) => j,
                    None => {
                        return fail(
                            body.info,
                            TypeCheckError::UnknownDestructor { dtor: dtor.clone() },
                        );
                    },
                };
                let tys = &d.dtors[j].tys;
                if args.len() != tys.len() {
                    return fail(
                        info,
                        TypeCheckError::ArityMismatch {
                            context: "dtor".to_owned(),
                            expected: tys.len(),
                            found: args.len(),
                        },
                    );
                }
                let ghost checks = rules::ana_values(args@, types_model(tys@), diff@, ctx@);
                let mut i: usize = 0;
                while i < args.len()
                    invariant
                        i <= args.len(),
                        forall|k: int| 0 <= k < i ==> (#[trigger] checks[k]) is Ok,
                    decreases args.len() - i,
                {
                    let t = (*tys[i]).inner.subst_ref(&diff);
                    match (*args[i]).ana(&t, ctx) {
                        Ok(_) => {},
                        Err(e) => {
                            proof {
                                lemma_first_err_at(checks, i as int);
                            }
                            return Err(e);
                        },
                    }
                    i += 1;
                }
                proof {
                    lemma_first_err_none(checks);
                }
                Ok((*d.dtors[j].ty).inner.subst_ref(&diff))
            },
            _ => fail(info, TypeCheckError::Subsumption),
        }
    }

    /// The context of the body of a `matchpack`: the scrutinee must have
    /// an existential type; the type variable is bound at the kind of the
    /// quantified variable, and the term variable at the type of the body
    /// of the existential type, with the type variable in the place of the
    /// quantified one.
    pub fn open_pack(&self, ctx: &Ctx) -> (r: Result<Ctx, TyckError>)
        ensures
            crate::tyck::module::ctx_result_model(r) == rules::pack_ctx(*self, ctx@),
        decreases *self, 0nat,
    {
        let info = self.info;
        match &self.inner {
            TermComputation::MatchPack { scrut, tvar, var, body } => {
                let t = match (**scrut).syn(ctx) {
                    Ok(t) => t,
                    Err(e) => {
                        return Err(e);
                    },
                };
                let reduced = t.head_reduction();
                proof {
                    lemma_type_model(reduced);
                }
                match &reduced.synty {
                    SynType::Exists(q) => {
                        let s = Env::singleton(
                            q.param.0.clone(),
                            Rc::new(tvar.info.make(Type::var(tvar.clone()))),
                        );
                        Ok(
                            ctx.bind_type(tvar, q.param.1.clone()).bind_term(
                                var,
                                (*q.ty).inner.subst_ref(&s),
                            ),
                        )
                    },
                    _ => fail(
                        info,
                        TypeCheckError::TypeExpected {
                            context: "matchpack".to_owned(),
                            expected: "exists".to_owned(),
                            found: t,
                        },
                    ),
                }
            },
            _ => Ok(ctx.clone()),
        }
    }

    /// Synthesis: the type of the computation in the context `ctx`.
    pub fn syn(&self, ctx: &Ctx) -> (r: Result<Type, TyckError>)
        ensures
            type_result_model(r) == rules::syn_comp(*self, ctx@),
        decreases *self, 1nat,
    {
        let info = self.info;
        match &self.inner {
            TermComputation::Annotation { term, ty } => {
                match (**ty).inner.ana_kind(&Kind::CType, ctx, ty.info, "computation term annotation") {
                    Ok(_) => {},
                    Err(e) => {
                        return Err(e);
                    },
                }
                match (**term).ana(&(**ty).inner, ctx) {
                    Ok(_) => Ok((**ty).inner.clone()),
                    Err(e) => Err(e),
                }
            },
            TermComputation::Ret(v) => {
                let t = match (**v).syn(ctx) {
                    Ok(t) => t,
                    Err(e) => {
                        return Err(e);
                    },
                };
                let k = match t.syn_kind(ctx, info) {
                    Ok(k) => k,
                    Err(e) => {
                        return Err(e);
                    },
                };
                match k.ensure(&Kind::VType, info, "ret") {
                    Ok(_) => Ok(Type::make_ret(Rc::new(info.make(t)))),
                    Err(e) => Err(e),
                }
            },
            TermComputation::Force(v) => {
                match (**v).syn(ctx) {
                    Ok(t) => force_body(&t, ctx, info),
                    Err(e) => Err(e),
                }
            },
            TermComputation::Let { var, def, body } => {
                let t = match (**def).syn(ctx) {
                    Ok(t) => t,
                    Err(e) => {
                        return Err(e);
                    },
                };
                let k = match t.syn_kind(ctx, info) {
                    Ok(k) => k,
                    Err(e) => {
                        return Err(e);
                    },
                };
                match k.ensure(&Kind::VType, info, "let") {
                    Ok(_) => {},
                    Err(e) => {
                        return Err(e);
                    },
                }
                let inner = ctx.bind_term(var, t);
                (**body).syn(&inner)
            },
            TermComputation::Do { var, comp, body } => {
                let t = match (**comp).syn(ctx) {
                    Ok(t) => t,
                    Err(e) => {
                        return Err(e);
                    },
                };
                let a = match do_bound(&t, ctx, info) {
                    Ok(a) => a,
                    Err(e) => {
                        return Err(e);
                    },
                };
                let inner = ctx.bind_term(var, a);
                (**body).syn(&inner)
            },
            TermComputation::Rec { .. } => fail(
                info,
                TypeCheckError::NeedAnnotation { content: "rec".to_owned() },
            ),
            TermComputation::Match { .. } => self.syn_match(ctx),
            TermComputation::Comatch { .. } => fail(
                info,
                TypeCheckError::NeedAnnotation { content: "comatch".to_owned() },
            ),
            TermComputation::Dtor { .. } => self.syn_dtor(ctx),
            TermComputation::TyAbsTerm { param, body } => {
                let inner = ctx.bind_type(&param.0, param.1.clone());
                match (**body).syn(&inner) {
                    Ok(t) => {
                        let r = Type::new(
                            SynType::Forall(
                                Forall {
                                    param: (param.0.clone(), param.1.clone()),
                                    ty: Rc::new(info.make(t)),
                                },
                            ),
                        );
                        proof {
                            lemma_type_model(r);
                        }
                        Ok(r)
                    },
                    Err(e) => Err(e),
                }
            },
            TermComputation::TyAppTerm { body, arg } => {
                let t = match (**body).syn(ctx) {
                    Ok(t) => t,
                    Err(e) => {
                        return Err(e);
                    },
                };
                let reduced = t.head_reduction();
                proof {
                    lemma_type_model(reduced);
                }
                match &reduced.synty {
                    SynType::Forall(q) => {
                        match (**arg).inner.ana_kind(&q.param.1, ctx, arg.info, "type application") {
                            Ok(_) => {},
                            Err(e) => {
                                return Err(e);
                            },
                        }
                        let s = Env::singleton(q.param.0.clone(), rc_clone(arg));
                        Ok((*q.ty).inner.subst_ref(&s))
                    },
                    _ => fail(
                        info,
                        TypeCheckError::TypeExpected {
                            context: "type application".to_owned(),
                            expected: "forall".to_owned(),
                            found: t,
                        },
                    ),
                }
            },
            TermComputation::MatchPack { scrut, tvar, var, body } => {
                match self.open_pack(ctx) {
                    Ok(inner) => (**body).syn(&inner),
                    Err(e) => Err(e),
                }
            },
        }
    }

    /// Analysis: whether the computation has the type `typ` in the context
    /// `ctx`.
    pub fn ana(&self, typ: &Type, ctx: &Ctx) -> (r: Result<(), TyckError>)
        ensures
            unit_result_model(r) == rules::ana_comp(*self, typ@, ctx@),
        decreases *self, 2nat,
    {
        let info = self.info;
        match ensure_computation_type(typ, ctx, info) {
            Ok(_) => {},
            Err(e) => {
                return Err(e);
            },
        }
        match &self.inner {
            TermComputation::Ret(v) => {
                match expect_elim(typ, "Ret", info, "ret", "Ret a") {
                    Ok(a) => (**v).ana(&a, ctx),
                    Err(e) => Err(e),
                }
            },
            TermComputation::Let { var, def, body } => {
                let t = match (**def).syn(ctx) {
                    Ok(t) => t,
                    Err(e) => {
                        return Err(e);
                    },
                };
                let k = match t.syn_kind(ctx, info) {
                    Ok(k) => k,
                    Err(e) => {
                        return Err(e);
                    },
                };
                match k.ensure(&Kind::VType, info, "let") {
                    Ok(_) => {},
                    Err(e) => {
                        return Err(e);
                    },
                }
                let inner = ctx.bind_term(var, t);
                (**body).ana(typ, &inner)
            },
            TermComputation::Do { var, comp, body } => {
                let t = match (**comp).syn(ctx) {
                    Ok(t) => t,
                    Err(e) => {
                        return Err(e);
                    },
                };
                let a = match do_bound(&t, ctx, info) {
                    Ok(a) => a,
                    Err(e) => {
                        return Err(e);
                    },
                };
                let inner = ctx.bind_term(var, a);
                (**body).ana(typ, &inner)
            },
            TermComputation::Rec { var, body } => {
                let inner = ctx.bind_term(var, Type::make_thunk(Rc::new(info.make(typ.clone()))));
                (**body).ana(typ, &inner)
            },
            TermComputation::Match { .. } => self.ana_match(typ, ctx),
            TermComputation::Comatch { .. } => self.ana_comatch(typ, ctx),
            TermComputation::TyAbsTerm { param, body } => {
                let reduced = typ.head_reduction();
                proof {
                    lemma_type_model(reduced);
                }
                match &reduced.synty {
                    SynType::Forall(q) => {
                        if !param.1.eqv(&q.param.1) {
                            return fail(
                                info,
                                TypeCheckError::KindMismatch {
                                    context: "type abstraction".to_owned(),
                                    expected: q.param.1.clone(),
                                    found: param.1.clone(),
                                },
                            );
                        }
                        let s = Env::singleton(
                            q.param.0.clone(),
                            Rc::new(param.0.info.make(Type::var(param.0.clone()))),
                        );
                        let t = (*q.ty).inner.subst_ref(&s);
                        let inner = ctx.bind_type(&param.0, param.1.clone());
                        (**body).ana(&t, &inner)
                    },
                    _ => fail(
                        info,
                        TypeCheckError::TypeExpected {
                            context: "type abstraction".to_owned(),
                            expected: "forall".to_owned(),
                            found: typ.clone(),
                        },
                    ),
                }
            },
            TermComputation::MatchPack { scrut, tvar, var, body } => {
                match self.open_pack(ctx) {
                    Ok(inner) => (**body).ana(typ, &inner),
                    Err(e) => Err(e),
                }
            },
            _ => {
                match self.syn(ctx) {
                    Ok(found) => subsume(&found, typ, ctx, info),
                    Err(e) => Err(e),
                }
            },
        }
    }
}

} // verus!
