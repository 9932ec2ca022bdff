//! Scope soundness: a term that passes the checker refers to no variable
//! that is not in scope. Every variable that occurs free in the linked
//! form of a checked term is bound in the context it was checked in.

use vstd::prelude::*;
use crate::assoc::{lemma_find, lookup};
use crate::ctx::CtxM;
use crate::link::{link_comatchers, link_comp, link_matchers, link_value, link_values};
use crate::linked::{free_in_arm, free_in_comp, free_in_val, CompM, ValM};
use crate::span::{names_of, Span, TermV};
use crate::term::{CodataM, Comatcher, DataM, Matcher, RcValue, TermComputation, TermValue};
use crate::tyck::laws::lemma_absent;
use crate::tyck::rules::absent;
use crate::tyck::outcome::{first_err, lemma_first_err_all_ok};
use crate::tyck::rules::{
    ana_comatch, ana_comatchers, ana_comp, ana_ctor, ana_match, ana_matchers, ana_value,
    ana_values, arm_ctx, bind_vars, comatcher_names, ctor_names, dtor_names, expect_elim,
    expect_thunk,
    do_bound, matcher_names, open_codata, open_data, pack_ctx, scrutinee_data, syn_comp,
    syn_dtor, syn_match,
    syn_matchers, syn_value, type_var,
};
use crate::err::TyckErrorM;
use crate::types::{EnvM, SynTypeM, TypeM};

verus! {

/// A variable that a context binds after the variables of an arm have been
/// bound is one of those variables or was bound before.
pub proof fn lemma_bind_vars_scope(
    ctx: CtxM,
    vars: Seq<TermV>,
    tys: Seq<TypeM>,
    diff: EnvM,
    n: nat,
    x: Seq<char>,
)
    requires
        n <= vars.len(),
        bind_vars(ctx, vars, tys, diff, n).term_ctx.contains_key(x),
    ensures
        ctx.term_ctx.contains_key(x) || names_of(vars).contains(x),
    decreases n,
{
    if n > 0 {
        if vars[n - 1]@ == x {
            assert(names_of(vars)[n - 1] == x);
        } else {
            lemma_bind_vars_scope(ctx, vars, tys, diff, (n - 1) as nat, x);
        }
    }
}

/// A variable that the context of the body of an arm binds is a variable
/// of the arm or was bound before.
pub proof fn lemma_arm_ctx_scope(
    ctx: CtxM,
    vars: Seq<TermV>,
    tys: Seq<TypeM>,
    diff: EnvM,
    x: Seq<char>,
)
    requires
        arm_ctx(ctx, vars, tys, diff).term_ctx.contains_key(x),
    ensures
        ctx.term_ctx.contains_key(x) || names_of(vars).contains(x),
{
    let n = if vars.len() <= tys.len() {
        vars.len()
    } else {
        tys.len()
    };
    lemma_bind_vars_scope(ctx, vars, tys, diff, n, x);
}

/// A constructor that is among the names of the constructors of a data
/// type is declared by it.
pub proof fn lemma_named_ctor(d: DataM, k: Seq<char>)
    requires
        ctor_names(d).contains(k),
    ensures
        lookup(d.ctors, k).is_some(),
{
    lemma_find(d.ctors, k);
    let i = choose|i: int| 0 <= i < ctor_names(d).len() && ctor_names(d)[i] == k;
    assert(d.ctors[i].0 == k);
}

/// A destructor that is among the names of the destructors of a codata
/// type is declared by it.
pub proof fn lemma_named_dtor(d: CodataM, k: Seq<char>)
    requires
        dtor_names(d).contains(k),
    ensures
        lookup(d.dtors, k).is_some(),
{
    lemma_find(d.dtors, k);
    let i = choose|i: int| 0 <= i < dtor_names(d).len() && dtor_names(d)[i] == k;
    assert(d.dtors[i].0 == k);
}

/// The type that is synthesised for the value behind a reference.
spec fn syn_v(v: &Span<TermValue>, ctx: CtxM) -> Result<TypeM, TyckErrorM> {
    syn_value(*v, ctx)
}

/// The type that is synthesised for the computation behind a reference.
spec fn syn_c(c: &Span<TermComputation>, ctx: CtxM) -> Result<TypeM, TyckErrorM> {
    syn_comp(*c, ctx)
}

/// The context of the body of the `matchpack` behind a reference.
spec fn pack_c(c: &Span<TermComputation>, ctx: CtxM) -> Result<CtxM, TyckErrorM> {
    pack_ctx(*c, ctx)
}

/// Whether `x` occurs free in the linked form of the value behind a
/// reference.
spec fn free_v(v: &Span<TermValue>, x: Seq<char>) -> bool {
    free_in_val(link_value(*v), x)
}

/// Whether `x` occurs free in the linked form of the computation behind a
/// reference.
spec fn free_c(c: &Span<TermComputation>, x: Seq<char>) -> bool {
    free_in_comp(link_comp(*c), x)
}

/// Scope soundness of the synthesis of values.
pub proof fn lemma_scope_syn_value(v: &Span<TermValue>, ctx: CtxM, x: Seq<char>)
    requires
        syn_value(*v, ctx) is Ok,
        free_in_val(link_value(*v), x),
    ensures
        ctx.term_ctx.contains_key(x),
    decreases v, 1nat,
{
    match &v.inner {
        TermValue::Annotation { term, ty } => {
            lemma_scope_ana_value(&**term, ty@, ctx, x);
        },
        TermValue::Thunk(c) => {
            lemma_scope_syn_comp(&**c, ctx, x);
        },
        _ => {},
    }
}

/// Scope soundness of the analysis of a sequence of values.
pub proof fn lemma_scope_ana_values(
    args: Seq<RcValue>,
    tys: Seq<TypeM>,
    diff: EnvM,
    ctx: CtxM,
    x: Seq<char>,
)
    requires
        first_err(ana_values(args, tys, diff, ctx)).is_none(),
        exists|i: int| 0 <= i < args.len() && free_in_val(#[trigger] link_values(args)[i], x),
    ensures
        ctx.term_ctx.contains_key(x),
    decreases args, 0nat,
{
    let i = choose|i: int| 0 <= i < args.len() && free_in_val(#[trigger] link_values(args)[i], x);
    lemma_first_err_all_ok(ana_values(args, tys, diff, ctx));
    assert(ana_values(args, tys, diff, ctx)[i] is Ok);
    lemma_scope_ana_value(&*args[i], tys[i].subst(diff), ctx, x);
}

/// Scope soundness of the analysis of values.
pub proof fn lemma_scope_ana_value(v: &Span<TermValue>, typ: TypeM, ctx: CtxM, x: Seq<char>)
    requires
        ana_value(*v, typ, ctx) is Ok,
        free_in_val(link_value(*v), x),
    ensures
        ctx.term_ctx.contains_key(x),
    decreases v, 2nat,
{
    match &v.inner {
        TermValue::Thunk(c) => {
            let ghost t = expect_thunk(typ, v.info);
            lemma_scope_ana_comp(&**c, t->Ok_0, ctx, x);
        },
        TermValue::Ctor { ctor, args } => {
            assert(ana_value(*v, typ, ctx) == ana_ctor(*v, typ, ctx));
            let ghost opened = open_data(typ, ctx, v.info, "ctor"@, false)->Ok_0;
            let ghost tys = lookup(opened.0.ctors, ctor@)->Some_0;
            let ghost linked = link_values(args@);
            assert(link_value(*v) == ValM::Ctor(ctor@, linked));
            assert(linked.len() == args@.len());
            lemma_scope_ana_values(args@, tys, opened.1, ctx, x);
        },
        TermValue::Pack { ty, body } => {
            match typ.head_reduce().synty {
                SynTypeM::Exists(a, k, b) => {
                    lemma_scope_ana_value(&**body, b.subst(seq![(a, ty@)]), ctx, x);
                },
                _ => {},
            }
        },
        _ => {
            lemma_scope_syn_value(v, ctx, x);
        },
    }
}

/// Scope soundness of the arms of a `match` in synthesis.
pub proof fn lemma_scope_syn_matchers(
    arms: Seq<Matcher>,
    d: DataM,
    diff: EnvM,
    ctx: CtxM,
    x: Seq<char>,
)
    requires
        first_err(syn_matchers(arms, d, diff, ctx)).is_none(),
        absent(matcher_names(arms), ctor_names(d)).len() == 0,
        exists|i: int| 0 <= i < arms.len() && free_in_arm(#[trigger] link_matchers(arms)[i], x),
    ensures
        ctx.term_ctx.contains_key(x),
    decreases arms, 0nat,
{
    let i = choose|i: int| 0 <= i < arms.len() && free_in_arm(#[trigger] link_matchers(arms)[i], x);
    lemma_first_err_all_ok(syn_matchers(arms, d, diff, ctx));
    assert(syn_matchers(arms, d, diff, ctx)[i] is Ok);
    lemma_absent(matcher_names(arms), ctor_names(d));
    assert(ctor_names(d).contains(matcher_names(arms)[i]));
    lemma_named_ctor(d, arms[i].ctor@);
    let ghost tys = lookup(d.ctors, arms[i].ctor@)->Some_0;
    let inner = arm_ctx(ctx, arms[i].vars@, tys, diff);
    lemma_scope_syn_comp(&*arms[i].body, inner, x);
    lemma_arm_ctx_scope(ctx, arms[i].vars@, tys, diff, x);
}

/// Scope soundness of the arms of a `match` in analysis.
pub proof fn lemma_scope_ana_matchers(
    arms: Seq<Matcher>,
    d: DataM,
    diff: EnvM,
    typ: TypeM,
    ctx: CtxM,
    x: Seq<char>,
)
    requires
        first_err(ana_matchers(arms, d, diff, typ, ctx)).is_none(),
        absent(matcher_names(arms), ctor_names(d)).len() == 0,
        exists|i: int| 0 <= i < arms.len() && free_in_arm(#[trigger] link_matchers(arms)[i], x),
    ensures
        ctx.term_ctx.contains_key(x),
    decreases arms, 0nat,
{
    let i = choose|i: int| 0 <= i < arms.len() && free_in_arm(#[trigger] link_matchers(arms)[i], x);
    lemma_first_err_all_ok(ana_matchers(arms, d, diff, typ, ctx));
    assert(ana_matchers(arms, d, diff, typ, ctx)[i] is Ok);
    lemma_absent(matcher_names(arms), ctor_names(d));
    assert(ctor_names(d).contains(matcher_names(arms)[i]));
    lemma_named_ctor(d, arms[i].ctor@);
    let ghost tys = lookup(d.ctors, arms[i].ctor@)->Some_0;
    let inner = arm_ctx(ctx, arms[i].vars@, tys, diff);
    lemma_scope_ana_comp(&*arms[i].body, typ, inner, x);
    lemma_arm_ctx_scope(ctx, arms[i].vars@, tys, diff, x);
}

/// Scope soundness of the arms of a `comatch`.
pub proof fn lemma_scope_ana_comatchers(
    arms: Seq<Comatcher>,
    d: CodataM,
    diff: EnvM,
    ctx: CtxM,
    x: Seq<char>,
)
    requires
        first_err(ana_comatchers(arms, d, diff, ctx)).is_none(),
        absent(comatcher_names(arms), dtor_names(d)).len() == 0,
        exists|i: int| 0 <= i < arms.len() && free_in_arm(#[trigger] link_comatchers(arms)[i], x),
    ensures
        ctx.term_ctx.contains_key(x),
    decreases arms, 0nat,
{
    let i = choose|i: int|
        0 <= i < arms.len() && free_in_arm(#[trigger] link_comatchers(arms)[i], x);
    lemma_first_err_all_ok(ana_comatchers(arms, d, diff, ctx));
    assert(ana_comatchers(arms, d, diff, ctx)[i] is Ok);
    lemma_absent(comatcher_names(arms), dtor_names(d));
    assert(dtor_names(d).contains(comatcher_names(arms)[i]));
    lemma_named_dtor(d, arms[i].dtor@);
    let ghost sig = lookup(d.dtors, arms[i].dtor@)->Some_0;
    let inner = arm_ctx(ctx, arms[i].vars@, sig.0, diff);
    lemma_scope_ana_comp(&*arms[i].body, sig.1.subst(diff), inner, x);
    lemma_arm_ctx_scope(ctx, arms[i].vars@, sig.0, diff, x);
}

/// Scope soundness of the synthesis of a `let`.
proof fn lemma_scope_syn_let(c: &Span<TermComputation>, ctx: CtxM, x: Seq<char>)
    requires
        c.inner is Let,
        syn_comp(*c, ctx) is Ok,
        free_in_comp(link_comp(*c), x),
    ensures
        ctx.term_ctx.contains_key(x),
    decreases c, 0nat,
{
    match &c.inner {
        TermComputation::Let { var, def, body } => {
            if free_v(&**def, x) {
                lemma_scope_syn_value(&**def, ctx, x);
            } else {
                let ghost t = syn_v(&**def, ctx)->Ok_0;
                lemma_scope_syn_comp(&**body, ctx.bind_term(var@, t), x);
            }
        },
        _ => {},
    }
}

/// Scope soundness of the synthesis of a `do`.
proof fn lemma_scope_syn_do(c: &Span<TermComputation>, ctx: CtxM, x: Seq<char>)
    requires
        c.inner is Do,
        syn_comp(*c, ctx) is Ok,
        free_in_comp(link_comp(*c), x),
    ensures
        ctx.term_ctx.contains_key(x),
    decreases c, 0nat,
{
    match &c.inner {
        TermComputation::Do { var, comp, body } => {
            if free_c(&**comp, x) {
                lemma_scope_syn_comp(&**comp, ctx, x);
            } else {
                let ghost t = syn_c(&**comp, ctx)->Ok_0;
                let ghost a = do_bound(t, ctx, c.info)->Ok_0;
                lemma_scope_syn_comp(&**body, ctx.bind_term(var@, a), x);
            }
        },
        _ => {},
    }
}

/// Scope soundness of the synthesis of a `match`.
proof fn lemma_scope_syn_match(c: &Span<TermComputation>, ctx: CtxM, x: Seq<char>)
    requires
        c.inner is Match,
        syn_comp(*c, ctx) is Ok,
        free_in_comp(link_comp(*c), x),
    ensures
        ctx.term_ctx.contains_key(x),
    decreases c, 0nat,
{
    match &c.inner {
        TermComputation::Match { scrut, arms } => {
            assert(syn_comp(*c, ctx) == syn_match(*c, ctx));
            if free_v(&**scrut, x) {
                lemma_scope_syn_value(&**scrut, ctx, x);
            } else {
                let ghost t = syn_v(&**scrut, ctx)->Ok_0;
                let ghost opened = scrutinee_data(t, ctx, c.info)->Ok_0;
                assert(link_comp(*c) == CompM::Match(
                    Box::new(link_value(**scrut)),
                    link_matchers(arms@),
                ));
                lemma_scope_syn_matchers(arms@, opened.0, opened.1, ctx, x);
            }
        },
        _ => {},
    }
}

/// Scope soundness of the synthesis of a destructor applied to
/// arguments.
proof fn lemma_scope_syn_dtor(c: &Span<TermComputation>, ctx: CtxM, x: Seq<char>)
    requires
        c.inner is Dtor,
        syn_comp(*c, ctx) is Ok,
        free_in_comp(link_comp(*c), x),
    ensures
        ctx.term_ctx.contains_key(x),
    decreases c, 0nat,
{
    match &c.inner {
        TermComputation::Dtor { body, dtor, args } => {
            assert(syn_comp(*c, ctx) == syn_dtor(*c, ctx));
            if free_c(&**body, x) {
                lemma_scope_syn_comp(&**body, ctx, x);
            } else {
                let ghost t = syn_c(&**body, ctx)->Ok_0;
                let ghost opened = open_codata(t, ctx, c.info, "dtor"@, true)->Ok_0;
                let ghost sig = lookup(opened.0.dtors, dtor@)->Some_0;
                assert(link_comp(*c) == CompM::Dtor(
                    Box::new(link_comp(**body)),
                    dtor@,
                    link_values(args@),
                ));
                lemma_scope_ana_values(args@, sig.0, opened.1, ctx, x);
            }
        },
        _ => {},
    }
}

/// Scope soundness of a `matchpack`, in either mode: a variable that is
/// free in its linked form is bound in the context, given that every
/// variable that is free in the linked body is bound in the context of
/// the body.
proof fn lemma_scope_pack(c: &Span<TermComputation>, ctx: CtxM, x: Seq<char>)
    requires
        c.inner is MatchPack,
        pack_ctx(*c, ctx) is Ok,
        free_in_comp(link_comp(*c), x),
        ({
            let body = c.inner->MatchPack_body;
            free_in_comp(link_comp(*body), x) ==> pack_ctx(*c, ctx)->Ok_0.term_ctx.contains_key(x)
        }),
    ensures
        ctx.term_ctx.contains_key(x),
    decreases c, 0nat,
{
    match &c.inner {
        TermComputation::MatchPack { scrut, tvar, var, body } => {
            if free_v(&**scrut, x) {
                lemma_scope_syn_value(&**scrut, ctx, x);
            }
        },
        _ => {},
    }
}

/// Scope soundness of the synthesis of computations.
pub proof fn lemma_scope_syn_comp(c: &Span<TermComputation>, ctx: CtxM, x: Seq<char>)
    requires
        syn_comp(*c, ctx) is Ok,
        free_in_comp(link_comp(*c), x),
    ensures
        ctx.term_ctx.contains_key(x),
    decreases c, 1nat,
{
    match &c.inner {
        TermComputation::Annotation { term, ty } => {
            lemma_scope_ana_comp(&**term, ty@, ctx, x);
        },
        TermComputation::Ret(v) => {
            lemma_scope_syn_value(&**v, ctx, x);
        },
        TermComputation::Force(v) => {
            lemma_scope_syn_value(&**v, ctx, x);
        },
        TermComputation::Let { .. } => {
            lemma_scope_syn_let(c, ctx, x);
        },
        TermComputation::Do { .. } => {
            lemma_scope_syn_do(c, ctx, x);
        },
        TermComputation::Match { .. } => {
            lemma_scope_syn_match(c, ctx, x);
        },
        TermComputation::Dtor { .. } => {
            lemma_scope_syn_dtor(c, ctx, x);
        },
        TermComputation::TyAbsTerm { param, body } => {
            lemma_scope_syn_comp(&**body, ctx.bind_type(param.0@, param.1@), x);
        },
        TermComputation::TyAppTerm { body, arg } => {
            lemma_scope_syn_comp(&**body, ctx, x);
        },
        TermComputation::MatchPack { scrut, tvar, var, body } => {
            let ghost inner = pack_c(c, ctx)->Ok_0;
            if free_c(&**body, x) {
                lemma_scope_syn_comp(&**body, inner, x);
            }
            lemma_scope_pack(c, ctx, x);
        },
        _ => {},
    }
}

/// Scope soundness of the analysis of a `let`.
proof fn lemma_scope_ana_let(c: &Span<TermComputation>, typ: TypeM, ctx: CtxM, x: Seq<char>)
    requires
        c.inner is Let,
        ana_comp(*c, typ, ctx) is Ok,
        free_in_comp(link_comp(*c), x),
    ensures
        ctx.term_ctx.contains_key(x),
    decreases c, 0nat,
{
    match &c.inner {
        TermComputation::Let { var, def, body } => {
            if free_v(&**def, x) {
                lemma_scope_syn_value(&**def, ctx, x);
            } else {
                let ghost t = syn_v(&**def, ctx)->Ok_0;
                lemma_scope_ana_comp(&**body, typ, ctx.bind_term(var@, t), x);
            }
        },
        _ => {},
    }
}

/// Scope soundness of the analysis of a `do`.
proof fn lemma_scope_ana_do(c: &Span<TermComputation>, typ: TypeM, ctx: CtxM, x: Seq<char>)
    requires
        c.inner is Do,
        ana_comp(*c, typ, ctx) is Ok,
        free_in_comp(link_comp(*c), x),
    ensures
        ctx.term_ctx.contains_key(x),
    decreases c, 0nat,
{
    match &c.inner {
        TermComputation::Do { var, comp, body } => {
            if free_c(&**comp, x) {
                lemma_scope_syn_comp(&**comp, ctx, x);
            } else {
                let ghost t = syn_c(&**comp, ctx)->Ok_0;
                let ghost a = do_bound(t, ctx, c.info)->Ok_0;
                lemma_scope_ana_comp(&**body, typ, ctx.bind_term(var@, a), x);
            }
        },
        _ => {},
    }
}

/// Scope soundness of the analysis of a `match`.
proof fn lemma_scope_ana_match(c: &Span<TermComputation>, typ: TypeM, ctx: CtxM, x: Seq<char>)
    requires
        c.inner is Match,
        ana_comp(*c, typ, ctx) is Ok,
        free_in_comp(link_comp(*c), x),
    ensures
        ctx.term_ctx.contains_key(x),
    decreases c, 0nat,
{
    match &c.inner {
        TermComputation::Match { scrut, arms } => {
            assert(ana_comp(*c, typ, ctx) == ana_match(*c, typ, ctx));
            if free_v(&**scrut, x) {
                lemma_scope_syn_value(&**scrut, ctx, x);
            } else {
                let ghost t = syn_v(&**scrut, ctx)->Ok_0;
                let ghost opened = scrutinee_data(t, ctx, c.info)->Ok_0;
                assert(link_comp(*c) == CompM::Match(
                    Box::new(link_value(**scrut)),
                    link_matchers(arms@),
                ));
                lemma_scope_ana_matchers(arms@, opened.0, opened.1, typ, ctx, x);
            }
        },
        _ => {},
    }
}

/// Scope soundness of the analysis of a `comatch`.
proof fn lemma_scope_ana_comatch(c: &Span<TermComputation>, typ: TypeM, ctx: CtxM, x: Seq<char>)
    requires
        c.inner is Comatch,
        ana_comp(*c, typ, ctx) is Ok,
        free_in_comp(link_comp(*c), x),
    ensures
        ctx.term_ctx.contains_key(x),
    decreases c, 0nat,
{
    match &c.inner {
        TermComputation::Comatch { arms } => {
            assert(ana_comp(*c, typ, ctx) == ana_comatch(*c, typ, ctx));
            let ghost opened = open_codata(typ, ctx, c.info, "comatch"@, true)->Ok_0;
            assert(link_comp(*c) == CompM::Comatch(link_comatchers(arms@)));
            lemma_scope_ana_comatchers(arms@, opened.0, opened.1, ctx, x);
        },
        _ => {},
    }
}

/// Scope soundness of the analysis of a type abstraction.
proof fn lemma_scope_ana_tyabs(c: &Span<TermComputation>, typ: TypeM, ctx: CtxM, x: Seq<char>)
    requires
        c.inner is TyAbsTerm,
        ana_comp(*c, typ, ctx) is Ok,
        free_in_comp(link_comp(*c), x),
    ensures
        ctx.term_ctx.contains_key(x),
    decreases c, 0nat,
{
    match &c.inner {
        TermComputation::TyAbsTerm { param, body } => {
            match typ.head_reduce().synty {
                SynTypeM::Forall(b, k, t) => {
                    lemma_scope_ana_comp(
                        &**body,
                        t.subst(seq![(b, type_var(param.0@))]),
                        ctx.bind_type(param.0@, param.1@),
                        x,
                    );
                },
                _ => {},
            }
        },
        _ => {},
    }
}

/// Scope soundness of the analysis of computations.
pub proof fn lemma_scope_ana_comp(c: &Span<TermComputation>, typ: TypeM, ctx: CtxM, x: Seq<char>)
    requires
        ana_comp(*c, typ, ctx) is Ok,
        free_in_comp(link_comp(*c), x),
    ensures
        ctx.term_ctx.contains_key(x),
    decreases c, 2nat,
{
    match &c.inner {
        TermComputation::Ret(v) => {
            let ghost a = expect_elim(typ, "Ret"@, c.info, "ret"@, "Ret a"@)->Ok_0;
            lemma_scope_ana_value(&**v, a, ctx, x);
        },
        TermComputation::Let { .. } => {
            lemma_scope_ana_let(c, typ, ctx, x);
        },
        TermComputation::Do { .. } => {
            lemma_scope_ana_do(c, typ, ctx, x);
        },
        TermComputation::Rec { var, body } => {
            lemma_scope_ana_comp(&**body, typ, ctx.bind_term(var@, TypeM::thunk(typ)), x);
        },
        TermComputation::Match { .. } => {
            lemma_scope_ana_match(c, typ, ctx, x);
        },
        TermComputation::Comatch { .. } => {
            lemma_scope_ana_comatch(c, typ, ctx, x);
        },
        TermComputation::TyAbsTerm { .. } => {
            lemma_scope_ana_tyabs(c, typ, ctx, x);
        },
        TermComputation::MatchPack { scrut, tvar, var, body } => {
            let ghost inner = pack_c(c, ctx)->Ok_0;
            if free_c(&**body, x) {
                lemma_scope_ana_comp(&**body, typ, inner, x);
            }
            lemma_scope_pack(c, ctx, x);
        },
        _ => {
            lemma_scope_syn_comp(c, ctx, x);
        },
    }
}

} // verus!
