//! A program that has passed the checker and the linker starts: its
//! top-level bindings are made without a failure, and when its entry
//! starts to run, every variable that the entry refers to is bound.

use vstd::prelude::*;
use crate::ctx::CtxM;
use crate::dynamics::machine::{eval, lemma_eval_closed, load};
use crate::dynamics::store::{empty_env, EnvM};
use crate::link::{link_comp, link_defines, link_externs, link_program, link_value};
use crate::linked::{free_in_comp, free_in_val, ValM};
use crate::span::Span;
use crate::term::{Codata, Data, DeclSymbol, Define, DefineExt, Program, TermValue};
use crate::tyck::module::{
    define_check, enter_codata, enter_data, enter_defines, enter_externs, module_check,
    register_codata, register_data,
};
use crate::tyck::rules::{syn_comp, syn_value};
use crate::tyck::scope::{lemma_scope_syn_comp, lemma_scope_syn_value};

verus! {

/// A value that has passed the checker has a value in every environment
/// that binds the variables of the context it was checked in.
pub proof fn lemma_checked_value_evaluates(v: &Span<TermValue>, ctx: CtxM, env: EnvM)
    requires
        syn_value(*v, ctx) is Ok,
        forall|x: Seq<char>| ctx.term_ctx.contains_key(x) ==> env.contains_key(x),
    ensures
        eval(link_value(*v), env) is Ok,
{
    assert forall|x: Seq<char>| free_in_val(link_value(*v), x) implies env.contains_key(x) by {
        lemma_scope_syn_value(v, ctx, x);
    }
    lemma_eval_closed(link_value(*v), env);
}

/// Registering the names of data types binds no term variable.
pub proof fn lemma_register_data_terms(ctx: CtxM, ds: Seq<DeclSymbol<Data>>, n: nat)
    requires
        register_data(ctx, ds, n) is Ok,
    ensures
        register_data(ctx, ds, n)->Ok_0.term_ctx == ctx.term_ctx,
    decreases n,
{
    if n > 0 {
        lemma_register_data_terms(ctx, ds, (n - 1) as nat);
    }
}

/// Registering the names of codata types binds no term variable.
pub proof fn lemma_register_codata_terms(ctx: CtxM, ds: Seq<DeclSymbol<Codata>>, n: nat)
    requires
        register_codata(ctx, ds, n) is Ok,
    ensures
        register_codata(ctx, ds, n)->Ok_0.term_ctx == ctx.term_ctx,
    decreases n,
{
    if n > 0 {
        lemma_register_codata_terms(ctx, ds, (n - 1) as nat);
    }
}

/// Entering data type declarations binds no term variable.
pub proof fn lemma_enter_data_terms(ctx: CtxM, ds: Seq<DeclSymbol<Data>>, n: nat)
    requires
        enter_data(ctx, ds, n) is Ok,
    ensures
        enter_data(ctx, ds, n)->Ok_0.term_ctx == ctx.term_ctx,
    decreases n,
{
    if n > 0 {
        lemma_enter_data_terms(ctx, ds, (n - 1) as nat);
    }
}

/// Entering codata type declarations binds no term variable.
pub proof fn lemma_enter_codata_terms(ctx: CtxM, ds: Seq<DeclSymbol<Codata>>, n: nat)
    requires
        enter_codata(ctx, ds, n) is Ok,
    ensures
        enter_codata(ctx, ds, n)->Ok_0.term_ctx == ctx.term_ctx,
    decreases n,
{
    if n > 0 {
        lemma_enter_codata_terms(ctx, ds, (n - 1) as nat);
    }
}

/// Making the first `n` of the bindings `define` binds the names of
/// those, and keeps what was bound before.
pub proof fn lemma_load_binds(define: Seq<(Seq<char>, ValM)>, env: EnvM, n: nat)
    requires
        n <= define.len(),
        load(define, env, n) is Ok,
    ensures
        forall|x: Seq<char>| env.contains_key(x) ==> load(define, env, n)->Ok_0.contains_key(x),
        forall|i: int| 0 <= i < n ==> load(define, env, n)->Ok_0.contains_key(#[trigger] define[i].0),
    decreases n,
{
    if n > 0 {
        lemma_load_binds(define, env, (n - 1) as nat);
    }
}

/// The variables that the context binds once the first `n` primitives have
/// been entered were bound before or are named by one of those primitives.
pub proof fn lemma_externs_scope(ctx: CtxM, ds: Seq<DeclSymbol<DefineExt>>, n: nat, x: Seq<char>)
    requires
        n <= ds.len(),
        enter_externs(ctx, ds, n) is Ok,
        enter_externs(ctx, ds, n)->Ok_0.term_ctx.contains_key(x),
    ensures
        ctx.term_ctx.contains_key(x) || exists|i: int| 0 <= i < n && (#[trigger] ds[i]).inner.name@ == x,
    decreases n,
{
    if n > 0 {
        if ds[n - 1].inner.name@ != x {
            lemma_externs_scope(ctx, ds, (n - 1) as nat, x);
        }
    }
}

/// The variables that the context binds once the first `n` definitions
/// have been entered were bound before or are named by one of those
/// definitions.
pub proof fn lemma_defines_scope(ctx: CtxM, ds: Seq<DeclSymbol<Define>>, n: nat, x: Seq<char>)
    requires
        n <= ds.len(),
        enter_defines(ctx, ds, n) is Ok,
        enter_defines(ctx, ds, n)->Ok_0.term_ctx.contains_key(x),
    ensures
        ctx.term_ctx.contains_key(x) || exists|i: int| 0 <= i < n && (#[trigger] ds[i]).inner.name@ == x,
    decreases n,
{
    if n > 0 {
        if ds[n - 1].inner.name@ != x {
            lemma_defines_scope(ctx, ds, (n - 1) as nat, x);
        }
    }
}

/// The primitives that a module declares are linked one for one, each
/// under its name, where all of them have an implementation.
pub proof fn lemma_link_externs(ds: Seq<DeclSymbol<DefineExt>>, n: nat)
    requires
        n <= ds.len(),
        link_externs(ds, n) is Ok,
    ensures
        link_externs(ds, n)->Ok_0.len() == n,
        forall|i: int|
            0 <= i < n ==> (#[trigger] link_externs(ds, n)->Ok_0[i]).0 == ds[i].inner.name@
                && link_externs(ds, n)->Ok_0[i].1 is Thunk,
    decreases n,
{
    if n > 0 {
        lemma_link_externs(ds, (n - 1) as nat);
    }
}

/// The bindings of the primitives of a module are made without a
/// failure: a primitive is bound to a thunk, which has a value in every
/// environment.
pub proof fn lemma_externs_load(
    ds: Seq<DeclSymbol<DefineExt>>,
    rest: Seq<(Seq<char>, ValM)>,
    n: nat,
)
    requires
        n <= ds.len(),
        link_externs(ds, ds.len()) is Ok,
    ensures
        load(link_externs(ds, ds.len())->Ok_0 + rest, empty_env(), n) is Ok,
    decreases n,
{
    if n > 0 {
        lemma_externs_load(ds, rest, (n - 1) as nat);
        lemma_link_externs(ds, ds.len());
        let define = link_externs(ds, ds.len())->Ok_0 + rest;
        assert(define[n - 1] == link_externs(ds, ds.len())->Ok_0[n - 1]);
    }
}

/// Once a definition fails, entering more definitions fails too.
pub proof fn lemma_defines_prefix(ctx: CtxM, ds: Seq<DeclSymbol<Define>>, n: nat, m: nat)
    requires
        n <= m,
        enter_defines(ctx, ds, m) is Ok,
    ensures
        enter_defines(ctx, ds, n) is Ok,
    decreases m,
{
    if n < m {
        lemma_defines_prefix(ctx, ds, n, (m - 1) as nat);
    }
}

/// The bindings of a module that has passed the checker are made without
/// a failure: after the primitives, each definition has a value in the
/// environment that the bindings before it leave, which binds every
/// variable that the definition was checked with.
pub proof fn lemma_defines_load(
    ctx: CtxM,
    exts: Seq<DeclSymbol<DefineExt>>,
    defs: Seq<DeclSymbol<Define>>,
    start: CtxM,
    n: nat,
)
    requires
        n <= defs.len(),
        forall|x: Seq<char>| !start.term_ctx.contains_key(x),
        enter_externs(start, exts, exts.len()) == Ok::<CtxM, crate::err::TyckErrorM>(ctx),
        enter_defines(ctx, defs, defs.len()) is Ok,
        link_externs(exts, exts.len()) is Ok,
    ensures
        load(
            link_externs(exts, exts.len())->Ok_0 + link_defines(defs),
            empty_env(),
            exts.len() + n,
        ) is Ok,
    decreases n,
{
    let bound = link_externs(exts, exts.len())->Ok_0;
    let define = bound + link_defines(defs);
    lemma_link_externs(exts, exts.len());
    if n == 0 {
        lemma_externs_load(exts, link_defines(defs), exts.len());
    } else {
        lemma_defines_load(ctx, exts, defs, start, (n - 1) as nat);
        let before = (exts.len() + n - 1) as nat;
        let env = load(define, empty_env(), before)->Ok_0;
        lemma_load_binds(define, empty_env(), before);
        lemma_defines_prefix(ctx, defs, n, defs.len());
        lemma_defines_prefix(ctx, defs, (n - 1) as nat, defs.len());
        let scope = enter_defines(ctx, defs, (n - 1) as nat)->Ok_0;
        let d = defs[n - 1];
        assert(enter_defines(ctx, defs, n) == define_check(d, scope));
        assert(define[exts.len() + n - 1] == link_defines(defs)[n - 1]);
        assert forall|x: Seq<char>| scope.term_ctx.contains_key(x) implies env.contains_key(x) by {
            lemma_defines_scope(ctx, defs, (n - 1) as nat, x);
            if ctx.term_ctx.contains_key(x) {
                lemma_externs_scope(start, exts, exts.len(), x);
                let i = choose|i: int| 0 <= i < exts.len() && (#[trigger] exts[i]).inner.name@ == x;
                assert(define[i] == bound[i]);
                assert(env.contains_key(define[i].0));
            } else {
                let i = choose|i: int| 0 <= i < n - 1 && (#[trigger] defs[i]).inner.name@ == x;
                assert(define[exts.len() + i] == link_defines(defs)[i]);
                assert(env.contains_key(define[exts.len() + i].0));
            }
        }
        lemma_checked_value_evaluates(&*d.inner.def, scope, env);
    }
}

/// A program that has passed the checker and the linker starts. In a
/// context that binds no term variable, if the module of the program
/// checks, its entry has a type in the context that the module leaves, and
/// every primitive that it declares has an implementation, then the
/// top-level bindings of the linked program are made without a failure,
/// and every variable that occurs free in the linked entry is bound in
/// the environment that they leave.
pub proof fn lemma_checked_program_starts(p: &Program, ctx: CtxM)
    requires
        forall|x: Seq<char>| !ctx.term_ctx.contains_key(x),
        module_check(p.module.inner, ctx) is Ok,
        syn_comp(p.entry, module_check(p.module.inner, ctx)->Ok_0) is Ok,
        link_program(*p) is Ok,
    ensures
        load(
            link_program(*p)->Ok_0.define,
            empty_env(),
            link_program(*p)->Ok_0.define.len(),
        ) is Ok,
        forall|x: Seq<char>|
            free_in_comp(link_program(*p)->Ok_0.entry, x) ==> load(
                link_program(*p)->Ok_0.define,
                empty_env(),
                link_program(*p)->Ok_0.define.len(),
            )->Ok_0.contains_key(x),
{
    let m = p.module.inner;
    let c1 = register_data(ctx, m.data@, m.data@.len())->Ok_0;
    let c2 = register_codata(c1, m.codata@, m.codata@.len())->Ok_0;
    let c3 = enter_data(c2, m.data@, m.data@.len())->Ok_0;
    let c4 = enter_codata(c3, m.codata@, m.codata@.len())->Ok_0;
    let c5 = enter_externs(c4, m.define_ext@, m.define_ext@.len())->Ok_0;
    let c6 = enter_defines(c5, m.define@, m.define@.len())->Ok_0;
    lemma_register_data_terms(ctx, m.data@, m.data@.len());
    lemma_register_codata_terms(c1, m.codata@, m.codata@.len());
    lemma_enter_data_terms(c2, m.data@, m.data@.len());
    lemma_enter_codata_terms(c3, m.codata@, m.codata@.len());
    let exts = m.define_ext@;
    let defs = m.define@;
    let bound = link_externs(exts, exts.len())->Ok_0;
    let define = bound + link_defines(defs);
    lemma_link_externs(exts, exts.len());
    lemma_defines_load(c5, exts, defs, c4, defs.len());
    assert(define.len() == exts.len() + defs.len());
    let env = load(define, empty_env(), define.len())->Ok_0;
    lemma_load_binds(define, empty_env(), define.len());
    assert forall|x: Seq<char>| free_in_comp(link_comp(p.entry), x) implies env.contains_key(x) by {
        lemma_scope_syn_comp(&p.entry, c6, x);
        lemma_defines_scope(c5, defs, defs.len(), x);
        if c5.term_ctx.contains_key(x) {
            lemma_externs_scope(c4, exts, exts.len(), x);
            let i = choose|i: int| 0 <= i < exts.len() && (#[trigger] exts[i]).inner.name@ == x;
            assert(define[i] == bound[i]);
            assert(env.contains_key(define[i].0));
        } else {
            let i = choose|i: int| 0 <= i < defs.len() && (#[trigger] defs[i]).inner.name@ == x;
            assert(define[exts.len() + i] == link_defines(defs)[i]);
            assert(env.contains_key(define[exts.len() + i].0));
        }
    }
}

} // verus!
