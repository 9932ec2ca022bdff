//! The typing rules, as functions from a term and a context to the type
//! that is synthesised or to the outcome of the analysis.
//!
//! There are two judgments for each sort of term. Synthesis gives the type
//! of a term. Analysis holds a term against a given type; where no rule of
//! its own applies, it synthesises and asks that the given type is
//! equivalent to the one found.

use vstd::prelude::*;
use crate::assoc::lookup;
use crate::ctx::CtxM;
use crate::env::env_zip;
use crate::err::{at, ErrorM, TyckErrorM};
use crate::kind::KindM;
use crate::span::{Span, SpanInfo, TermV};
use crate::term::{CodataM, Comatcher, DataM, Literal, Matcher, RcValue, TermComputation, TermValue};
use crate::tyck::kinding::ensure_kind;
use crate::tyck::outcome::first_err;
use crate::types::{EnvM, SynTypeM, TypeM};

verus! {

/// The type of a literal.
pub open spec fn literal_type(l: Literal) -> TypeM {
    match l {
        Literal::Int(_) => TypeM::app("Int"@, Seq::empty()),
        Literal::String(_) => TypeM::app("String"@, Seq::empty()),
        Literal::Char(_) => TypeM::app("Char"@, Seq::empty()),
    }
}

/// Subsumption: the type that was found must be equivalent to the one that
/// was expected.
pub open spec fn subsume(found: TypeM, expected: TypeM, ctx: CtxM, info: SpanInfo) -> Result<
    (),
    TyckErrorM,
> {
    if expected.eqv(found, ctx.abst_ctx.len()) {
        Ok(())
    } else {
        Err(at(info, ErrorM::Subsumption))
    }
}

/// The type that `name` is applied to in `t`, once head-reduced; a type
/// of another form is reported with what was `expected`.
pub open spec fn expect_elim(
    t: TypeM,
    name: Seq<char>,
    info: SpanInfo,
    context: Seq<char>,
    expected: Seq<char>,
) -> Result<TypeM, TyckErrorM> {
    match t.head_reduce().synty.elim(name) {
        Some(a) => Ok(a),
        None => Err(at(info, ErrorM::TypeExpected { context, expected, found: t })),
    }
}

/// The type of the computation that a thunk of type `t` suspends: `t`,
/// once head-reduced, must be `Thunk` applied to one argument. Another
/// head is reported as a type that was not expected; `Thunk` applied to
/// another number of arguments as an arity mismatch.
pub open spec fn expect_thunk(t: TypeM, info: SpanInfo) -> Result<TypeM, TyckErrorM> {
    match t.head_reduce().synty {
        SynTypeM::App(x, args) => if x != "Thunk"@ {
            Err(
                at(
                    info,
                    ErrorM::TypeExpected { context: "thunk"@, expected: "Thunk a"@, found: t },
                ),
            )
        } else if args.len() != 1 {
            Err(
                at(
                    info,
                    ErrorM::ArityMismatch { context: "thunk"@, expected: 1, found: args.len() },
                ),
            )
        } else {
            Ok(args[0])
        },
        _ => Err(
            at(info, ErrorM::TypeExpected { context: "thunk"@, expected: "Thunk a"@, found: t }),
        ),
    }
}

/// The type of the computation that `force` runs, from the type `t` of the
/// thunk that is forced: `t`, once head-reduced, must be `Thunk` applied to
/// a type, and that type must be a computation type.
pub open spec fn force_body(t: TypeM, ctx: CtxM, info: SpanInfo) -> Result<TypeM, TyckErrorM> {
    match expect_elim(t, "Thunk"@, info, "force"@, "Thunk a"@) {
        Err(e) => Err(e),
        Ok(body) => match ensure_kind(body.syn_kind(ctx, info), KindM::CType, info, "force"@) {
            Err(e) => Err(e),
            Ok(_) => Ok(body),
        },
    }
}

/// The type of the variable that a `do` binds, from the type `t` of its
/// first computation: `t` must be a computation type and, once
/// head-reduced, `Ret` applied to a type.
pub open spec fn do_bound(t: TypeM, ctx: CtxM, info: SpanInfo) -> Result<TypeM, TyckErrorM> {
    match ensure_kind(t.syn_kind(ctx, info), KindM::CType, info, "do"@) {
        Err(e) => Err(e),
        Ok(_) => expect_elim(t, "Ret"@, info, "do"@, "Ret a"@),
    }
}

/// The names of a list of type parameters.
pub open spec fn param_names(params: Seq<(Seq<char>, KindM)>) -> Seq<Seq<char>> {
    Seq::new(params.len(), |i: int| params[i].0)
}

/// The data type that `t` is an instance of, with the substitution of the
/// type's arguments for the declaration's parameters. A type whose head,
/// once reduced, is no application is reported as a type that was not
/// expected. An application of a name that no data type is declared under
/// is reported as an unbound type variable where `named` is set, and as a
/// type that was not expected where it is not.
pub open spec fn open_data(
    t: TypeM,
    ctx: CtxM,
    info: SpanInfo,
    context: Seq<char>,
    named: bool,
) -> Result<(DataM, EnvM), TyckErrorM> {
    match t.head_reduce().synty {
        SynTypeM::App(x, args) => if ctx.data_ctx.contains_key(x) {
            let d = ctx.data_ctx[x];
            if d.params.len() != args.len() {
                Err(
                    at(
                        info,
                        ErrorM::ArityMismatch {
                            context: "data type `"@ + x + "` instantiation"@,
                            expected: d.params.len(),
                            found: args.len(),
                        },
                    ),
                )
            } else {
                Ok((d, env_zip(param_names(d.params), args)))
            }
        } else if named {
            Err(at(info, ErrorM::UnboundTypeVariable { tvar: x }))
        } else {
            Err(at(info, ErrorM::TypeExpected { context, expected: "data type"@, found: t }))
        },
        _ => Err(at(info, ErrorM::TypeExpected { context, expected: "data type"@, found: t })),
    }
}

/// The data type that the scrutinee of a `match` is an instance of, from
/// the type `t` of the scrutinee, which must be a value type.
pub open spec fn scrutinee_data(t: TypeM, ctx: CtxM, info: SpanInfo) -> Result<
    (DataM, EnvM),
    TyckErrorM,
> {
    match ensure_kind(t.syn_kind(ctx, info), KindM::VType, info, "match"@) {
        Err(e) => Err(e),
        Ok(_) => open_data(t, ctx, info, "match"@, true),
    }
}

/// The codata type that `t` is an instance of, with the substitution of the
/// type's arguments for the declaration's parameters. A type whose head,
/// once reduced, is no application is reported as a type that was not
/// expected. An application of a name that no codata type is declared under
/// is reported as an unbound type variable where `named` is set, and as a
/// type that was not expected where it is not.
pub open spec fn open_codata(
    t: TypeM,
    ctx: CtxM,
    info: SpanInfo,
    context: Seq<char>,
    named: bool,
) -> Result<(CodataM, EnvM), TyckErrorM> {
    match t.head_reduce().synty {
        SynTypeM::App(x, args) => if ctx.coda_ctx.contains_key(x) {
            let d = ctx.coda_ctx[x];
            if d.params.len() != args.len() {
                Err(
                    at(
                        info,
                        ErrorM::ArityMismatch {
                            context: "codata type `"@ + x + "` instantiation"@,
                            expected: d.params.len(),
                            found: args.len(),
                        },
                    ),
                )
            } else {
                Ok((d, env_zip(param_names(d.params), args)))
            }
        } else if named {
            Err(at(info, ErrorM::UnboundTypeVariable { tvar: x }))
        } else {
            Err(at(info, ErrorM::TypeExpected { context, expected: "codata type"@, found: t }))
        },
        _ => Err(at(info, ErrorM::TypeExpected { context, expected: "codata type"@, found: t })),
    }
}

/// The context with the first `n` variables each bound to the type at its
/// place, with `diff` pushed onto it.
pub open spec fn bind_vars(ctx: CtxM, vars: Seq<TermV>, tys: Seq<TypeM>, diff: EnvM, n: nat) -> CtxM
    decreases n,
{
    if n == 0 {
        ctx
    } else {
        bind_vars(ctx, vars, tys, diff, (n - 1) as nat).bind_term(
            vars[n - 1]@,
            tys[n - 1].subst(diff),
        )
    }
}

/// The context of the body of an arm: the arm's variables are bound to the
/// types of the arguments, as far as both go.
pub open spec fn arm_ctx(ctx: CtxM, vars: Seq<TermV>, tys: Seq<TypeM>, diff: EnvM) -> CtxM {
    bind_vars(
        ctx,
        vars,
        tys,
        diff,
        if vars.len() <= tys.len() {
            vars.len()
        } else {
            tys.len()
        },
    )
}

/// The members of `a` that are not members of `b`, in order.
pub open spec fn absent(a: Seq<Seq<char>>, b: Seq<Seq<char>>) -> Seq<Seq<char>>
    decreases a.len(),
{
    if a.len() == 0 {
        Seq::empty()
    } else if b.contains(a.last()) {
        absent(a.drop_last(), b)
    } else {
        absent(a.drop_last(), b).push(a.last())
    }
}

/// The names of the constructors of a data type, in the order declared.
pub open spec fn ctor_names(d: DataM) -> Seq<Seq<char>> {
    Seq::new(d.ctors.len(), |i: int| d.ctors[i].0)
}

/// The names of the destructors of a codata type, in the order declared.
pub open spec fn dtor_names(d: CodataM) -> Seq<Seq<char>> {
    Seq::new(d.dtors.len(), |i: int| d.dtors[i].0)
}

/// The constructors that the arms of a `match` name, in order.
pub open spec fn matcher_names(arms: Seq<Matcher>) -> Seq<Seq<char>> {
    Seq::new(arms.len(), |i: int| arms[i].ctor@)
}

/// The destructors that the arms of a `comatch` name, in order.
pub open spec fn comatcher_names(arms: Seq<Comatcher>) -> Seq<Seq<char>> {
    Seq::new(arms.len(), |i: int| arms[i].dtor@)
}

/// Exhaustiveness of a `match`: every arm names a constructor of the data
/// type and every constructor is named by an arm. Otherwise the arms that
/// name no constructor and the constructors without an arm are reported
/// together.
pub open spec fn matchers_consistent(arms: Seq<Seq<char>>, ctors: Seq<Seq<char>>, info: SpanInfo) -> Result<
    (),
    TyckErrorM,
> {
    let unexpected = absent(arms, ctors);
    let missing = absent(ctors, arms);
    if unexpected.len() == 0 && missing.len() == 0 {
        Ok(())
    } else {
        Err(at(info, ErrorM::InconsistentMatchers { unexpected, missing }))
    }
}

/// Exhaustiveness of a `comatch`, as for a `match`.
pub open spec fn comatchers_consistent(
    arms: Seq<Seq<char>>,
    dtors: Seq<Seq<char>>,
    info: SpanInfo,
) -> Result<(), TyckErrorM> {
    let unexpected = absent(arms, dtors);
    let missing = absent(dtors, arms);
    if unexpected.len() == 0 && missing.len() == 0 {
        Ok(())
    } else {
        Err(at(info, ErrorM::InconsistentCoMatchers { unexpected, missing }))
    }
}

/// The types that the arms of a `match` gave, in order: those of the arms
/// that name a constructor.
pub open spec fn arm_types(rs: Seq<Result<Option<TypeM>, TyckErrorM>>) -> Seq<TypeM>
    decreases rs.len(),
{
    if rs.len() == 0 {
        Seq::empty()
    } else {
        match rs.last() {
            Ok(Some(t)) => arm_types(rs.drop_last()).push(t),
            _ => arm_types(rs.drop_last()),
        }
    }
}

/// Branch agreement: there is a branch, and the type of every branch is
/// equivalent to the type of the first, which is then the common type.
pub open spec fn branches_agree(types: Seq<TypeM>, n: nat, info: SpanInfo) -> Result<
    TypeM,
    TyckErrorM,
> {
    if types.len() > 0 && forall|i: int| 0 <= i < types.len() ==> types[0].eqv(#[trigger] types[i], n) {
        Ok(types[0])
    } else {
        Err(at(info, ErrorM::InconsistentBranches(types)))
    }
}

/// Synthesis for a value.
pub open spec fn syn_value(v: Span<TermValue>, ctx: CtxM) -> Result<TypeM, TyckErrorM>
    decreases v, 1nat,
{
    let info = v.info;
    match v.inner {
        TermValue::Annotation { term, ty } => match ty@.ana_kind(
            KindM::VType,
            ctx,
            ty.info,
            "value term annotation"@,
        ) {
            Err(e) => Err(e),
            Ok(_) => match ana_value(*term, ty@, ctx) {
                Err(e) => Err(e),
                Ok(_) => Ok(ty@),
            },
        },
        TermValue::Var(x) => if ctx.term_ctx.contains_key(x@) {
            Ok(ctx.term_ctx[x@])
        } else {
            Err(at(info, ErrorM::UnboundVar { var: x }))
        },
        TermValue::Thunk(c) => match syn_comp(*c, ctx) {
            Err(e) => Err(e),
            Ok(t) => match ensure_kind(t.syn_kind(ctx, info), KindM::CType, info, "thunk"@) {
                Err(e) => Err(e),
                Ok(_) => Ok(TypeM::thunk(t)),
            },
        },
        TermValue::Ctor { .. } => Err(at(info, ErrorM::NeedAnnotation { content: "ctor"@ })),
        TermValue::Literal(l) => Ok(literal_type(l)),
        TermValue::Pack { .. } => Err(at(info, ErrorM::NeedAnnotation { content: "pack"@ })),
    }
}

/// Analysis of each value against the type at its place, with `diff`
/// pushed onto it.
pub open spec fn ana_values(args: Seq<RcValue>, tys: Seq<TypeM>, diff: EnvM, ctx: CtxM) -> Seq<
    Result<(), TyckErrorM>,
>
    decreases args, 0nat,
{
    Seq::new(
        args.len(),
        |i: int|
            if 0 <= i < args.len() {
                ana_value(*args[i], tys[i].subst(diff), ctx)
            } else {
                Ok(())
            },
    )
}

/// Analysis of a constructor applied to arguments: the expected type must
/// be an instance of a data type that has the constructor, and the
/// arguments, as many as the constructor takes, are analysed against the
/// types declared for them, instantiated.
pub open spec fn ana_ctor(v: Span<TermValue>, typ: TypeM, ctx: CtxM) -> Result<(), TyckErrorM>
    decreases v, 0nat,
{
    let info = v.info;
    match v.inner {
        TermValue::Ctor { ctor, args } => match open_data(typ, ctx, info, "ctor"@, false) {
            Err(e) => Err(e),
            Ok((d, diff)) => match lookup(d.ctors, ctor@) {
                None => Err(at(info, ErrorM::UnknownConstructor { ctor })),
                Some(tys) => if args@.len() != tys.len() {
                    Err(
                        at(
                            info,
                            ErrorM::ArityMismatch {
                                context: "ctor"@,
                                expected: tys.len(),
                                found: args@.len(),
                            },
                        ),
                    )
                } else {
                    match first_err(ana_values(args@, tys, diff, ctx)) {
                        Some(e) => Err(e),
                        None => Ok(()),
                    }
                },
            },
        },
        _ => Ok(()),
    }
}

/// Analysis of a value against `typ`.
pub open spec fn ana_value(v: Span<TermValue>, typ: TypeM, ctx: CtxM) -> Result<(), TyckErrorM>
    decreases v, 2nat,
{
    let info = v.info;
    match v.inner {
        TermValue::Thunk(c) => match expect_thunk(typ, info) {
            Err(e) => Err(e),
            Ok(t) => ana_comp(*c, t, ctx),
        },
        TermValue::Ctor { .. } => ana_ctor(v, typ, ctx),
        TermValue::Pack { ty, body } => match typ.head_reduce().synty {
            SynTypeM::Exists(a, k, b) => match ty@.ana_kind(k, ctx, ty.info, "pack"@) {
                Err(e) => Err(e),
                Ok(_) => ana_value(*body, b.subst(seq![(a, ty@)]), ctx),
            },
            _ => Err(
                at(
                    info,
                    ErrorM::TypeExpected { context: "pack"@, expected: "exists"@, found: typ },
                ),
            ),
        },
        _ => match syn_value(v, ctx) {
            Err(e) => Err(e),
            Ok(found) => subsume(found, typ, ctx, info),
        },
    }
}

/// Synthesis for each arm of a `match` over the data type `d`: an arm that
/// names no constructor gives nothing; any other gives the type of its
/// body, which must be a computation type.
pub open spec fn syn_matchers(arms: Seq<Matcher>, d: DataM, diff: EnvM, ctx: CtxM) -> Seq<
    Result<Option<TypeM>, TyckErrorM>,
>
    decreases arms, 0nat,
{
    Seq::new(
        arms.len(),
        |i: int|
            if 0 <= i < arms.len() {
                match lookup(d.ctors, arms[i].ctor@) {
                    None => Ok(None),
                    Some(tys) => match syn_comp(
                        *arms[i].body,
                        arm_ctx(ctx, arms[i].vars@, tys, diff),
                    ) {
                        Err(e) => Err(e),
                        Ok(t) => match ensure_kind(
                            t.syn_kind(arm_ctx(ctx, arms[i].vars@, tys, diff), arms[i].body.info),
                            KindM::CType,
                            arms[i].body.info,
                            "match arm"@,
                        ) {
                            Err(e) => Err(e),
                            Ok(_) => Ok(Some(t)),
                        },
                    },
                }
            } else {
                Ok(None)
            },
    )
}

/// Analysis of each arm of a `match` over the data type `d` against `typ`;
/// an arm that names no constructor is passed over.
pub open spec fn ana_matchers(
    arms: Seq<Matcher>,
    d: DataM,
    diff: EnvM,
    typ: TypeM,
    ctx: CtxM,
) -> Seq<Result<(), TyckErrorM>>
    decreases arms, 0nat,
{
    Seq::new(
        arms.len(),
        |i: int|
            if 0 <= i < arms.len() {
                match lookup(d.ctors, arms[i].ctor@) {
                    None => Ok(()),
                    Some(tys) => ana_comp(
                        *arms[i].body,
                        typ,
                        arm_ctx(ctx, arms[i].vars@, tys, diff),
                    ),
                }
            } else {
                Ok(())
            },
    )
}

/// Analysis of each arm of a `comatch` at the codata type `d`: the body is
/// held against the destructor's result type; an arm that names no
/// destructor is passed over.
pub open spec fn ana_comatchers(arms: Seq<Comatcher>, d: CodataM, diff: EnvM, ctx: CtxM) -> Seq<
    Result<(), TyckErrorM>,
>
    decreases arms, 0nat,
{
    Seq::new(
        arms.len(),
        |i: int|
            if 0 <= i < arms.len() {
                match lookup(d.dtors, arms[i].dtor@) {
                    None => Ok(()),
                    Some(sig) => ana_comp(
                        *arms[i].body,
                        sig.1.subst(diff),
                        arm_ctx(ctx, arms[i].vars@, sig.0, diff),
                    ),
                }
            } else {
                Ok(())
            },
    )
}

/// Synthesis for a `match`: the scrutinee must have a data type; each arm
/// that names a constructor is checked with the constructor's argument
/// types bound; the arms must be exhaustive; and the branches must agree.
pub open spec fn syn_match(c: Span<TermComputation>, ctx: CtxM) -> Result<TypeM, TyckErrorM>
    decreases c, 0nat,
{
    let info = c.info;
    match c.inner {
        TermComputation::Match { scrut, arms } => match syn_value(*scrut, ctx) {
            Err(e) => Err(e),
            Ok(t) => match scrutinee_data(t, ctx, info) {
                Err(e) => Err(e),
                Ok((d, diff)) => {
                    let rs = syn_matchers(arms@, d, diff, ctx);
                    match first_err(rs) {
                        Some(e) => Err(e),
                        None => match matchers_consistent(
                            matcher_names(arms@),
                            ctor_names(d),
                            info,
                        ) {
                            Err(e) => Err(e),
                            Ok(_) => branches_agree(arm_types(rs), ctx.abst_ctx.len(), info),
                        },
                    }
                },
            },
        },
        _ => Err(at(info, ErrorM::Subsumption)),
    }
}

/// Analysis of a `match` against `typ`: as synthesis, but every branch is
/// held against `typ`.
pub open spec fn ana_match(c: Span<TermComputation>, typ: TypeM, ctx: CtxM) -> Result<
    (),
    TyckErrorM,
>
    decreases c, 0nat,
{
    let info = c.info;
    match c.inner {
        TermComputation::Match { scrut, arms } => match syn_value(*scrut, ctx) {
            Err(e) => Err(e),
            Ok(t) => match scrutinee_data(t, ctx, info) {
                Err(e) => Err(e),
                Ok((d, diff)) => match first_err(ana_matchers(arms@, d, diff, typ, ctx)) {
                    Some(e) => Err(e),
                    None => matchers_consistent(matcher_names(arms@), ctor_names(d), info),
                },
            },
        },
        _ => Ok(()),
    }
}

/// Analysis of a `comatch` against `typ`, which must be an instance of a
/// codata type: each arm that names a destructor is checked with the
/// destructor's argument types bound, and the arms must be exhaustive.
pub open spec fn ana_comatch(c: Span<TermComputation>, typ: TypeM, ctx: CtxM) -> Result<
    (),
    TyckErrorM,
>
    decreases c, 0nat,
{
    let info = c.info;
    match c.inner {
        TermComputation::Comatch { arms } => match open_codata(typ, ctx, info, "comatch"@, true) {
            Err(e) => Err(e),
            Ok((d, diff)) => match first_err(ana_comatchers(arms@, d, diff, ctx)) {
                Some(e) => Err(e),
                None => comatchers_consistent(comatcher_names(arms@), dtor_names(d), info),
            },
        },
        _ => Ok(()),
    }
}

/// Synthesis for a destructor applied to arguments: the body must have a
/// codata type that has the destructor; the arguments, as many as the
/// destructor takes, are analysed against the types declared for them;
/// the type is the destructor's result type. All declared types are
/// instantiated.
pub open spec fn syn_dtor(c: Span<TermComputation>, ctx: CtxM) -> Result<TypeM, TyckErrorM>
    decreases c, 0nat,
{
    let info = c.info;
    match c.inner {
        TermComputation::Dtor { body, dtor, args } => match syn_comp(*body, ctx) {
            Err(e) => Err(e),
            Ok(t) => match open_codata(t, ctx, info, "dtor"@, true) {
                Err(e) => Err(e),
                Ok((d, diff)) => match lookup(d.dtors, dtor@) {
                    None => Err(at(body.info, ErrorM::UnknownDestructor { dtor })),
                    Some(sig) => if args@.len() != sig.0.len() {
                        Err(
                            at(
                                info,
                                ErrorM::ArityMismatch {
                                    context: "dtor"@,
                                    expected: sig.0.len(),
                                    found: args@.len(),
                                },
                            ),
                        )
                    } else {
                        match first_err(ana_values(args@, sig.0, diff, ctx)) {
                            Some(e) => Err(e),
                            None => Ok(sig.1.subst(diff)),
                        }
                    },
                },
            },
        },
        _ => Err(at(info, ErrorM::Subsumption)),
    }
}

/// The type that stands for the type variable `x`.
pub open spec fn type_var(x: Seq<char>) -> TypeM {
    TypeM::app(x, Seq::empty())
}

/// The context of the body of a `matchpack`: the scrutinee must have an
/// existential type; the type variable is bound at the kind of the
/// quantified variable, and the term variable at the type of the body of
/// the existential type, with the type variable in the place of the
/// quantified one.
pub open spec fn pack_ctx(c: Span<TermComputation>, ctx: CtxM) -> Result<CtxM, TyckErrorM>
    decreases c, 0nat,
{
    match c.inner {
        TermComputation::MatchPack { scrut, tvar, var, body } => match syn_value(*scrut, ctx) {
            Err(e) => Err(e),
            Ok(t) => match t.head_reduce().synty {
                SynTypeM::Exists(a, k, b) => Ok(
                    ctx.bind_type(tvar@, k).bind_term(var@, b.subst(seq![(a, type_var(tvar@))])),
                ),
                _ => Err(
                    at(
                        c.info,
                        ErrorM::TypeExpected {
                            context: "matchpack"@,
                            expected: "exists"@,
                            found: t,
                        },
                    ),
                ),
            },
        },
        _ => Ok(ctx),
    }
}

/// Synthesis for a computation.
pub open spec fn syn_comp(c: Span<TermComputation>, ctx: CtxM) -> Result<TypeM, TyckErrorM>
    decreases c, 1nat,
{
    let info = c.info;
    match c.inner {
        TermComputation::Annotation { term, ty } => match ty@.ana_kind(
            KindM::CType,
            ctx,
            ty.info,
            "computation term annotation"@,
        ) {
            Err(e) => Err(e),
            Ok(_) => match ana_comp(*term, ty@, ctx) {
                Err(e) => Err(e),
                Ok(_) => Ok(ty@),
            },
        },
        TermComputation::Ret(v) => match syn_value(*v, ctx) {
            Err(e) => Err(e),
            Ok(t) => match ensure_kind(t.syn_kind(ctx, info), KindM::VType, info, "ret"@) {
                Err(e) => Err(e),
                Ok(_) => Ok(TypeM::ret(t)),
            },
        },
        TermComputation::Force(v) => match syn_value(*v, ctx) {
            Err(e) => Err(e),
            Ok(t) => force_body(t, ctx, info),
        },
        TermComputation::Let { var, def, body } => match syn_value(*def, ctx) {
            Err(e) => Err(e),
            Ok(t) => match ensure_kind(t.syn_kind(ctx, info), KindM::VType, info, "let"@) {
                Err(e) => Err(e),
                Ok(_) => syn_comp(*body, ctx.bind_term(var@, t)),
            },
        },
        TermComputation::Do { var, comp, body } => match syn_comp(*comp, ctx) {
            Err(e) => Err(e),
            Ok(t) => match do_bound(t, ctx, info) {
                Err(e) => Err(e),
                Ok(a) => syn_comp(*body, ctx.bind_term(var@, a)),
            },
        },
        TermComputation::Rec { .. } => Err(at(info, ErrorM::NeedAnnotation { content: "rec"@ })),
        TermComputation::Match { .. } => syn_match(c, ctx),
        TermComputation::Comatch { .. } => Err(
            at(info, ErrorM::NeedAnnotation { content: "comatch"@ }),
        ),
        TermComputation::Dtor { .. } => syn_dtor(c, ctx),
        TermComputation::TyAbsTerm { param, body } => match syn_comp(
            *body,
            ctx.bind_type(param.0@, param.1@),
        ) {
            Err(e) => Err(e),
            Ok(t) => Ok(TypeM::plain(SynTypeM::Forall(param.0@, param.1@, Box::new(t)))),
        },
        TermComputation::TyAppTerm { body, arg } => match syn_comp(*body, ctx) {
            Err(e) => Err(e),
            Ok(t) => match t.head_reduce().synty {
                SynTypeM::Forall(a, k, b) => match arg@.ana_kind(
                    k,
                    ctx,
                    arg.info,
                    "type application"@,
                ) {
                    Err(e) => Err(e),
                    Ok(_) => Ok(b.subst(seq![(a, arg@)])),
                },
                _ => Err(
                    at(
                        info,
                        ErrorM::TypeExpected {
                            context: "type application"@,
                            expected: "forall"@,
                            found: t,
                        },
                    ),
                ),
            },
        },
        TermComputation::MatchPack { scrut, tvar, var, body } => match pack_ctx(c, ctx) {
            Err(e) => Err(e),
            Ok(inner) => syn_comp(*body, inner),
        },
    }
}

/// Analysis of a computation against `typ`. The type must be a computation
/// type, whatever the computation is: its kind is synthesised first.
pub open spec fn ana_comp(c: Span<TermComputation>, typ: TypeM, ctx: CtxM) -> Result<(), TyckErrorM>
    decreases c, 2nat,
{
    let info = c.info;
    match ensure_kind(typ.syn_kind(ctx, info), KindM::CType, info, "ana computation"@) {
        Err(e) => Err(e),
        Ok(_) => {
            match c.inner {
                TermComputation::Ret(v) => match expect_elim(typ, "Ret"@, info, "ret"@, "Ret a"@) {
                    Err(e) => Err(e),
                    Ok(a) => ana_value(*v, a, ctx),
                },
                TermComputation::Let { var, def, body } => match syn_value(*def, ctx) {
                    Err(e) => Err(e),
                    Ok(t) => match ensure_kind(t.syn_kind(ctx, info), KindM::VType, info, "let"@) {
                        Err(e) => Err(e),
                        Ok(_) => ana_comp(*body, typ, ctx.bind_term(var@, t)),
                    },
                },
                TermComputation::Do { var, comp, body } => match syn_comp(*comp, ctx) {
                    Err(e) => Err(e),
                    Ok(t) => match do_bound(t, ctx, info) {
                        Err(e) => Err(e),
                        Ok(a) => ana_comp(*body, typ, ctx.bind_term(var@, a)),
                    },
                },
                TermComputation::Rec { var, body } => ana_comp(
                    *body,
                    typ,
                    ctx.bind_term(var@, TypeM::thunk(typ)),
                ),
                TermComputation::Match { .. } => ana_match(c, typ, ctx),
                TermComputation::Comatch { .. } => ana_comatch(c, typ, ctx),
                TermComputation::TyAbsTerm { param, body } => match typ.head_reduce().synty {
                    SynTypeM::Forall(b, k, t) => if !param.1@.eqv(k) {
                        Err(
                            at(
                                info,
                                ErrorM::KindMismatch {
                                    context: "type abstraction"@,
                                    expected: k,
                                    found: param.1@,
                                },
                            ),
                        )
                    } else {
                        ana_comp(
                            *body,
                            t.subst(seq![(b, type_var(param.0@))]),
                            ctx.bind_type(param.0@, param.1@),
                        )
                    },
                    _ => Err(
                        at(
                            info,
                            ErrorM::TypeExpected {
                                context: "type abstraction"@,
                                expected: "forall"@,
                                found: typ,
                            },
                        ),
                    ),
                },
                TermComputation::MatchPack { scrut, tvar, var, body } => match pack_ctx(c, ctx) {
                    Err(e) => Err(e),
                    Ok(inner) => ana_comp(*body, typ, inner),
                },
                _ => match syn_comp(c, ctx) {
                    Err(e) => Err(e),
                    Ok(found) => subsume(found, typ, ctx, info),
                },
            }
        },
    }
}

} // verus!
