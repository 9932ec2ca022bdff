//! What the rules for terms are built from: opening a type as an instance
//! of a declared type, binding the variables of an arm, and the checks on
//! the arms of a `match` or `comatch`.

use vstd::prelude::*;
use crate::assoc::{lemma_find_at, lemma_find_none, lookup};
use crate::ctx::Ctx;
use crate::err::{
    error_model, type_result_model, unit_result_model, TyckError, TyckErrorM, TypeCheckError,
};
use crate::span::{names_of, Name, SpanInfo, TermV};
use crate::term::{Codata, CodataM, Comatcher, Data, DataM, Matcher};
use crate::tyck::kinding::fail;
use crate::tyck::rules;
use crate::types::{
    lemma_type_model, owned_types_model, types_model, Env, EnvM, RcType, SynType, Type,
};

verus! {

/// The type that `name` is applied to in `t`, once head-reduced.
pub fn expect_elim(t: &Type, name: &str, info: SpanInfo, context: &str, expected: &str) -> (r:
    Result<Type, TyckError>)
    ensures
        type_result_model(r) == rules::expect_elim(t@, name@, info, context@, expected@),
{
    let reduced = t.head_reduction();
    proof {
        lemma_type_model(reduced);
    }
    match &reduced.synty {
        SynType::TypeApp(app) => {
            if app.tvar.is(name) && app.args.len() > 0 {
                return Ok((*app.args[0]).inner.clone());
            }
        },
        _ => {},
    }
    fail(
        info,
        TypeCheckError::TypeExpected {
            context: context.to_owned(),
            expected: expected.to_owned(),
            found: t.clone(),
        },
    )
}

/// The type of the computation that a thunk of type `t` suspends.
pub fn expect_thunk(t: &Type, info: SpanInfo) -> (r: Result<Type, TyckError>)
    ensures
        type_result_model(r) == rules::expect_thunk(t@, info),
{
    let reduced = t.head_reduction();
    proof {
        lemma_type_model(reduced);
    }
    match &reduced.synty {
        SynType::TypeApp(app) => {
            if app.tvar.is("Thunk") {
                if app.args.len() != 1 {
                    return fail(
                        info,
                        TypeCheckError::ArityMismatch {
                            context: "thunk".to_owned(),
                            expected: 1,
                            found: app.args.len(),
                        },
                    );
                }
                return Ok((*app.args[0]).inner.clone());
            }
        },
        _ => {},
    }
    fail(
        info,
        TypeCheckError::TypeExpected {
            context: "thunk".to_owned(),
            expected: "Thunk a".to_owned(),
            found: t.clone(),
        },
    )
}

/// The check that a type that a computation is held against is a
/// computation type.
pub fn ensure_computation_type(typ: &Type, ctx: &Ctx, info: SpanInfo) -> (r: Result<(), TyckError>)
    ensures
        unit_result_model(r) == crate::tyck::kinding::ensure_kind(
            typ@.syn_kind(ctx@, info),
            crate::kind::KindM::CType,
            info,
            "ana computation"@,
        ),
{
    match typ.syn_kind(ctx, info) {
        Ok(k) => k.ensure(&crate::kind::Kind::CType, info, "ana computation"),
        Err(e) => Err(e),
    }
}

/// The type of the computation that `force` runs, from the type `t` of the
/// thunk that is forced.
pub fn force_body(t: &Type, ctx: &Ctx, info: SpanInfo) -> (r: Result<Type, TyckError>)
    ensures
        type_result_model(r) == rules::force_body(t@, ctx@, info),
{
    let body = match expect_elim(t, "Thunk", info, "force", "Thunk a") {
        Ok(body) => body,
        Err(e) => {
            return Err(e);
        },
    };
    let k = match body.syn_kind(ctx, info) {
        Ok(k) => k,
        Err(e) => {
            return Err(e);
        },
    };
    match k.ensure(&crate::kind::Kind::CType, info, "force") {
        Ok(_) => Ok(body),
        Err(e) => Err(e),
    }
}

/// The type of the variable that a `do` binds, from the type `t` of its
/// first computation.
pub fn do_bound(t: &Type, ctx: &Ctx, info: SpanInfo) -> (r: Result<Type, TyckError>)
    ensures
        type_result_model(r) == rules::do_bound(t@, ctx@, info),
{
    let k = match t.syn_kind(ctx, info) {
        Ok(k) => k,
        Err(e) => {
            return Err(e);
        },
    };
    match k.ensure(&crate::kind::Kind::CType, info, "do") {
        Ok(_) => expect_elim(t, "Ret", info, "do", "Ret a"),
        Err(e) => Err(e),
    }
}

/// The data type that the scrutinee of a `match` is an instance of, from
/// the type `t` of the scrutinee.
pub fn scrutinee_data<'a>(t: &Type, ctx: &'a Ctx, info: SpanInfo) -> (r: Result<
    (&'a Data, Env),
    TyckError,
>)
    ensures
        data_result_model(r) == rules::scrutinee_data(t@, ctx@, info),
{
    let k = match t.syn_kind(ctx, info) {
        Ok(k) => k,
        Err(e) => {
            return Err(e);
        },
    };
    match k.ensure(&crate::kind::Kind::VType, info, "match") {
        Ok(_) => open_data(t, ctx, info, "match", true),
        Err(e) => Err(e),
    }
}

/// Subsumption: `found` must be equivalent to `expected`.
pub fn subsume(found: &Type, expected: &Type, ctx: &Ctx, info: SpanInfo) -> (r: Result<
    (),
    TyckError,
>)
    ensures
        unit_result_model(r) == rules::subsume(found@, expected@, ctx@, info),
{
    expected.eqv_or(
        found,
        &ctx.abst_ctx,
        crate::span::Span { info, inner: TypeCheckError::Subsumption },
    )
}

/// The mathematical value of the outcome of opening a type as an instance
/// of a data type.
pub open spec fn data_result_model(r: Result<(&Data, Env), TyckError>) -> Result<
    (DataM, EnvM),
    TyckErrorM,
> {
    match r {
        Ok((d, diff)) => Ok((d@, diff@)),
        Err(e) => Err(error_model(e)),
    }
}

/// The mathematical value of the outcome of opening a type as an instance
/// of a codata type.
pub open spec fn codata_result_model(r: Result<(&Codata, Env), TyckError>) -> Result<
    (CodataM, EnvM),
    TyckErrorM,
> {
    match r {
        Ok((d, diff)) => Ok((d@, diff@)),
        Err(e) => Err(error_model(e)),
    }
}

/// The data type that `t` is an instance of, with the substitution of the
/// type's arguments for the declaration's parameters.
pub fn open_data<'a>(t: &Type, ctx: &'a Ctx, info: SpanInfo, context: &str, named: bool) -> (r:
    Result<(&'a Data, Env), TyckError>)
    ensures
        data_result_model(r) == rules::open_data(t@, ctx@, info, context@, named),
{
    let reduced = t.head_reduction();
    proof {
        lemma_type_model(reduced);
    }
    match &reduced.synty {
        SynType::TypeApp(app) => {
            match ctx.data(&app.tvar) {
                Some(d) => {
                    match Env::init(&d.params, &app.args) {
                        Some(diff) => {
                            assert(diff@ =~= crate::env::env_zip(
                                rules::param_names(d@.params),
                                types_model(app.args@),
                            ));
                            return Ok((d, diff));
                        },
                        None => {
                            let mut text: String = "data type `".to_owned();
                            vstd::string::StringExecFns::append(&mut text, app.tvar.name.as_str());
                            vstd::string::StringExecFns::append(&mut text, "` instantiation");
                            return fail(
                                info,
                                TypeCheckError::ArityMismatch {
                                    context: text,
                                    expected: d.params.len(),
                                    found: app.args.len(),
                                },
                            );
                        },
                    }
                },
                None => {
                    if named {
                        return fail(
                            info,
                            TypeCheckError::UnboundTypeVariable { tvar: app.tvar.clone() },
                        );
                    }
                },
            }
        },
        _ => {},
    }
    fail(
        info,
        TypeCheckError::TypeExpected {
            context: context.to_owned(),
            expected: "data type".to_owned(),
            found: t.clone(),
        },
    )
}

/// The codata type that `t` is an instance of, with the substitution of the
/// type's arguments for the declaration's parameters.
pub fn open_codata<'a>(t: &Type, ctx: &'a Ctx, info: SpanInfo, context: &str, named: bool) -> (r:
    Result<(&'a Codata, Env), TyckError>)
    ensures
        codata_result_model(r) == rules::open_codata(t@, ctx@, info, context@, named),
{
    let reduced = t.head_reduction();
    proof {
        lemma_type_model(reduced);
    }
    match &reduced.synty {
        SynType::TypeApp(app) => {
            match ctx.codata(&app.tvar) {
                Some(d) => {
                    match Env::init(&d.params, &app.args) {
                        Some(diff) => {
                            assert(diff@ =~= crate::env::env_zip(
                                rules::param_names(d@.params),
                                types_model(app.args@),
                            ));
                            return Ok((d, diff));
                        },
                        None => {
                            let mut text: String = "codata type `".to_owned();
                            vstd::string::StringExecFns::append(&mut text, app.tvar.name.as_str());
                            vstd::string::StringExecFns::append(&mut text, "` instantiation");
                            return fail(
                                info,
                                TypeCheckError::ArityMismatch {
                                    context: text,
                                    expected: d.params.len(),
                                    found: app.args.len(),
                                },
                            );
                        },
                    }
                },
                None => {
                    if named {
                        return fail(
                            info,
                            TypeCheckError::UnboundTypeVariable { tvar: app.tvar.clone() },
                        );
                    }
                },
            }
        },
        _ => {},
    }
    fail(
        info,
        TypeCheckError::TypeExpected {
            context: context.to_owned(),
            expected: "codata type".to_owned(),
            found: t.clone(),
        },
    )
}

impl Data {
    /// The place of the constructor `ctor` among the constructors, if the
    /// data type has it.
    pub fn find_ctor(&self, ctor: &Name) -> (r: Option<usize>)
        ensures
            r.is_some() == lookup(self@.ctors, ctor@).is_some(),
            r matches Some(j) ==> j < self.ctors@.len() && lookup(self@.ctors, ctor@) == Some(
                types_model(self.ctors@[j as int].tys@),
            ),
    {
        let mut i: usize = self.ctors.len();
        while i > 0
            invariant
                i <= self.ctors.len(),
                forall|j: int| i <= j < self.ctors.len() ==> (#[trigger] self@.ctors[j]).0 != ctor@,
            decreases i,
        {
            i -= 1;
            if self.ctors[i].ctor.same(ctor) {
                proof {
                    lemma_find_at(self@.ctors, ctor@, i as int);
                }
                return Some(i);
            }
        }
        proof {
            lemma_find_none(self@.ctors, ctor@);
        }
        None
    }
}

impl Codata {
    /// The place of the destructor `dtor` among the destructors, if the
    /// codata type has it.
    pub fn find_dtor(&self, dtor: &Name) -> (r: Option<usize>)
        ensures
            r.is_some() == lookup(self@.dtors, dtor@).is_some(),
            r matches Some(j) ==> j < self.dtors@.len() && lookup(self@.dtors, dtor@) == Some(
                (types_model(self.dtors@[j as int].tys@), self.dtors@[j as int].ty@),
            ),
    {
        let mut i: usize = self.dtors.len();
        while i > 0
            invariant
                i <= self.dtors.len(),
                forall|j: int| i <= j < self.dtors.len() ==> (#[trigger] self@.dtors[j]).0 != dtor@,
            decreases i,
        {
            i -= 1;
            if self.dtors[i].dtor.same(dtor) {
                proof {
                    lemma_find_at(self@.dtors, dtor@, i as int);
                }
                return Some(i);
            }
        }
        proof {
            lemma_find_none(self@.dtors, dtor@);
        }
        None
    }
}

/// The context of the body of an arm: the arm's variables are bound to
/// the types of the arguments, as far as both go.
pub fn arm_ctx(ctx: &Ctx, vars: &Vec<TermV>, tys: &Vec<RcType>, diff: &Env) -> (r: Ctx)
    ensures
        r@ == rules::arm_ctx(ctx@, vars@, types_model(tys@), diff@),
{
    let n = if vars.len() <= tys.len() {
        vars.len()
    } else {
        tys.len()
    };
    let mut out = ctx.clone();
    let mut i: usize = 0;
    while i < n
        invariant
            i <= n,
            n <= vars.len(),
            n <= tys.len(),
            out@ == rules::bind_vars(ctx@, vars@, types_model(tys@), diff@, i as nat),
        decreases n - i,
    {
        out = out.bind_term(&vars[i], (*tys[i]).inner.subst_ref(diff));
        i += 1;
    }
    out
}

/// Whether one of `names` is `x`.
pub fn has_name(names: &Vec<Name>, x: &Name) -> (r: bool)
    ensures
        r == names_of(names@).contains(x@),
{
    let mut i: usize = 0;
    while i < names.len()
        invariant
            i <= names.len(),
            forall|j: int| 0 <= j < i ==> (#[trigger] names_of(names@)[j]) != x@,
        decreases names.len() - i,
    {
        if names[i].same(x) {
            assert(names_of(names@)[i as int] == x@);
            return true;
        }
        i += 1;
    }
    false
}

/// The members of `a` whose name no member of `b` has, in order.
pub fn absent_names(a: &Vec<Name>, b: &Vec<Name>) -> (r: Vec<Name>)
    ensures
        names_of(r@) == rules::absent(names_of(a@), names_of(b@)),
{
    let mut out: Vec<Name> = Vec::new();
    let mut i: usize = 0;
    assert(names_of(a@).take(0) =~= Seq::empty());
    assert(names_of(out@) =~= Seq::empty());
    while i < a.len()
        invariant
            i <= a.len(),
            names_of(out@) == rules::absent(names_of(a@).take(i as int), names_of(b@)),
        decreases a.len() - i,
    {
        assert(names_of(a@).take(i + 1).drop_last() =~= names_of(a@).take(i as int));
        let ghost before = out@;
        if !has_name(b, &a[i]) {
            out.push(a[i].clone());
            assert(names_of(out@) =~= names_of(before).push(a@[i as int]@));
        }
        i += 1;
    }
    assert(names_of(a@).take(a.len() as int) =~= names_of(a@));
    out
}

/// The constructors that the arms of a `match` name, in order.
pub fn matcher_names(arms: &Vec<Matcher>) -> (r: Vec<Name>)
    ensures
        names_of(r@) == rules::matcher_names(arms@),
{
    let mut out: Vec<Name> = Vec::new();
    let mut i: usize = 0;
    while i < arms.len()
        invariant
            i <= arms.len(),
            out.len() == i,
            forall|j: int| 0 <= j < i ==> (#[trigger] out@[j])@ == arms@[j].ctor@,
        decreases arms.len() - i,
    {
        out.push(arms[i].ctor.clone());
        i += 1;
    }
    assert(names_of(out@) =~= rules::matcher_names(arms@));
    out
}

/// The destructors that the arms of a `comatch` name, in order.
pub fn comatcher_names(arms: &Vec<Comatcher>) -> (r: Vec<Name>)
    ensures
        names_of(r@) == rules::comatcher_names(arms@),
{
    let mut out: Vec<Name> = Vec::new();
    let mut i: usize = 0;
    while i < arms.len()
        invariant
            i <= arms.len(),
            out.len() == i,
            forall|j: int| 0 <= j < i ==> (#[trigger] out@[j])@ == arms@[j].dtor@,
        decreases arms.len() - i,
    {
        out.push(arms[i].dtor.clone());
        i += 1;
    }
    assert(names_of(out@) =~= rules::comatcher_names(arms@));
    out
}

impl Data {
    /// The names of the constructors, in the order declared.
    pub fn ctor_names(&self) -> (r: Vec<Name>)
        ensures
            names_of(r@) == rules::ctor_names(self@),
    {
        let mut out: Vec<Name> = Vec::new();
        let mut i: usize = 0;
        while i < self.ctors.len()
            invariant
                i <= self.ctors.len(),
                out.len() == i,
                forall|j: int| 0 <= j < i ==> (#[trigger] out@[j])@ == self.ctors@[j].ctor@,
            decreases self.ctors.len() - i,
        {
            out.push(self.ctors[i].ctor.clone());
            i += 1;
        }
        assert(names_of(out@) =~= rules::ctor_names(self@));
        out
    }
}

impl Codata {
    /// The names of the destructors, in the order declared.
    pub fn dtor_names(&self) -> (r: Vec<Name>)
        ensures
            names_of(r@) == rules::dtor_names(self@),
    {
        let mut out: Vec<Name> = Vec::new();
        let mut i: usize = 0;
        while i < self.dtors.len()
            invariant
                i <= self.dtors.len(),
                out.len() == i,
                forall|j: int| 0 <= j < i ==> (#[trigger] out@[j])@ == self.dtors@[j].dtor@,
            decreases self.dtors.len() - i,
        {
            out.push(self.dtors[i].dtor.clone());
            i += 1;
        }
        assert(names_of(out@) =~= rules::dtor_names(self@));
        out
    }
}

/// Exhaustiveness of a `match` with arms for `arms` over a data type with
/// the constructors `ctors`.
pub fn matchers_consistent(arms: &Vec<Name>, ctors: &Vec<Name>, info: SpanInfo) -> (r: Result<
    (),
    TyckError,
>)
    ensures
        unit_result_model(r) == rules::matchers_consistent(names_of(arms@), names_of(ctors@), info),
{
    let unexpected = absent_names(arms, ctors);
    let missing = absent_names(ctors, arms);
    if unexpected.len() == 0 && missing.len() == 0 {
        Ok(())
    } else {
        fail(info, TypeCheckError::InconsistentMatchers { unexpected, missing })
    }
}

/// Exhaustiveness of a `comatch` with arms for `arms` at a codata type
/// with the destructors `dtors`.
pub fn comatchers_consistent(arms: &Vec<Name>, dtors: &Vec<Name>, info: SpanInfo) -> (r: Result<
    (),
    TyckError,
>)
    ensures
        unit_result_model(r) == rules::comatchers_consistent(
            names_of(arms@),
            names_of(dtors@),
            info,
        ),
{
    let unexpected = absent_names(arms, dtors);
    let missing = absent_names(dtors, arms);
    if unexpected.len() == 0 && missing.len() == 0 {
        Ok(())
    } else {
        fail(info, TypeCheckError::InconsistentCoMatchers { unexpected, missing })
    }
}

/// Branch agreement: the common type of the branches, if there is a branch
/// and all agree with the first.
pub fn branches_agree(types: Vec<Type>, ctx: &Ctx, info: SpanInfo) -> (r: Result<Type, TyckError>)
    ensures
        type_result_model(r) == rules::branches_agree(
            owned_types_model(types@),
            ctx@.abst_ctx.len(),
            info,
        ),
{
    if types.len() == 0 {
        return fail(info, TypeCheckError::InconsistentBranches(types));
    }
    let ghost ts = owned_types_model(types@);
    let ghost n = ctx@.abst_ctx.len();
    let mut i: usize = 0;
    while i < types.len()
        invariant
            i <= types.len(),
            ts == owned_types_model(types@),
            n == ctx.abst_ctx@.len(),
            forall|j: int| 0 <= j < i ==> ts[0].eqv(#[trigger] ts[j], n),
        decreases types.len() - i,
    {
        if !types[0].eqv(&types[i], &ctx.abst_ctx) {
            assert(!ts[0].eqv(ts[i as int], n));
            return fail(info, TypeCheckError::InconsistentBranches(types));
        }
        i += 1;
    }
    Ok(types[0].clone())
}

} // verus!
