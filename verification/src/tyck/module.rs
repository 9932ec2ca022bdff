//! The checker for modules and programs.
//!
//! A module is checked in four passes: the names of the data and codata
//! types are registered with their kinds; the bodies of the declarations
//! are checked; the signatures of the primitives are entered; and the
//! definitions are checked in the order written, each in the scope of
//! those before it.

use vstd::prelude::*;
use crate::ctx::{Ctx, CtxM};
use crate::err::{at, error_model, unit_result_model, ErrorM, TyckError, TyckErrorM, TypeCheckError};
use crate::kind::{Kind, KindM, TypeArity};
use crate::span::{Span, SpanInfo, TypeV};
use crate::term::{
    params_model, Codata, CodataBr, Data, DataBr, DeclSymbol, Define, DefineExt, Module, Program,
    TermComputation,
};
use crate::tyck::kinding::fail;
use crate::tyck::outcome::{first_err, lemma_first_err_at, lemma_first_err_none};
use crate::tyck::rules::{syn_comp, syn_value};
use crate::types::{lemma_type_model, types_model, RcType, SynType, Type, TypeM};

verus! {

/// The context with the first `n` type parameters in scope.
pub open spec fn bind_params(ctx: CtxM, params: Seq<(Seq<char>, KindM)>, n: nat) -> CtxM
    decreases n,
{
    if n == 0 {
        ctx
    } else {
        bind_params(ctx, params, (n - 1) as nat).bind_type(params[n - 1].0, params[n - 1].1)
    }
}

/// The outcome of checking each of `tys` against the kind of value types;
/// an error is reported at the place of the type that it is about.
pub open spec fn value_kind_checks(tys: Seq<RcType>, ctx: CtxM, context: Seq<char>) -> Seq<
    Result<(), TyckErrorM>,
> {
    Seq::new(tys.len(), |i: int| tys[i]@.ana_kind(KindM::VType, ctx, tys[i].info, context))
}

/// The outcome of checking the constructor at place `i` of a data type:
/// its tag must not be that of an earlier constructor, and the types of
/// its arguments must be value types.
pub open spec fn ctor_check(ctors: Seq<DataBr>, i: int, ctx: CtxM) -> Result<(), TyckErrorM> {
    let br = ctors[i];
    if exists|j: int| 0 <= j < i && ctors[j].ctor@ == br.ctor@ {
        Err(at(br.ctor.info, ErrorM::DuplicateCtorDeclaration { name: br.ctor }))
    } else {
        match first_err(
            value_kind_checks(br.tys@, ctx, "data constructor"@),
        ) {
            Some(e) => Err(e),
            None => Ok(()),
        }
    }
}

/// The outcome of checking each constructor of a data type.
pub open spec fn ctor_checks(ctors: Seq<DataBr>, ctx: CtxM) -> Seq<Result<(), TyckErrorM>> {
    Seq::new(ctors.len(), |i: int| ctor_check(ctors, i, ctx))
}

/// The check of a data type declaration, with its parameters in scope.
pub open spec fn data_check(d: Data, ctx: CtxM) -> Result<(), TyckErrorM> {
    match first_err(
        ctor_checks(d.ctors@, bind_params(ctx, params_model(d.params@), d.params@.len())),
    ) {
        Some(e) => Err(e),
        None => Ok(()),
    }
}

/// The outcome of checking the destructor at place `i` of a codata type:
/// its tag must not be that of an earlier destructor, the types of its
/// arguments must be value types, and the type of its result must be a
/// computation type.
pub open spec fn dtor_check(dtors: Seq<CodataBr>, i: int, ctx: CtxM) -> Result<(), TyckErrorM> {
    let br = dtors[i];
    if exists|j: int| 0 <= j < i && dtors[j].dtor@ == br.dtor@ {
        Err(at(br.dtor.info, ErrorM::DuplicateDtorDeclaration { name: br.dtor }))
    } else {
        match first_err(
            value_kind_checks(br.tys@, ctx, "codata destructor"@),
        ) {
            Some(e) => Err(e),
            None => br.ty@.ana_kind(KindM::CType, ctx, br.ty.info, "codata destructor"@),
        }
    }
}

/// The outcome of checking each destructor of a codata type.
pub open spec fn dtor_checks(dtors: Seq<CodataBr>, ctx: CtxM) -> Seq<Result<(), TyckErrorM>> {
    Seq::new(dtors.len(), |i: int| dtor_check(dtors, i, ctx))
}

/// The check of a codata type declaration, with its parameters in scope.
pub open spec fn codata_check(d: Codata, ctx: CtxM) -> Result<(), TyckErrorM> {
    match first_err(
        dtor_checks(d.dtors@, bind_params(ctx, params_model(d.params@), d.params@.len())),
    ) {
        Some(e) => Err(e),
        None => Ok(()),
    }
}

/// The context after the type name `name` has been registered at `kind`;
/// a name that is in scope already is a duplicate.
pub open spec fn register(ctx: CtxM, name: TypeV, kind: KindM) -> Result<CtxM, TyckErrorM> {
    if ctx.type_ctx.contains_key(name@) {
        Err(at(name.info, ErrorM::DuplicateTypeDeclaration { name }))
    } else {
        Ok(ctx.bind_type(name@, kind))
    }
}

/// The context after the names of the first `n` data types have been
/// registered.
pub open spec fn register_data(ctx: CtxM, ds: Seq<DeclSymbol<Data>>, n: nat) -> Result<
    CtxM,
    TyckErrorM,
>
    decreases n,
{
    if n == 0 {
        Ok(ctx)
    } else {
        match register_data(ctx, ds, (n - 1) as nat) {
            Err(e) => Err(e),
            Ok(c) => register(c, ds[n - 1].inner.name, ds[n - 1].inner@.kind()),
        }
    }
}

/// The context after the names of the first `n` codata types have been
/// registered.
pub open spec fn register_codata(ctx: CtxM, ds: Seq<DeclSymbol<Codata>>, n: nat) -> Result<
    CtxM,
    TyckErrorM,
>
    decreases n,
{
    if n == 0 {
        Ok(ctx)
    } else {
        match register_codata(ctx, ds, (n - 1) as nat) {
            Err(e) => Err(e),
            Ok(c) => register(c, ds[n - 1].inner.name, ds[n - 1].inner@.kind()),
        }
    }
}

/// The context after the first `n` data type declarations have been
/// checked and entered.
pub open spec fn enter_data(ctx: CtxM, ds: Seq<DeclSymbol<Data>>, n: nat) -> Result<
    CtxM,
    TyckErrorM,
>
    decreases n,
{
    if n == 0 {
        Ok(ctx)
    } else {
        match enter_data(ctx, ds, (n - 1) as nat) {
            Err(e) => Err(e),
            Ok(c) => match data_check(ds[n - 1].inner, c) {
                Err(e) => Err(e),
                Ok(_) => Ok(c.bind_data(ds[n - 1].inner.name@, ds[n - 1].inner@)),
            },
        }
    }
}

/// The context after the first `n` codata type declarations have been
/// checked and entered.
pub open spec fn enter_codata(ctx: CtxM, ds: Seq<DeclSymbol<Codata>>, n: nat) -> Result<
    CtxM,
    TyckErrorM,
>
    decreases n,
{
    if n == 0 {
        Ok(ctx)
    } else {
        match enter_codata(ctx, ds, (n - 1) as nat) {
            Err(e) => Err(e),
            Ok(c) => match codata_check(ds[n - 1].inner, c) {
                Err(e) => Err(e),
                Ok(_) => Ok(c.bind_codata(ds[n - 1].inner.name@, ds[n - 1].inner@)),
            },
        }
    }
}

/// The context after the signatures of the first `n` primitives have been
/// entered; each must be a value type.
pub open spec fn enter_externs(ctx: CtxM, ds: Seq<DeclSymbol<DefineExt>>, n: nat) -> Result<
    CtxM,
    TyckErrorM,
>
    decreases n,
{
    if n == 0 {
        Ok(ctx)
    } else {
        match enter_externs(ctx, ds, (n - 1) as nat) {
            Err(e) => Err(e),
            Ok(c) => {
                let d = ds[n - 1].inner;
                match d.ty@.ana_kind(KindM::VType, c, d.ty.info, "extern"@) {
                    Err(e) => Err(e),
                    Ok(_) => Ok(c.bind_term(d.name@, d.ty@)),
                }
            },
        }
    }
}

/// The context after a definition has been checked and entered. A
/// definition must not be marked as a primitive, and its type is
/// synthesised and must be a value type.
pub open spec fn define_check(decl: DeclSymbol<Define>, c: CtxM) -> Result<CtxM, TyckErrorM> {
    let d = decl.inner;
    if decl.external {
        Err(at(d.name.info, ErrorM::ExternalDeclaration { name: d.name@ }))
    } else {
        match syn_value(*d.def, c) {
            Err(e) => Err(e),
            Ok(t) => match t.ana_kind(KindM::VType, c, d.name.info, "define"@) {
                Err(e) => Err(e),
                Ok(_) => Ok(c.bind_term(d.name@, t)),
            },
        }
    }
}

/// The context after the first `n` definitions have been checked and
/// entered, each in the scope of those before it.
pub open spec fn enter_defines(ctx: CtxM, ds: Seq<DeclSymbol<Define>>, n: nat) -> Result<
    CtxM,
    TyckErrorM,
>
    decreases n,
{
    if n == 0 {
        Ok(ctx)
    } else {
        match enter_defines(ctx, ds, (n - 1) as nat) {
            Err(e) => Err(e),
            Ok(c) => define_check(ds[n - 1], c),
        }
    }
}

/// The check of a module in the context `ctx`: the context that its
/// declarations leave, or the first error.
pub open spec fn module_check(m: Module, ctx: CtxM) -> Result<CtxM, TyckErrorM> {
    match register_data(ctx, m.data@, m.data@.len()) {
        Err(e) => Err(e),
        Ok(c1) => match register_codata(c1, m.codata@, m.codata@.len()) {
            Err(e) => Err(e),
            Ok(c2) => match enter_data(c2, m.data@, m.data@.len()) {
                Err(e) => Err(e),
                Ok(c3) => match enter_codata(c3, m.codata@, m.codata@.len()) {
                    Err(e) => Err(e),
                    Ok(c4) => match enter_externs(c4, m.define_ext@, m.define_ext@.len()) {
                        Err(e) => Err(e),
                        Ok(c5) => enter_defines(c5, m.define@, m.define@.len()),
                    },
                },
            },
        },
    }
}

/// What a computation of a given type can be run as.
#[derive(Clone, Copy, Debug, PartialEq, Eq, Structural)]
pub enum EntryKind {
    /// A program that runs against the operating system and ends with an
    /// exit code.
    Os,
    /// A pure computation that ends with a value.
    Ret,
}

/// What a computation of type `t` can be run as, if it can be run.
pub open spec fn entry_kind(t: TypeM) -> Option<EntryKind> {
    let s = t.head_reduce().synty;
    if s.is_named("OS"@) {
        Some(EntryKind::Os)
    } else if s.elim("Ret"@).is_some() {
        Some(EntryKind::Ret)
    } else {
        None
    }
}

/// The check of a program that is to run against the operating system:
/// the module must check, and the entry must have the type `OS` in the
/// context that the module leaves.
pub open spec fn program_check(p: Program, ctx: CtxM) -> Result<(), TyckErrorM> {
    match module_check(p.module.inner, ctx) {
        Err(e) => Err(e),
        Ok(c) => match syn_comp(p.entry, c) {
            Err(e) => Err(e),
            Ok(t) => if entry_kind(t) == Some(EntryKind::Os) {
                Ok(())
            } else {
                Err(at(p.entry.info, ErrorM::WrongMain { found: t }))
            },
        },
    }
}

/// The check of a computation that is to be run on its own: it must have
/// the type `OS` or a type `Ret a`.
pub open spec fn entry_check(c: Span<TermComputation>, ctx: CtxM) -> Result<
    (TypeM, EntryKind),
    TyckErrorM,
> {
    match syn_comp(c, ctx) {
        Err(e) => Err(e),
        Ok(t) => match entry_kind(t) {
            Some(k) => Ok((t, k)),
            None => Err(at(c.info, ErrorM::WrongMain { found: t })),
        },
    }
}

/// The entry of a program must have the type `OS`. Where the module of a
/// program checks and its entry has a type, the program is accepted if
/// and only if the head of that type, once head-reduced, is `OS`; any other
/// type is reported as the wrong type for a program, at the place of the
/// entry.
pub proof fn lemma_wrong_main(p: Program, ctx: CtxM)
    requires
        module_check(p.module.inner, ctx) is Ok,
        syn_comp(p.entry, module_check(p.module.inner, ctx)->Ok_0) is Ok,
    ensures
        program_check(p, ctx) is Ok <==> syn_comp(
            p.entry,
            module_check(p.module.inner, ctx)->Ok_0,
        )->Ok_0.head_reduce().synty.is_named("OS"@),
        program_check(p, ctx) is Err ==> program_check(p, ctx) == Err::<(), TyckErrorM>(
            at(
                p.entry.info,
                ErrorM::WrongMain {
                    found: syn_comp(p.entry, module_check(p.module.inner, ctx)->Ok_0)->Ok_0,
                },
            ),
        ),
{
}

/// A computation that returns a value is no program: an entry of a type
/// `Ret a` is reported as the wrong type for a program.
pub proof fn lemma_ret_is_wrong_main(p: Program, ctx: CtxM, a: TypeM)
    requires
        module_check(p.module.inner, ctx) is Ok,
        syn_comp(p.entry, module_check(p.module.inner, ctx)->Ok_0) == Ok::<TypeM, TyckErrorM>(
            TypeM::ret(a),
        ),
    ensures
        program_check(p, ctx) == Err::<(), TyckErrorM>(
            at(p.entry.info, ErrorM::WrongMain { found: TypeM::ret(a) }),
        ),
{
    reveal_strlit("Ret");
    reveal_strlit("OS");
    assert("Ret"@.len() != "OS"@.len());
    lemma_wrong_main(p, ctx);
}

/// The mathematical value of the outcome of a check that gives a context.
pub open spec fn ctx_result_model(r: Result<Ctx, TyckError>) -> Result<CtxM, TyckErrorM> {
    match r {
        Ok(c) => Ok(c@),
        Err(e) => Err(error_model(e)),
    }
}

/// The mathematical value of the outcome of checking an entry.
pub open spec fn entry_result_model(r: Result<(Type, EntryKind), TyckError>) -> Result<
    (TypeM, EntryKind),
    TyckErrorM,
> {
    match r {
        Ok((t, k)) => Ok((t@, k)),
        Err(e) => Err(error_model(e)),
    }
}

/// The kinds of a list of type parameters.
fn param_kinds(params: &Vec<(TypeV, Kind)>) -> (r: Vec<Kind>)
    ensures
        crate::kind::kinds_model(r@) == Seq::new(
            params@.len(),
            |i: int| params_model(params@)[i].1,
        ),
{
    let mut out: Vec<Kind> = Vec::new();
    let mut i: usize = 0;
    while i < params.len()
        invariant
            i <= params.len(),
            out.len() == i,
            forall|j: int| 0 <= j < i ==> (#[trigger] out@[j])@ == params@[j].1@,
        decreases params.len() - i,
    {
        out.push(params[i].1.clone());
        i += 1;
    }
    assert(crate::kind::kinds_model(out@) =~= Seq::new(
        params@.len(),
        |i: int| params_model(params@)[i].1,
    ));
    out
}

/// The context with the type parameters in scope.
fn with_params(ctx: &Ctx, params: &Vec<(TypeV, Kind)>) -> (r: Ctx)
    ensures
        r@ == bind_params(ctx@, params_model(params@), params@.len()),
{
    let mut out = ctx.clone();
    let mut i: usize = 0;
    while i < params.len()
        invariant
            i <= params.len(),
            out@ == bind_params(ctx@, params_model(params@), i as nat),
        decreases params.len() - i,
    {
        out = out.bind_type(&params[i].0, params[i].1.clone());
        i += 1;
    }
    out
}

/// Checks each of `tys` against the kind of value types.
fn value_kinds(tys: &Vec<RcType>, ctx: &Ctx, context: &str) -> (r: Result<
    (),
    TyckError,
>)
    ensures
        unit_result_model(r) == (match first_err(
            value_kind_checks(tys@, ctx@, context@),
        ) {
            Some(e) => Err(e),
            None => Ok(()),
        }),
{
    let ghost checks = value_kind_checks(tys@, ctx@, context@);
    let mut i: usize = 0;
    while i < tys.len()
        invariant
            i <= tys.len(),
            checks == value_kind_checks(tys@, ctx@, context@),
            forall|k: int| 0 <= k < i ==> (#[trigger] checks[k]) is Ok,
        decreases tys.len() - i,
    {
        match (*tys[i]).inner.ana_kind(&Kind::VType, ctx, tys[i].info, context) {
            Ok(_) => {},
            Err(e) => {
                proof {
                    lemma_first_err_at(checks, i as int);
                }
                return Err(e);
            },
        }
        i += 1;
    }
    proof {
        lemma_first_err_none(checks);
    }
    Ok(())
}

impl Data {
    /// The kind of the declared type constructor.
    pub fn type_arity(&self) -> (r: Kind)
        ensures
            r@ == self@.kind(),
    {
        let params = param_kinds(&self.params);
        let r = Kind::TypeArity(TypeArity { params, kd: Box::new(Kind::VType) });
        assert(Kind::VType@ == KindM::VType);
        assert(r@ == KindM::Arity(r@->Arity_0, Box::new(KindM::VType)));
        assert(r@->Arity_0 =~= crate::kind::kinds_model(params@));
        assert(r@->Arity_0 =~= self@.kind()->Arity_0);
        r
    }

    /// The check of the declaration in the context `ctx`.
    #[verifier::loop_isolation(false)]
    pub fn check(&self, ctx: &Ctx) -> (r: Result<(), TyckError>)
        ensures
            unit_result_model(r) == data_check(*self, ctx@),
    {
        let inner = with_params(ctx, &self.params);
        let ghost checks = ctor_checks(self.ctors@, inner@);
        let mut i: usize = 0;
        while i < self.ctors.len()
            invariant
                i <= self.ctors.len(),
                checks == ctor_checks(self.ctors@, inner@),
                forall|k: int| 0 <= k < i ==> (#[trigger] checks[k]) is Ok,
            decreases self.ctors.len() - i,
        {
            let br = &self.ctors[i];
            let mut j: usize = 0;
            while j < i
                invariant
                    j <= i,
                    i < self.ctors.len(),
                    *br == self.ctors@[i as int],
                    forall|k: int| 0 <= k < j ==> self.ctors@[k].ctor@ != br.ctor@,
                decreases i - j,
            {
                if self.ctors[j].ctor.same(&br.ctor) {
                    proof {
                        lemma_first_err_at(checks, i as int);
                    }
                    return fail(
                        br.ctor.info,
                        TypeCheckError::DuplicateCtorDeclaration { name: br.ctor.clone() },
                    );
                }
                j += 1;
            }
            match value_kinds(&br.tys, &inner, "data constructor") {
                Ok(_) => {},
                Err(e) => {
                    proof {
                        lemma_first_err_at(checks, i as int);
                    }
                    return Err(e);
                },
            }
            i += 1;
        }
        proof {
            lemma_first_err_none(checks);
        }
        Ok(())
    }
}

impl Codata {
    /// The kind of the declared type constructor.
    pub fn type_arity(&self) -> (r: Kind)
        ensures
            r@ == self@.kind(),
    {
        let params = param_kinds(&self.params);
        let r = Kind::TypeArity(TypeArity { params, kd: Box::new(Kind::CType) });
        assert(Kind::CType@ == KindM::CType);
        assert(r@ == KindM::Arity(r@->Arity_0, Box::new(KindM::CType)));
        assert(r@->Arity_0 =~= crate::kind::kinds_model(params@));
        assert(r@->Arity_0 =~= self@.kind()->Arity_0);
        r
    }

    /// The check of the declaration in the context `ctx`.
    #[verifier::loop_isolation(false)]
    pub fn check(&self, ctx: &Ctx) -> (r: Result<(), TyckError>)
        ensures
            unit_result_model(r) == codata_check(*self, ctx@),
    {
        let inner = with_params(ctx, &self.params);
        let ghost checks = dtor_checks(self.dtors@, inner@);
        let mut i: usize = 0;
        while i < self.dtors.len()
            invariant
                i <= self.dtors.len(),
                checks == dtor_checks(self.dtors@, inner@),
                forall|k: int| 0 <= k < i ==> (#[trigger] checks[k]) is Ok,
            decreases self.dtors.len() - i,
        {
            let br = &self.dtors[i];
            let mut j: usize = 0;
            while j < i
                invariant
                    j <= i,
                    i < self.dtors.len(),
                    *br == self.dtors@[i as int],
                    forall|k: int| 0 <= k < j ==> self.dtors@[k].dtor@ != br.dtor@,
                decreases i - j,
            {
                if self.dtors[j].dtor.same(&br.dtor) {
                    proof {
                        lemma_first_err_at(checks, i as int);
                    }
                    return fail(
                        br.dtor.info,
                        TypeCheckError::DuplicateDtorDeclaration { name: br.dtor.clone() },
                    );
                }
                j += 1;
            }
            match value_kinds(&br.tys, &inner, "codata destructor") {
                Ok(_) => {},
                Err(e) => {
                    proof {
                        lemma_first_err_at(checks, i as int);
                    }
                    return Err(e);
                },
            }
            match (*br.ty).inner.ana_kind(&Kind::CType, &inner, br.ty.info, "codata destructor") {
                Ok(_) => {},
                Err(e) => {
                    proof {
                        lemma_first_err_at(checks, i as int);
                    }
                    return Err(e);
                },
            }
            i += 1;
        }
        proof {
            lemma_first_err_none(checks);
        }
        Ok(())
    }
}

/// Registers the type name `name` at `kind`.
fn register_name(ctx: &Ctx, name: &TypeV, kind: Kind) -> (r: Result<Ctx, TyckError>)
    ensures
        ctx_result_model(r) == register(ctx@, *name, kind@),
{
    if ctx.kind_of(name).is_some() {
        return fail(name.info, TypeCheckError::DuplicateTypeDeclaration { name: name.clone() });
    }
    Ok(ctx.bind_type(name, kind))
}

/// Registers the names of the data types.
#[verifier::loop_isolation(false)]
fn register_all_data(ctx: Ctx, ds: &Vec<DeclSymbol<Data>>) -> (r: Result<Ctx, TyckError>)
    ensures
        ctx_result_model(r) == register_data(ctx@, ds@, ds@.len()),
{
    let ghost start = ctx@;
    let mut ctx = ctx;
    let mut i: usize = 0;
    while i < ds.len()
        invariant
            i <= ds.len(),
            register_data(start, ds@, i as nat) == Ok::<CtxM, TyckErrorM>(ctx@),
        decreases ds.len() - i,
    {
        let d = &ds[i].inner;
        ctx = match register_name(&ctx, &d.name, d.type_arity()) {
            Ok(c) => c,
            Err(e) => {
                proof {
                    lemma_register_data_fails(start, ds@, (i + 1) as nat, ds@.len());
                }
                return Err(e);
            },
        };
        i += 1;
    }
    Ok(ctx)
}

/// Registers the names of the codata types.
#[verifier::loop_isolation(false)]
fn register_all_codata(ctx: Ctx, ds: &Vec<DeclSymbol<Codata>>) -> (r: Result<Ctx, TyckError>)
    ensures
        ctx_result_model(r) == register_codata(ctx@, ds@, ds@.len()),
{
    let ghost start = ctx@;
    let mut ctx = ctx;
    let mut i: usize = 0;
    while i < ds.len()
        invariant
            i <= ds.len(),
            register_codata(start, ds@, i as nat) == Ok::<CtxM, TyckErrorM>(ctx@),
        decreases ds.len() - i,
    {
        let d = &ds[i].inner;
        ctx = match register_name(&ctx, &d.name, d.type_arity()) {
            Ok(c) => c,
            Err(e) => {
                proof {
                    lemma_register_codata_fails(start, ds@, (i + 1) as nat, ds@.len());
                }
                return Err(e);
            },
        };
        i += 1;
    }
    Ok(ctx)
}

/// Checks and enters the data type declarations.
#[verifier::loop_isolation(false)]
fn enter_all_data(ctx: Ctx, ds: &Vec<DeclSymbol<Data>>) -> (r: Result<Ctx, TyckError>)
    ensures
        ctx_result_model(r) == enter_data(ctx@, ds@, ds@.len()),
{
    let ghost start = ctx@;
    let mut ctx = ctx;
    let mut i: usize = 0;
    while i < ds.len()
        invariant
            i <= ds.len(),
            enter_data(start, ds@, i as nat) == Ok::<CtxM, TyckErrorM>(ctx@),
        decreases ds.len() - i,
    {
        let d = &ds[i].inner;
        match d.check(&ctx) {
            Ok(_) => {},
            Err(e) => {
                proof {
                    lemma_enter_data_fails(start, ds@, (i + 1) as nat, ds@.len());
                }
                return Err(e);
            },
        }
        ctx = ctx.bind_data(&d.name, d.clone());
        i += 1;
    }
    Ok(ctx)
}

/// Checks and enters the codata type declarations.
#[verifier::loop_isolation(false)]
fn enter_all_codata(ctx: Ctx, ds: &Vec<DeclSymbol<Codata>>) -> (r: Result<Ctx, TyckError>)
    ensures
        ctx_result_model(r) == enter_codata(ctx@, ds@, ds@.len()),
{
    let ghost start = ctx@;
    let mut ctx = ctx;
    let mut i: usize = 0;
    while i < ds.len()
        invariant
            i <= ds.len(),
            enter_codata(start, ds@, i as nat) == Ok::<CtxM, TyckErrorM>(ctx@),
        decreases ds.len() - i,
    {
        let d = &ds[i].inner;
        match d.check(&ctx) {
            Ok(_) => {},
            Err(e) => {
                proof {
                    lemma_enter_codata_fails(start, ds@, (i + 1) as nat, ds@.len());
                }
                return Err(e);
            },
        }
        ctx = ctx.bind_codata(&d.name, d.clone());
        i += 1;
    }
    Ok(ctx)
}

/// Enters the signatures of the primitives.
#[verifier::loop_isolation(false)]
fn enter_all_externs(ctx: Ctx, ds: &Vec<DeclSymbol<DefineExt>>) -> (r: Result<Ctx, TyckError>)
    ensures
        ctx_result_model(r) == enter_externs(ctx@, ds@, ds@.len()),
{
    let ghost start = ctx@;
    let mut ctx = ctx;
    let mut i: usize = 0;
    while i < ds.len()
        invariant
            i <= ds.len(),
            enter_externs(start, ds@, i as nat) == Ok::<CtxM, TyckErrorM>(ctx@),
        decreases ds.len() - i,
    {
        let d = &ds[i].inner;
        match (*d.ty).inner.ana_kind(&Kind::VType, &ctx, d.ty.info, "extern") {
            Ok(_) => {},
            Err(e) => {
                proof {
                    lemma_enter_externs_fails(start, ds@, (i + 1) as nat, ds@.len());
                }
                return Err(e);
            },
        }
        ctx = ctx.bind_term(&d.name, (*d.ty).inner.clone());
        i += 1;
    }
    Ok(ctx)
}

/// Checks and enters one definition.
fn enter_define(ctx: &Ctx, decl: &DeclSymbol<Define>) -> (r: Result<Ctx, TyckError>)
    ensures
        ctx_result_model(r) == define_check(*decl, ctx@),
{
    let d = &decl.inner;
    if decl.external {
        return fail(d.name.info, TypeCheckError::ExternalDeclaration { name: d.name.name.clone() });
    }
    let t = match (*d.def).syn(ctx) {
        Ok(t) => t,
        Err(e) => {
            return Err(e);
        },
    };
    match t.ana_kind(&Kind::VType, ctx, d.name.info, "define") {
        Ok(_) => {},
        Err(e) => {
            return Err(e);
        },
    }
    Ok(ctx.bind_term(&d.name, t))
}

/// Checks and enters the definitions.
#[verifier::loop_isolation(false)]
fn enter_all_defines(ctx: Ctx, ds: &Vec<DeclSymbol<Define>>) -> (r: Result<Ctx, TyckError>)
    ensures
        ctx_result_model(r) == enter_defines(ctx@, ds@, ds@.len()),
{
    let ghost start = ctx@;
    let mut ctx = ctx;
    let mut i: usize = 0;
    while i < ds.len()
        invariant
            i <= ds.len(),
            enter_defines(start, ds@, i as nat) == Ok::<CtxM, TyckErrorM>(ctx@),
        decreases ds.len() - i,
    {
        let d = &ds[i].inner;
        let ghost before = ctx@;
        let step = enter_define(&ctx, &ds[i]);
        assert(enter_defines(start, ds@, (i + 1) as nat) == define_check(ds@[i as int], before));
        ctx = match step {
            Ok(c) => c,
            Err(e) => {
                proof {
                    lemma_enter_defines_fails(start, ds@, (i + 1) as nat, ds@.len());
                }
                return Err(e);
            },
        };
        i += 1;
    }
    Ok(ctx)
}

impl Span<Module> {
    /// The check of the module in the context `ctx`: the context that the
    /// module's declarations leave.
    pub fn syn(&self, ctx: Ctx) -> (r: Result<Ctx, TyckError>)
        ensures
            ctx_result_model(r) == module_check(self.inner, ctx@),
    {
        let m = &self.inner;
        let c1 = match register_all_data(ctx, &m.data) {
            Ok(c) => c,
            Err(e) => {
                return Err(e);
            },
        };
        let c2 = match register_all_codata(c1, &m.codata) {
            Ok(c) => c,
            Err(e) => {
                return Err(e);
            },
        };
        let c3 = match enter_all_data(c2, &m.data) {
            Ok(c) => c,
            Err(e) => {
                return Err(e);
            },
        };
        let c4 = match enter_all_codata(c3, &m.codata) {
            Ok(c) => c,
            Err(e) => {
                return Err(e);
            },
        };
        let c5 = match enter_all_externs(c4, &m.define_ext) {
            Ok(c) => c,
            Err(e) => {
                return Err(e);
            },
        };
        enter_all_defines(c5, &m.define)
    }
}

/// Once a name fails to register, registering more names fails the same.
pub proof fn lemma_register_data_fails(ctx: CtxM, ds: Seq<DeclSymbol<Data>>, n: nat, m: nat)
    requires
        n <= m,
        register_data(ctx, ds, n) is Err,
    ensures
        register_data(ctx, ds, m) == register_data(ctx, ds, n),
    decreases m,
{
    if n < m {
        lemma_register_data_fails(ctx, ds, n, (m - 1) as nat);
    }
}

/// Once a name fails to register, registering more names fails the same.
pub proof fn lemma_register_codata_fails(ctx: CtxM, ds: Seq<DeclSymbol<Codata>>, n: nat, m: nat)
    requires
        n <= m,
        register_codata(ctx, ds, n) is Err,
    ensures
        register_codata(ctx, ds, m) == register_codata(ctx, ds, n),
    decreases m,
{
    if n < m {
        lemma_register_codata_fails(ctx, ds, n, (m - 1) as nat);
    }
}

/// Once a declaration fails, entering more declarations fails the same.
pub proof fn lemma_enter_data_fails(ctx: CtxM, ds: Seq<DeclSymbol<Data>>, n: nat, m: nat)
    requires
        n <= m,
        enter_data(ctx, ds, n) is Err,
    ensures
        enter_data(ctx, ds, m) == enter_data(ctx, ds, n),
    decreases m,
{
    if n < m {
        lemma_enter_data_fails(ctx, ds, n, (m - 1) as nat);
    }
}

/// Once a declaration fails, entering more declarations fails the same.
pub proof fn lemma_enter_codata_fails(ctx: CtxM, ds: Seq<DeclSymbol<Codata>>, n: nat, m: nat)
    requires
        n <= m,
        enter_codata(ctx, ds, n) is Err,
    ensures
        enter_codata(ctx, ds, m) == enter_codata(ctx, ds, n),
    decreases m,
{
    if n < m {
        lemma_enter_codata_fails(ctx, ds, n, (m - 1) as nat);
    }
}

/// Once a signature fails, entering more signatures fails the same.
pub proof fn lemma_enter_externs_fails(ctx: CtxM, ds: Seq<DeclSymbol<DefineExt>>, n: nat, m: nat)
    requires
        n <= m,
        enter_externs(ctx, ds, n) is Err,
    ensures
        enter_externs(ctx, ds, m) == enter_externs(ctx, ds, n),
    decreases m,
{
    if n < m {
        lemma_enter_externs_fails(ctx, ds, n, (m - 1) as nat);
    }
}

/// Once a definition fails, entering more definitions fails the same.
pub proof fn lemma_enter_defines_fails(ctx: CtxM, ds: Seq<DeclSymbol<Define>>, n: nat, m: nat)
    requires
        n <= m,
    ensures
        enter_defines(ctx, ds, n) is Err ==> enter_defines(ctx, ds, m) == enter_defines(ctx, ds, n),
    decreases m,
{
    if n < m {
        lemma_enter_defines_fails(ctx, ds, n, (m - 1) as nat);
    }
}

impl Type {
    /// What a computation of this type can be run as, if it can be run.
    pub fn entry_kind(&self) -> (r: Option<EntryKind>)
        ensures
            r == entry_kind(self@),
    {
        let reduced = self.head_reduction();
        proof {
            lemma_type_model(reduced);
        }
        match &reduced.synty {
            SynType::TypeApp(app) => {
                if app.elim_os().is_some() {
                    Some(EntryKind::Os)
                } else if app.elim_ret().is_some() {
                    Some(EntryKind::Ret)
                } else {
                    None
                }
            },
            _ => None,
        }
    }
}

impl Span<TermComputation> {
    /// The check of a computation that is to be run on its own: its type
    /// and what it can be run as.
    pub fn tyck_entry(&self, ctx: &Ctx) -> (r: Result<(Type, EntryKind), TyckError>)
        ensures
            entry_result_model(r) == entry_check(*self, ctx@),
    {
        let t = match self.syn(ctx) {
            Ok(t) => t,
            Err(e) => {
                return Err(e);
            },
        };
        match t.entry_kind() {
            Some(k) => Ok((t, k)),
            None => fail(self.info, TypeCheckError::WrongMain { found: t }),
        }
    }
}

impl Program {
    /// The check of a program that is to run against the operating system.
    pub fn tyck(&self, ctx: Ctx) -> (r: Result<(), TyckError>)
        ensures
            unit_result_model(r) == program_check(*self, ctx@),
    {
        let inner = match self.module.syn(ctx) {
            Ok(c) => c,
            Err(e) => {
                return Err(e);
            },
        };
        let t = match self.entry.syn(&inner) {
            Ok(t) => t,
            Err(e) => {
                return Err(e);
            },
        };
        match t.entry_kind() {
            Some(EntryKind::Os) => Ok(()),
            _ => fail(self.entry.info, TypeCheckError::WrongMain { found: t }),
        }
    }
}

} // verus!
