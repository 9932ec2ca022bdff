//! The kind checker: every type that is accepted has a kind, and type
//! constructors are applied at their declared arity to arguments of the
//! declared kinds.

use vstd::prelude::*;
use crate::ctx::{Ctx, CtxM};
use crate::err::{
    at, kind_result_model, unit_result_model, ErrorM, TyckError, TyckErrorM, TypeCheckError,
};
use crate::fmt::{abst_var_text, Args};
use crate::kind::{Kind, KindM};
use crate::reduce::{closed_all, lemma_head_reduce_tree};
use crate::span::{Name, Span, SpanInfo};
use crate::tree::lemma_arg_size;
use crate::tyck::outcome::{first_err, lemma_first_err_at, lemma_first_err_none};
use crate::types::{lemma_type_model, types_model, SynType, SynTypeM, Type, TypeM};

verus! {

/// The outcome of holding a synthesised kind against the expected one: the
/// failure of the synthesis if it failed, a kind mismatch if the two kinds
/// are not equivalent.
pub open spec fn ensure_kind(
    found: Result<KindM, TyckErrorM>,
    expected: KindM,
    info: SpanInfo,
    context: Seq<char>,
) -> Result<(), TyckErrorM> {
    match found {
        Err(e) => Err(e),
        Ok(k) => if k.eqv(expected) {
            Ok(())
        } else {
            Err(at(info, ErrorM::KindMismatch { context, expected, found: k }))
        },
    }
}

/// The outcome of checking each argument of a type application against the
/// kind of the parameter at its place. `bound` is the size of the tree of
/// the application, which is more than the size of the tree of any of its
/// arguments.
pub open spec fn arg_checks(
    args: Seq<TypeM>,
    params: Seq<KindM>,
    ctx: CtxM,
    info: SpanInfo,
    bound: nat,
) -> Seq<Result<(), TyckErrorM>>
    decreases bound, 0nat,
{
    Seq::new(
        args.len(),
        |i: int|
            if 0 <= i < args.len() && args[i].closed().size() < bound {
                ensure_kind(args[i].syn_kind(ctx, info), params[i], info, "type argument"@)
            } else {
                Ok(())
            },
    )
}

impl TypeM {
    /// Kind synthesis in the context `ctx`; errors are reported at `info`.
    ///
    /// The type is head-reduced first. A name applied to arguments must be
    /// in scope, and applied to as many arguments as its kind has
    /// parameters (an arity mismatch names the type as it is written out), each of a kind equivalent to the parameter's; its kind
    /// is then the result of the name's kind. A universal type has the kind
    /// of computation types and an existential type that of value types,
    /// if the body has a kind with the bound variable in scope. An abstract
    /// variable has the kind recorded for it. A hole has no kind to
    /// synthesise. A kind annotation on the type must be equivalent to the
    /// kind found.
    pub open spec fn syn_kind(self, ctx: CtxM, info: SpanInfo) -> Result<KindM, TyckErrorM>
        decreases self.closed().size(), 1nat,
    {
        let r = self.head_reduce();
        let found = match r.synty {
            SynTypeM::App(x, args) => {
                if !ctx.type_ctx.contains_key(x) {
                    Err(at(info, ErrorM::UnboundTypeVariable { tvar: x }))
                } else {
                    let k = ctx.type_ctx[x];
                    if args.len() != k.params().len() {
                        Err(
                            at(
                                info,
                                ErrorM::ArityMismatch {
                                    context: crate::fmt::tree_text(self.closed()),
                                    expected: k.params().len(),
                                    found: args.len(),
                                },
                            ),
                        )
                    } else {
                        let checks = arg_checks(
                            args,
                            k.params(),
                            ctx,
                            info,
                            self.closed().size(),
                        );
                        match first_err(checks) {
                            Some(e) => Err(e),
                            None => Ok(k.result()),
                        }
                    }
                }
            },
            SynTypeM::Forall(a, k, b) => {
                proof {
                    lemma_head_reduce_tree(self);
                }
                match b.syn_kind(ctx.bind_type(a, k), info) {
                    Err(e) => Err(e),
                    Ok(_) => Ok(KindM::CType),
                }
            },
            SynTypeM::Exists(a, k, b) => {
                proof {
                    lemma_head_reduce_tree(self);
                }
                match b.syn_kind(ctx.bind_type(a, k), info) {
                    Err(e) => Err(e),
                    Ok(_) => Ok(KindM::VType),
                }
            },
            SynTypeM::AbstVar(n) => if n < ctx.abst_ctx.len() {
                Ok(ctx.abst_ctx[n as int])
            } else {
                Err(at(info, ErrorM::UnboundTypeVariable { tvar: abst_var_text(n) }))
            },
            SynTypeM::Hole => Err(at(info, ErrorM::NeedAnnotation { content: "hole"@ })),
        };
        match found {
            Err(e) => Err(e),
            Ok(k) => match self.kd {
                None => Ok(k),
                Some(ann) => if ann.eqv(k) {
                    Ok(k)
                } else {
                    Err(
                        at(
                            info,
                            ErrorM::KindMismatch {
                                context: "kind subsumption"@,
                                expected: k,
                                found: ann,
                            },
                        ),
                    )
                },
            },
        }
    }

    /// Kind analysis against `kind`: a hole is accepted at any kind; any
    /// other type must synthesise a kind equivalent to `kind`.
    pub open spec fn ana_kind(
        self,
        kind: KindM,
        ctx: CtxM,
        info: SpanInfo,
        context: Seq<char>,
    ) -> Result<(), TyckErrorM> {
        if self.head_reduce().synty is Hole {
            Ok(())
        } else {
            ensure_kind(self.syn_kind(ctx, info), kind, info, context)
        }
    }
}

/// Every kind that kind synthesis gives is one of the three forms of kind.
pub proof fn lemma_kind_soundness(t: TypeM, ctx: CtxM, info: SpanInfo)
    ensures
        t.syn_kind(ctx, info) matches Ok(k) ==> k is VType || k is CType || k is Arity,
{
}

/// The located error `e`.
pub fn fail<T>(info: SpanInfo, e: TypeCheckError) -> (r: Result<T, TyckError>)
    ensures
        r == Err::<T, TyckError>(Span { info, inner: e }),
{
    Err(Span { info, inner: e })
}

impl Kind {
    /// How many parameters a type constructor of this kind takes.
    pub fn arity(&self) -> (r: usize)
        ensures
            r == self@.params().len(),
    {
        match self {
            Kind::TypeArity(a) => a.params.len(),
            _ => 0,
        }
    }

    /// The kind of the parameter at place `i`.
    pub fn param(&self, i: usize) -> (r: &Kind)
        requires
            i < self@.params().len(),
        ensures
            r@ == self@.params()[i as int],
    {
        match self {
            Kind::TypeArity(a) => &a.params[i],
            _ => self,
        }
    }

    /// The kind of a full application of a type constructor of this kind.
    pub fn result(&self) -> (r: &Kind)
        ensures
            r@ == self@.result(),
    {
        match self {
            Kind::TypeArity(a) => &*a.kd,
            _ => self,
        }
    }

    /// Holds this kind, which was found, against the expected one.
    pub fn ensure(&self, expected: &Kind, info: SpanInfo, context: &str) -> (r: Result<
        (),
        TyckError,
    >)
        ensures
            unit_result_model(r) == ensure_kind(Ok(self@), expected@, info, context@),
    {
        if self.eqv(expected) {
            Ok(())
        } else {
            fail(
                info,
                TypeCheckError::KindMismatch {
                    context: context.to_owned(),
                    expected: expected.clone(),
                    found: self.clone(),
                },
            )
        }
    }
}

impl Type {
    /// Kind synthesis in the context `ctx`; errors are reported at `info`.
    #[verifier::loop_isolation(false)]
    pub fn syn_kind(&self, ctx: &Ctx, info: SpanInfo) -> (r: Result<Kind, TyckError>)
        ensures
            kind_result_model(r) == self@.syn_kind(ctx@, info),
        decreases self@.closed().size(),
    {
        let reduced = self.head_reduction();
        proof {
            lemma_head_reduce_tree(self@);
            lemma_type_model(reduced);
            lemma_type_model(*self);
        }
        let found: Kind = match &reduced.synty {
            SynType::TypeApp(app) => {
                let k = match ctx.kind_of(&app.tvar) {
                    Some(k) => k,
                    None => {
                        return fail(
                            info,
                            TypeCheckError::UnboundTypeVariable { tvar: app.tvar.clone() },
                        );
                    },
                };
                if app.args.len() != k.arity() {
                    return fail(
                        info,
                        TypeCheckError::ArityMismatch {
                            context: self.fmt_args(Args { indent: 0 }),
                            expected: k.arity(),
                            found: app.args.len(),
                        },
                    );
                }
                let ghost args = types_model(app.args@);
                let ghost checks = arg_checks(
                    args,
                    k@.params(),
                    ctx@,
                    info,
                    self@.closed().size(),
                );
                let mut i: usize = 0;
                while i < app.args.len()
                    invariant
                        i <= app.args.len(),
                        forall|j: int| 0 <= j < i ==> (#[trigger] checks[j]) is Ok,
                    decreases app.args.len() - i,
                {
                    proof {
                        lemma_arg_size(self@.closed(), i as int);
                        assert(closed_all(args)[i as int] == args[i as int].closed());
                    }
                    let found = match (*app.args[i]).inner.syn_kind(ctx, info) {
                        Ok(found) => found,
                        Err(e) => {
                            proof {
                                lemma_first_err_at(checks, i as int);
                            }
                            return Err(e);
                        },
                    };
                    match found.ensure(k.param(i), info, "type argument") {
                        Ok(_) => {},
                        Err(e) => {
                            proof {
                                lemma_first_err_at(checks, i as int);
                            }
                            return Err(e);
                        },
                    }
                    i += 1;
                }
                proof {
                    lemma_first_err_none(checks);
                }
                k.result().clone()
            },
            SynType::Forall(q) => {
                let inner = ctx.bind_type(&q.param.0, q.param.1.clone());
                match (*q.ty).inner.syn_kind(&inner, info) {
                    Ok(_) => Kind::CType,
                    Err(e) => {
                        return Err(e);
                    },
                }
            },
            SynType::Exists(q) => {
                let inner = ctx.bind_type(&q.param.0, q.param.1.clone());
                match (*q.ty).inner.syn_kind(&inner, info) {
                    Ok(_) => Kind::VType,
                    Err(e) => {
                        return Err(e);
                    },
                }
            },
            SynType::AbstVar(a) => match ctx.abst_kind(a) {
                Some(k) => k.clone(),
                None => {
                    let tvar = Name { name: a.fmt_args(Args { indent: 0 }), info: info };
                    return fail(info, TypeCheckError::UnboundTypeVariable { tvar });
                },
            },
            SynType::Hole(_) => {
                return fail(info, TypeCheckError::NeedAnnotation { content: "hole".to_owned() });
            },
        };
        match &self.kd {
            None => Ok(found),
            Some(ann) => {
                if ann.eqv(&found) {
                    Ok(found)
                } else {
                    fail(
                        info,
                        TypeCheckError::KindMismatch {
                            context: "kind subsumption".to_owned(),
                            expected: found,
                            found: ann.clone(),
                        },
                    )
                }
            },
        }
    }

    /// Kind analysis against `kind`; errors are reported at `info`, and a
    /// mismatch names `context`.
    pub fn ana_kind(&self, kind: &Kind, ctx: &Ctx, info: SpanInfo, context: &str) -> (r: Result<
        (),
        TyckError,
    >)
        ensures
            unit_result_model(r) == self@.ana_kind(kind@, ctx@, info, context@),
    {
        let reduced = self.head_reduction();
        proof {
            lemma_type_model(reduced);
        }
        match &reduced.synty {
            SynType::Hole(_) => Ok(()),
            _ => {
                match self.syn_kind(ctx, info) {
                    Ok(found) => found.ensure(kind, info, context),
                    Err(e) => Err(e),
                }
            },
        }
    }
}

} // verus!
