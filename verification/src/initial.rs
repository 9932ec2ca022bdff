//! What is in scope before any declaration: the built-in type
//! constructors, and the type of functions as a codata type.

use vstd::prelude::*;
use std::rc::Rc;
use crate::ctx::{Ctx, CtxM};
use crate::kind::{Kind, KindM, TypeArity};
use crate::span::Name;
use crate::term::{Codata, CodataBr, CodataM};
use crate::tyck::rules::type_var;
use crate::types::{types_model, RcType, Type};

verus! {

/// The kind of a type constructor that takes one parameter.
pub open spec fn unary(param: KindM, result: KindM) -> KindM {
    KindM::Arity(seq![param], Box::new(result))
}

/// The type of functions, as a codata type: `Fn (A : VType) (B : CType)`
/// has the one destructor `arg`, which takes an `A` and gives a `B`.
pub open spec fn fn_codata() -> CodataM {
    CodataM {
        name: "Fn"@,
        params: seq![("A"@, KindM::VType), ("B"@, KindM::CType)],
        dtors: seq![("arg"@, (seq![type_var("A"@)], type_var("B"@)))],
    }
}

impl CtxM {
    /// The context of the built-in types: `Thunk` takes a computation type
    /// to a value type, `Ret` a value type to a computation type, `Fn` a
    /// value type and a computation type to a computation type; `OS` is a
    /// computation type; `Int`, `String` and `Char` are value types.
    pub open spec fn builtin() -> CtxM {
        CtxM::empty().bind_type("Thunk"@, unary(KindM::CType, KindM::VType)).bind_type(
            "Ret"@,
            unary(KindM::VType, KindM::CType),
        ).bind_type("OS"@, KindM::CType).bind_type("Int"@, KindM::VType).bind_type(
            "String"@,
            KindM::VType,
        ).bind_type("Char"@, KindM::VType).bind_type("Fn"@, fn_codata().kind()).bind_codata(
            "Fn"@,
            fn_codata(),
        )
    }
}

/// The kind of a type constructor that takes one parameter.
fn unary_kind(param: Kind, result: Kind) -> (r: Kind)
    ensures
        r@ == unary(param@, result@),
{
    let mut params: Vec<Kind> = Vec::new();
    params.push(param);
    let r = Kind::TypeArity(TypeArity { params, kd: Box::new(result) });
    assert(r@->Arity_0 =~= seq![param@]);
    r
}

/// The declaration of the type of functions.
fn fn_decl() -> (r: Codata)
    ensures
        r@ == fn_codata(),
{
    let mut params: Vec<(Name, Kind)> = Vec::new();
    params.push((Name::internal("A"), Kind::VType));
    params.push((Name::internal("B"), Kind::CType));
    let a = Type::var(Name::internal("A"));
    let b = Type::var(Name::internal("B"));
    let mut tys: Vec<RcType> = Vec::new();
    tys.push(Rc::new(crate::span::span(0, 0).make(a)));
    assert(types_model(tys@) =~= seq![type_var("A"@)]);
    let mut dtors: Vec<CodataBr> = Vec::new();
    dtors.push(CodataBr { dtor: Name::internal("arg"), tys, ty: Rc::new(crate::span::span(0, 0).make(b)) });
    let r = Codata { name: Name::internal("Fn"), params, dtors };
    assert(r@.params =~= fn_codata().params);
    assert(r@.dtors =~= fn_codata().dtors);
    r
}

impl Ctx {
    /// The context of the built-in types.
    pub fn builtin() -> (r: Ctx)
        ensures
            r@ == CtxM::builtin(),
    {
        let fun = fn_decl();
        let ctx = Ctx::new();
        let ctx = ctx.bind_type(&Name::internal("Thunk"), unary_kind(Kind::CType, Kind::VType));
        let ctx = ctx.bind_type(&Name::internal("Ret"), unary_kind(Kind::VType, Kind::CType));
        let ctx = ctx.bind_type(&Name::internal("OS"), Kind::CType);
        let ctx = ctx.bind_type(&Name::internal("Int"), Kind::VType);
        let ctx = ctx.bind_type(&Name::internal("String"), Kind::VType);
        let ctx = ctx.bind_type(&Name::internal("Char"), Kind::VType);
        let ctx = ctx.bind_type(&Name::internal("Fn"), fun.type_arity());
        ctx.bind_codata(&Name::internal("Fn"), fun)
    }
}

} // verus!
