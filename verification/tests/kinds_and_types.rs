use std::rc::Rc;
use zydeco_lang::ctx::Ctx;
use zydeco_lang::err::TypeCheckError;
use zydeco_lang::fmt::{fmt_u64, fmt_usize, Args};
use zydeco_lang::kind::{Kind, TypeArity};
use zydeco_lang::span::{span, Name, Span};
use zydeco_lang::types::{AbstVar, Env, Exists, Forall, Hole, RcType, SynType, Type, TypeApp};

fn n(s: &str) -> Name {
    Name::internal(s)
}

fn located(t: Type) -> RcType {
    Rc::new(Span { info: span(0, 0), inner: t })
}

fn ty(name: &str, args: Vec<RcType>) -> RcType {
    located(Type::internal(name, args))
}

fn tvar(name: &str) -> RcType {
    located(Type::var(n(name)))
}

fn arity(params: Vec<Kind>, kd: Kind) -> Kind {
    Kind::TypeArity(TypeArity { params, kd: Box::new(kd) })
}

fn all_of(a: &str, k: Kind, body: RcType) -> Type {
    Type::new(SynType::Forall(Forall { param: (n(a), k), ty: body }))
}

fn some_of(a: &str, k: Kind, body: RcType) -> Type {
    Type::new(SynType::Exists(Exists { param: (n(a), k), ty: body }))
}

fn app_of(t: &Type) -> &TypeApp {
    match &t.synty {
        SynType::TypeApp(app) => app,
        _ => panic!("not an application"),
    }
}

#[test]
fn make_os_is_os() {
    let t = Type::make_os();
    assert_eq!(app_of(&t).elim_os(), Some(()));
    assert!(app_of(&t).elim_thunk().is_none());
    assert!(app_of(&t).elim_ret().is_none());
}

#[test]
fn thunk_and_ret_are_eliminated_to_their_argument() {
    let t = Type::make_thunk(located(Type::make_os()));
    assert_eq!(app_of(&t).elim_thunk(), Some(Type::make_os()));
    assert!(app_of(&t).elim_ret().is_none());
    assert!(app_of(&t).elim_os().is_none());
    let r = Type::make_ret(ty("Int", vec![]));
    assert_eq!(app_of(&r).elim_ret(), Some(Type::internal("Int", vec![])));
    assert!(app_of(&r).elim_thunk().is_none());
}

#[test]
fn thunk_without_argument_is_not_eliminated() {
    let app = TypeApp::internal("Thunk", vec![]);
    assert!(app.elim_thunk().is_none());
    let app = TypeApp::internal("Ret", vec![]);
    assert!(app.elim_ret().is_none());
}

#[test]
fn internal_types_have_no_annotation_and_nothing_deferred() {
    let t = Type::internal("Pair", vec![ty("Int", vec![]), ty("Char", vec![])]);
    assert!(t.kd.is_none());
    assert!(t.env.entries.is_empty());
    let app = app_of(&t);
    assert_eq!(app.tvar.name, "Pair");
    assert_eq!(app.tvar.info, span(0, 0));
    assert_eq!(app.args.len(), 2);
}

#[test]
fn zero_parameter_arity_normalises_to_its_result() {
    assert_eq!(arity(vec![], Kind::CType).normalize(), Kind::CType);
    assert_eq!(arity(vec![], arity(vec![], Kind::VType)).normalize(), Kind::VType);
    // a kind with parameters is its own normal form, whatever is inside it
    let nested = arity(vec![arity(vec![], Kind::VType)], arity(vec![], Kind::CType));
    assert_eq!(
        nested.normalize(),
        arity(vec![arity(vec![], Kind::VType)], arity(vec![], Kind::CType))
    );
    let twice = arity(vec![], arity(vec![], Kind::VType)).normalize().normalize();
    assert_eq!(twice, Kind::VType);
    assert_eq!(Kind::VType.normalize(), Kind::VType);
}

#[test]
fn kind_equivalence_is_equality_of_normal_forms() {
    assert!(Kind::VType.eqv(&Kind::VType));
    assert!(!Kind::VType.eqv(&Kind::CType));
    assert!(arity(vec![], Kind::VType).eqv(&Kind::VType));
    assert!(arity(vec![], arity(vec![Kind::VType], Kind::CType))
        .eqv(&arity(vec![Kind::VType], Kind::CType)));
    assert!(!arity(vec![Kind::VType], Kind::CType).eqv(&arity(
        vec![arity(vec![], Kind::VType)],
        Kind::CType
    )));
    assert!(!arity(vec![Kind::VType], Kind::CType)
        .eqv(&arity(vec![Kind::VType], arity(vec![], Kind::CType))));
    assert!(!arity(vec![Kind::VType], Kind::CType).eqv(&arity(vec![Kind::CType], Kind::CType)));
    assert!(!arity(vec![Kind::VType], Kind::CType).eqv(&Kind::CType));
    assert!(Kind::VType.same(&Kind::VType));
    assert!(!arity(vec![], Kind::VType).same(&Kind::VType));
}

#[test]
fn lookup_takes_the_last_entry() {
    let env = Env {
        entries: vec![
            (n("a"), ty("Int", vec![])),
            (n("b"), ty("Char", vec![])),
            (n("a"), ty("String", vec![])),
        ],
    };
    assert_eq!(env.find(&n("a")), Some(2));
    assert_eq!(env.find(&n("b")), Some(1));
    assert_eq!(env.find(&n("c")), None);
    assert_eq!(env.lookup(&n("a")).unwrap().inner, Type::internal("String", vec![]));
    assert!(env.lookup(&n("c")).is_none());
}

#[test]
fn init_needs_as_many_arguments_as_parameters() {
    let params = vec![(n("A"), Kind::VType), (n("B"), Kind::CType)];
    assert!(Env::init(&params, &vec![ty("Int", vec![])]).is_none());
    let env = Env::init(&params, &vec![ty("Int", vec![]), ty("OS", vec![])]).unwrap();
    assert_eq!(env.entries.len(), 2);
    assert_eq!(env.entries[0].0.name, "A");
    assert_eq!(env.entries[1].1.inner, Type::make_os());
}

#[test]
fn head_reduction_follows_a_bound_variable() {
    let inner = Type::var(n("a")).subst(Env::singleton(n("a"), ty("Int", vec![])));
    let reduced = inner.head_reduction();
    assert_eq!(reduced, Type::internal("Int", vec![]));
    // a chain: a -> b, and b -> Char in the type that stands for a
    let b = located(Type::var(n("b")).subst(Env::singleton(n("b"), ty("Char", vec![]))));
    let t = Type::var(n("a")).subst(Env::singleton(n("a"), b));
    assert_eq!(t.head_reduction(), Type::internal("Char", vec![]));
}

#[test]
fn head_reduction_pushes_the_substitution_onto_the_arguments() {
    let t = Type::internal("Thunk", vec![tvar("a")]).subst(Env::singleton(n("a"), ty("OS", vec![])));
    let reduced = t.head_reduction();
    assert!(reduced.env.entries.is_empty());
    let app = app_of(&reduced);
    assert_eq!(app.tvar.name, "Thunk");
    assert_eq!(app.args[0].inner.env.entries.len(), 1);
    assert_eq!(app.args[0].inner.head_reduction(), Type::make_os());
    // a stuck variable stays
    let stuck = Type::var(n("z")).subst(Env::singleton(n("a"), ty("OS", vec![])));
    assert_eq!(stuck.head_reduction(), Type::var(n("z")));
}

#[test]
fn head_reduction_is_idempotent() {
    let samples = vec![
        Type::internal("Thunk", vec![tvar("a")]).subst(Env::singleton(n("a"), ty("OS", vec![]))),
        Type::var(n("a")).subst(Env::singleton(n("a"), ty("Int", vec![]))),
        all_of("a", Kind::VType, tvar("a")).subst(Env::singleton(n("b"), ty("Int", vec![]))),
        Type::new(SynType::Hole(Hole)),
        Type::new(SynType::AbstVar(AbstVar(3))),
    ];
    for t in samples {
        let once = t.head_reduction();
        let twice = once.head_reduction();
        assert_eq!(once, twice);
    }
}

#[test]
fn substitution_composes() {
    let d = Env {
        entries: vec![(n("a"), ty("List", vec![tvar("b")])), (n("c"), ty("Int", vec![]))],
    };
    let g = Env { entries: vec![(n("b"), ty("Char", vec![])), (n("a"), ty("OS", vec![]))] };
    let t = Type::internal("Pair", vec![tvar("a"), tvar("b"), tvar("c")])
        .subst(Env::singleton(n("c"), tvar("a")));
    let stepwise = t.clone().subst(d.clone()).subst(g.clone());
    let composed = t.subst(g.append(&d));
    assert_eq!(stepwise, composed);
    // and both are the type Pair(List(Char), Char, List(Char))
    let expected = Type::internal(
        "Pair",
        vec![
            ty("List", vec![ty("Char", vec![])]),
            ty("Char", vec![]),
            ty("List", vec![ty("Char", vec![])]),
        ],
    );
    assert!(stepwise.eqv(&expected, &vec![]));
}

#[test]
fn append_keeps_what_the_first_does_not_replace() {
    let diff = Env { entries: vec![(n("a"), ty("Int", vec![])), (n("b"), ty("Char", vec![]))] };
    let first = Env { entries: vec![(n("a"), tvar("b"))] };
    let both = diff.append(&first);
    assert_eq!(both.entries.len(), 2);
    assert_eq!(both.entries[0].0.name, "b");
    assert_eq!(both.entries[1].0.name, "a");
    assert_eq!(both.lookup(&n("a")).unwrap().inner.head_reduction(), Type::internal("Char", vec![]));
}

#[test]
fn equivalence_is_reflexive_symmetric_and_transitive_on_samples() {
    let a = Type::var(n("x")).subst(Env::singleton(n("x"), ty("Int", vec![])));
    let b = Type::internal("Int", vec![]);
    let c = Type::var(n("y")).subst(Env::singleton(n("y"), ty("Int", vec![])));
    let none: Vec<Kind> = vec![];
    assert!(a.eqv(&a, &none));
    assert!(a.eqv(&b, &none) && b.eqv(&a, &none));
    assert!(b.eqv(&c, &none) && a.eqv(&c, &none));
    let other = Type::internal("Char", vec![]);
    assert!(!a.eqv(&other, &none) && !other.eqv(&a, &none));
    assert!(!Type::internal("F", vec![ty("Int", vec![])]).eqv(&Type::internal("F", vec![]), &none));
}

#[test]
fn quantified_types_are_equivalent_up_to_the_bound_name() {
    let none: Vec<Kind> = vec![];
    let l = all_of("a", Kind::VType, ty("Ret", vec![tvar("a")]));
    let r = all_of("b", Kind::VType, ty("Ret", vec![tvar("b")]));
    assert!(l.eqv(&r, &none));
    let k = all_of("b", Kind::CType, ty("Ret", vec![tvar("b")]));
    assert!(!l.eqv(&k, &none));
    let free = all_of("b", Kind::VType, ty("Ret", vec![tvar("a")]));
    assert!(!l.eqv(&free, &none));
    // nested binders are kept apart
    let ab = all_of("a", Kind::VType, located(all_of("b", Kind::VType, ty("P", vec![tvar("a"), tvar("b")]))));
    let ba = all_of("a", Kind::VType, located(all_of("b", Kind::VType, ty("P", vec![tvar("b"), tvar("a")]))));
    assert!(!ab.eqv(&ba, &none));
    assert!(ab.eqv(&ab, &none));
    let e1 = some_of("a", Kind::VType, tvar("a"));
    let e2 = some_of("z", Kind::VType, tvar("z"));
    assert!(e1.eqv(&e2, &none));
    assert!(!e1.eqv(&all_of("a", Kind::VType, tvar("a")), &none));
}

#[test]
fn abstract_variables_and_holes_agree_only_with_themselves() {
    let none: Vec<Kind> = vec![];
    let v0 = Type::new(SynType::AbstVar(AbstVar(0)));
    let v1 = Type::new(SynType::AbstVar(AbstVar(1)));
    let hole = Type::new(SynType::Hole(Hole));
    assert!(v0.eqv(&v0, &none));
    assert!(!v0.eqv(&v1, &none));
    assert!(hole.eqv(&hole, &none));
    assert!(!hole.eqv(&v0, &none));
    assert!(!Type::make_os().eqv(&hole, &none));
}

#[test]
fn kinds_of_the_built_in_types() {
    let ctx = Ctx::builtin();
    let at = span(1, 2);
    assert_eq!(Type::make_os().syn_kind(&ctx, at).unwrap(), Kind::CType);
    assert_eq!(Type::internal("Int", vec![]).syn_kind(&ctx, at).unwrap(), Kind::VType);
    assert_eq!(
        Type::make_thunk(located(Type::make_os())).syn_kind(&ctx, at).unwrap(),
        Kind::VType
    );
    assert_eq!(
        Type::make_ret(ty("Int", vec![])).syn_kind(&ctx, at).unwrap(),
        Kind::CType
    );
    let f = Type::internal("Fn", vec![ty("Int", vec![]), ty("OS", vec![])]);
    assert_eq!(f.syn_kind(&ctx, at).unwrap(), Kind::CType);
    assert_eq!(
        all_of("a", Kind::VType, ty("Ret", vec![tvar("a")])).syn_kind(&ctx, at).unwrap(),
        Kind::CType
    );
    assert_eq!(some_of("a", Kind::VType, tvar("a")).syn_kind(&ctx, at).unwrap(), Kind::VType);
}

#[test]
fn kind_errors() {
    let ctx = Ctx::builtin();
    let at = span(3, 9);
    let e = Type::internal("Nope", vec![]).syn_kind(&ctx, at).unwrap_err();
    assert_eq!(e.info, at);
    assert_eq!(e.inner, TypeCheckError::UnboundTypeVariable { tvar: n("Nope") });
    let e = Type::internal("Thunk", vec![]).syn_kind(&ctx, at).unwrap_err();
    assert_eq!(
        e.inner,
        TypeCheckError::ArityMismatch {
            context: "Thunk".to_string(),
            expected: 1,
            found: 0
        }
    );
    let e = Type::make_thunk(ty("Int", vec![])).syn_kind(&ctx, at).unwrap_err();
    assert_eq!(
        e.inner,
        TypeCheckError::KindMismatch {
            context: "type argument".to_string(),
            expected: Kind::CType,
            found: Kind::VType
        }
    );
    let e = Type::new(SynType::Hole(Hole)).syn_kind(&ctx, at).unwrap_err();
    assert_eq!(e.inner, TypeCheckError::NeedAnnotation { content: "hole".to_string() });
    let e = Type::new(SynType::AbstVar(AbstVar(12))).syn_kind(&ctx, at).unwrap_err();
    assert_eq!(e.inner.clone_name(), "$12");
}

trait CloneName {
    fn clone_name(&self) -> String;
}

impl CloneName for TypeCheckError {
    fn clone_name(&self) -> String {
        match self {
            TypeCheckError::UnboundTypeVariable { tvar } => tvar.name.clone(),
            _ => String::new(),
        }
    }
}

#[test]
fn kind_annotation_must_agree() {
    let ctx = Ctx::builtin();
    let at = span(0, 0);
    let mut t = Type::make_os();
    t.kd = Some(Kind::CType);
    assert_eq!(t.syn_kind(&ctx, at).unwrap(), Kind::CType);
    t.kd = Some(Kind::VType);
    assert_eq!(
        t.syn_kind(&ctx, at).unwrap_err().inner,
        TypeCheckError::KindMismatch {
            context: "kind subsumption".to_string(),
            expected: Kind::CType,
            found: Kind::VType
        }
    );
}

#[test]
fn a_hole_is_accepted_in_analysis_at_any_kind() {
    let ctx = Ctx::builtin();
    let at = span(0, 0);
    let hole = Type::new(SynType::Hole(Hole));
    assert!(hole.ana_kind(&Kind::VType, &ctx, at, "test").is_ok());
    assert!(hole.ana_kind(&Kind::CType, &ctx, at, "test").is_ok());
    assert!(Type::make_os().ana_kind(&Kind::CType, &ctx, at, "test").is_ok());
    assert_eq!(
        Type::make_os().ana_kind(&Kind::VType, &ctx, at, "test").unwrap_err().inner,
        TypeCheckError::KindMismatch {
            context: "test".to_string(),
            expected: Kind::VType,
            found: Kind::CType
        }
    );
}

#[test]
fn abstract_variables_have_the_kind_recorded() {
    let ctx = Ctx::builtin();
    let (ctx, v) = ctx.fresh(Kind::CType);
    assert_eq!(v, AbstVar(0));
    let (ctx, w) = ctx.fresh(Kind::VType);
    assert_eq!(w, AbstVar(1));
    let at = span(0, 0);
    assert_eq!(Type::new(SynType::AbstVar(v)).syn_kind(&ctx, at).unwrap(), Kind::CType);
    assert_eq!(Type::new(SynType::AbstVar(w)).syn_kind(&ctx, at).unwrap(), Kind::VType);
}

#[test]
fn context_tables_hold_what_was_bound() {
    let ctx = Ctx::new();
    assert!(ctx.kind_of(&n("T")).is_none());
    assert!(ctx.type_of(&n("x")).is_none());
    let ctx2 = ctx.bind_type(&n("T"), Kind::CType).bind_term(&n("x"), Type::make_os());
    assert_eq!(ctx2.kind_of(&n("T")), Some(&Kind::CType));
    assert_eq!(ctx2.type_of(&n("x")), Some(&Type::make_os()));
    // the old context is left as it was
    assert!(ctx.kind_of(&n("T")).is_none());
    assert!(ctx.type_of(&n("x")).is_none());
    // a later binding hides an earlier one
    let ctx3 = ctx2.bind_type(&n("T"), Kind::VType);
    assert_eq!(ctx3.kind_of(&n("T")), Some(&Kind::VType));
    assert_eq!(ctx2.kind_of(&n("T")), Some(&Kind::CType));
    let copy = ctx3.clone();
    assert_eq!(copy.kind_of(&n("T")), Some(&Kind::VType));
    assert_eq!(copy.type_of(&n("x")), Some(&Type::make_os()));
}

#[test]
fn built_in_context_declares_functions_as_codata() {
    let ctx = Ctx::builtin();
    let f = ctx.codata(&n("Fn")).unwrap();
    assert_eq!(f.params.len(), 2);
    assert_eq!(f.dtors.len(), 1);
    assert_eq!(f.dtors[0].dtor.name, "arg");
    assert_eq!(f.find_dtor(&n("arg")), Some(0));
    assert_eq!(f.find_dtor(&n("fst")), None);
    assert!(ctx.data(&n("Fn")).is_none());
    assert!(ctx.codata(&n("Thunk")).is_none());
}

#[test]
fn numbers_in_decimal() {
    assert_eq!(fmt_usize(0), "0");
    assert_eq!(fmt_usize(7), "7");
    assert_eq!(fmt_usize(10), "10");
    assert_eq!(fmt_usize(1234567890), "1234567890");
    assert_eq!(fmt_u64(u64::MAX), "18446744073709551615");
    assert_eq!(AbstVar(42).fmt_args(Args { indent: 0 }), "$42");
    assert_eq!(Hole.fmt_args(Args { indent: 0 }), "_?");
}

#[test]
fn kinds_and_types_as_text() {
    let a = Args { indent: 0 };
    assert_eq!(Kind::VType.fmt_args(a), "VType");
    assert_eq!(arity(vec![], Kind::CType).fmt_args(a), "() -> CType");
    assert_eq!(
        arity(vec![Kind::VType, arity(vec![Kind::CType], Kind::VType)], Kind::CType).fmt_args(a),
        "(VType, (CType) -> VType) -> CType"
    );
    assert_eq!(Type::make_os().fmt_args(a), "OS");
    assert_eq!(
        Type::internal("Fn", vec![ty("Int", vec![]), ty("Ret", vec![tvar("a")])]).fmt_args(a),
        "Fn(Int, Ret(a))"
    );
    let t = Type::internal("Pair", vec![tvar("a"), tvar("b")])
        .subst(Env::singleton(n("a"), ty("Int", vec![])));
    assert_eq!(t.fmt_args(a), "Pair(Int, b)");
    assert_eq!(
        all_of("a", Kind::VType, ty("Ret", vec![tvar("a")])).fmt_args(a),
        "forall (a : VType) . Ret(a)"
    );
    assert_eq!(some_of("a", Kind::CType, tvar("a")).fmt_args(a), "exists (a : CType) . a");
    assert_eq!(Type::new(SynType::AbstVar(AbstVar(7))).fmt_args(a), "$7");
    assert_eq!(Type::new(SynType::Hole(Hole)).fmt_args(a), "_?");
}
