use std::rc::Rc;
use zydeco_lang::ctx::Ctx;
use zydeco_lang::dynamics::eval::{EvalError, Module as RunModule, ProgKont, Runtime};
use zydeco_lang::dynamics::os::Os;
use zydeco_lang::dynamics::store::SemValue;
use zydeco_lang::err::TypeCheckError;
use zydeco_lang::fmt::Args;
use zydeco_lang::kind::Kind;
use zydeco_lang::link::LinkError;
use zydeco_lang::span::{span, Name, Span, SpanInfo};
use zydeco_lang::term::{
    Codata, CodataBr, Comatcher, Data, DataBr, DeclSymbol, Define, DefineExt, Literal, Matcher,
    Module, Program, RcComp, RcValue, TermComputation, TermValue,
};
use zydeco_lang::tyck::module::EntryKind;
use zydeco_lang::tyck::step::Step;
use zydeco_lang::types::{Exists, Forall, RcType, SynType, Type};

const BUDGET: usize = 100_000;

fn n(s: &str) -> Name {
    Name::internal(s)
}

fn located(t: Type) -> RcType {
    Rc::new(Span { info: span(0, 0), inner: t })
}

fn at(k: usize) -> SpanInfo {
    span(k, k + 1)
}

fn v(inner: TermValue) -> RcValue {
    Rc::new(Span { info: span(0, 0), inner })
}

fn c(inner: TermComputation) -> RcComp {
    Rc::new(Span { info: span(0, 0), inner })
}

fn c_at(k: usize, inner: TermComputation) -> RcComp {
    Rc::new(Span { info: at(k), inner })
}

fn var(x: &str) -> RcValue {
    v(TermValue::Var(n(x)))
}

fn num(i: i64) -> RcValue {
    v(TermValue::Literal(Literal::Int(i)))
}

fn text(s: &str) -> RcValue {
    v(TermValue::Literal(Literal::String(s.to_string())))
}

fn thunk(body: RcComp) -> RcValue {
    v(TermValue::Thunk(body))
}

fn ctor(name: &str, args: Vec<RcValue>) -> RcValue {
    v(TermValue::Ctor { ctor: n(name), args })
}

fn ret(x: RcValue) -> RcComp {
    c(TermComputation::Ret(x))
}

fn force(x: RcValue) -> RcComp {
    c(TermComputation::Force(x))
}

fn let_in(x: &str, def: RcValue, body: RcComp) -> RcComp {
    c(TermComputation::Let { var: n(x), def, body })
}

fn do_in(x: &str, comp: RcComp, body: RcComp) -> RcComp {
    c(TermComputation::Do { var: n(x), comp, body })
}

fn rec(x: &str, body: RcComp) -> RcComp {
    c(TermComputation::Rec { var: n(x), body })
}

fn dtor(body: RcComp, d: &str, args: Vec<RcValue>) -> RcComp {
    c(TermComputation::Dtor { body, dtor: n(d), args })
}

fn app(f: RcComp, arg: RcValue) -> RcComp {
    dtor(f, "arg", vec![arg])
}

fn call(prim: &str, args: Vec<RcValue>) -> RcComp {
    let mut out = force(var(prim));
    for a in args {
        out = app(out, a);
    }
    out
}

fn comatch(arms: Vec<(&str, Vec<&str>, RcComp)>) -> RcComp {
    c(TermComputation::Comatch {
        arms: arms
            .into_iter()
            .map(|(d, vars, body)| Comatcher {
                dtor: n(d),
                vars: vars.into_iter().map(n).collect(),
                body,
            })
            .collect(),
    })
}

fn lam(x: &str, body: RcComp) -> RcComp {
    comatch(vec![("arg", vec![x], body)])
}

fn matching(scrut: RcValue, arms: Vec<(&str, Vec<&str>, RcComp)>) -> RcComp {
    c(TermComputation::Match {
        scrut,
        arms: arms
            .into_iter()
            .map(|(k, vars, body)| Matcher {
                ctor: n(k),
                vars: vars.into_iter().map(n).collect(),
                body,
            })
            .collect(),
    })
}

fn ann(term: RcComp, ty: RcType) -> RcComp {
    c(TermComputation::Annotation { term, ty })
}

fn ty(name: &str, args: Vec<RcType>) -> RcType {
    located(Type::internal(name, args))
}

fn tvar(name: &str) -> RcType {
    located(Type::var(n(name)))
}

fn int_ty() -> RcType {
    ty("Int", vec![])
}

fn string_ty() -> RcType {
    ty("String", vec![])
}

fn os_ty() -> RcType {
    ty("OS", vec![])
}

fn bool_ty() -> RcType {
    ty("Bool", vec![])
}

fn thunk_ty(t: RcType) -> RcType {
    ty("Thunk", vec![t])
}

fn ret_ty(t: RcType) -> RcType {
    ty("Ret", vec![t])
}

fn fn_ty(a: RcType, b: RcType) -> RcType {
    ty("Fn", vec![a, b])
}

fn decl<T>(inner: T) -> DeclSymbol<T> {
    DeclSymbol { public: false, external: false, inner }
}

fn ext(name: &str, ty: RcType) -> DeclSymbol<DefineExt> {
    DeclSymbol { public: true, external: true, inner: DefineExt { name: n(name), ty } }
}

fn data(name: &str, params: Vec<(&str, Kind)>, ctors: Vec<(&str, Vec<RcType>)>) -> DeclSymbol<Data> {
    decl(Data {
        name: n(name),
        params: params.into_iter().map(|(p, k)| (n(p), k)).collect(),
        ctors: ctors.into_iter().map(|(k, tys)| DataBr { ctor: n(k), tys }).collect(),
    })
}

fn codata(
    name: &str,
    params: Vec<(&str, Kind)>,
    dtors: Vec<(&str, Vec<RcType>, RcType)>,
) -> DeclSymbol<Codata> {
    decl(Codata {
        name: n(name),
        params: params.into_iter().map(|(p, k)| (n(p), k)).collect(),
        dtors: dtors.into_iter().map(|(d, tys, ty)| CodataBr { dtor: n(d), tys, ty }).collect(),
    })
}

fn module(
    data: Vec<DeclSymbol<Data>>,
    codata: Vec<DeclSymbol<Codata>>,
    define_ext: Vec<DeclSymbol<DefineExt>>,
    define: Vec<DeclSymbol<Define>>,
) -> Span<Module> {
    Span { info: span(0, 0), inner: Module { name: None, data, codata, alias: vec![], define, define_ext } }
}

fn program(module: Span<Module>, entry: RcComp) -> Program {
    let entry = Rc::try_unwrap(entry).ok().unwrap();
    Program { module, entry }
}

fn os_externs() -> Vec<DeclSymbol<DefineExt>> {
    vec![
        ext("read_line", thunk_ty(fn_ty(thunk_ty(fn_ty(string_ty(), os_ty())), os_ty()))),
        ext("write_str", thunk_ty(fn_ty(string_ty(), fn_ty(thunk_ty(os_ty()), os_ty())))),
        ext("exit", thunk_ty(fn_ty(int_ty(), os_ty()))),
    ]
}

fn bool_data() -> DeclSymbol<Data> {
    data("Bool", vec![], vec![("True", vec![]), ("False", vec![])])
}

fn as_int(v: &SemValue) -> i64 {
    match v {
        SemValue::Literal(Literal::Int(i)) => *i,
        _ => panic!("not an integer"),
    }
}

fn as_tag(v: &SemValue) -> String {
    match v {
        SemValue::Ctor { ctor, args } => {
            assert!(args.is_empty());
            ctor.name.clone()
        }
        _ => panic!("not a constructor"),
    }
}

fn returned(k: ProgKont) -> SemValue {
    match k {
        ProgKont::Ret(v) => v,
        ProgKont::ExitCode(code) => panic!("exited with code {}", code),
    }
}

fn exit_code(k: &ProgKont) -> i32 {
    match k {
        ProgKont::ExitCode(code) => *code,
        ProgKont::Ret(_) => panic!("returned a value"),
    }
}

fn run_os(p: &Program, input: &str, args: Vec<&str>) -> (i32, String) {
    p.tyck(Ctx::builtin()).unwrap();
    let linked = p.link().unwrap();
    let os = Os::new(input.to_string(), args.into_iter().map(|s| s.to_string()).collect());
    let (done, os) = RunModule::new(linked, os, BUDGET).ok().unwrap();
    (exit_code(&done.entry), os.output)
}

fn run_pure(p: &Program) -> (SemValue, Type) {
    let ctx = p.module.syn(Ctx::builtin()).unwrap();
    let (ty, kind) = p.entry.tyck_entry(&ctx).unwrap();
    assert_eq!(kind, EntryKind::Ret);
    let linked = p.link().unwrap();
    let os = Os::new(String::new(), vec![]);
    let (done, _) = RunModule::new(linked, os, BUDGET).ok().unwrap();
    (returned(done.entry), ty)
}

#[test]
fn ret_42() {
    let p = program(module(vec![], vec![], vec![], vec![]), ret(num(42)));
    let (value, ty) = run_pure(&p);
    assert_eq!(as_int(&value), 42);
    assert_eq!(ty, Type::make_ret(int_ty()));
    let fargs = Args { indent: 0 };
    assert_eq!(value.fmt_args(fargs), "42");
    assert_eq!(ty.fmt_args(fargs), "Ret(Int)");
}

fn echo_program() -> Program {
    let entry = app(
        force(var("read_line")),
        thunk(lam(
            "line",
            call("write_str", vec![var("line"), thunk(call("exit", vec![num(0)]))]),
        )),
    );
    program(module(vec![], vec![], os_externs(), vec![]), entry)
}

#[test]
fn echo_once() {
    let (code, output) = run_os(&echo_program(), "hello\n", vec![]);
    assert_eq!(output, "hello\n");
    assert_eq!(code, 0);
}

#[test]
fn echo_reads_one_line_only() {
    let (code, output) = run_os(&echo_program(), "first\nsecond\n", vec![]);
    assert_eq!(output, "first\n");
    assert_eq!(code, 0);
    let (_, output) = run_os(&echo_program(), "no line feed", vec![]);
    assert_eq!(output, "no line feed");
    let (_, output) = run_os(&echo_program(), "", vec![]);
    assert_eq!(output, "");
}

fn print_args_program() -> Program {
    let list = data(
        "List",
        vec![("A", Kind::VType)],
        vec![("Nil", vec![]), ("Cons", vec![tvar("A"), ty("List", vec![tvar("A")])])],
    );
    let mut externs = os_externs();
    externs.push(ext(
        "arg_list",
        thunk_ty(fn_ty(thunk_ty(fn_ty(ty("List", vec![string_ty()]), os_ty())), os_ty())),
    ));
    let walk = rec(
        "walk",
        lam(
            "l",
            matching(
                var("l"),
                vec![
                    ("Nil", vec![], call("exit", vec![num(0)])),
                    (
                        "Cons",
                        vec!["x", "rest"],
                        call(
                            "write_str",
                            vec![
                                var("x"),
                                thunk(call(
                                    "write_str",
                                    vec![text("\n"), thunk(app(force(var("walk")), var("rest")))],
                                )),
                            ],
                        ),
                    ),
                ],
            ),
        ),
    );
    let entry = app(force(var("arg_list")), thunk(walk));
    program(module(vec![list], vec![], externs, vec![]), entry)
}

#[test]
fn print_args() {
    let (code, output) = run_os(&print_args_program(), "", vec!["hello", "world"]);
    assert_eq!(output, "hello\nworld\n");
    assert_eq!(code, 0);
    let (code, output) = run_os(&print_args_program(), "", vec![]);
    assert_eq!(output, "");
    assert_eq!(code, 0);
}

fn peano(k: u32) -> RcValue {
    let mut v = ctor("Zero", vec![]);
    for _ in 0..k {
        v = ctor("Succ", vec![v]);
    }
    v
}

fn even_odd_program(k: u32) -> Program {
    let nat_ty = || ty("Nat", vec![]);
    let naturals = data("Nat", vec![], vec![("Zero", vec![]), ("Succ", vec![nat_ty()])]);
    let record = codata(
        "EvenOdd",
        vec![],
        vec![
            ("even", vec![nat_ty()], ret_ty(bool_ty())),
            ("odd", vec![nat_ty()], ret_ty(bool_ty())),
        ],
    );
    let branch = |at_zero: &str, next: &str| {
        matching(
            var("n"),
            vec![
                ("Zero", vec![], ret(ctor(at_zero, vec![]))),
                ("Succ", vec!["m"], dtor(force(var("eo")), next, vec![var("m")])),
            ],
        )
    };
    let eo = rec(
        "eo",
        comatch(vec![
            ("even", vec!["n"], branch("True", "odd")),
            ("odd", vec!["n"], branch("False", "even")),
        ]),
    );
    let entry = dtor(ann(eo, ty("EvenOdd", vec![])), "even", vec![peano(k)]);
    program(module(vec![bool_data(), naturals], vec![record], vec![], vec![]), entry)
}

#[test]
fn even_odd_via_codata() {
    let (value, ty) = run_pure(&even_odd_program(4));
    assert_eq!(as_tag(&value), "True");
    assert!(ty.eqv(&Type::make_ret(bool_ty()), &vec![]));
    let (value, _) = run_pure(&even_odd_program(3));
    assert_eq!(as_tag(&value), "False");
    let (value, _) = run_pure(&even_odd_program(0));
    assert_eq!(as_tag(&value), "True");
}

#[test]
fn the_machine_is_deterministic() {
    let first = run_os(&print_args_program(), "", vec!["a", "b", "c"]);
    let second = run_os(&print_args_program(), "", vec!["a", "b", "c"]);
    assert_eq!(first, second);
    assert_eq!(first.1, "a\nb\nc\n");
}

fn colour_module() -> Span<Module> {
    let colour = data("Colour", vec![], vec![("Red", vec![]), ("Green", vec![]), ("Blue", vec![])]);
    let void = data("Void", vec![], vec![]);
    module(vec![colour, void, bool_data()], vec![], vec![], vec![])
}

fn colour_ctx() -> Ctx {
    colour_module()
        .syn(Ctx::builtin())
        .unwrap()
        .bind_term(&n("x"), Type::internal("Colour", vec![]))
        .bind_term(&n("nothing"), Type::internal("Void", vec![]))
}

#[test]
fn match_missing_arm() {
    let ctx = colour_ctx();
    let term = c_at(
        7,
        TermComputation::Match {
            scrut: var("x"),
            arms: vec![
                Matcher { ctor: n("Red"), vars: vec![], body: ret(num(1)) },
                Matcher { ctor: n("Green"), vars: vec![], body: ret(num(2)) },
            ],
        },
    );
    let e = term.syn(&ctx).unwrap_err();
    assert_eq!(e.info, at(7));
    assert_eq!(
        e.inner,
        TypeCheckError::InconsistentMatchers { unexpected: vec![], missing: vec![n("Blue")] }
    );
    let e = term.ana(&Type::make_ret(int_ty()), &ctx).unwrap_err();
    assert_eq!(
        e.inner,
        TypeCheckError::InconsistentMatchers { unexpected: vec![], missing: vec![n("Blue")] }
    );
}

#[test]
fn match_with_unexpected_and_missing_arms() {
    let ctx = colour_ctx();
    let term = matching(
        var("x"),
        vec![
            ("Pink", vec![], ret(num(0))),
            ("Blue", vec![], ret(num(1))),
            ("Mauve", vec![], ret(num(2))),
        ],
    );
    let e = term.syn(&ctx).unwrap_err();
    assert_eq!(
        e.inner,
        TypeCheckError::InconsistentMatchers {
            unexpected: vec![n("Pink"), n("Mauve")],
            missing: vec![n("Red"), n("Green")],
        }
    );
}

#[test]
fn exhaustive_match_checks() {
    let ctx = colour_ctx();
    let term = matching(
        var("x"),
        vec![
            ("Blue", vec![], ret(num(3))),
            ("Red", vec![], ret(num(1))),
            ("Green", vec![], ret(num(2))),
        ],
    );
    assert_eq!(term.syn(&ctx).unwrap(), Type::make_ret(int_ty()));
    assert!(term.ana(&Type::make_ret(int_ty()), &ctx).is_ok());
}

#[test]
fn branches_must_agree() {
    let ctx = colour_ctx();
    let term = matching(
        var("x"),
        vec![
            ("Blue", vec![], ret(num(3))),
            ("Red", vec![], ret(text("one"))),
            ("Green", vec![], ret(num(2))),
        ],
    );
    let e = term.syn(&ctx).unwrap_err();
    assert_eq!(
        e.inner,
        TypeCheckError::InconsistentBranches(vec![
            Type::make_ret(int_ty()),
            Type::make_ret(string_ty()),
            Type::make_ret(int_ty()),
        ])
    );
}

#[test]
fn empty_match() {
    let ctx = colour_ctx();
    let on_void = matching(var("nothing"), vec![]);
    assert!(on_void.ana(&Type::make_ret(int_ty()), &ctx).is_ok());
    assert!(on_void.ana(&Type::make_os(), &ctx).is_ok());
    // there is no branch to take a type from
    assert_eq!(on_void.syn(&ctx).unwrap_err().inner, TypeCheckError::InconsistentBranches(vec![]));
    let on_colour = matching(var("x"), vec![]);
    let e = on_colour.ana(&Type::make_ret(int_ty()), &ctx).unwrap_err();
    assert_eq!(
        e.inner,
        TypeCheckError::InconsistentMatchers {
            unexpected: vec![],
            missing: vec![n("Red"), n("Green"), n("Blue")],
        }
    );
}

#[test]
fn rec_needs_annotation() {
    let ctx = Ctx::builtin();
    let term = c_at(4, TermComputation::Rec { var: n("f"), body: ret(num(1)) });
    let e = term.syn(&ctx).unwrap_err();
    assert_eq!(e.info, at(4));
    assert_eq!(e.inner, TypeCheckError::NeedAnnotation { content: "rec".to_string() });
    assert!(term.ana(&Type::make_ret(int_ty()), &ctx).is_ok());
    // a recursive computation must be a computation
    let e = term.ana(&Type::internal("Int", vec![]), &ctx).unwrap_err();
    assert_eq!(
        e.inner,
        TypeCheckError::KindMismatch {
            context: "ana computation".to_string(),
            expected: Kind::CType,
            found: Kind::VType
        }
    );
}

#[test]
fn wrong_main() {
    let p = program(module(vec![], vec![], vec![], vec![]), c_at(9, TermComputation::Ret(num(42))));
    let e = p.tyck(Ctx::builtin()).unwrap_err();
    assert_eq!(e.info, at(9));
    // the type found holds the place of the term it was found for
    let found = Type::make_ret(Rc::new(Span { info: at(9), inner: Type::internal("Int", vec![]) }));
    assert_eq!(e.inner, TypeCheckError::WrongMain { found });
    // neither a program nor a pure computation
    let ctx = Ctx::builtin().bind_term(
        &n("f"),
        Type::make_thunk(fn_ty(int_ty(), ret_ty(int_ty()))),
    );
    let e = force(var("f")).tyck_entry(&ctx).unwrap_err();
    assert!(matches!(e.inner, TypeCheckError::WrongMain { .. }));
    let (_, kind) = ret(num(1)).tyck_entry(&ctx).unwrap();
    assert_eq!(kind, EntryKind::Ret);
    let (_, kind) = echo_program().entry.tyck_entry(
        &echo_program().module.syn(Ctx::builtin()).unwrap(),
    ).unwrap();
    assert_eq!(kind, EntryKind::Os);
}

#[test]
fn values_synthesise_their_types() {
    let ctx = Ctx::builtin().bind_term(&n("x"), Type::internal("Int", vec![]));
    assert_eq!(num(1).syn(&ctx).unwrap(), Type::internal("Int", vec![]));
    assert_eq!(text("a").syn(&ctx).unwrap(), Type::internal("String", vec![]));
    assert_eq!(
        v(TermValue::Literal(Literal::Char('c'))).syn(&ctx).unwrap(),
        Type::internal("Char", vec![])
    );
    assert_eq!(var("x").syn(&ctx).unwrap(), Type::internal("Int", vec![]));
    assert_eq!(
        thunk(ret(var("x"))).syn(&ctx).unwrap(),
        Type::make_thunk(located(Type::make_ret(int_ty())))
    );
    let e = var("y").syn(&ctx).unwrap_err();
    assert_eq!(e.inner, TypeCheckError::UnboundVar { var: n("y") });
    let e = ctor("True", vec![]).syn(&ctx).unwrap_err();
    assert_eq!(e.inner, TypeCheckError::NeedAnnotation { content: "ctor".to_string() });
    let e = comatch(vec![]).syn(&ctx).unwrap_err();
    assert_eq!(e.inner, TypeCheckError::NeedAnnotation { content: "comatch".to_string() });
    let e = v(TermValue::Pack { ty: int_ty(), body: num(1) }).syn(&ctx).unwrap_err();
    assert_eq!(e.inner, TypeCheckError::NeedAnnotation { content: "pack".to_string() });
}

#[test]
fn let_and_do_bind_their_variable() {
    let ctx = Ctx::builtin();
    let term = let_in("x", num(1), do_in("y", ret(var("x")), ret(thunk(ret(var("y"))))));
    assert_eq!(
        term.syn(&ctx).unwrap(),
        Type::make_ret(thunk_ty(ret_ty(int_ty())))
    );
    let e = do_in("y", force(thunk(force(var("z")))), ret(num(1))).syn(&ctx).unwrap_err();
    assert_eq!(e.inner, TypeCheckError::UnboundVar { var: n("z") });
    let ctx = ctx.bind_term(&n("os"), Type::make_thunk(os_ty()));
    let e = do_in("y", force(var("os")), ret(num(1))).syn(&ctx).unwrap_err();
    assert_eq!(
        e.inner,
        TypeCheckError::TypeExpected {
            context: "do".to_string(),
            expected: "Ret a".to_string(),
            found: Type::make_os(),
        }
    );
    let e = force(num(1)).syn(&ctx).unwrap_err();
    assert_eq!(
        e.inner,
        TypeCheckError::TypeExpected {
            context: "force".to_string(),
            expected: "Thunk a".to_string(),
            found: Type::internal("Int", vec![]),
        }
    );
}

#[test]
fn subsumption_compares_up_to_equivalence() {
    let ctx = Ctx::builtin();
    assert!(ret(num(1)).ana(&Type::make_ret(int_ty()), &ctx).is_ok());
    let e = num(1).ana(&Type::internal("String", vec![]), &ctx).unwrap_err();
    assert_eq!(e.inner, TypeCheckError::Subsumption);
    let e = ann(ret(num(1)), ret_ty(string_ty())).syn(&ctx).unwrap_err();
    assert_eq!(e.inner, TypeCheckError::Subsumption);
    let e = ann(ret(num(1)), int_ty()).syn(&ctx).unwrap_err();
    assert_eq!(
        e.inner,
        TypeCheckError::KindMismatch {
            context: "computation term annotation".to_string(),
            expected: Kind::CType,
            found: Kind::VType,
        }
    );
}

#[test]
fn constructors_are_analysed_against_a_data_type() {
    let list = data(
        "List",
        vec![("A", Kind::VType)],
        vec![("Nil", vec![]), ("Cons", vec![tvar("A"), ty("List", vec![tvar("A")])])],
    );
    let ctx = module(vec![list, bool_data()], vec![], vec![], vec![]).syn(Ctx::builtin()).unwrap();
    let ints = Type::internal("List", vec![int_ty()]);
    let one = ctor("Cons", vec![num(1), ctor("Nil", vec![])]);
    assert!(one.ana(&ints, &ctx).is_ok());
    let bad = ctor("Cons", vec![text("a"), ctor("Nil", vec![])]);
    assert_eq!(bad.ana(&ints, &ctx).unwrap_err().inner, TypeCheckError::Subsumption);
    let e = ctor("Snoc", vec![]).ana(&ints, &ctx).unwrap_err();
    assert_eq!(e.inner, TypeCheckError::UnknownConstructor { ctor: n("Snoc") });
    let e = ctor("Cons", vec![num(1)]).ana(&ints, &ctx).unwrap_err();
    assert_eq!(
        e.inner,
        TypeCheckError::ArityMismatch { context: "ctor".to_string(), expected: 2, found: 1 }
    );
    let e = ctor("Nil", vec![]).ana(&Type::internal("Int", vec![]), &ctx).unwrap_err();
    assert_eq!(
        e.inner,
        TypeCheckError::TypeExpected {
            context: "ctor".to_string(),
            expected: "data type".to_string(),
            found: Type::internal("Int", vec![]),
        }
    );
    let e = ctor("Nil", vec![]).ana(&Type::internal("List", vec![]), &ctx).unwrap_err();
    assert_eq!(
        e.inner,
        TypeCheckError::ArityMismatch {
            context: "data type `List` instantiation".to_string(),
            expected: 1,
            found: 0
        }
    );
}

#[test]
fn destructors_and_comatch() {
    let ctx = Ctx::builtin().bind_term(
        &n("f"),
        Type::make_thunk(fn_ty(int_ty(), ret_ty(string_ty()))),
    );
    assert_eq!(
        app(force(var("f")), num(1)).syn(&ctx).unwrap().head_reduction(),
        Type::make_ret(string_ty())
    );
    let e = dtor(force(var("f")), "fst", vec![]).syn(&ctx).unwrap_err();
    assert_eq!(e.inner, TypeCheckError::UnknownDestructor { dtor: n("fst") });
    let e = dtor(force(var("f")), "arg", vec![]).syn(&ctx).unwrap_err();
    assert_eq!(
        e.inner,
        TypeCheckError::ArityMismatch { context: "dtor".to_string(), expected: 1, found: 0 }
    );
    // `Ret` is a name, and no codata type is declared under it
    let e = app(ret(num(1)), num(1)).syn(&ctx).unwrap_err();
    assert_eq!(e.inner, TypeCheckError::UnboundTypeVariable { tvar: n("Ret") });
    // a head that is no name
    let poly = c(TermComputation::TyAbsTerm { param: (n("a"), Kind::VType), body: ret(num(1)) });
    let e = app(poly, num(1)).syn(&ctx).unwrap_err();
    assert!(matches!(e.inner, TypeCheckError::TypeExpected { .. }));
    let func = Type::internal("Fn", vec![int_ty(), ret_ty(int_ty())]);
    assert!(lam("x", ret(var("x"))).ana(&func, &ctx).is_ok());
    let e = comatch(vec![]).ana(&func, &ctx).unwrap_err();
    assert_eq!(
        e.inner,
        TypeCheckError::InconsistentCoMatchers { unexpected: vec![], missing: vec![n("arg")] }
    );
    let e = comatch(vec![("arg", vec!["x"], ret(var("x"))), ("snd", vec![], ret(num(1)))])
        .ana(&func, &ctx)
        .unwrap_err();
    assert_eq!(
        e.inner,
        TypeCheckError::InconsistentCoMatchers { unexpected: vec![n("snd")], missing: vec![] }
    );
    let e = lam("x", ret(var("x"))).ana(&Type::make_ret(int_ty()), &ctx).unwrap_err();
    assert_eq!(e.inner, TypeCheckError::UnboundTypeVariable { tvar: n("Ret") });
}

fn identity() -> (RcComp, RcType) {
    let body = c(TermComputation::TyAbsTerm {
        param: (n("a"), Kind::VType),
        body: lam("x", ret(var("x"))),
    });
    let ty = located(Type::new(SynType::Forall(Forall {
        param: (n("b"), Kind::VType),
        ty: fn_ty(tvar("b"), ret_ty(tvar("b"))),
    })));
    (body, ty)
}

#[test]
fn type_abstraction_and_application() {
    let ctx = Ctx::builtin();
    let (body, ty) = identity();
    let id = ann(body, ty.clone());
    assert_eq!(id.syn(&ctx).unwrap(), ty.inner.clone());
    let at_int = c(TermComputation::TyAppTerm { body: id.clone(), arg: int_ty() });
    let applied = app(at_int, num(42));
    let found = applied.syn(&ctx).unwrap();
    assert!(found.eqv(&Type::make_ret(int_ty()), &vec![]));
    let e = app(c(TermComputation::TyAppTerm { body: id.clone(), arg: int_ty() }), text("no"))
        .syn(&ctx)
        .unwrap_err();
    assert_eq!(e.inner, TypeCheckError::Subsumption);
    let e = c(TermComputation::TyAppTerm { body: id, arg: os_ty() }).syn(&ctx).unwrap_err();
    assert_eq!(
        e.inner,
        TypeCheckError::KindMismatch {
            context: "type application".to_string(),
            expected: Kind::VType,
            found: Kind::CType,
        }
    );
    let e = c(TermComputation::TyAppTerm { body: ret(num(1)), arg: int_ty() }).syn(&ctx).unwrap_err();
    assert!(matches!(e.inner, TypeCheckError::TypeExpected { .. }));
    // synthesis wraps the body's type in a universal type
    let abs = c(TermComputation::TyAbsTerm { param: (n("a"), Kind::VType), body: ret(num(1)) });
    let found = abs.syn(&ctx).unwrap();
    assert!(matches!(found.synty, SynType::Forall(_)));
    // linking erases the abstraction and the application
    let p = program(module(vec![], vec![], vec![], vec![]), applied_identity());
    let (value, _) = run_pure(&p);
    assert_eq!(as_int(&value), 42);
}

fn applied_identity() -> RcComp {
    let (body, ty) = identity();
    app(c(TermComputation::TyAppTerm { body: ann(body, ty), arg: int_ty() }), num(42))
}

#[test]
fn pack_and_matchpack() {
    let ctx = Ctx::builtin();
    let some = located(Type::new(SynType::Exists(Exists {
        param: (n("a"), Kind::VType),
        ty: tvar("a"),
    })));
    let packed = v(TermValue::Annotation {
        term: v(TermValue::Pack { ty: int_ty(), body: num(7) }),
        ty: some.clone(),
    });
    assert_eq!(packed.syn(&ctx).unwrap(), some.inner.clone());
    let wrong = v(TermValue::Annotation {
        term: v(TermValue::Pack { ty: string_ty(), body: num(7) }),
        ty: some,
    });
    assert_eq!(wrong.syn(&ctx).unwrap_err().inner, TypeCheckError::Subsumption);
    let opened = c(TermComputation::MatchPack {
        scrut: packed.clone(),
        tvar: n("t"),
        var: n("x"),
        body: ret(var("x")),
    });
    let found = opened.syn(&ctx).unwrap();
    assert!(found.eqv(&Type::make_ret(tvar("t")), &vec![]));
    let e = c(TermComputation::MatchPack {
        scrut: num(1),
        tvar: n("t"),
        var: n("x"),
        body: ret(var("x")),
    })
    .syn(&ctx)
    .unwrap_err();
    assert!(matches!(e.inner, TypeCheckError::TypeExpected { .. }));
    let p = program(module(vec![], vec![], vec![], vec![]), opened);
    let linked = p.link().unwrap();
    let (done, _) = RunModule::new(linked, Os::new(String::new(), vec![]), BUDGET).ok().unwrap();
    assert_eq!(as_int(&returned(done.entry)), 7);
}

#[test]
fn module_declarations_are_checked() {
    let dup = module(vec![bool_data(), bool_data()], vec![], vec![], vec![]);
    let e = dup.syn(Ctx::builtin()).unwrap_err();
    assert_eq!(e.inner, TypeCheckError::DuplicateTypeDeclaration { name: n("Bool") });
    let clash = module(vec![data("OS", vec![], vec![])], vec![], vec![], vec![]);
    let e = clash.syn(Ctx::builtin()).unwrap_err();
    assert_eq!(e.inner, TypeCheckError::DuplicateTypeDeclaration { name: n("OS") });
    let twice = module(
        vec![data("T", vec![], vec![("K", vec![]), ("L", vec![]), ("K", vec![])])],
        vec![],
        vec![],
        vec![],
    );
    let e = twice.syn(Ctx::builtin()).unwrap_err();
    assert_eq!(e.inner, TypeCheckError::DuplicateCtorDeclaration { name: n("K") });
    let twice = module(
        vec![],
        vec![codata("C", vec![], vec![("d", vec![], os_ty()), ("d", vec![], os_ty())])],
        vec![],
        vec![],
    );
    let e = twice.syn(Ctx::builtin()).unwrap_err();
    assert_eq!(e.inner, TypeCheckError::DuplicateDtorDeclaration { name: n("d") });
    let comp_arg = module(vec![data("T", vec![], vec![("K", vec![os_ty()])])], vec![], vec![], vec![]);
    let e = comp_arg.syn(Ctx::builtin()).unwrap_err();
    assert!(matches!(e.inner, TypeCheckError::KindMismatch { .. }));
    let value_result =
        module(vec![], vec![codata("C", vec![], vec![("d", vec![], int_ty())])], vec![], vec![]);
    let e = value_result.syn(Ctx::builtin()).unwrap_err();
    assert!(matches!(e.inner, TypeCheckError::KindMismatch { .. }));
    let bad_extern = module(vec![], vec![], vec![ext("p", os_ty())], vec![]);
    let e = bad_extern.syn(Ctx::builtin()).unwrap_err();
    assert!(matches!(e.inner, TypeCheckError::KindMismatch { .. }));
    let with_body = module(
        vec![],
        vec![],
        vec![],
        vec![DeclSymbol {
            public: false,
            external: true,
            inner: Define { name: n("p"), def: num(1) },
        }],
    );
    let e = with_body.syn(Ctx::builtin()).unwrap_err();
    assert_eq!(e.inner, TypeCheckError::ExternalDeclaration { name: "p".to_string() });
    // mutually recursive data types are in scope of each other
    let forest = module(
        vec![
            data("Tree", vec![], vec![("Node", vec![ty("Forest", vec![])])]),
            data("Forest", vec![], vec![("Empty", vec![]), ("More", vec![ty("Tree", vec![]), ty("Forest", vec![])])]),
        ],
        vec![],
        vec![],
        vec![],
    );
    assert!(forest.syn(Ctx::builtin()).is_ok());
}

#[test]
fn definitions_are_in_scope_of_later_ones() {
    let m = module(
        vec![],
        vec![],
        vec![],
        vec![
            decl(Define { name: n("one"), def: num(1) }),
            decl(Define { name: n("get"), def: thunk(ret(var("one"))) }),
        ],
    );
    let ctx = m.syn(Ctx::builtin()).unwrap();
    assert_eq!(ctx.type_of(&n("one")), Some(&Type::internal("Int", vec![])));
    let p = program(m, force(var("get")));
    let (value, _) = run_pure(&p);
    assert_eq!(as_int(&value), 1);
    let backwards = module(
        vec![],
        vec![],
        vec![],
        vec![
            decl(Define { name: n("get"), def: thunk(ret(var("one"))) }),
            decl(Define { name: n("one"), def: num(1) }),
        ],
    );
    let e = backwards.syn(Ctx::builtin()).unwrap_err();
    assert_eq!(e.inner, TypeCheckError::UnboundVar { var: n("one") });
}

#[test]
fn unregistered_extern_is_a_link_error() {
    let p = program(
        module(vec![], vec![], vec![ext("launch_rocket", thunk_ty(os_ty()))], vec![]),
        force(var("launch_rocket")),
    );
    assert!(p.tyck(Ctx::builtin()).is_ok());
    assert_eq!(p.link().unwrap_err(), LinkError { name: n("launch_rocket") });
}

#[test]
fn arithmetic_and_strings() {
    let ints = |name: &str| ext(name, thunk_ty(fn_ty(int_ty(), fn_ty(int_ty(), ret_ty(int_ty())))));
    // a primitive goes on in the environment of its own thunk, which holds the
    // primitives declared before it: each is declared after those called after it
    let externs = vec![
        ext("str_length", thunk_ty(fn_ty(string_ty(), ret_ty(int_ty())))),
        ext("str_append", thunk_ty(fn_ty(string_ty(), fn_ty(string_ty(), ret_ty(string_ty()))))),
        ext("int_to_str", thunk_ty(fn_ty(int_ty(), ret_ty(string_ty())))),
        ints("mul"),
        ints("add"),
    ];
    let entry = do_in(
        "a",
        call("add", vec![num(40), num(2)]),
        do_in(
            "b",
            call("mul", vec![var("a"), num(-3)]),
            do_in(
                "s",
                call("int_to_str", vec![var("b")]),
                do_in(
                    "t",
                    call("str_append", vec![var("s"), text("!é")]),
                    call("str_length", vec![var("t")]),
                ),
            ),
        ),
    );
    let p = program(module(vec![], vec![], externs, vec![]), entry);
    let (value, ty) = run_pure(&p);
    // "-126!é" has six characters
    assert_eq!(as_int(&value), 6);
    assert!(ty.eqv(&Type::make_ret(int_ty()), &vec![]));
}

#[test]
fn overflow_ends_the_program_with_exit_code_1() {
    let externs =
        vec![ext("add", thunk_ty(fn_ty(int_ty(), fn_ty(int_ty(), ret_ty(int_ty())))))];
    let p = program(
        module(vec![], vec![], externs, vec![]),
        call("add", vec![num(i64::MAX), num(1)]),
    );
    let linked = p.link().unwrap();
    let (done, _) = RunModule::new(linked, Os::new(String::new(), vec![]), BUDGET).ok().unwrap();
    assert_eq!(exit_code(&done.entry), 1);
}

#[test]
fn step_budget() {
    let spin = ann(rec("f", force(var("f"))), ret_ty(int_ty()));
    let p = program(module(vec![], vec![], vec![], vec![]), spin);
    assert!(p.entry.tyck_entry(&Ctx::builtin()).is_ok());
    let linked = p.link().unwrap();
    let r = RunModule::new(linked, Os::new(String::new(), vec![]), 1000);
    assert_eq!(r.err(), Some(EvalError::StepBudgetExceeded));
    let p = program(module(vec![], vec![], vec![], vec![]), let_in("x", num(1), ret(var("x"))));
    let two = Runtime::new(p.link().unwrap().entry, Os::new(String::new(), vec![])).run(2);
    assert_eq!(as_int(&returned(two.ok().unwrap().0)), 1);
    let one = Runtime::new(p.link().unwrap().entry, Os::new(String::new(), vec![])).run(1);
    assert_eq!(one.err(), Some(EvalError::StepBudgetExceeded));
    let none = Runtime::new(p.link().unwrap().entry, Os::new(String::new(), vec![])).run(0);
    assert_eq!(none.err(), Some(EvalError::StepBudgetExceeded));
}

#[test]
fn the_trampoline_agrees_with_the_recursion() {
    let ctx = Ctx::builtin();
    let mut term = ret(var("x0"));
    for i in (0..200).rev() {
        term = let_in(&format!("x{}", i), num(i as i64), term);
    }
    let first = term.syn_step(ctx.clone()).unwrap();
    match &first {
        Step::SynMode((inner, body)) => {
            assert_eq!(inner.type_of(&n("x0")), Some(&Type::internal("Int", vec![])));
            assert!(inner.type_of(&n("x1")).is_none());
            assert!(matches!(body.inner, TermComputation::Let { .. }));
        }
        _ => panic!("a let hands its body back"),
    }
    let by_steps = Span::<TermComputation>::tyck(first).unwrap();
    assert_eq!(by_steps, term.syn(&ctx).unwrap());
    assert_eq!(by_steps, Type::make_ret(int_ty()));
}

#[test]
fn steps_of_the_checker() {
    let ctx = Ctx::builtin();
    // an annotation hands the term back for analysis against the annotation
    let annotated = ann(rec("f", ret(num(1))), ret_ty(int_ty()));
    match annotated.syn_step(ctx.clone()).unwrap() {
        Step::AnaMode((_, term), ty) => {
            assert!(matches!(term.inner, TermComputation::Rec { .. }));
            assert_eq!(ty, Type::make_ret(int_ty()));
        }
        _ => panic!("an annotation is analysed"),
    }
    assert_eq!(
        Span::<TermComputation>::tyck(annotated.syn_step(ctx.clone()).unwrap()).unwrap(),
        Type::make_ret(int_ty())
    );
    // a rec binds itself as a thunk and hands its body back
    let r = rec("f", force(var("f")));
    match r.ana_step(Type::make_ret(int_ty()), ctx.clone()).unwrap() {
        Step::AnaMode((inner, body), ty) => {
            assert_eq!(
                inner.type_of(&n("f")),
                Some(&Type::make_thunk(located(Type::make_ret(int_ty()))))
            );
            assert!(matches!(body.inner, TermComputation::Force(_)));
            assert_eq!(ty, Type::make_ret(int_ty()));
        }
        _ => panic!("a rec hands its body back"),
    }
    // anything else is done at once
    assert!(matches!(ret(num(1)).syn_step(ctx.clone()).unwrap(), Step::Done(_)));
    assert!(matches!(
        ret(num(1)).ana_step(Type::make_ret(int_ty()), ctx.clone()).unwrap(),
        Step::Done(_)
    ));
    // errors come out of the step that meets them
    let e = r.syn_step(ctx.clone()).err().unwrap();
    assert_eq!(e.inner, TypeCheckError::NeedAnnotation { content: "rec".to_string() });
    let e = let_in("x", var("nope"), ret(num(1))).syn_step(ctx.clone()).err().unwrap();
    assert_eq!(e.inner, TypeCheckError::UnboundVar { var: n("nope") });
    let e = Span::<TermComputation>::tyck(
        let_in("x", num(1), ret(var("y"))).syn_step(ctx.clone()).unwrap(),
    )
    .unwrap_err();
    assert_eq!(e.inner, TypeCheckError::UnboundVar { var: n("y") });
    // values
    let annotated = v(TermValue::Annotation { term: num(1), ty: int_ty() });
    assert!(matches!(annotated.syn_step(ctx.clone()).unwrap(), Step::AnaMode(..)));
    assert_eq!(
        Span::<TermValue>::tyck(annotated.syn_step(ctx.clone()).unwrap()).unwrap(),
        Type::internal("Int", vec![])
    );
    assert!(matches!(num(1).syn_step(ctx.clone()).unwrap(), Step::Done(_)));
    assert!(num(1).ana_step(Type::internal("String", vec![]), ctx).is_err());
}

#[test]
fn loading_makes_the_top_level_bindings() {
    let m = module(
        vec![],
        vec![],
        os_externs(),
        vec![
            decl(Define { name: n("one"), def: num(1) }),
            decl(Define { name: n("pair"), def: ctor("Pair", vec![var("one"), var("one")]) }),
        ],
    );
    let p = program(m, ret(var("pair")));
    let state = Runtime::load(p.link().unwrap(), Os::new(String::new(), vec![])).ok().unwrap();
    assert!(state.stack.is_empty());
    assert_eq!(as_int(state.env.lookup(&n("one")).unwrap()), 1);
    assert!(matches!(state.env.lookup(&n("exit")), Some(SemValue::Thunk { .. })));
    assert!(matches!(state.env.lookup(&n("pair")), Some(SemValue::Ctor { .. })));
    assert!(state.env.lookup(&n("two")).is_none());
    let (done, _) = state.run(10).ok().unwrap();
    assert_eq!(returned(done).fmt_args(Args { indent: 0 }), "Pair(1, 1)");
    // a binding that refers to a later one fails to load
    let unchecked = program(
        module(vec![], vec![], vec![], vec![decl(Define { name: n("a"), def: ctor("K", vec![var("b")]) })]),
        ret(var("a")),
    );
    let r = Runtime::load(unchecked.link().unwrap(), Os::new(String::new(), vec![]));
    assert_eq!(r.err(), Some(EvalError::UnboundVar { var: "b".to_string() }));
}

#[test]
fn a_thunk_is_analysed_against_thunk_of_one_type() {
    let ctx = Ctx::builtin();
    let term = thunk(ret(num(1)));
    assert!(term.ana(&Type::make_thunk(ret_ty(int_ty())), &ctx).is_ok());
    let e = term.ana(&Type::internal("Thunk", vec![ret_ty(int_ty()), os_ty()]), &ctx).unwrap_err();
    assert_eq!(
        e.inner,
        TypeCheckError::ArityMismatch { context: "thunk".to_string(), expected: 1, found: 2 }
    );
    let e = term.ana(&Type::internal("Thunk", vec![]), &ctx).unwrap_err();
    assert_eq!(
        e.inner,
        TypeCheckError::ArityMismatch { context: "thunk".to_string(), expected: 1, found: 0 }
    );
    let e = term.ana(&Type::make_ret(int_ty()), &ctx).unwrap_err();
    assert_eq!(
        e.inner,
        TypeCheckError::TypeExpected {
            context: "thunk".to_string(),
            expected: "Thunk a".to_string(),
            found: Type::make_ret(int_ty()),
        }
    );
}

#[test]
fn analysis_asks_for_a_computation_type() {
    let ctx = colour_ctx();
    let not_a_computation = TypeCheckError::KindMismatch {
        context: "ana computation".to_string(),
        expected: Kind::CType,
        found: Kind::VType,
    };
    let int_type = Type::internal("Int", vec![]);
    assert_eq!(ret(num(1)).ana(&int_type, &ctx).unwrap_err().inner, not_a_computation);
    assert_eq!(force(var("x")).ana(&int_type, &ctx).unwrap_err().inner, not_a_computation);
    // no subterm is looked at before the type
    assert_eq!(ret(var("unbound")).ana(&int_type, &ctx).unwrap_err().inner, not_a_computation);
    assert_eq!(
        let_in("y", var("unbound"), ret(num(1))).ana(&int_type, &ctx).unwrap_err().inner,
        not_a_computation
    );
    // an arm-less match over an empty data type is a computation all the same
    let on_void = matching(var("nothing"), vec![]);
    assert_eq!(on_void.ana(&int_type, &ctx).unwrap_err().inner, not_a_computation);
    assert_eq!(
        on_void.ana(&Type::internal("Void", vec![]), &ctx).unwrap_err().inner,
        not_a_computation
    );
    assert_eq!(
        ret(num(1)).ana_step(Type::internal("Int", vec![]), ctx.clone()).err().unwrap().inner,
        not_a_computation
    );
    // a type that has no kind is reported as such
    let e = ret(num(1)).ana(&Type::internal("Nope", vec![]), &ctx).unwrap_err();
    assert_eq!(e.inner, TypeCheckError::UnboundTypeVariable { tvar: n("Nope") });
}

#[test]
fn kinds_are_asked_for_where_types_are_taken_apart() {
    let ctx = colour_ctx()
        .bind_term(&n("bad"), Type::make_thunk(int_ty()))
        .bind_term(&n("prog"), Type::make_os());
    // what is forced must be a thunk of a computation type
    let e = force(var("bad")).syn(&ctx).unwrap_err();
    assert_eq!(
        e.inner,
        TypeCheckError::KindMismatch {
            context: "force".to_string(),
            expected: Kind::CType,
            found: Kind::VType
        }
    );
    // the scrutinee of a match must have a value type
    let e = matching(var("prog"), vec![]).syn(&ctx).unwrap_err();
    assert_eq!(
        e.inner,
        TypeCheckError::KindMismatch {
            context: "match".to_string(),
            expected: Kind::VType,
            found: Kind::CType
        }
    );
    let e = matching(var("prog"), vec![]).ana(&Type::make_os(), &ctx).unwrap_err();
    assert!(matches!(e.inner, TypeCheckError::KindMismatch { .. }));
    // a scrutinee of a value type whose head is a name that declares no data type
    let e = matching(num(1), vec![]).syn(&ctx).unwrap_err();
    assert_eq!(e.inner, TypeCheckError::UnboundTypeVariable { tvar: n("Int") });
    // a scrutinee of a value type whose head is no name
    let some = Type::new(SynType::Exists(Exists { param: (n("a"), Kind::VType), ty: tvar("a") }));
    let ctx = ctx.bind_term(&n("p"), some.clone());
    let e = matching(var("p"), vec![]).syn(&ctx).unwrap_err();
    assert_eq!(
        e.inner,
        TypeCheckError::TypeExpected {
            context: "match".to_string(),
            expected: "data type".to_string(),
            found: some,
        }
    );
}

#[test]
fn a_written_type_is_reported_at_its_own_place() {
    let ctx = Ctx::builtin();
    let written = |k: usize, t: Type| -> RcType { Rc::new(Span { info: at(k), inner: t }) };
    // an annotation of the wrong kind
    let term = c_at(1, TermComputation::Annotation {
        term: ret(num(1)),
        ty: written(5, Type::internal("Int", vec![])),
    });
    let e = term.syn(&ctx).unwrap_err();
    assert_eq!(e.info, at(5));
    assert!(matches!(e.inner, TypeCheckError::KindMismatch { .. }));
    let e = term.syn_step(ctx.clone()).err().unwrap();
    assert_eq!(e.info, at(5));
    // an annotation that names no type
    let value = v(TermValue::Annotation { term: num(1), ty: written(6, Type::internal("Nope", vec![])) });
    let e = value.syn(&ctx).unwrap_err();
    assert_eq!(e.info, at(6));
    assert_eq!(e.inner, TypeCheckError::UnboundTypeVariable { tvar: n("Nope") });
    // the type of an argument of a constructor
    let bad = module(
        vec![decl(Data {
            name: n("T"),
            params: vec![],
            ctors: vec![DataBr { ctor: n("K"), tys: vec![int_ty(), written(8, Type::make_os())] }],
        })],
        vec![],
        vec![],
        vec![],
    );
    let e = bad.syn(Ctx::builtin()).unwrap_err();
    assert_eq!(e.info, at(8));
    // the type of a primitive
    let bad = module(
        vec![],
        vec![],
        vec![DeclSymbol {
            public: false,
            external: true,
            inner: DefineExt { name: n("p"), ty: written(9, Type::make_os()) },
        }],
        vec![],
    );
    assert_eq!(bad.syn(Ctx::builtin()).unwrap_err().info, at(9));
    // a type that the checker finds is reported at the place of the term
    let e = c_at(3, TermComputation::Let {
        var: n("x"),
        def: thunk(ret(num(1))),
        body: c_at(4, TermComputation::Force(var("y"))),
    })
    .syn(&ctx)
    .unwrap_err();
    assert_eq!(e.inner, TypeCheckError::UnboundVar { var: n("y") });
}

#[test]
fn a_name_that_declares_no_data_type() {
    let ctx = colour_ctx()
        .bind_type(&n("Abstract"), Kind::VType)
        .bind_type(&n("Hidden"), Kind::CType)
        .bind_term(&n("a"), Type::internal("Abstract", vec![]))
        .bind_term(&n("h"), Type::make_thunk(ty("Hidden", vec![])));
    let unbound = |name: &str| TypeCheckError::UnboundTypeVariable { tvar: n(name) };
    assert_eq!(matching(var("a"), vec![]).syn(&ctx).unwrap_err().inner, unbound("Abstract"));
    assert_eq!(
        matching(var("a"), vec![]).ana(&Type::make_os(), &ctx).unwrap_err().inner,
        unbound("Abstract")
    );
    assert_eq!(dtor(force(var("h")), "d", vec![]).syn(&ctx).unwrap_err().inner, unbound("Hidden"));
    assert_eq!(
        comatch(vec![]).ana(&Type::internal("Hidden", vec![]), &ctx).unwrap_err().inner,
        unbound("Hidden")
    );
    // a constructor asks for a data type by its form
    let e = ctor("K", vec![]).ana(&Type::internal("Abstract", vec![]), &ctx).unwrap_err();
    assert!(matches!(e.inner, TypeCheckError::TypeExpected { .. }));
}
