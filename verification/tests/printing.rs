use std::rc::Rc;
use zydeco_lang::fmt::Args;
use zydeco_lang::kind::Kind;
use zydeco_lang::span::{span, Name, Span};
use zydeco_lang::term::{
    Alias, Codata, CodataBr, Comatcher, Data, DataBr, DeclSymbol, Define, DefineExt, Literal, Matcher,
    Module, Program, RcComp, RcValue, TermComputation, TermValue,
};
use zydeco_lang::types::{RcType, Type};

fn n(s: &str) -> Name {
    Name::internal(s)
}

fn located(t: Type) -> RcType {
    Rc::new(Span { info: span(0, 0), inner: t })
}

fn v(inner: TermValue) -> RcValue {
    Rc::new(Span { info: span(0, 0), inner })
}

fn c(inner: TermComputation) -> RcComp {
    Rc::new(Span { info: span(0, 0), inner })
}

fn ty(name: &str, args: Vec<RcType>) -> RcType {
    located(Type::internal(name, args))
}

fn var(x: &str) -> RcValue {
    v(TermValue::Var(n(x)))
}

fn num(i: i64) -> RcValue {
    v(TermValue::Literal(Literal::Int(i)))
}

fn flat() -> Args {
    Args { indent: 0 }
}

#[test]
fn values_as_text() {
    assert_eq!(var("x").fmt_args(flat()), "x");
    assert_eq!(num(-3).fmt_args(flat()), "-3");
    assert_eq!(v(TermValue::Literal(Literal::String("hi".to_string()))).fmt_args(flat()), "\"hi\"");
    assert_eq!(v(TermValue::Literal(Literal::Char('c'))).fmt_args(flat()), "'c'");
    assert_eq!(
        v(TermValue::Ctor { ctor: n("Cons"), args: vec![num(1), var("xs")] }).fmt_args(flat()),
        "Cons(1, xs)"
    );
    assert_eq!(v(TermValue::Ctor { ctor: n("Nil"), args: vec![] }).fmt_args(flat()), "Nil()");
    assert_eq!(
        v(TermValue::Thunk(c(TermComputation::Ret(num(1))))).fmt_args(flat()),
        "{ ret 1 }"
    );
    assert_eq!(
        v(TermValue::Annotation { term: num(1), ty: ty("Int", vec![]) }).fmt_args(flat()),
        "(1 : Int)"
    );
    assert_eq!(
        v(TermValue::Pack { ty: ty("Int", vec![]), body: num(1) }).fmt_args(flat()),
        "pack (Int, 1)"
    );
}

#[test]
fn computations_as_text() {
    let ret_x = || c(TermComputation::Ret(var("x")));
    assert_eq!(c(TermComputation::Force(var("f"))).fmt_args(flat()), "! f");
    assert_eq!(
        c(TermComputation::Let { var: n("x"), def: num(1), body: ret_x() }).fmt_args(flat()),
        "let x = 1 in\nret x"
    );
    assert_eq!(
        c(TermComputation::Do { var: n("x"), comp: c(TermComputation::Force(var("f"))), body: ret_x() })
            .fmt_args(Args { indent: 2 }),
        "do x <- ! f ;\n  ret x"
    );
    assert_eq!(
        c(TermComputation::Rec { var: n("r"), body: c(TermComputation::Force(var("r"))) })
            .fmt_args(flat()),
        "rec r -> ! r"
    );
    assert_eq!(
        c(TermComputation::Match {
            scrut: var("l"),
            arms: vec![
                Matcher { ctor: n("Nil"), vars: vec![], body: ret_x() },
                Matcher { ctor: n("Cons"), vars: vec![n("h"), n("t")], body: ret_x() },
            ],
        })
        .fmt_args(flat()),
        "match l | Nil() -> ret x | Cons(h, t) -> ret x end"
    );
    assert_eq!(
        c(TermComputation::Comatch {
            arms: vec![Comatcher { dtor: n("arg"), vars: vec![n("x")], body: ret_x() }],
        })
        .fmt_args(flat()),
        "comatch | .arg(x) -> ret x end"
    );
    assert_eq!(
        c(TermComputation::Dtor {
            body: c(TermComputation::Force(var("f"))),
            dtor: n("arg"),
            args: vec![num(1), num(2)],
        })
        .fmt_args(flat()),
        "! f .arg(1, 2)"
    );
    assert_eq!(
        c(TermComputation::Annotation { term: ret_x(), ty: ty("Ret", vec![ty("Int", vec![])]) })
            .fmt_args(flat()),
        "(ret x : Ret(Int))"
    );
    assert_eq!(
        c(TermComputation::TyAbsTerm { param: (n("a"), Kind::VType), body: ret_x() })
            .fmt_args(flat()),
        "fn (a : VType) -> ret x"
    );
    assert_eq!(
        c(TermComputation::TyAppTerm { body: c(TermComputation::Force(var("f"))), arg: ty("Int", vec![]) })
            .fmt_args(flat()),
        "! f @(Int)"
    );
    assert_eq!(
        c(TermComputation::MatchPack { scrut: var("p"), tvar: n("t"), var: n("x"), body: ret_x() })
            .fmt_args(flat()),
        "match p | pack (t, x) -> ret x end"
    );
}

#[test]
fn line_breaks_carry_the_indentation() {
    assert_eq!(Args { indent: 0 }.br_indent(), "\n");
    assert_eq!(Args { indent: 3 }.br_indent(), "\n   ");
}

fn sample_module(name: Option<&str>) -> Module {
    Module {
        name: name.map(|s| s.to_string()),
        data: vec![DeclSymbol {
            public: true,
            external: false,
            inner: Data {
                name: n("List"),
                params: vec![(n("A"), Kind::VType)],
                ctors: vec![
                    DataBr { ctor: n("Nil"), tys: vec![] },
                    DataBr {
                        ctor: n("Cons"),
                        tys: vec![located(Type::var(n("A"))), ty("List", vec![located(Type::var(n("A")))])],
                    },
                ],
            },
        }],
        codata: vec![DeclSymbol {
            public: false,
            external: false,
            inner: Codata {
                name: n("Pair"),
                params: vec![],
                dtors: vec![
                    CodataBr { dtor: n("fst"), tys: vec![], ty: ty("Ret", vec![ty("Int", vec![])]) },
                    CodataBr { dtor: n("at"), tys: vec![ty("Int", vec![])], ty: ty("OS", vec![]) },
                ],
            },
        }],
        alias: vec![DeclSymbol {
            public: false,
            external: false,
            inner: Alias {
                name: n("Ints"),
                params: vec![],
                ty: ty("List", vec![ty("Int", vec![])]),
            },
        }],
        define: vec![DeclSymbol {
            public: false,
            external: false,
            inner: Define { name: n("one"), def: num(1) },
        }],
        define_ext: vec![DeclSymbol {
            public: true,
            external: true,
            inner: DefineExt { name: n("exit"), ty: ty("Thunk", vec![ty("OS", vec![])]) },
        }],
    }
}

#[test]
fn module_as_text() {
    let expected = "pub data List (A : VType) where | Nil() | Cons(A, List(A)) end\n\
                    codata Pair  where | .fst() : Ret(Int) | .at(Int) : OS end\n\
                    alias Ints  = List(Int) end\n\
                    pub extern exit : Thunk(OS) end\n\
                    define one = 1 end\n";
    assert_eq!(sample_module(None).fmt_args(flat()), expected);
    let named = sample_module(Some("Lib")).fmt_args(flat());
    assert_eq!(named, format!("module Lib where\n{}", expected));
    let empty = Module {
        name: None,
        data: vec![],
        codata: vec![],
        alias: vec![],
        define: vec![],
        define_ext: vec![],
    };
    assert_eq!(empty.fmt_args(flat()), "");
}

#[test]
fn program_as_text() {
    let p = Program {
        module: Span { info: span(0, 0), inner: sample_module(None) },
        entry: Span { info: span(0, 0), inner: TermComputation::Ret(var("one")) },
    };
    let text = p.fmt_args(flat());
    assert!(text.ends_with("define one = 1 end\n\nret one"));
    assert!(text.starts_with("pub data List"));
}
