use std::rc::Rc;
use zydeco_lang::dynamics::builtin::PrimOut;
use zydeco_lang::dynamics::eval::{eval_args, EvalError, Frame, ProgKont, Runtime, Step};
use zydeco_lang::dynamics::os::Os;
use zydeco_lang::dynamics::store::{Env, SemValue};
use zydeco_lang::linked::{
    Comatcher, Matcher, PrimOp, RcComp, RcValue, TermComputation, TermValue,
};
use zydeco_lang::span::Name;
use zydeco_lang::term::Literal;
use zydeco_lang::fmt::{fmt_i64, join_strings, Args};

fn n(s: &str) -> Name {
    Name::internal(s)
}

fn var(x: &str) -> RcValue {
    Rc::new(TermValue::Var(n(x)))
}

fn num(i: i64) -> RcValue {
    Rc::new(TermValue::Literal(Literal::Int(i)))
}

fn ctor(k: &str, args: Vec<RcValue>) -> RcValue {
    Rc::new(TermValue::Ctor { ctor: n(k), args })
}

fn thunk(c: RcComp) -> RcValue {
    Rc::new(TermValue::Thunk(c))
}

fn ret(v: RcValue) -> RcComp {
    Rc::new(TermComputation::Ret(v))
}

fn force(v: RcValue) -> RcComp {
    Rc::new(TermComputation::Force(v))
}

fn dtor(body: RcComp, d: &str, args: Vec<RcValue>) -> RcComp {
    Rc::new(TermComputation::Dtor { body, dtor: n(d), args })
}

fn here() -> Env {
    Env::new().update(&n("here"), SemValue::Literal(Literal::Int(0)))
}

fn empty_os() -> Os {
    Os::new(String::new(), vec![])
}

fn start(c: RcComp) -> Runtime {
    Runtime::new(c, empty_os())
}

fn sem_int(i: i64) -> SemValue {
    SemValue::Literal(Literal::Int(i))
}

fn sem_str(s: &str) -> SemValue {
    SemValue::Literal(Literal::String(s.to_string()))
}

fn a_thunk() -> SemValue {
    SemValue::Thunk { body: ret(num(0)), env: Env::new() }
}

fn as_int(v: &SemValue) -> i64 {
    match v {
        SemValue::Literal(Literal::Int(i)) => *i,
        _ => panic!("not an integer"),
    }
}

fn next(s: Result<Step, EvalError>) -> Runtime {
    match s {
        Ok(Step::Next(r)) => r,
        _ => panic!("no next state"),
    }
}

fn returned_int(out: PrimOut) -> i64 {
    match out {
        PrimOut::Continue(c, env) => match Runtime::new(c, empty_os()).run(10) {
            Ok((ProgKont::Ret(v), _)) => {
                assert!(env.lookup(&n("k")).is_none());
                assert!(env.lookup(&n("here")).is_some());
                as_int(&v)
            }
            _ => panic!("did not return"),
        },
        PrimOut::Exit(code) => panic!("exit {}", code),
    }
}

fn returned_text(out: PrimOut) -> String {
    match out {
        PrimOut::Continue(c, _) => match Runtime::new(c, empty_os()).run(10) {
            Ok((ProgKont::Ret(v), _)) => v.fmt_args(Args { indent: 0 }),
            _ => panic!("did not return"),
        },
        PrimOut::Exit(code) => panic!("exit {}", code),
    }
}

fn exit_of(out: PrimOut) -> i32 {
    match out {
        PrimOut::Exit(code) => code,
        PrimOut::Continue(..) => panic!("goes on"),
    }
}

#[test]
fn environment_is_persistent() {
    let empty = Env::new();
    assert!(empty.lookup(&n("x")).is_none());
    let one = empty.update(&n("x"), sem_int(1));
    let two = one.update(&n("x"), sem_int(2)).update(&n("y"), sem_int(3));
    assert!(empty.lookup(&n("x")).is_none());
    assert_eq!(as_int(one.lookup(&n("x")).unwrap()), 1);
    assert!(one.lookup(&n("y")).is_none());
    assert_eq!(as_int(two.lookup(&n("x")).unwrap()), 2);
    assert_eq!(as_int(two.lookup(&n("y")).unwrap()), 3);
    let copy = two.clone();
    assert_eq!(as_int(copy.lookup(&n("x")).unwrap()), 2);
}

#[test]
fn values_are_evaluated_eagerly() {
    let env = Env::new().update(&n("x"), sem_int(5));
    let v = ctor("Pair", vec![var("x"), ctor("Unit", vec![]), num(7)]);
    match v.eval(&env).unwrap() {
        SemValue::Ctor { ctor, args } => {
            assert_eq!(ctor.name, "Pair");
            assert_eq!(args.len(), 3);
            assert_eq!(as_int(&args[0]), 5);
            assert_eq!(as_int(&args[2]), 7);
        }
        _ => panic!("not a constructor"),
    }
    let e = ctor("Pair", vec![var("x"), var("y"), var("z")]).eval(&env).unwrap_err();
    assert_eq!(e, EvalError::UnboundVar { var: "y".to_string() });
    let vals = eval_args(&vec![num(1), var("x")], &env).unwrap();
    assert_eq!(vals.len(), 2);
    assert_eq!(as_int(&vals[1]), 5);
    assert_eq!(
        eval_args(&vec![var("q"), var("r")], &env).unwrap_err(),
        EvalError::UnboundVar { var: "q".to_string() }
    );
}

#[test]
fn a_thunk_closes_over_its_environment() {
    // let x = 1 in let t = thunk (ret x) in let x = 2 in force t
    let term = Rc::new(TermComputation::Let {
        var: n("x"),
        def: num(1),
        body: Rc::new(TermComputation::Let {
            var: n("t"),
            def: thunk(ret(var("x"))),
            body: Rc::new(TermComputation::Let {
                var: n("x"),
                def: num(2),
                body: force(var("t")),
            }),
        }),
    });
    let (done, _) = start(term).run(100).unwrap();
    match done {
        ProgKont::Ret(v) => assert_eq!(as_int(&v), 1),
        _ => panic!("exited"),
    }
}

#[test]
fn ret_goes_on_in_the_environment_at_hand() {
    // let x = 1 in do y <- (let x = 2 in ret x) ; ret Both(x, y)
    let term = Rc::new(TermComputation::Let {
        var: n("x"),
        def: num(1),
        body: Rc::new(TermComputation::Do {
            var: n("y"),
            comp: Rc::new(TermComputation::Let { var: n("x"), def: num(2), body: ret(var("x")) }),
            body: ret(ctor("Both", vec![var("x"), var("y")])),
        }),
    });
    // the frame of the do holds the computation and the variable, nothing else
    let s1 = next(start(term.clone()).step());
    let s2 = next(s1.step());
    assert_eq!(s2.stack.len(), 1);
    match &s2.stack[0] {
        Frame::Kont(c, x) => {
            assert_eq!(x.name, "y");
            assert!(matches!(**c, TermComputation::Ret(_)));
        }
        _ => panic!("no frame of a do"),
    }
    let (done, _) = start(term).run(100).unwrap();
    match done {
        ProgKont::Ret(SemValue::Ctor { args, .. }) => {
            assert_eq!(as_int(&args[0]), 2);
            assert_eq!(as_int(&args[1]), 2);
        }
        _ => panic!("no pair"),
    }
    // a variable that only the scope of the do held is gone after a thunk was forced
    let lost = Rc::new(TermComputation::Let {
        var: n("t"),
        def: thunk(ret(num(5))),
        body: Rc::new(TermComputation::Let {
            var: n("x"),
            def: num(1),
            body: Rc::new(TermComputation::Do {
                var: n("y"),
                comp: force(var("t")),
                body: ret(var("x")),
            }),
        }),
    });
    assert_eq!(start(lost).run(100).unwrap_err(), EvalError::UnboundVar { var: "x".to_string() });
}

#[test]
fn transitions_one_by_one() {
    // do x <- ret 1 ; ret x
    let term = Rc::new(TermComputation::Do { var: n("x"), comp: ret(num(1)), body: ret(var("x")) });
    let s1 = next(start(term).step());
    assert_eq!(s1.stack.len(), 1);
    assert!(matches!(s1.stack[0], Frame::Kont(..)));
    assert!(matches!(*s1.comp, TermComputation::Ret(_)));
    let s2 = next(s1.step());
    assert_eq!(s2.stack.len(), 0);
    assert_eq!(as_int(s2.env.lookup(&n("x")).unwrap()), 1);
    match s2.step() {
        Ok(Step::Done(ProgKont::Ret(v), _)) => assert_eq!(as_int(&v), 1),
        _ => panic!("not done"),
    }
}

#[test]
fn match_takes_the_first_arm_with_the_tag() {
    let arms = vec![
        Matcher { ctor: n("A"), vars: vec![], body: ret(num(1)) },
        Matcher { ctor: n("B"), vars: vec![n("x"), n("y")], body: ret(var("y")) },
        Matcher { ctor: n("B"), vars: vec![n("x"), n("y")], body: ret(var("x")) },
    ];
    let term =
        Rc::new(TermComputation::Match { scrut: ctor("B", vec![num(10), num(20)]), arms });
    match start(term).run(10).unwrap().0 {
        ProgKont::Ret(v) => assert_eq!(as_int(&v), 20),
        _ => panic!("exited"),
    }
}

#[test]
fn runtime_errors() {
    assert_eq!(
        start(ret(var("x"))).step().unwrap_err(),
        EvalError::UnboundVar { var: "x".to_string() }
    );
    assert_eq!(start(force(num(1))).step().unwrap_err(), EvalError::ForceOnNonThunk);
    let on_int = Rc::new(TermComputation::Match { scrut: num(1), arms: vec![] });
    assert_eq!(start(on_int).step().unwrap_err(), EvalError::MatchOnNonCtor);
    let no_arm = Rc::new(TermComputation::Match { scrut: ctor("A", vec![]), arms: vec![] });
    assert_eq!(start(no_arm).step().unwrap_err(), EvalError::UnknownArm);
    let comatch = || Rc::new(TermComputation::Comatch {
        arms: vec![Comatcher { dtor: n("d"), vars: vec![], body: ret(num(1)) }],
    });
    assert_eq!(start(comatch()).step().unwrap_err(), EvalError::CoMatchOnNonDtor);
    let after_do =
        Rc::new(TermComputation::Do { var: n("x"), comp: comatch(), body: ret(var("x")) });
    assert_eq!(start(after_do).run(10).unwrap_err(), EvalError::CoMatchOnNonDtor);
    assert_eq!(
        start(dtor(comatch(), "e", vec![])).run(10).unwrap_err(),
        EvalError::UnknownArm
    );
    assert_eq!(
        start(dtor(ret(num(1)), "d", vec![])).run(10).unwrap_err(),
        EvalError::KontNotAtStackTop
    );
    let prim = || Rc::new(TermComputation::Prim { arity: 2, body: PrimOp::Add });
    assert_eq!(
        start(prim()).step().unwrap_err(),
        EvalError::PrimFailure { message: "prim on non-dtor".to_string() }
    );
    assert_eq!(
        start(dtor(prim(), "arg", vec![num(1)])).run(10).unwrap_err(),
        EvalError::PrimFailure { message: "prim on non-dtor".to_string() }
    );
    assert_eq!(
        start(dtor(dtor(prim(), "arg", vec![]), "arg", vec![num(1)])).run(10).unwrap_err(),
        EvalError::PrimFailure { message: "prim on non-dtor".to_string() }
    );
    assert_eq!(start(ret(num(1))).run(0).unwrap_err(), EvalError::StepBudgetExceeded);
}

#[test]
fn a_primitive_takes_its_arguments_in_the_order_of_application() {
    let sub = Rc::new(TermComputation::Prim { arity: 2, body: PrimOp::Sub });
    let term = dtor(dtor(sub, "arg", vec![num(10)]), "arg", vec![num(3)]);
    match start(term).run(10).unwrap().0 {
        ProgKont::Ret(v) => assert_eq!(as_int(&v), 7),
        _ => panic!("exited"),
    }
}

#[test]
fn integer_primitives() {
    let os = empty_os;
    assert_eq!(returned_int(PrimOp::Add.apply(vec![sem_int(2), sem_int(3)], os(), here()).0), 5);
    assert_eq!(returned_int(PrimOp::Sub.apply(vec![sem_int(2), sem_int(3)], os(), here()).0), -1);
    assert_eq!(returned_int(PrimOp::Mul.apply(vec![sem_int(-4), sem_int(3)], os(), here()).0), -12);
    assert_eq!(exit_of(PrimOp::Add.apply(vec![sem_int(i64::MAX), sem_int(1)], os(), here()).0), 1);
    assert_eq!(exit_of(PrimOp::Sub.apply(vec![sem_int(i64::MIN), sem_int(1)], os(), here()).0), 1);
    assert_eq!(exit_of(PrimOp::Mul.apply(vec![sem_int(i64::MAX), sem_int(2)], os(), here()).0), 1);
    assert_eq!(
        returned_int(PrimOp::Add.apply(vec![sem_int(i64::MAX), sem_int(0)], os(), here()).0),
        i64::MAX
    );
    assert_eq!(returned_text(PrimOp::IntEq.apply(vec![sem_int(2), sem_int(2)], os(), here()).0), "True()");
    assert_eq!(returned_text(PrimOp::IntEq.apply(vec![sem_int(2), sem_int(3)], os(), here()).0), "False()");
    assert_eq!(returned_text(PrimOp::IntLt.apply(vec![sem_int(2), sem_int(3)], os(), here()).0), "True()");
    assert_eq!(returned_text(PrimOp::IntLt.apply(vec![sem_int(3), sem_int(3)], os(), here()).0), "False()");
    assert_eq!(returned_text(PrimOp::IntGt.apply(vec![sem_int(4), sem_int(3)], os(), here()).0), "True()");
    assert_eq!(returned_text(PrimOp::IntGt.apply(vec![sem_int(2), sem_int(3)], os(), here()).0), "False()");
    // wrong arguments
    assert_eq!(exit_of(PrimOp::Add.apply(vec![sem_int(2)], os(), here()).0), 1);
    assert_eq!(exit_of(PrimOp::Add.apply(vec![sem_int(2), sem_str("3")], os(), here()).0), 1);
    assert_eq!(exit_of(PrimOp::IntEq.apply(vec![sem_str("2"), sem_int(3)], os(), here()).0), 1);
}

#[test]
fn string_primitives() {
    let os = empty_os;
    assert_eq!(
        returned_text(PrimOp::StrAppend.apply(vec![sem_str("ab"), sem_str("cd")], os(), here()).0),
        "\"abcd\""
    );
    assert_eq!(returned_int(PrimOp::StrLength.apply(vec![sem_str("")], os(), here()).0), 0);
    assert_eq!(returned_int(PrimOp::StrLength.apply(vec![sem_str("héllo")], os(), here()).0), 5);
    assert_eq!(
        returned_text(PrimOp::StrEq.apply(vec![sem_str("a"), sem_str("a")], os(), here()).0),
        "True()"
    );
    assert_eq!(
        returned_text(PrimOp::StrEq.apply(vec![sem_str("a"), sem_str("b")], os(), here()).0),
        "False()"
    );
    assert_eq!(
        returned_text(PrimOp::StrIndex.apply(vec![sem_str("héllo"), sem_int(1)], os(), here()).0),
        "'é'"
    );
    assert_eq!(exit_of(PrimOp::StrIndex.apply(vec![sem_str("abc"), sem_int(3)], os(), here()).0), 1);
    assert_eq!(exit_of(PrimOp::StrIndex.apply(vec![sem_str("abc"), sem_int(-1)], os(), here()).0), 1);
    assert_eq!(
        returned_text(
            PrimOp::CharToStr.apply(vec![SemValue::Literal(Literal::Char('z'))], os(), here()).0
        ),
        "\"z\""
    );
    assert_eq!(
        returned_text(PrimOp::IntToStr.apply(vec![sem_int(-120)], os(), here()).0),
        "\"-120\""
    );
    assert_eq!(exit_of(PrimOp::StrLength.apply(vec![sem_int(1)], os(), here()).0), 1);
    assert_eq!(exit_of(PrimOp::CharToStr.apply(vec![sem_str("z")], os(), here()).0), 1);
}

#[test]
fn operating_system_primitives() {
    let os = Os::new("one\ntwo".to_string(), vec!["a".to_string(), "b".to_string()]);
    let (out, os) = PrimOp::WriteStr.apply(vec![sem_str("hi "), a_thunk()], os, here());
    assert_eq!(os.output, "hi ");
    match out {
        PrimOut::Continue(c, env) => {
            assert!(matches!(*c, TermComputation::Force(_)));
            assert!(matches!(env.lookup(&n("k")), Some(SemValue::Thunk { .. })));
            assert!(env.lookup(&n("here")).is_some());
        }
        _ => panic!("exited"),
    }
    let (_, os) = PrimOp::WriteStr.apply(vec![sem_str("there"), a_thunk()], os, here());
    assert_eq!(os.output, "hi there");
    let (out, os) = PrimOp::ReadLine.apply(vec![a_thunk()], os, here());
    assert_eq!(os.pos, 4);
    match out {
        PrimOut::Continue(c, _) => match &*c {
            TermComputation::Dtor { dtor, args, .. } => {
                assert_eq!(dtor.name, "arg");
                assert_eq!(*args[0], TermValue::Literal(Literal::String("one\n".to_string())));
            }
            _ => panic!("no application"),
        },
        _ => panic!("exited"),
    }
    let (out, os) = PrimOp::ReadLine.apply(vec![a_thunk()], os, here());
    assert_eq!(os.pos, 7);
    match out {
        PrimOut::Continue(c, _) => match &*c {
            TermComputation::Dtor { args, .. } => {
                assert_eq!(*args[0], TermValue::Literal(Literal::String("two".to_string())));
            }
            _ => panic!("no application"),
        },
        _ => panic!("exited"),
    }
    let (out, os) = PrimOp::ReadLine.apply(vec![a_thunk()], os, here());
    assert_eq!(os.pos, 7);
    match out {
        PrimOut::Continue(c, _) => match &*c {
            TermComputation::Dtor { args, .. } => {
                assert_eq!(*args[0], TermValue::Literal(Literal::String(String::new())));
            }
            _ => panic!("no application"),
        },
        _ => panic!("exited"),
    }
    let (out, os) = PrimOp::ArgList.apply(vec![a_thunk()], os, here());
    match out {
        PrimOut::Continue(c, _) => match &*c {
            TermComputation::Dtor { args, .. } => {
                let list = args[0].eval(&Env::new()).unwrap();
                assert_eq!(
                    list.fmt_args(Args { indent: 0 }),
                    "Cons(\"a\", Cons(\"b\", Nil()))"
                );
            }
            _ => panic!("no application"),
        },
        _ => panic!("exited"),
    }
    assert_eq!(exit_of(PrimOp::Exit.apply(vec![sem_int(3)], empty_os(), here()).0), 3);
    assert_eq!(exit_of(PrimOp::Exit.apply(vec![sem_int(-3)], empty_os(), here()).0), -3);
    assert_eq!(exit_of(PrimOp::Exit.apply(vec![sem_int(1 << 40)], empty_os(), here()).0), 1);
    assert_eq!(exit_of(PrimOp::WriteStr.apply(vec![sem_str("x"), sem_int(1)], os, here()).0), 1);
    assert_eq!(exit_of(PrimOp::ReadLine.apply(vec![sem_int(1)], empty_os(), here()).0), 1);
}

#[test]
fn primitives_are_registered_by_name() {
    assert_eq!(PrimOp::lookup(&n("add")), Some(PrimOp::Add));
    assert_eq!(PrimOp::lookup(&n("write_str")), Some(PrimOp::WriteStr));
    assert_eq!(PrimOp::lookup(&n("read_line")), Some(PrimOp::ReadLine));
    assert_eq!(PrimOp::lookup(&n("arg_list")), Some(PrimOp::ArgList));
    assert_eq!(PrimOp::lookup(&n("exit")), Some(PrimOp::Exit));
    assert_eq!(PrimOp::lookup(&n("Add")), None);
    assert_eq!(PrimOp::Add.arity(), 2);
    assert_eq!(PrimOp::WriteStr.arity(), 2);
    assert_eq!(PrimOp::Exit.arity(), 1);
    match PrimOp::Mul.value() {
        TermValue::Thunk(c) => {
            assert_eq!(*c, TermComputation::Prim { arity: 2, body: PrimOp::Mul })
        }
        _ => panic!("not a thunk"),
    }
}

#[test]
fn reading_lines() {
    let mut os = Os::new("a\n\nbc".to_string(), vec![]);
    assert_eq!(os.read_line(), "a\n");
    assert_eq!(os.read_line(), "\n");
    assert_eq!(os.read_line(), "bc");
    assert_eq!(os.read_line(), "");
    os.write("x");
    os.write("yz");
    assert_eq!(os.output, "xyz");
    os.pos = 100;
    assert_eq!(os.read_line(), "");
}

#[test]
fn signed_numbers_and_joined_texts() {
    assert_eq!(fmt_i64(0), "0");
    assert_eq!(fmt_i64(-1), "-1");
    assert_eq!(fmt_i64(i64::MAX), "9223372036854775807");
    assert_eq!(fmt_i64(i64::MIN), "-9223372036854775808");
    assert_eq!(join_strings(&vec![], ", "), "");
    assert_eq!(join_strings(&vec!["a".to_string()], ", "), "a");
    assert_eq!(join_strings(&vec!["a".to_string(), "b".to_string(), "c".to_string()], ", "), "a, b, c");
}
