//! The primitives, as the machine calls them.

use vstd::prelude::*;
use std::rc::Rc;
use crate::dynamics::os::Os;
use crate::dynamics::prim;
use crate::dynamics::prim::PrimOutM;
use crate::dynamics::store::{Env, SemM, SemValue};
use crate::linked::{
    CompM, LiteralM, PrimOp, RcComp, RcValue, TermComputation, TermValue, ValM,
};
use crate::span::Name;
use crate::term::Literal;

verus! {

/// What a primitive gives back.
#[derive(Debug)]
pub enum PrimOut {
    /// The computation to go on with and the environment to run it in.
    Continue(RcComp, Env),
    /// The exit code that ends the program.
    Exit(i32),
}

impl View for PrimOut {
    type V = PrimOutM;

    open spec fn view(&self) -> PrimOutM {
        match *self {
            PrimOut::Continue(c, env) => PrimOutM::Continue(c@, env@),
            PrimOut::Exit(code) => PrimOutM::Exit(code as int),
        }
    }
}

/// The mathematical values of a sequence of runtime values held by value.
pub open spec fn owned_sems_model(s: Seq<SemValue>) -> Seq<SemM> {
    Seq::new(s.len(), |i: int| s[i]@)
}

/// The computation that returns the literal `l`.
fn ret_literal(l: Literal, env: Env) -> (r: PrimOut)
    ensures
        r@ == prim::ret_literal(l@, env@),
{
    let v = TermValue::Literal(l);
    assert(v@ == ValM::Literal(l@));
    let c = TermComputation::Ret(Rc::new(v));
    assert(c@ == CompM::Ret(Box::new(v@)));
    PrimOut::Continue(Rc::new(c), env)
}

/// The computation that returns a truth value.
fn ret_bool(b: bool, env: Env) -> (r: PrimOut)
    ensures
        r@ == prim::ret_bool(b, env@),
{
    let ctor = if b {
        Name::internal("True")
    } else {
        Name::internal("False")
    };
    let args: Vec<RcValue> = Vec::new();
    assert(crate::linked::vals_model(args@) =~= Seq::empty());
    let v = TermValue::Ctor { ctor, args };
    assert(v@ == ValM::Ctor(ctor@, Seq::empty()));
    let c = TermComputation::Ret(Rc::new(v));
    assert(c@ == CompM::Ret(Box::new(v@)));
    PrimOut::Continue(Rc::new(c), env)
}

/// The outcome of an operation on integers that may leave their range.
fn ret_checked(i: Option<i64>, Ghost(exact): Ghost<int>, env: Env) -> (r: PrimOut)
    requires
        i == (if i64::MIN <= exact <= i64::MAX {
            Some(exact as i64)
        } else {
            None
        }),
    ensures
        r@ == prim::ret_int(exact, env@),
{
    match i {
        Some(i) => ret_literal(Literal::Int(i), env),
        None => PrimOut::Exit(1),
    }
}

/// The environment `env` with the variable `k` bound to `k`.
fn kont_env(k: SemValue, env: Env) -> (r: Env)
    ensures
        r@ == prim::kont_env(k@, env@),
{
    env.update(&Name::internal("k"), k)
}

/// The computation `force k`.
fn force_k() -> (r: TermComputation)
    ensures
        r@ == prim::force_k(),
{
    let v = TermValue::Var(Name::internal("k"));
    assert(v@ == ValM::Var("k"@));
    let c = TermComputation::Force(Rc::new(v));
    assert(c@ == CompM::Force(Box::new(v@)));
    c
}

/// The computation that applies `force k` to the value term `v`.
fn apply_k(v: TermValue) -> (r: TermComputation)
    ensures
        r@ == prim::apply_k(v@),
{
    let ghost vm = v@;
    let mut args: Vec<RcValue> = Vec::new();
    args.push(Rc::new(v));
    assert(crate::linked::vals_model(args@) =~= seq![vm]);
    let body = force_k();
    let r = TermComputation::Dtor { body: Rc::new(body), dtor: Name::internal("arg"), args };
    assert(r@ == CompM::Dtor(Box::new(body@), "arg"@, seq![vm]));
    r
}

/// The list of the strings `s`, as a value term.
fn string_list(s: &Vec<String>) -> (r: TermValue)
    ensures
        r@ == prim::string_list(crate::dynamics::os::strings_model(s@)),
{
    let ghost texts = crate::dynamics::os::strings_model(s@);
    let none: Vec<RcValue> = Vec::new();
    assert(crate::linked::vals_model(none@) =~= Seq::empty());
    let nil = TermValue::Ctor { ctor: Name::internal("Nil"), args: none };
    assert(nil@ == ValM::Ctor("Nil"@, Seq::empty()));
    let mut acc = nil;
    let mut i: usize = s.len();
    assert(texts.skip(s.len() as int) =~= Seq::empty());
    while i > 0
        invariant
            i <= s.len(),
            texts == crate::dynamics::os::strings_model(s@),
            acc@ == prim::string_list(texts.skip(i as int)),
        decreases i,
    {
        i -= 1;
        let ghost tail = acc@;
        let head = TermValue::Literal(Literal::String(s[i].clone()));
        assert(head@ == ValM::Literal(LiteralM::String(texts[i as int])));
        let mut args: Vec<RcValue> = Vec::new();
        args.push(Rc::new(head));
        args.push(Rc::new(acc));
        assert(crate::linked::vals_model(args@) =~= seq![head@, tail]);
        acc = TermValue::Ctor { ctor: Name::internal("Cons"), args };
        assert(acc@ == ValM::Ctor("Cons"@, seq![head@, tail]));
        assert(texts.skip(i as int).skip(1) =~= texts.skip(i + 1));
    }
    assert(texts.skip(0) =~= texts);
    acc
}

impl PrimOp {
    /// The primitive registered under `name`, if there is one.
    pub fn lookup(name: &Name) -> (r: Option<PrimOp>)
        ensures
            r == prim::prim_named(name@),
    {
        if name.is("add") {
            Some(PrimOp::Add)
        } else if name.is("sub") {
            Some(PrimOp::Sub)
        } else if name.is("mul") {
            Some(PrimOp::Mul)
        } else if name.is("int_eq") {
            Some(PrimOp::IntEq)
        } else if name.is("int_lt") {
            Some(PrimOp::IntLt)
        } else if name.is("int_gt") {
            Some(PrimOp::IntGt)
        } else if name.is("str_append") {
            Some(PrimOp::StrAppend)
        } else if name.is("str_length") {
            Some(PrimOp::StrLength)
        } else if name.is("str_eq") {
            Some(PrimOp::StrEq)
        } else if name.is("str_index") {
            Some(PrimOp::StrIndex)
        } else if name.is("char_to_str") {
            Some(PrimOp::CharToStr)
        } else if name.is("int_to_str") {
            Some(PrimOp::IntToStr)
        } else if name.is("write_str") {
            Some(PrimOp::WriteStr)
        } else if name.is("read_line") {
            Some(PrimOp::ReadLine)
        } else if name.is("arg_list") {
            Some(PrimOp::ArgList)
        } else if name.is("exit") {
            Some(PrimOp::Exit)
        } else {
            None
        }
    }

    /// Applies the primitive to the arguments `args` with the operating
    /// system `os`, in the environment `env`.
    pub fn apply(self, args: Vec<SemValue>, os: Os, env: Env) -> (r: (PrimOut, Os))
        ensures
            (r.0@, r.1@) == prim::prim(self, owned_sems_model(args@), os@, env@),
    {
        let mut os = os;
        if args.len() != self.arity() {
            return (PrimOut::Exit(1), os);
        }
        let out = match self {
            PrimOp::Add => match (&args[0], &args[1]) {
                (SemValue::Literal(Literal::Int(a)), SemValue::Literal(Literal::Int(b))) => {
                    ret_checked(a.checked_add(*b), Ghost(*a + *b), env)
                },
                _ => PrimOut::Exit(1),
            },
            PrimOp::Sub => match (&args[0], &args[1]) {
                (SemValue::Literal(Literal::Int(a)), SemValue::Literal(Literal::Int(b))) => {
                    ret_checked(a.checked_sub(*b), Ghost(*a - *b), env)
                },
                _ => PrimOut::Exit(1),
            },
            PrimOp::Mul => match (&args[0], &args[1]) {
                (SemValue::Literal(Literal::Int(a)), SemValue::Literal(Literal::Int(b))) => {
                    ret_checked(a.checked_mul(*b), Ghost(*a * *b), env)
                },
                _ => PrimOut::Exit(1),
            },
            PrimOp::IntEq => match (&args[0], &args[1]) {
                (SemValue::Literal(Literal::Int(a)), SemValue::Literal(Literal::Int(b))) => {
                    ret_bool(*a == *b, env)
                },
                _ => PrimOut::Exit(1),
            },
            PrimOp::IntLt => match (&args[0], &args[1]) {
                (SemValue::Literal(Literal::Int(a)), SemValue::Literal(Literal::Int(b))) => {
                    ret_bool(*a < *b, env)
                },
                _ => PrimOut::Exit(1),
            },
            PrimOp::IntGt => match (&args[0], &args[1]) {
                (SemValue::Literal(Literal::Int(a)), SemValue::Literal(Literal::Int(b))) => {
                    ret_bool(*a > *b, env)
                },
                _ => PrimOut::Exit(1),
            },
            PrimOp::StrAppend => match (&args[0], &args[1]) {
                (
                    SemValue::Literal(Literal::String(a)),
                    SemValue::Literal(Literal::String(b)),
                ) => {
                    let mut s = a.clone();
                    vstd::string::StringExecFns::append(&mut s, b.as_str());
                    ret_literal(Literal::String(s), env)
                },
                _ => PrimOut::Exit(1),
            },
            PrimOp::StrEq => match (&args[0], &args[1]) {
                (
                    SemValue::Literal(Literal::String(a)),
                    SemValue::Literal(Literal::String(b)),
                ) => { ret_bool(*a == *b, env) },
                _ => PrimOut::Exit(1),
            },
            PrimOp::StrIndex => match (&args[0], &args[1]) {
                (SemValue::Literal(Literal::String(a)), SemValue::Literal(Literal::Int(i))) => {
                    let len = vstd::string::StrSliceExecFns::unicode_len(a.as_str());
                    if *i >= 0 && (*i as u64) < (len as u64) {
                        let c = vstd::string::StrSliceExecFns::get_char(a.as_str(), *i as usize);
                        ret_literal(Literal::Char(c), env)
                    } else {
                        PrimOut::Exit(1)
                    }
                },
                _ => PrimOut::Exit(1),
            },
            PrimOp::StrLength => match &args[0] {
                SemValue::Literal(Literal::String(a)) => {
                    let len = vstd::string::StrSliceExecFns::unicode_len(a.as_str());
                    if (len as u64) <= (i64::MAX as u64) {
                        ret_literal(Literal::Int(len as i64), env)
                    } else {
                        PrimOut::Exit(1)
                    }
                },
                _ => PrimOut::Exit(1),
            },
            PrimOp::CharToStr => match &args[0] {
                SemValue::Literal(Literal::Char(c)) => {
                    ret_literal(Literal::String(crate::sharing::char_to_string(*c)), env)
                },
                _ => PrimOut::Exit(1),
            },
            PrimOp::IntToStr => match &args[0] {
                SemValue::Literal(Literal::Int(i)) => ret_literal(Literal::String(crate::fmt::fmt_i64(*i)), env),
                _ => PrimOut::Exit(1),
            },
            PrimOp::WriteStr => match (&args[0], &args[1]) {
                (SemValue::Literal(Literal::String(s)), SemValue::Thunk { .. }) => {
                    os.write(s.as_str());
                    PrimOut::Continue(Rc::new(force_k()), kont_env(args[1].clone(), env))
                },
                _ => PrimOut::Exit(1),
            },
            PrimOp::ReadLine => match &args[0] {
                SemValue::Thunk { .. } => {
                    let line = os.read_line();
                    PrimOut::Continue(
                        Rc::new(apply_k(TermValue::Literal(Literal::String(line)))),
                        kont_env(args[0].clone(), env),
                    )
                },
                _ => PrimOut::Exit(1),
            },
            PrimOp::ArgList => match &args[0] {
                SemValue::Thunk { .. } => {
                    PrimOut::Continue(
                        Rc::new(apply_k(string_list(&os.args))),
                        kont_env(args[0].clone(), env),
                    )
                },
                _ => PrimOut::Exit(1),
            },
            PrimOp::Exit => match &args[0] {
                SemValue::Literal(Literal::Int(i)) => {
                    if -2147483648 <= *i && *i <= 2147483647 {
                        PrimOut::Exit(*i as i32)
                    } else {
                        PrimOut::Exit(1)
                    }
                },
                _ => PrimOut::Exit(1),
            },
        };
        (out, os)
    }
}

} // verus!
