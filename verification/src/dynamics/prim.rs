//! The primitives: arithmetic and comparison of integers, operations on
//! strings, and the operations of the virtual operating system.
//!
//! A primitive is given the values of its arguments, the operating system
//! and the environment at hand. It gives back the computation to go on
//! with and the environment to run it in, or the exit code that ends the
//! program. The environment is the one at hand; a primitive that takes a
//! continuation binds the variable `k` to it there. A primitive that
//! is given arguments it has no meaning for ends the program with the exit
//! code 1.

use vstd::prelude::*;
use crate::dynamics::os::OsM;
use crate::dynamics::store::{EnvM, SemM};
use crate::linked::{CompM, LiteralM, PrimOp, ValM};

verus! {

/// What a primitive gives back.
pub enum PrimOutM {
    /// The computation to go on with and the environment to run it in.
    Continue(CompM, EnvM),
    /// The exit code that ends the program.
    Exit(int),
}

impl PrimOp {
    /// How many arguments the primitive takes.
    pub open spec fn spec_arity(self) -> nat {
        match self {
            PrimOp::Add | PrimOp::Sub | PrimOp::Mul => 2,
            PrimOp::IntEq | PrimOp::IntLt | PrimOp::IntGt => 2,
            PrimOp::StrAppend | PrimOp::StrEq | PrimOp::StrIndex => 2,
            PrimOp::StrLength | PrimOp::CharToStr | PrimOp::IntToStr => 1,
            PrimOp::WriteStr => 2,
            PrimOp::ReadLine | PrimOp::ArgList | PrimOp::Exit => 1,
        }
    }

    /// How many arguments the primitive takes.
    pub fn arity(self) -> (r: usize)
        ensures
            r == self.spec_arity(),
    {
        match self {
            PrimOp::Add | PrimOp::Sub | PrimOp::Mul => 2,
            PrimOp::IntEq | PrimOp::IntLt | PrimOp::IntGt => 2,
            PrimOp::StrAppend | PrimOp::StrEq | PrimOp::StrIndex => 2,
            PrimOp::StrLength | PrimOp::CharToStr | PrimOp::IntToStr => 1,
            PrimOp::WriteStr => 2,
            PrimOp::ReadLine | PrimOp::ArgList | PrimOp::Exit => 1,
        }
    }
}

/// The primitive registered under `name`, if there is one.
pub open spec fn prim_named(name: Seq<char>) -> Option<PrimOp> {
    if name == "add"@ {
        Some(PrimOp::Add)
    } else if name == "sub"@ {
        Some(PrimOp::Sub)
    } else if name == "mul"@ {
        Some(PrimOp::Mul)
    } else if name == "int_eq"@ {
        Some(PrimOp::IntEq)
    } else if name == "int_lt"@ {
        Some(PrimOp::IntLt)
    } else if name == "int_gt"@ {
        Some(PrimOp::IntGt)
    } else if name == "str_append"@ {
        Some(PrimOp::StrAppend)
    } else if name == "str_length"@ {
        Some(PrimOp::StrLength)
    } else if name == "str_eq"@ {
        Some(PrimOp::StrEq)
    } else if name == "str_index"@ {
        Some(PrimOp::StrIndex)
    } else if name == "char_to_str"@ {
        Some(PrimOp::CharToStr)
    } else if name == "int_to_str"@ {
        Some(PrimOp::IntToStr)
    } else if name == "write_str"@ {
        Some(PrimOp::WriteStr)
    } else if name == "read_line"@ {
        Some(PrimOp::ReadLine)
    } else if name == "arg_list"@ {
        Some(PrimOp::ArgList)
    } else if name == "exit"@ {
        Some(PrimOp::Exit)
    } else {
        None
    }
}

/// The computation that returns the literal `l`.
pub open spec fn ret_literal(l: LiteralM, env: EnvM) -> PrimOutM {
    PrimOutM::Continue(CompM::Ret(Box::new(ValM::Literal(l))), env)
}

/// The computation that returns a truth value: the constructor `True` or
/// the constructor `False`, applied to nothing.
pub open spec fn ret_bool(b: bool, env: EnvM) -> PrimOutM {
    PrimOutM::Continue(
        CompM::Ret(
            Box::new(
                ValM::Ctor(
                    if b {
                        "True"@
                    } else {
                        "False"@
                    },
                    Seq::empty(),
                ),
            ),
        ),
        env,
    )
}

/// The computation that returns the integer `i`, if `i` is in the range of
/// the integers of the machine; the exit code 1 otherwise.
pub open spec fn ret_int(i: int, env: EnvM) -> PrimOutM {
    if i64::MIN <= i <= i64::MAX {
        ret_literal(LiteralM::Int(i), env)
    } else {
        PrimOutM::Exit(1)
    }
}

/// The environment `env` with the variable `k` bound to `k`.
pub open spec fn kont_env(k: SemM, env: EnvM) -> EnvM {
    env.insert("k"@, k)
}

/// The computation `force k`.
pub open spec fn force_k() -> CompM {
    CompM::Force(Box::new(ValM::Var("k"@)))
}

/// The computation that applies `force k` to the value term `v`.
pub open spec fn apply_k(v: ValM) -> CompM {
    CompM::Dtor(Box::new(force_k()), "arg"@, seq![v])
}

/// The list of the strings `s`, as a value term: `Cons` of a string and a
/// list, or `Nil`.
pub open spec fn string_list(s: Seq<Seq<char>>) -> ValM
    decreases s.len(),
{
    if s.len() == 0 {
        ValM::Ctor("Nil"@, Seq::empty())
    } else {
        ValM::Ctor(
            "Cons"@,
            seq![ValM::Literal(LiteralM::String(s[0])), string_list(s.skip(1))],
        )
    }
}

/// A signed number in decimal.
pub open spec fn signed_decimal(i: int) -> Seq<char> {
    if i < 0 {
        seq!['-'] + crate::fmt::decimal((-i) as nat)
    } else {
        crate::fmt::decimal(i as nat)
    }
}

/// What the primitive `op` does with the arguments `args` and the
/// operating system `os`, in the environment `env`.
pub open spec fn prim(op: PrimOp, args: Seq<SemM>, os: OsM, env: EnvM) -> (PrimOutM, OsM) {
    if args.len() != op.spec_arity() {
        (PrimOutM::Exit(1), os)
    } else {
        match op {
            PrimOp::Add => match (args[0], args[1]) {
                (SemM::Literal(LiteralM::Int(a)), SemM::Literal(LiteralM::Int(b))) => (
                    ret_int(a + b, env),
                    os,
                ),
                _ => (PrimOutM::Exit(1), os),
            },
            PrimOp::Sub => match (args[0], args[1]) {
                (SemM::Literal(LiteralM::Int(a)), SemM::Literal(LiteralM::Int(b))) => (
                    ret_int(a - b, env),
                    os,
                ),
                _ => (PrimOutM::Exit(1), os),
            },
            PrimOp::Mul => match (args[0], args[1]) {
                (SemM::Literal(LiteralM::Int(a)), SemM::Literal(LiteralM::Int(b))) => (
                    ret_int(a * b, env),
                    os,
                ),
                _ => (PrimOutM::Exit(1), os),
            },
            PrimOp::IntEq => match (args[0], args[1]) {
                (SemM::Literal(LiteralM::Int(a)), SemM::Literal(LiteralM::Int(b))) => (
                    ret_bool(a == b, env),
                    os,
                ),
                _ => (PrimOutM::Exit(1), os),
            },
            PrimOp::IntLt => match (args[0], args[1]) {
                (SemM::Literal(LiteralM::Int(a)), SemM::Literal(LiteralM::Int(b))) => (
                    ret_bool(a < b, env),
                    os,
                ),
                _ => (PrimOutM::Exit(1), os),
            },
            PrimOp::IntGt => match (args[0], args[1]) {
                (SemM::Literal(LiteralM::Int(a)), SemM::Literal(LiteralM::Int(b))) => (
                    ret_bool(a > b, env),
                    os,
                ),
                _ => (PrimOutM::Exit(1), os),
            },
            PrimOp::StrAppend => match (args[0], args[1]) {
                (SemM::Literal(LiteralM::String(a)), SemM::Literal(LiteralM::String(b))) => (
                    ret_literal(LiteralM::String(a + b), env),
                    os,
                ),
                _ => (PrimOutM::Exit(1), os),
            },
            PrimOp::StrEq => match (args[0], args[1]) {
                (SemM::Literal(LiteralM::String(a)), SemM::Literal(LiteralM::String(b))) => (
                    ret_bool(a == b, env),
                    os,
                ),
                _ => (PrimOutM::Exit(1), os),
            },
            PrimOp::StrIndex => match (args[0], args[1]) {
                (SemM::Literal(LiteralM::String(a)), SemM::Literal(LiteralM::Int(i))) => if 0 <= i
                    < a.len() {
                    (ret_literal(LiteralM::Char(a[i]), env), os)
                } else {
                    (PrimOutM::Exit(1), os)
                },
                _ => (PrimOutM::Exit(1), os),
            },
            PrimOp::StrLength => match args[0] {
                SemM::Literal(LiteralM::String(a)) => (ret_int(a.len() as int, env), os),
                _ => (PrimOutM::Exit(1), os),
            },
            PrimOp::CharToStr => match args[0] {
                SemM::Literal(LiteralM::Char(c)) => (ret_literal(LiteralM::String(seq![c]), env), os),
                _ => (PrimOutM::Exit(1), os),
            },
            PrimOp::IntToStr => match args[0] {
                SemM::Literal(LiteralM::Int(i)) => (
                    ret_literal(LiteralM::String(signed_decimal(i)), env),
                    os,
                ),
                _ => (PrimOutM::Exit(1), os),
            },
            PrimOp::WriteStr => match (args[0], args[1]) {
                (SemM::Literal(LiteralM::String(s)), SemM::Thunk(..)) => (
                    PrimOutM::Continue(force_k(), kont_env(args[1], env)),
                    os.after_write(s),
                ),
                _ => (PrimOutM::Exit(1), os),
            },
            PrimOp::ReadLine => match args[0] {
                SemM::Thunk(..) => (
                    PrimOutM::Continue(
                        apply_k(ValM::Literal(LiteralM::String(os.next_line()))),
                        kont_env(args[0], env),
                    ),
                    os.after_line(),
                ),
                _ => (PrimOutM::Exit(1), os),
            },
            PrimOp::ArgList => match args[0] {
                SemM::Thunk(..) => (
                    PrimOutM::Continue(apply_k(string_list(os.args)), kont_env(args[0], env)),
                    os,
                ),
                _ => (PrimOutM::Exit(1), os),
            },
            PrimOp::Exit => match args[0] {
                SemM::Literal(LiteralM::Int(i)) => if i32::MIN <= i <= i32::MAX {
                    (PrimOutM::Exit(i), os)
                } else {
                    (PrimOutM::Exit(1), os)
                },
                _ => (PrimOutM::Exit(1), os),
            },
        }
    }
}

} // verus!
