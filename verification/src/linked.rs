//! The linked syntax: terms as the machine runs them, with every type
//! erased and every primitive bound to its implementation.

use vstd::prelude::*;
use std::rc::Rc;
use crate::span::{CtorV, DtorV, TermV};
use crate::term::Literal;

verus! {

/// The primitives that the runtime provides.
#[derive(Clone, Copy, Debug, PartialEq, Eq, Structural)]
pub enum PrimOp {
    Add,
    Sub,
    Mul,
    IntEq,
    IntLt,
    IntGt,
    StrAppend,
    StrLength,
    StrEq,
    StrIndex,
    CharToStr,
    IntToStr,
    WriteStr,
    ReadLine,
    ArgList,
    Exit,
}

/// A shared handle to a value term.
pub type RcValue = Rc<TermValue>;

/// A shared handle to a computation term.
pub type RcComp = Rc<TermComputation>;

/// A value term.
#[derive(Debug, PartialEq, Eq)]
pub enum TermValue {
    Var(TermV),
    Thunk(RcComp),
    Ctor { ctor: CtorV, args: Vec<RcValue> },
    Literal(Literal),
}

/// One arm of a `match`.
#[derive(Debug, PartialEq, Eq)]
pub struct Matcher {
    pub ctor: CtorV,
    pub vars: Vec<TermV>,
    pub body: RcComp,
}

/// One arm of a `comatch`.
#[derive(Debug, PartialEq, Eq)]
pub struct Comatcher {
    pub dtor: DtorV,
    pub vars: Vec<TermV>,
    pub body: RcComp,
}

/// A computation term.
#[derive(Debug, PartialEq, Eq)]
pub enum TermComputation {
    Ret(RcValue),
    Force(RcValue),
    Let { var: TermV, def: RcValue, body: RcComp },
    Do { var: TermV, comp: RcComp, body: RcComp },
    Rec { var: TermV, body: RcComp },
    Match { scrut: RcValue, arms: Vec<Matcher> },
    Comatch { arms: Vec<Comatcher> },
    Dtor { body: RcComp, dtor: DtorV, args: Vec<RcValue> },
    /// A primitive that takes `arity` arguments.
    Prim { arity: usize, body: PrimOp },
}

/// A linked module: the top-level bindings in the order they are to be
/// made, and the computation to run.
#[derive(Debug, PartialEq, Eq)]
pub struct Module {
    pub name: Option<String>,
    pub define: Vec<(TermV, RcValue)>,
    pub entry: RcComp,
}

/// The mathematical value of a literal.
pub enum LiteralM {
    Int(int),
    String(Seq<char>),
    Char(char),
}

impl View for Literal {
    type V = LiteralM;

    open spec fn view(&self) -> LiteralM {
        match *self {
            Literal::Int(i) => LiteralM::Int(i as int),
            Literal::String(s) => LiteralM::String(s@),
            Literal::Char(c) => LiteralM::Char(c),
        }
    }
}

impl Clone for Literal {
    fn clone(&self) -> (r: Self)
        ensures
            r@ == self@,
    {
        match self {
            Literal::Int(i) => Literal::Int(*i),
            Literal::String(s) => Literal::String(s.clone()),
            Literal::Char(c) => Literal::Char(*c),
        }
    }
}

/// The mathematical value of a value term.
pub enum ValM {
    Var(Seq<char>),
    Thunk(Box<CompM>),
    Ctor(Seq<char>, Seq<ValM>),
    Literal(LiteralM),
}

/// The mathematical value of an arm: the tag, the variables, the body.
pub struct ArmM {
    pub tag: Seq<char>,
    pub vars: Seq<Seq<char>>,
    pub body: CompM,
}

/// The mathematical value of a computation term.
pub enum CompM {
    Ret(Box<ValM>),
    Force(Box<ValM>),
    Let(Seq<char>, Box<ValM>, Box<CompM>),
    Do(Seq<char>, Box<CompM>, Box<CompM>),
    Rec(Seq<char>, Box<CompM>),
    Match(Box<ValM>, Seq<ArmM>),
    Comatch(Seq<ArmM>),
    Dtor(Box<CompM>, Seq<char>, Seq<ValM>),
    Prim(nat, PrimOp),
}

/// The mathematical value of `v`.
pub open spec fn val_model(v: TermValue) -> ValM
    decreases v,
{
    match v {
        TermValue::Var(x) => ValM::Var(x@),
        TermValue::Thunk(c) => ValM::Thunk(Box::new(comp_model(*c))),
        TermValue::Ctor { ctor, args } => ValM::Ctor(ctor@, vals_model(args@)),
        TermValue::Literal(l) => ValM::Literal(l@),
    }
}

/// The mathematical values of a sequence of value terms, in order.
pub open spec fn vals_model(args: Seq<RcValue>) -> Seq<ValM>
    decreases args,
{
    Seq::new(
        args.len(),
        |i: int|
            if 0 <= i < args.len() {
                val_model(*args[i])
            } else {
                arbitrary()
            },
    )
}

/// The mathematical values of the arms of a `match`, in order.
pub open spec fn matchers_model(arms: Seq<Matcher>) -> Seq<ArmM>
    decreases arms,
{
    Seq::new(
        arms.len(),
        |i: int|
            if 0 <= i < arms.len() {
                ArmM {
                    tag: arms[i].ctor@,
                    vars: crate::span::names_of(arms[i].vars@),
                    body: comp_model(*arms[i].body),
                }
            } else {
                arbitrary()
            },
    )
}

/// The mathematical values of the arms of a `comatch`, in order.
pub open spec fn comatchers_model(arms: Seq<Comatcher>) -> Seq<ArmM>
    decreases arms,
{
    Seq::new(
        arms.len(),
        |i: int|
            if 0 <= i < arms.len() {
                ArmM {
                    tag: arms[i].dtor@,
                    vars: crate::span::names_of(arms[i].vars@),
                    body: comp_model(*arms[i].body),
                }
            } else {
                arbitrary()
            },
    )
}

/// The mathematical value of `c`.
pub open spec fn comp_model(c: TermComputation) -> CompM
    decreases c,
{
    match c {
        TermComputation::Ret(v) => CompM::Ret(Box::new(val_model(*v))),
        TermComputation::Force(v) => CompM::Force(Box::new(val_model(*v))),
        TermComputation::Let { var, def, body } => CompM::Let(
            var@,
            Box::new(val_model(*def)),
            Box::new(comp_model(*body)),
        ),
        TermComputation::Do { var, comp, body } => CompM::Do(
            var@,
            Box::new(comp_model(*comp)),
            Box::new(comp_model(*body)),
        ),
        TermComputation::Rec { var, body } => CompM::Rec(var@, Box::new(comp_model(*body))),
        TermComputation::Match { scrut, arms } => CompM::Match(
            Box::new(val_model(*scrut)),
            matchers_model(arms@),
        ),
        TermComputation::Comatch { arms } => CompM::Comatch(comatchers_model(arms@)),
        TermComputation::Dtor { body, dtor, args } => CompM::Dtor(
            Box::new(comp_model(*body)),
            dtor@,
            vals_model(args@),
        ),
        TermComputation::Prim { arity, body } => CompM::Prim(arity as nat, body),
    }
}

impl View for TermValue {
    type V = ValM;

    open spec fn view(&self) -> ValM {
        val_model(*self)
    }
}

impl View for TermComputation {
    type V = CompM;

    open spec fn view(&self) -> CompM {
        comp_model(*self)
    }
}

/// The mathematical value of a list of top-level bindings.
pub open spec fn defines_model(s: Seq<(TermV, RcValue)>) -> Seq<(Seq<char>, ValM)> {
    Seq::new(s.len(), |i: int| (s[i].0@, s[i].1@))
}

/// Whether the variable `x` occurs free in the value `v`.
pub open spec fn free_in_val(v: ValM, x: Seq<char>) -> bool
    decreases v,
{
    match v {
        ValM::Var(y) => y == x,
        ValM::Thunk(c) => free_in_comp(*c, x),
        ValM::Ctor(_, args) => exists|i: int|
            0 <= i < args.len() && free_in_val(#[trigger] args[i], x),
        ValM::Literal(_) => false,
    }
}

/// Whether the variable `x` occurs free in an arm: in the body, and not
/// bound by the arm.
pub open spec fn free_in_arm(arm: ArmM, x: Seq<char>) -> bool
    decreases arm,
{
    !arm.vars.contains(x) && free_in_comp(arm.body, x)
}

/// Whether the variable `x` occurs free in the computation `c`.
pub open spec fn free_in_comp(c: CompM, x: Seq<char>) -> bool
    decreases c,
{
    match c {
        CompM::Ret(v) => free_in_val(*v, x),
        CompM::Force(v) => free_in_val(*v, x),
        CompM::Let(y, def, body) => free_in_val(*def, x) || (y != x && free_in_comp(*body, x)),
        CompM::Do(y, comp, body) => free_in_comp(*comp, x) || (y != x && free_in_comp(*body, x)),
        CompM::Rec(y, body) => y != x && free_in_comp(*body, x),
        CompM::Match(scrut, arms) => free_in_val(*scrut, x) || exists|i: int|
            0 <= i < arms.len() && free_in_arm(#[trigger] arms[i], x),
        CompM::Comatch(arms) => exists|i: int|
            0 <= i < arms.len() && free_in_arm(#[trigger] arms[i], x),
        CompM::Dtor(body, _, args) => free_in_comp(*body, x) || exists|i: int|
            0 <= i < args.len() && free_in_val(#[trigger] args[i], x),
        CompM::Prim(..) => false,
    }
}

/// The text of an optional name.
pub open spec fn name_model(name: Option<String>) -> Option<Seq<char>> {
    match name {
        Some(n) => Some(n@),
        None => None,
    }
}

/// The mathematical value of a linked module: its name, the top-level
/// bindings in the order they are to be made, and the computation to run.
pub struct ModuleM {
    pub name: Option<Seq<char>>,
    pub define: Seq<(Seq<char>, ValM)>,
    pub entry: CompM,
}

impl View for Module {
    type V = ModuleM;

    open spec fn view(&self) -> ModuleM {
        ModuleM {
            name: name_model(self.name),
            define: defines_model(self.define@),
            entry: self.entry@,
        }
    }
}

} // verus!
