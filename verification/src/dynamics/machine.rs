//! The abstract machine, as a function from a state to the next.
//!
//! A state is the computation that runs, the environment that holds the
//! values of its variables, the stack of frames that wait for it, and the
//! virtual operating system. The machine steps until the computation is a
//! `ret` on an empty stack, or a primitive ends the program with an exit
//! code.

use vstd::prelude::*;
use crate::dynamics::os::OsM;
use crate::dynamics::prim::{prim, PrimOutM};
use crate::dynamics::store::{EnvM, SemM};
use crate::linked::{free_in_val, ArmM, CompM, ValM};

verus! {

/// A frame of the stack.
pub enum FrameM {
    /// What follows a `do`: the computation to go on with, and the
    /// variable that takes the value returned.
    Kont(CompM, Seq<char>),
    /// A destructor with its arguments, which waits for a `comatch`.
    Dtor(Seq<char>, Seq<SemM>),
}

/// A state of the machine.
pub struct StateM {
    pub comp: CompM,
    pub env: EnvM,
    pub stack: Seq<FrameM>,
    pub os: OsM,
}

/// How a program ends.
pub enum ResultM {
    /// A pure program ends with a value.
    Ret(SemM),
    /// A program that runs against the operating system ends with an exit
    /// code.
    ExitCode(int),
}

/// The outcome of a step that does not fail.
pub enum StepM {
    Next(StateM),
    Done(ResultM, OsM),
}

/// What can go wrong at run time. A program that has passed the type
/// checker gives none of these but `StepBudgetExceeded`.
pub enum EvalErrorM {
    UnboundVar { var: Seq<char> },
    ForceOnNonThunk,
    MatchOnNonCtor,
    CoMatchOnNonDtor,
    KontNotAtStackTop,
    UnknownArm,
    PrimFailure { message: Seq<char> },
    StepBudgetExceeded,
}

/// The value of a value term in an environment. A variable has the value
/// bound to it; a thunk closes over the environment; the arguments of a
/// constructor are evaluated, first to last.
pub open spec fn eval(v: ValM, env: EnvM) -> Result<SemM, EvalErrorM>
    decreases v, 0nat,
{
    match v {
        ValM::Var(x) => if env.contains_key(x) {
            Ok(env[x])
        } else {
            Err(EvalErrorM::UnboundVar { var: x })
        },
        ValM::Thunk(c) => Ok(SemM::Thunk(*c, env)),
        ValM::Ctor(tag, args) => match eval_all(args, env, args.len()) {
            Err(e) => Err(e),
            Ok(vals) => Ok(SemM::Ctor(tag, vals)),
        },
        ValM::Literal(l) => Ok(SemM::Literal(l)),
    }
}

/// The values of the first `n` of `args`, or the first failure.
pub open spec fn eval_all(args: Seq<ValM>, env: EnvM, n: nat) -> Result<Seq<SemM>, EvalErrorM>
    decreases args, n,
{
    if n == 0 || n > args.len() {
        Ok(Seq::empty())
    } else {
        match eval_all(args, env, (n - 1) as nat) {
            Err(e) => Err(e),
            Ok(vals) => match eval(args[n - 1], env) {
                Err(e) => Err(e),
                Ok(v) => Ok(vals.push(v)),
            },
        }
    }
}

/// The environment with the first `n` variables each bound to the value at
/// its place.
pub open spec fn bind_all(env: EnvM, vars: Seq<Seq<char>>, vals: Seq<SemM>, n: nat) -> EnvM
    decreases n,
{
    if n == 0 {
        env
    } else {
        bind_all(env, vars, vals, (n - 1) as nat).insert(vars[n - 1], vals[n - 1])
    }
}

/// The environment with the variables of an arm bound to the arguments, as
/// far as both go.
pub open spec fn bind_args(env: EnvM, vars: Seq<Seq<char>>, vals: Seq<SemM>) -> EnvM {
    bind_all(
        env,
        vars,
        vals,
        if vars.len() <= vals.len() {
            vars.len()
        } else {
            vals.len()
        },
    )
}

/// The place of the first arm with the tag `tag`, if there is one.
pub open spec fn find_arm(arms: Seq<ArmM>, tag: Seq<char>) -> Option<int>
    decreases arms.len(),
{
    if arms.len() == 0 {
        None
    } else {
        match find_arm(arms.drop_last(), tag) {
            Some(i) => Some(i),
            None => if arms.last().tag == tag {
                Some(arms.len() - 1)
            } else {
                None
            },
        }
    }
}

/// The arguments that the top `n` frames of the stack hold, from the top
/// down, and the stack below them. Each of these frames must be a
/// destructor that holds at least one argument, of which the first is
/// taken.
pub open spec fn pop_args(stack: Seq<FrameM>, n: nat) -> Option<(Seq<SemM>, Seq<FrameM>)>
    decreases n,
{
    if n == 0 {
        Some((Seq::empty(), stack))
    } else if stack.len() == 0 {
        None
    } else {
        match stack.last() {
            FrameM::Dtor(_, a) => if a.len() == 0 {
                None
            } else {
                match pop_args(stack.drop_last(), (n - 1) as nat) {
                    None => None,
                    Some((args, rest)) => Some((seq![a[0]] + args, rest)),
                }
            },
            _ => None,
        }
    }
}

/// One transition of the machine. A `ret` on a stack whose top is the
/// frame of a `do` takes the frame off and goes on with the computation of
/// the frame, in the environment at hand with the variable of the frame
/// bound to the value returned.
pub open spec fn step(s: StateM) -> Result<StepM, EvalErrorM> {
    match s.comp {
        CompM::Ret(v) => match eval(*v, s.env) {
            Err(e) => Err(e),
            Ok(val) => if s.stack.len() == 0 {
                Ok(StepM::Done(ResultM::Ret(val), s.os))
            } else {
                match s.stack.last() {
                    FrameM::Kont(c, x) => Ok(
                        StepM::Next(
                            StateM {
                                comp: c,
                                env: s.env.insert(x, val),
                                stack: s.stack.drop_last(),
                                os: s.os,
                            },
                        ),
                    ),
                    FrameM::Dtor(..) => Err(EvalErrorM::KontNotAtStackTop),
                }
            },
        },
        CompM::Force(v) => match eval(*v, s.env) {
            Err(e) => Err(e),
            Ok(SemM::Thunk(body, env)) => Ok(
                StepM::Next(StateM { comp: body, env, stack: s.stack, os: s.os }),
            ),
            Ok(_) => Err(EvalErrorM::ForceOnNonThunk),
        },
        CompM::Let(x, def, body) => match eval(*def, s.env) {
            Err(e) => Err(e),
            Ok(val) => Ok(
                StepM::Next(
                    StateM { comp: *body, env: s.env.insert(x, val), stack: s.stack, os: s.os },
                ),
            ),
        },
        CompM::Do(x, comp, body) => Ok(
            StepM::Next(
                StateM {
                    comp: *comp,
                    env: s.env,
                    stack: s.stack.push(FrameM::Kont(*body, x)),
                    os: s.os,
                },
            ),
        ),
        CompM::Rec(x, body) => Ok(
            StepM::Next(
                StateM {
                    comp: *body,
                    env: s.env.insert(x, SemM::Thunk(s.comp, s.env)),
                    stack: s.stack,
                    os: s.os,
                },
            ),
        ),
        CompM::Match(scrut, arms) => match eval(*scrut, s.env) {
            Err(e) => Err(e),
            Ok(SemM::Ctor(tag, args)) => match find_arm(arms, tag) {
                None => Err(EvalErrorM::UnknownArm),
                Some(i) => Ok(
                    StepM::Next(
                        StateM {
                            comp: arms[i].body,
                            env: bind_args(s.env, arms[i].vars, args),
                            stack: s.stack,
                            os: s.os,
                        },
                    ),
                ),
            },
            Ok(_) => Err(EvalErrorM::MatchOnNonCtor),
        },
        CompM::Comatch(arms) => if s.stack.len() == 0 {
            Err(EvalErrorM::CoMatchOnNonDtor)
        } else {
            match s.stack.last() {
                FrameM::Dtor(d, args) => match find_arm(arms, d) {
                    None => Err(EvalErrorM::UnknownArm),
                    Some(i) => Ok(
                        StepM::Next(
                            StateM {
                                comp: arms[i].body,
                                env: bind_args(s.env, arms[i].vars, args),
                                stack: s.stack.drop_last(),
                                os: s.os,
                            },
                        ),
                    ),
                },
                _ => Err(EvalErrorM::CoMatchOnNonDtor),
            }
        },
        CompM::Dtor(body, d, args) => match eval_all(args, s.env, args.len()) {
            Err(e) => Err(e),
            Ok(vals) => Ok(
                StepM::Next(
                    StateM {
                        comp: *body,
                        env: s.env,
                        stack: s.stack.push(FrameM::Dtor(d, vals)),
                        os: s.os,
                    },
                ),
            ),
        },
        CompM::Prim(n, op) => match pop_args(s.stack, n) {
            None => Err(EvalErrorM::PrimFailure { message: "prim on non-dtor"@ }),
            Some((args, rest)) => {
                let (out, os) = prim(op, args, s.os, s.env);
                match out {
                    PrimOutM::Continue(c, env) => Ok(
                        StepM::Next(StateM { comp: c, env, stack: rest, os }),
                    ),
                    PrimOutM::Exit(code) => Ok(StepM::Done(ResultM::ExitCode(code), os)),
                }
            },
        },
    }
}

/// The run of the machine from `s` for at most `budget` transitions: how
/// the program ends and what it leaves of the operating system, or the
/// failure that stops it.
pub open spec fn run(s: StateM, budget: nat) -> Result<(ResultM, OsM), EvalErrorM>
    decreases budget,
{
    if budget == 0 {
        Err(EvalErrorM::StepBudgetExceeded)
    } else {
        match step(s) {
            Err(e) => Err(e),
            Ok(StepM::Done(r, os)) => Ok((r, os)),
            Ok(StepM::Next(next)) => run(next, (budget - 1) as nat),
        }
    }
}

/// The environment after the first `n` top-level bindings have been made,
/// each value evaluated in the environment that the bindings before it
/// leave.
pub open spec fn load(define: Seq<(Seq<char>, ValM)>, env: EnvM, n: nat) -> Result<
    EnvM,
    EvalErrorM,
>
    decreases n,
{
    if n == 0 {
        Ok(env)
    } else {
        match load(define, env, (n - 1) as nat) {
            Err(e) => Err(e),
            Ok(bound) => match eval(define[n - 1].1, bound) {
                Err(e) => Err(e),
                Ok(v) => Ok(bound.insert(define[n - 1].0, v)),
            },
        }
    }
}

/// The run of a linked module against the operating system `os` for at
/// most `budget` transitions: the top-level bindings are made, then the
/// entry runs on an empty stack.
pub open spec fn run_module(m: crate::linked::ModuleM, os: OsM, budget: nat) -> Result<
    (ResultM, OsM),
    EvalErrorM,
> {
    match load(m.define, crate::dynamics::store::empty_env(), m.define.len()) {
        Err(e) => Err(e),
        Ok(env) => run(StateM { comp: m.entry, env, stack: Seq::empty(), os }, budget),
    }
}

/// Once a binding fails, making more bindings fails the same.
pub proof fn lemma_load_fails(define: Seq<(Seq<char>, ValM)>, env: EnvM, n: nat, m: nat)
    requires
        n <= m,
        load(define, env, n) is Err,
    ensures
        load(define, env, m) == load(define, env, n),
    decreases m,
{
    if n < m {
        lemma_load_fails(define, env, n, (m - 1) as nat);
    }
}

/// A value term whose free variables are all bound has a value.
pub proof fn lemma_eval_closed(v: ValM, env: EnvM)
    requires
        forall|x: Seq<char>| free_in_val(v, x) ==> env.contains_key(x),
    ensures
        eval(v, env) is Ok,
    decreases v, 0nat,
{
    match v {
        ValM::Var(y) => {
            assert(free_in_val(v, y));
        },
        ValM::Ctor(tag, args) => {
            assert forall|i: int, x: Seq<char>|
                0 <= i < args.len() && #[trigger] free_in_val(args[i], x) implies env.contains_key(
                x,
            ) by {
                assert(free_in_val(v, x));
            }
            lemma_eval_all_closed(args, env, args.len());
        },
        _ => {},
    }
}

/// Value terms whose free variables are all bound have values.
pub proof fn lemma_eval_all_closed(args: Seq<ValM>, env: EnvM, n: nat)
    requires
        n <= args.len(),
        forall|i: int, x: Seq<char>|
            0 <= i < args.len() && #[trigger] free_in_val(args[i], x) ==> env.contains_key(x),
    ensures
        eval_all(args, env, n) is Ok,
    decreases args, n,
{
    if n > 0 {
        lemma_eval_all_closed(args, env, (n - 1) as nat);
        assert forall|x: Seq<char>| free_in_val(args[n - 1], x) implies env.contains_key(x) by {}
        lemma_eval_closed(args[n - 1], env);
    }
}

/// The machine is deterministic: from equal states, with equal budgets, it
/// ends in the same way and leaves the same output.
pub proof fn lemma_deterministic(a: StateM, b: StateM, budget: nat)
    requires
        a == b,
    ensures
        run(a, budget) == run(b, budget),
        step(a) == step(b),
{
}

/// A larger budget does not change how a run ends that the smaller budget
/// was enough for.
pub proof fn lemma_budget_monotone(s: StateM, small: nat, large: nat)
    requires
        small <= large,
        run(s, small) != Err::<(ResultM, OsM), EvalErrorM>(EvalErrorM::StepBudgetExceeded),
    ensures
        run(s, large) == run(s, small),
    decreases small,
{
    if small > 0 {
        match step(s) {
            Ok(StepM::Next(next)) => {
                lemma_budget_monotone(next, (small - 1) as nat, (large - 1) as nat);
            },
            _ => {},
        }
    }
}

} // verus!
