//! The machine as it runs: evaluation of values, one transition, and the
//! run of a program.

use vstd::prelude::*;
use std::rc::Rc;
use crate::dynamics::builtin::{owned_sems_model, PrimOut};
use crate::dynamics::machine::{
    bind_all, bind_args, eval, eval_all, find_arm, lemma_load_fails, load, pop_args, run,
    run_module, step, EvalErrorM, FrameM, ResultM, StateM, StepM,
};
use crate::dynamics::os::{Os, OsM};
use crate::dynamics::store::{sems_model, Env, EnvM, SemM, SemValue};
use crate::linked;
use crate::linked::{
    comatchers_model, matchers_model, vals_model, ArmM, RcComp, RcValue, TermComputation,
    TermValue, ValM,
};
use crate::sharing::rc_clone;
use crate::span::{names_of, DtorV, Name, TermV};

verus! {

/// What can go wrong at run time.
#[derive(Debug, PartialEq, Eq)]
pub enum EvalError {
    UnboundVar { var: String },
    ForceOnNonThunk,
    MatchOnNonCtor,
    CoMatchOnNonDtor,
    KontNotAtStackTop,
    UnknownArm,
    PrimFailure { message: String },
    StepBudgetExceeded,
}

impl View for EvalError {
    type V = EvalErrorM;

    open spec fn view(&self) -> EvalErrorM {
        match *self {
            EvalError::UnboundVar { var } => EvalErrorM::UnboundVar { var: var@ },
            EvalError::ForceOnNonThunk => EvalErrorM::ForceOnNonThunk,
            EvalError::MatchOnNonCtor => EvalErrorM::MatchOnNonCtor,
            EvalError::CoMatchOnNonDtor => EvalErrorM::CoMatchOnNonDtor,
            EvalError::KontNotAtStackTop => EvalErrorM::KontNotAtStackTop,
            EvalError::UnknownArm => EvalErrorM::UnknownArm,
            EvalError::PrimFailure { message } => EvalErrorM::PrimFailure { message: message@ },
            EvalError::StepBudgetExceeded => EvalErrorM::StepBudgetExceeded,
        }
    }
}

/// A frame of the stack.
#[derive(Debug)]
pub enum Frame {
    /// What follows a `do`: the computation to go on with, and the
    /// variable that takes the value returned.
    Kont(RcComp, TermV),
    /// A destructor with its arguments, which waits for a `comatch`.
    Dtor(DtorV, Vec<Rc<SemValue>>),
}

impl View for Frame {
    type V = FrameM;

    open spec fn view(&self) -> FrameM {
        match *self {
            Frame::Kont(c, x) => FrameM::Kont(c@, x@),
            Frame::Dtor(d, args) => FrameM::Dtor(d@, sems_model(args@)),
        }
    }
}

/// The mathematical value of a stack.
pub open spec fn frames_model(s: Seq<Frame>) -> Seq<FrameM> {
    Seq::new(s.len(), |i: int| s[i]@)
}

/// A state of the machine.
#[derive(Debug)]
pub struct Runtime {
    pub comp: RcComp,
    pub env: Env,
    pub stack: Vec<Frame>,
    pub os: Os,
}

impl View for Runtime {
    type V = StateM;

    open spec fn view(&self) -> StateM {
        StateM {
            comp: self.comp@,
            env: self.env@,
            stack: frames_model(self.stack@),
            os: self.os@,
        }
    }
}

/// How a program ends.
#[derive(Debug)]
pub enum ProgKont {
    /// A pure program ends with a value.
    Ret(SemValue),
    /// A program that runs against the operating system ends with an exit
    /// code.
    ExitCode(i32),
}

impl View for ProgKont {
    type V = ResultM;

    open spec fn view(&self) -> ResultM {
        match *self {
            ProgKont::Ret(v) => ResultM::Ret(v@),
            ProgKont::ExitCode(code) => ResultM::ExitCode(code as int),
        }
    }
}

/// The outcome of a transition that does not fail.
#[derive(Debug)]
pub enum Step {
    Next(Runtime),
    Done(ProgKont, Os),
}

impl View for Step {
    type V = StepM;

    open spec fn view(&self) -> StepM {
        match *self {
            Step::Next(r) => StepM::Next(r@),
            Step::Done(k, os) => StepM::Done(k@, os@),
        }
    }
}

/// The mathematical value of the outcome of evaluating a value.
pub open spec fn value_result_model(r: Result<SemValue, EvalError>) -> Result<SemM, EvalErrorM> {
    match r {
        Ok(v) => Ok(v@),
        Err(e) => Err(e@),
    }
}

/// The mathematical value of the outcome of evaluating arguments.
pub open spec fn values_result_model(r: Result<Vec<Rc<SemValue>>, EvalError>) -> Result<
    Seq<SemM>,
    EvalErrorM,
> {
    match r {
        Ok(v) => Ok(sems_model(v@)),
        Err(e) => Err(e@),
    }
}

/// The mathematical value of the outcome of a transition.
pub open spec fn step_result_model(r: Result<Step, EvalError>) -> Result<StepM, EvalErrorM> {
    match r {
        Ok(s) => Ok(s@),
        Err(e) => Err(e@),
    }
}

/// The mathematical value of the outcome of a run.
pub open spec fn run_result_model(r: Result<(ProgKont, Os), EvalError>) -> Result<
    (ResultM, OsM),
    EvalErrorM,
> {
    match r {
        Ok((k, os)) => Ok((k@, os@)),
        Err(e) => Err(e@),
    }
}

/// Once an argument fails, evaluating more arguments fails the same.
pub proof fn lemma_eval_all_fails(args: Seq<ValM>, env: EnvM, n: nat, m: nat)
    requires
        n <= m <= args.len(),
        eval_all(args, env, n) is Err,
    ensures
        eval_all(args, env, m) == eval_all(args, env, n),
    decreases m,
{
    if n < m {
        lemma_eval_all_fails(args, env, n, (m - 1) as nat);
    }
}

/// The first arm with a tag among the first arms is the first among all.
pub proof fn lemma_find_arm_prefix(arms: Seq<ArmM>, tag: Seq<char>, k: int)
    requires
        0 <= k <= arms.len(),
        find_arm(arms.take(k), tag) is Some,
    ensures
        find_arm(arms, tag) == find_arm(arms.take(k), tag),
    decreases arms.len() - k,
{
    if k < arms.len() {
        assert(arms.take(k + 1).drop_last() =~= arms.take(k));
        lemma_find_arm_prefix(arms, tag, k + 1);
    } else {
        assert(arms.take(k) =~= arms);
    }
}

impl TermValue {
    /// The value of the term in the environment `env`.
    #[verifier::loop_isolation(false)]
    pub fn eval(&self, env: &Env) -> (r: Result<SemValue, EvalError>)
        ensures
            value_result_model(r) == eval(self@, env@),
        decreases self,
    {
        match self {
            TermValue::Var(x) => match env.lookup(x) {
                Some(v) => Ok(v.clone()),
                None => Err(EvalError::UnboundVar { var: x.name.clone() }),
            },
            TermValue::Thunk(c) => Ok(SemValue::Thunk { body: rc_clone(c), env: env.clone() }),
            TermValue::Ctor { ctor, args } => {
                let ghost margs = vals_model(args@);
                let mut vals: Vec<Rc<SemValue>> = Vec::new();
                let mut i: usize = 0;
                assert(sems_model(vals@) =~= Seq::empty());
                while i < args.len()
                    invariant
                        i <= args.len(),
                        eval_all(margs, env@, i as nat) == Ok::<Seq<SemM>, EvalErrorM>(
                            sems_model(vals@),
                        ),
                    decreases args.len() - i,
                {
                    let ghost before = sems_model(vals@);
                    match (*args[i]).eval(env) {
                        Ok(v) => {
                            vals.push(Rc::new(v));
                            assert(sems_model(vals@) =~= before.push(v@));
                        },
                        Err(e) => {
                            proof {
                                lemma_eval_all_fails(margs, env@, (i + 1) as nat, margs.len());
                            }
                            return Err(e);
                        },
                    }
                    i += 1;
                }
                Ok(SemValue::Ctor { ctor: ctor.clone(), args: vals })
            },
            TermValue::Literal(l) => Ok(SemValue::Literal(l.clone())),
        }
    }
}

/// The values of the terms `args` in the environment `env`.
pub fn eval_args(args: &Vec<RcValue>, env: &Env) -> (r: Result<Vec<Rc<SemValue>>, EvalError>)
    ensures
        values_result_model(r) == eval_all(vals_model(args@), env@, args@.len()),
{
    let ghost margs = vals_model(args@);
    let mut vals: Vec<Rc<SemValue>> = Vec::new();
    let mut i: usize = 0;
    assert(sems_model(vals@) =~= Seq::empty());
    while i < args.len()
        invariant
            i <= args.len(),
            margs == vals_model(args@),
            eval_all(margs, env@, i as nat) == Ok::<Seq<SemM>, EvalErrorM>(sems_model(vals@)),
        decreases args.len() - i,
    {
        let ghost before = sems_model(vals@);
        match (*args[i]).eval(env) {
            Ok(v) => {
                vals.push(Rc::new(v));
                assert(sems_model(vals@) =~= before.push(v@));
            },
            Err(e) => {
                proof {
                    lemma_eval_all_fails(margs, env@, (i + 1) as nat, margs.len());
                }
                return Err(e);
            },
        }
        i += 1;
    }
    Ok(vals)
}

/// The environment with the variables of an arm bound to the arguments,
/// as far as both go.
pub fn bind(env: &Env, vars: &Vec<TermV>, vals: &Vec<Rc<SemValue>>) -> (r: Env)
    ensures
        r@ == bind_args(env@, names_of(vars@), sems_model(vals@)),
{
    let n = if vars.len() <= vals.len() {
        vars.len()
    } else {
        vals.len()
    };
    let mut out = env.clone();
    let mut i: usize = 0;
    while i < n
        invariant
            i <= n,
            n <= vars.len(),
            n <= vals.len(),
            out@ == bind_all(env@, names_of(vars@), sems_model(vals@), i as nat),
        decreases n - i,
    {
        out = out.update(&vars[i], (*vals[i]).clone());
        i += 1;
    }
    out
}

/// The place of the first arm of a `match` for the constructor `tag`.
pub fn find_matcher(arms: &Vec<linked::Matcher>, tag: &Name) -> (r: Option<usize>)
    ensures
        (match r {
            Some(i) => Some(i as int),
            None => None,
        }) == find_arm(matchers_model(arms@), tag@),
        r matches Some(i) ==> i < arms@.len(),
{
    let ghost ms = matchers_model(arms@);
    let mut i: usize = 0;
    assert(ms.take(0) =~= Seq::empty());
    while i < arms.len()
        invariant
            i <= arms.len(),
            ms == matchers_model(arms@),
            find_arm(ms.take(i as int), tag@).is_none(),
        decreases arms.len() - i,
    {
        assert(ms.take(i + 1).drop_last() =~= ms.take(i as int));
        if arms[i].ctor.same(tag) {
            proof {
                lemma_find_arm_prefix(ms, tag@, i + 1);
            }
            return Some(i);
        }
        i += 1;
    }
    assert(ms.take(arms.len() as int) =~= ms);
    None
}

/// The place of the first arm of a `comatch` for the destructor `tag`.
pub fn find_comatcher(arms: &Vec<linked::Comatcher>, tag: &Name) -> (r: Option<usize>)
    ensures
        (match r {
            Some(i) => Some(i as int),
            None => None,
        }) == find_arm(comatchers_model(arms@), tag@),
        r matches Some(i) ==> i < arms@.len(),
{
    let ghost ms = comatchers_model(arms@);
    let mut i: usize = 0;
    assert(ms.take(0) =~= Seq::empty());
    while i < arms.len()
        invariant
            i <= arms.len(),
            ms == comatchers_model(arms@),
            find_arm(ms.take(i as int), tag@).is_none(),
        decreases arms.len() - i,
    {
        assert(ms.take(i + 1).drop_last() =~= ms.take(i as int));
        if arms[i].dtor.same(tag) {
            proof {
                lemma_find_arm_prefix(ms, tag@, i + 1);
            }
            return Some(i);
        }
        i += 1;
    }
    assert(ms.take(arms.len() as int) =~= ms);
    None
}

/// Takes the arguments of a primitive off the stack: the first argument of
/// each of the top `n` frames, from the top down.
#[verifier::loop_isolation(false)]
pub fn take_args(stack: &mut Vec<Frame>, n: usize) -> (r: Option<Vec<SemValue>>)
    ensures
        match pop_args(frames_model(old(stack)@), n as nat) {
            Some((args, rest)) => r.is_some() && owned_sems_model(r.unwrap()@) == args
                && frames_model(final(stack)@) == rest,
            None => r.is_none(),
        },
{
    let ghost start = frames_model(stack@);
    let mut args: Vec<SemValue> = Vec::new();
    let mut k: usize = 0;
    assert(owned_sems_model(args@) =~= Seq::empty());
    while k < n
        invariant
            k <= n,
            pop_args(start, n as nat) == (match pop_args(frames_model(stack@), (n - k) as nat) {
                Some((more, rest)) => Some((owned_sems_model(args@) + more, rest)),
                None => None,
            }),
        decreases n - k,
    {
        let ghost before = frames_model(stack@);
        let ghost got = owned_sems_model(args@);
        match stack.pop() {
            Some(Frame::Dtor(_, a)) => {
                assert(frames_model(stack@) =~= before.drop_last());
                if a.len() == 0 {
                    return None;
                }
                args.push((*a[0]).clone());
                proof {
                    let first = sems_model(a@)[0];
                    assert(owned_sems_model(args@) =~= got.push(first));
                    match pop_args(frames_model(stack@), (n - k - 1) as nat) {
                        Some((more, rest)) => {
                            assert(got + (seq![first] + more) =~= got.push(first) + more);
                        },
                        None => {},
                    }
                }
            },
            Some(Frame::Kont(..)) => {
                return None;
            },
            None => {
                return None;
            },
        }
        k += 1;
    }
    proof {
        assert(owned_sems_model(args@) + Seq::<SemM>::empty() =~= owned_sems_model(args@));
    }
    Some(args)
}

impl Runtime {
    /// The state in which `comp` starts to run on an empty stack, with no
    /// variable bound.
    pub fn new(comp: RcComp, os: Os) -> (r: Runtime)
        ensures
            r@ == (StateM {
                comp: comp@,
                env: crate::dynamics::store::empty_env(),
                stack: Seq::empty(),
                os: os@,
            }),
    {
        let r = Runtime { comp, env: Env::new(), stack: Vec::new(), os };
        assert(r@.stack =~= Seq::empty());
        r
    }

    /// One transition of the machine.
    pub fn step(self) -> (r: Result<Step, EvalError>)
        ensures
            step_result_model(r) == step(self@),
    {
        let Runtime { comp, env, stack, os } = self;
        let mut stack = stack;
        let ghost frames = frames_model(stack@);
        match &*comp {
            TermComputation::Ret(v) => {
                let val = match (**v).eval(&env) {
                    Ok(val) => val,
                    Err(e) => {
                        return Err(e);
                    },
                };
                match stack.pop() {
                    None => Ok(Step::Done(ProgKont::Ret(val), os)),
                    Some(Frame::Kont(c, x)) => {
                        assert(frames_model(stack@) =~= frames.drop_last());
                        let env = env.update(&x, val);
                        Ok(Step::Next(Runtime { comp: c, env, stack, os }))
                    },
                    Some(Frame::Dtor(..)) => Err(EvalError::KontNotAtStackTop),
                }
            },
            TermComputation::Force(v) => {
                match (**v).eval(&env) {
                    Ok(SemValue::Thunk { body, env }) => Ok(
                        Step::Next(Runtime { comp: body, env, stack, os }),
                    ),
                    Ok(_) => Err(EvalError::ForceOnNonThunk),
                    Err(e) => Err(e),
                }
            },
            TermComputation::Let { var, def, body } => {
                match (**def).eval(&env) {
                    Ok(val) => {
                        let env = env.update(var, val);
                        Ok(Step::Next(Runtime { comp: rc_clone(body), env, stack, os }))
                    },
                    Err(e) => Err(e),
                }
            },
            TermComputation::Do { var, comp: first, body } => {
                stack.push(Frame::Kont(rc_clone(body), var.clone()));
                assert(frames_model(stack@) =~= frames.push(FrameM::Kont(body@, var@)));
                Ok(Step::Next(Runtime { comp: rc_clone(first), env, stack, os }))
            },
            TermComputation::Rec { var, body } => {
                let thunk = SemValue::Thunk { body: rc_clone(&comp), env: env.clone() };
                let env = env.update(var, thunk);
                Ok(Step::Next(Runtime { comp: rc_clone(body), env, stack, os }))
            },
            TermComputation::Match { scrut, arms } => {
                match (**scrut).eval(&env) {
                    Ok(SemValue::Ctor { ctor, args }) => {
                        match find_matcher(arms, &ctor) {
                            Some(i) => {
                                let env = bind(&env, &arms[i].vars, &args);
                                Ok(
                                    Step::Next(
                                        Runtime { comp: rc_clone(&arms[i].body), env, stack, os },
                                    ),
                                )
                            },
                            None => Err(EvalError::UnknownArm),
                        }
                    },
                    Ok(_) => Err(EvalError::MatchOnNonCtor),
                    Err(e) => Err(e),
                }
            },
            TermComputation::Comatch { arms } => {
                match stack.pop() {
                    Some(Frame::Dtor(d, args)) => {
                        assert(frames_model(stack@) =~= frames.drop_last());
                        match find_comatcher(arms, &d) {
                            Some(i) => {
                                let env = bind(&env, &arms[i].vars, &args);
                                Ok(
                                    Step::Next(
                                        Runtime { comp: rc_clone(&arms[i].body), env, stack, os },
                                    ),
                                )
                            },
                            None => Err(EvalError::UnknownArm),
                        }
                    },
                    _ => Err(EvalError::CoMatchOnNonDtor),
                }
            },
            TermComputation::Dtor { body, dtor, args } => {
                match eval_args(args, &env) {
                    Ok(vals) => {
                        let ghost mvals = sems_model(vals@);
                        stack.push(Frame::Dtor(dtor.clone(), vals));
                        assert(frames_model(stack@) =~= frames.push(FrameM::Dtor(dtor@, mvals)));
                        Ok(Step::Next(Runtime { comp: rc_clone(body), env, stack, os }))
                    },
                    Err(e) => Err(e),
                }
            },
            TermComputation::Prim { arity, body } => {
                match take_args(&mut stack, *arity) {
                    Some(args) => {
                        let (out, os) = body.apply(args, os, env);
                        match out {
                            PrimOut::Continue(c, env) => Ok(
                                Step::Next(Runtime { comp: c, env, stack, os }),
                            ),
                            PrimOut::Exit(code) => Ok(Step::Done(ProgKont::ExitCode(code), os)),
                        }
                    },
                    None => Err(
                        EvalError::PrimFailure { message: "prim on non-dtor".to_owned() },
                    ),
                }
            },
        }
    }

    /// Runs the machine for at most `budget` transitions.
    #[verifier::loop_isolation(false)]
    pub fn run(self, budget: usize) -> (r: Result<(ProgKont, Os), EvalError>)
        ensures
            run_result_model(r) == run(self@, budget as nat),
    {
        let ghost start = self@;
        let mut state = self;
        let mut left: usize = budget;
        while left > 0
            invariant
                run(start, budget as nat) == run(state@, left as nat),
            decreases left,
        {
            match state.step() {
                Ok(Step::Next(next)) => {
                    state = next;
                },
                Ok(Step::Done(k, os)) => {
                    return Ok((k, os));
                },
                Err(e) => {
                    return Err(e);
                },
            }
            left -= 1;
        }
        Err(EvalError::StepBudgetExceeded)
    }
}

/// A program that has run: its name and how it ended.
#[derive(Debug)]
pub struct Module {
    pub name: Option<String>,
    pub entry: ProgKont,
}

/// The mathematical value of the outcome of running a module.
pub open spec fn module_result_model(r: Result<(Module, Os), EvalError>) -> Result<
    (ResultM, OsM),
    EvalErrorM,
> {
    match r {
        Ok((m, os)) => Ok((m.entry@, os@)),
        Err(e) => Err(e@),
    }
}

/// The mathematical value of the outcome of loading a module.
pub open spec fn load_result_model(r: Result<Runtime, EvalError>) -> Result<StateM, EvalErrorM> {
    match r {
        Ok(s) => Ok(s@),
        Err(e) => Err(e@),
    }
}

/// The state in which the entry of a linked module starts to run: the
/// top-level bindings have been made, and the stack is empty.
pub open spec fn start_state(m: linked::ModuleM, os: OsM) -> Result<StateM, EvalErrorM> {
    match load(m.define, crate::dynamics::store::empty_env(), m.define.len()) {
        Err(e) => Err(e),
        Ok(env) => Ok(StateM { comp: m.entry, env, stack: Seq::empty(), os }),
    }
}

impl Runtime {
    /// Makes the top-level bindings of the linked module `m`, and gives
    /// the state in which its entry starts to run against `os`.
    #[verifier::loop_isolation(false)]
    pub fn load(m: linked::Module, os: Os) -> (r: Result<Runtime, EvalError>)
        ensures
            load_result_model(r) == start_state(m@, os@),
    {
        let ghost define = m@.define;
        let ghost start = crate::dynamics::store::empty_env();
        let mut env = Env::new();
        let mut i: usize = 0;
        while i < m.define.len()
            invariant
                i <= m.define.len(),
                load(define, start, i as nat) == Ok::<EnvM, EvalErrorM>(env@),
            decreases m.define.len() - i,
        {
            match (*m.define[i].1).eval(&env) {
                Ok(v) => {
                    env = env.update(&m.define[i].0, v);
                },
                Err(e) => {
                    proof {
                        lemma_load_fails(define, start, (i + 1) as nat, define.len());
                    }
                    return Err(e);
                },
            }
            i += 1;
        }
        let state = Runtime { comp: m.entry, env, stack: Vec::new(), os };
        assert(state@.stack =~= Seq::empty());
        Ok(state)
    }
}

impl Module {
    /// Runs the linked module `m` against the operating system `os` for at
    /// most `budget` transitions.
    pub fn new(m: linked::Module, os: Os, budget: usize) -> (r: Result<(Module, Os), EvalError>)
        ensures
            module_result_model(r) == run_module(m@, os@, budget as nat),
            r matches Ok((done, _)) ==> done.name == m.name,
    {
        let name = match &m.name {
            Some(n) => Some(n.clone()),
            None => None,
        };
        let state = match Runtime::load(m, os) {
            Ok(state) => state,
            Err(e) => {
                return Err(e);
            },
        };
        match state.run(budget) {
            Ok((entry, os)) => Ok((Module { name, entry }, os)),
            Err(e) => Err(e),
        }
    }
}

} // verus!
