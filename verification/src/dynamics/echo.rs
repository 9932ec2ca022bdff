//! A worked run of the machine: the program that reads a line and writes
//! it back. Whatever stands on the standard input, the program ends with
//! the exit code 0, has read the first line of the input, and has written
//! that line and nothing else.

use vstd::prelude::*;
use crate::dynamics::machine::{
    bind_all, eval, eval_all, find_arm, load, pop_args, run, run_module, step, EvalErrorM,
    FrameM, ResultM, StateM, StepM,
};
use crate::dynamics::os::OsM;
use crate::dynamics::prim::{apply_k, force_k, kont_env};
use crate::dynamics::store::{empty_env, EnvM, SemM};
use crate::link::prim_value;
use crate::linked::{ArmM, CompM, LiteralM, ModuleM, PrimOp, ValM};

verus! {

/// The application of the computation `f` to the value `v`.
pub open spec fn call(f: CompM, v: ValM) -> CompM {
    CompM::Dtor(Box::new(f), "arg"@, seq![v])
}

/// The computation that forces the variable `x`.
pub open spec fn force_var(x: Seq<char>) -> CompM {
    CompM::Force(Box::new(ValM::Var(x)))
}

/// `! exit 0`
pub open spec fn exit_zero() -> CompM {
    call(force_var("exit"@), ValM::Literal(LiteralM::Int(0)))
}

/// `! write_str line { ! exit 0 }`
pub open spec fn write_back() -> CompM {
    call(call(force_var("write_str"@), ValM::Var("line"@)), ValM::Thunk(Box::new(exit_zero())))
}

/// `fn line -> ! write_str line { ! exit 0 }`
pub open spec fn reader() -> CompM {
    CompM::Comatch(seq![ArmM { tag: "arg"@, vars: seq!["line"@], body: write_back() }])
}

/// `! read_line { fn line -> ! write_str line { ! exit 0 } }`
pub open spec fn echo_entry() -> CompM {
    call(force_var("read_line"@), ValM::Thunk(Box::new(reader())))
}

/// The linked program: the three primitives it uses, and its entry.
pub open spec fn echo() -> ModuleM {
    ModuleM {
        name: None,
        define: seq![
            ("read_line"@, prim_value(PrimOp::ReadLine)),
            ("write_str"@, prim_value(PrimOp::WriteStr)),
            ("exit"@, prim_value(PrimOp::Exit)),
        ],
        entry: echo_entry(),
    }
}

/// The thunk of a primitive, made in the environment `env`.
pub open spec fn prim_thunk(op: PrimOp, env: EnvM) -> SemM {
    SemM::Thunk(CompM::Prim(op.spec_arity(), op), env)
}

/// The environment once `read_line` is bound.
pub open spec fn env_a() -> EnvM {
    empty_env().insert("read_line"@, prim_thunk(PrimOp::ReadLine, empty_env()))
}

/// The environment once `write_str` is bound.
pub open spec fn env_b() -> EnvM {
    env_a().insert("write_str"@, prim_thunk(PrimOp::WriteStr, env_a()))
}

/// The environment once `exit` is bound: the one the entry starts in.
pub open spec fn env_c() -> EnvM {
    env_b().insert("exit"@, prim_thunk(PrimOp::Exit, env_b()))
}

/// The names that the program uses are different names.
pub proof fn lemma_names()
    ensures
        "read_line"@ != "write_str"@,
        "read_line"@ != "exit"@,
        "write_str"@ != "exit"@,
        "line"@ != "read_line"@,
        "line"@ != "write_str"@,
        "line"@ != "exit"@,
        "k"@ != "exit"@,
        "k"@ != "write_str"@,
        "k"@ != "read_line"@,
        "k"@ != "line"@,
{
    reveal_strlit("read_line");
    reveal_strlit("write_str");
    reveal_strlit("exit");
    reveal_strlit("line");
    reveal_strlit("k");
    assert("read_line"@[0] != "write_str"@[0]);
    assert("read_line"@.len() != "exit"@.len());
    assert("write_str"@.len() != "exit"@.len());
    assert("line"@[0] != "exit"@[0]);
    assert("line"@.len() != "read_line"@.len());
    assert("k"@.len() != "exit"@.len());
    assert("k"@.len() != "line"@.len());
    assert("k"@.len() != "read_line"@.len());
}

/// The top-level bindings of the program are made without a failure.
pub proof fn lemma_echo_loads()
    ensures
        load(echo().define, empty_env(), 3) == Ok::<EnvM, EvalErrorM>(env_c()),
{
    let d = echo().define;
    assert(load(d, empty_env(), 0) == Ok::<EnvM, EvalErrorM>(empty_env()));
    assert(load(d, empty_env(), 1) == Ok::<EnvM, EvalErrorM>(env_a()));
    assert(load(d, empty_env(), 2) == Ok::<EnvM, EvalErrorM>(env_b()));
}

/// One value term is evaluated to one value.
pub proof fn lemma_eval_one(v: ValM, env: EnvM)
    requires
        eval(v, env) is Ok,
    ensures
        eval_all(seq![v], env, 1) == Ok::<Seq<SemM>, EvalErrorM>(seq![eval(v, env)->Ok_0]),
{
    assert(eval_all(seq![v], env, 0) == Ok::<Seq<SemM>, EvalErrorM>(Seq::empty()));
    assert(Seq::<SemM>::empty().push(eval(v, env)->Ok_0) =~= seq![eval(v, env)->Ok_0]);
}

/// A step that goes on, followed by a run, is a run.
pub proof fn lemma_run_next(s: StateM, next: StateM, budget: nat)
    requires
        step(s) == Ok::<StepM, EvalErrorM>(StepM::Next(next)),
    ensures
        run(s, budget + 1) == run(next, budget),
{
}

/// The frame of an application to the value `v`.
pub open spec fn arg_frame(v: SemM) -> FrameM {
    FrameM::Dtor("arg"@, seq![v])
}

/// The line that the program reads, as a value.
pub open spec fn line_value(os: OsM) -> SemM {
    SemM::Literal(LiteralM::String(os.next_line()))
}

/// The function that the program hands to `read_line`, as a value.
pub open spec fn reader_value() -> SemM {
    SemM::Thunk(reader(), env_c())
}

/// The environment of the body of that function.
pub open spec fn env_line(os: OsM) -> EnvM {
    env_c().insert("line"@, line_value(os))
}

/// What the program hands to `write_str` to go on with, as a value.
pub open spec fn exit_value(os: OsM) -> SemM {
    SemM::Thunk(exit_zero(), env_line(os))
}

/// The operating system once the line is read.
pub open spec fn os_read(os: OsM) -> OsM {
    os.after_line()
}

/// The operating system once the line is written back.
pub open spec fn os_written(os: OsM) -> OsM {
    os.after_line().after_write(os.next_line())
}

/// The state of the machine after `i` transitions of the program, started
/// against the operating system `os`.
pub open spec fn state(i: nat, os: OsM) -> StateM {
    if i == 0 {
        StateM { comp: echo_entry(), env: env_c(), stack: Seq::empty(), os }
    } else if i == 1 {
        StateM {
            comp: force_var("read_line"@),
            env: env_c(),
            stack: seq![arg_frame(reader_value())],
            os,
        }
    } else if i == 2 {
        StateM {
            comp: CompM::Prim(1, PrimOp::ReadLine),
            env: empty_env(),
            stack: seq![arg_frame(reader_value())],
            os,
        }
    } else if i == 3 {
        StateM {
            comp: apply_k(ValM::Literal(LiteralM::String(os.next_line()))),
            env: kont_env(reader_value(), empty_env()),
            stack: Seq::empty(),
            os: os_read(os),
        }
    } else if i == 4 {
        StateM {
            comp: force_k(),
            env: kont_env(reader_value(), empty_env()),
            stack: seq![arg_frame(line_value(os))],
            os: os_read(os),
        }
    } else if i == 5 {
        StateM {
            comp: reader(),
            env: env_c(),
            stack: seq![arg_frame(line_value(os))],
            os: os_read(os),
        }
    } else if i == 6 {
        StateM { comp: write_back(), env: env_line(os), stack: Seq::empty(), os: os_read(os) }
    } else if i == 7 {
        StateM {
            comp: call(force_var("write_str"@), ValM::Var("line"@)),
            env: env_line(os),
            stack: seq![arg_frame(exit_value(os))],
            os: os_read(os),
        }
    } else if i == 8 {
        StateM {
            comp: force_var("write_str"@),
            env: env_line(os),
            stack: seq![arg_frame(exit_value(os)), arg_frame(line_value(os))],
            os: os_read(os),
        }
    } else if i == 9 {
        StateM {
            comp: CompM::Prim(2, PrimOp::WriteStr),
            env: env_a(),
            stack: seq![arg_frame(exit_value(os)), arg_frame(line_value(os))],
            os: os_read(os),
        }
    } else if i == 10 {
        StateM {
            comp: force_k(),
            env: kont_env(exit_value(os), env_a()),
            stack: Seq::empty(),
            os: os_written(os),
        }
    } else if i == 11 {
        StateM { comp: exit_zero(), env: env_line(os), stack: Seq::empty(), os: os_written(os) }
    } else if i == 12 {
        StateM {
            comp: force_var("exit"@),
            env: env_line(os),
            stack: seq![arg_frame(SemM::Literal(LiteralM::Int(0)))],
            os: os_written(os),
        }
    } else {
        StateM {
            comp: CompM::Prim(1, PrimOp::Exit),
            env: env_b(),
            stack: seq![arg_frame(SemM::Literal(LiteralM::Int(0)))],
            os: os_written(os),
        }
    }
}

/// A step of the machine goes on to the state `next`.
pub open spec fn goes_to(s: StateM, next: StateM) -> bool {
    step(s) == Ok::<StepM, EvalErrorM>(StepM::Next(next))
}

/// The application of a computation to a value that has a value pushes
/// the frame of the application and goes on with the computation.
pub proof fn lemma_call(s: StateM, f: CompM, v: ValM, next: StateM)
    requires
        s.comp == call(f, v),
        eval(v, s.env) is Ok,
        next == (StateM {
            comp: f,
            env: s.env,
            stack: s.stack.push(arg_frame(eval(v, s.env)->Ok_0)),
            os: s.os,
        }),
    ensures
        goes_to(s, next),
{
    lemma_eval_one(v, s.env);
}

/// Forcing a variable that is bound to a thunk goes on with the body of
/// the thunk in the environment of the thunk.
pub proof fn lemma_force(s: StateM, x: Seq<char>, next: StateM)
    requires
        s.comp == force_var(x),
        s.env.contains_key(x),
        s.env[x] is Thunk,
        next == (StateM { comp: s.env[x]->Thunk_0, env: s.env[x]->Thunk_1, stack: s.stack, os: s.os }),
    ensures
        goes_to(s, next),
{
}

/// The first five transitions: up to the function that is handed to
/// `read_line`.
pub proof fn lemma_steps_read(os: OsM)
    ensures
        goes_to(state(0, os), state(1, os)),
        goes_to(state(1, os), state(2, os)),
        goes_to(state(2, os), state(3, os)),
        goes_to(state(3, os), state(4, os)),
        goes_to(state(4, os), state(5, os)),
{
    lemma_names();
    reveal_strlit("k");
    let k1 = reader_value();
    assert(goes_to(state(0, os), state(1, os))) by {
        assert(Seq::<FrameM>::empty().push(arg_frame(k1)) =~= seq![arg_frame(k1)]);
        lemma_call(state(0, os), force_var("read_line"@), ValM::Thunk(Box::new(reader())), state(1, os));
    }
    assert(goes_to(state(1, os), state(2, os))) by {
        lemma_force(state(1, os), "read_line"@, state(2, os));
    }
    assert(goes_to(state(2, os), state(3, os))) by {
        let st = seq![arg_frame(k1)];
        assert(st.drop_last() =~= Seq::<FrameM>::empty());
        assert(pop_args(st.drop_last(), 0) == Some((Seq::<SemM>::empty(), Seq::<FrameM>::empty())));
        assert(seq![k1] + Seq::<SemM>::empty() =~= seq![k1]);
        assert(pop_args(st, 1) == Some((seq![k1], Seq::<FrameM>::empty())));
    }
    assert(goes_to(state(3, os), state(4, os))) by {
        let lit = ValM::Literal(LiteralM::String(os.next_line()));
        assert(Seq::<FrameM>::empty().push(arg_frame(line_value(os))) =~= seq![
            arg_frame(line_value(os)),
        ]);
        lemma_call(state(3, os), force_k(), lit, state(4, os));
    }
    assert(goes_to(state(4, os), state(5, os))) by {
        lemma_force(state(4, os), "k"@, state(5, os));
    }
}

/// The next five transitions: up to the call of `write_str`.
pub proof fn lemma_steps_write(os: OsM)
    ensures
        goes_to(state(5, os), state(6, os)),
        goes_to(state(6, os), state(7, os)),
        goes_to(state(7, os), state(8, os)),
        goes_to(state(8, os), state(9, os)),
        goes_to(state(9, os), state(10, os)),
{
    lemma_names();
    let lit = line_value(os);
    let k2 = exit_value(os);
    assert(goes_to(state(5, os), state(6, os))) by {
        let arms = seq![ArmM { tag: "arg"@, vars: seq!["line"@], body: write_back() }];
        assert(arms.drop_last() =~= Seq::<ArmM>::empty());
        assert(find_arm(arms.drop_last(), "arg"@).is_none());
        assert(find_arm(arms, "arg"@) == Some(0int));
        assert(bind_all(env_c(), seq!["line"@], seq![lit], 0) == env_c());
        assert(bind_all(env_c(), seq!["line"@], seq![lit], 1) == env_line(os));
        assert(seq![arg_frame(lit)].drop_last() =~= Seq::<FrameM>::empty());
    }
    assert(goes_to(state(6, os), state(7, os))) by {
        assert(Seq::<FrameM>::empty().push(arg_frame(k2)) =~= seq![arg_frame(k2)]);
        lemma_call(
            state(6, os),
            call(force_var("write_str"@), ValM::Var("line"@)),
            ValM::Thunk(Box::new(exit_zero())),
            state(7, os),
        );
    }
    assert(goes_to(state(7, os), state(8, os))) by {
        assert(seq![arg_frame(k2)].push(arg_frame(lit)) =~= seq![arg_frame(k2), arg_frame(lit)]);
        lemma_call(state(7, os), force_var("write_str"@), ValM::Var("line"@), state(8, os));
    }
    assert(goes_to(state(8, os), state(9, os))) by {
        lemma_force(state(8, os), "write_str"@, state(9, os));
    }
    assert(goes_to(state(9, os), state(10, os))) by {
        let st = seq![arg_frame(k2), arg_frame(lit)];
        assert(st.drop_last() =~= seq![arg_frame(k2)]);
        assert(st.drop_last().drop_last() =~= Seq::<FrameM>::empty());
        assert(pop_args(Seq::<FrameM>::empty(), 0) == Some(
            (Seq::<SemM>::empty(), Seq::<FrameM>::empty()),
        ));
        assert(seq![k2] + Seq::<SemM>::empty() =~= seq![k2]);
        assert(pop_args(seq![arg_frame(k2)], 1) == Some((seq![k2], Seq::<FrameM>::empty())));
        assert(seq![lit] + seq![k2] =~= seq![lit, k2]);
        assert(pop_args(st, 2) == Some((seq![lit, k2], Seq::<FrameM>::empty())));
    }
}

/// The last transitions: up to the end of the program.
pub proof fn lemma_steps_exit(os: OsM)
    ensures
        goes_to(state(10, os), state(11, os)),
        goes_to(state(11, os), state(12, os)),
        goes_to(state(12, os), state(13, os)),
        step(state(13, os)) == Ok::<StepM, EvalErrorM>(
            StepM::Done(ResultM::ExitCode(0), os_written(os)),
        ),
{
    lemma_names();
    reveal_strlit("k");
    let zero = SemM::Literal(LiteralM::Int(0));
    assert(goes_to(state(10, os), state(11, os))) by {
        lemma_force(state(10, os), "k"@, state(11, os));
    }
    assert(goes_to(state(11, os), state(12, os))) by {
        assert(Seq::<FrameM>::empty().push(arg_frame(zero)) =~= seq![arg_frame(zero)]);
        lemma_call(state(11, os), force_var("exit"@), ValM::Literal(LiteralM::Int(0)), state(12, os));
    }
    assert(goes_to(state(12, os), state(13, os))) by {
        lemma_force(state(12, os), "exit"@, state(13, os));
    }
    assert(step(state(13, os)) == Ok::<StepM, EvalErrorM>(
        StepM::Done(ResultM::ExitCode(0), os_written(os)),
    )) by {
        let st = seq![arg_frame(zero)];
        assert(st.drop_last() =~= Seq::<FrameM>::empty());
        assert(pop_args(st.drop_last(), 0) == Some((Seq::<SemM>::empty(), Seq::<FrameM>::empty())));
        assert(seq![zero] + Seq::<SemM>::empty() =~= seq![zero]);
        assert(pop_args(st, 1) == Some((seq![zero], Seq::<FrameM>::empty())));
    }
}

/// The run from the state after `i` transitions, with just the budget
/// that is left to the end.
pub proof fn lemma_echo_from(i: nat, os: OsM)
    requires
        i <= 13,
    ensures
        run(state(i, os), (14 - i) as nat) == Ok::<(ResultM, OsM), EvalErrorM>(
            (ResultM::ExitCode(0), os_written(os)),
        ),
    decreases 13 - i,
{
    lemma_steps_read(os);
    lemma_steps_write(os);
    lemma_steps_exit(os);
    if i < 13 {
        lemma_echo_from(i + 1, os);
        lemma_run_next(state(i, os), state(i + 1, os), (13 - i) as nat);
    }
}

/// The program that reads a line and writes it back. Against any
/// operating system, with a budget of fourteen transitions or more, it
/// ends with the exit code 0; it has then read the first line of the
/// input, and written that line after what was written before.
pub proof fn lemma_echo(os: OsM, budget: nat)
    requires
        budget >= 14,
    ensures
        run_module(echo(), os, budget) == Ok::<(ResultM, OsM), EvalErrorM>(
            (ResultM::ExitCode(0), os.after_line().after_write(os.next_line())),
        ),
{
    lemma_echo_loads();
    lemma_echo_from(0, os);
    crate::dynamics::machine::lemma_budget_monotone(state(0, os), 14, budget);
}

/// The run on the input `hello` and a line feed, with no arguments and
/// nothing written before: the program writes `hello` and a line feed,
/// leaves nothing to read, and ends with the exit code 0.
pub proof fn lemma_echo_hello(os: OsM, budget: nat)
    requires
        budget >= 14,
        os.input == "hello\n"@,
        os.output == Seq::<char>::empty(),
    ensures
        run_module(echo(), os, budget) is Ok,
        run_module(echo(), os, budget)->Ok_0.0 == ResultM::ExitCode(0),
        run_module(echo(), os, budget)->Ok_0.1.output == "hello\n"@,
        run_module(echo(), os, budget)->Ok_0.1.input == Seq::<char>::empty(),
{
    lemma_echo(os, budget);
    reveal_strlit("hello\n");
    let s = os.input;
    assert(s.len() == 6);
    assert(s[5] == '\n');
    crate::dynamics::os::lemma_line_len_skip(s, 5);
    assert(s.skip(5)[0] == '\n');
    assert(crate::dynamics::os::line_len(s) == 6);
    assert(os.next_line() =~= s);
    assert(os.after_line().input =~= Seq::<char>::empty());
    assert(os.after_line().after_write(os.next_line()).output =~= s);
}

} // verus!
