//! A worked run of the machine: the program that writes out a list of
//! strings, each followed by a line feed, and then ends with the exit
//! code 0. Started on the arguments of the program, it prints them.

use vstd::prelude::*;
use crate::dynamics::echo::{arg_frame, call, force_var, goes_to, lemma_call, lemma_force, prim_thunk};
use crate::dynamics::machine::{
    bind_all, eval, eval_all, find_arm, load, pop_args, run, run_module, step, EvalErrorM,
    FrameM, ResultM, StateM, StepM,
};
use crate::dynamics::os::OsM;
use crate::dynamics::prim::{apply_k, force_k, kont_env, string_list};
use crate::dynamics::store::{empty_env, EnvM, SemM};
use crate::link::prim_value;
use crate::linked::{ArmM, CompM, LiteralM, ModuleM, PrimOp, ValM};

verus! {

/// `! walk rest`
pub open spec fn go_on() -> CompM {
    call(force_var("walk"@), ValM::Var("rest"@))
}

/// `! write_str "\n" { ! walk rest }`
pub open spec fn end_line() -> CompM {
    call(
        call(force_var("write_str"@), ValM::Literal(LiteralM::String("\n"@))),
        ValM::Thunk(Box::new(go_on())),
    )
}

/// `! write_str x { ! write_str "\n" { ! walk rest } }`
pub open spec fn write_head() -> CompM {
    call(call(force_var("write_str"@), ValM::Var("x"@)), ValM::Thunk(Box::new(end_line())))
}

/// `! exit 0`
pub open spec fn leave() -> CompM {
    call(force_var("exit"@), ValM::Literal(LiteralM::Int(0)))
}

/// `match l | Nil() -> ! exit 0 | Cons(x, rest) -> .. end`
pub open spec fn cases() -> CompM {
    CompM::Match(
        Box::new(ValM::Var("l"@)),
        seq![
            ArmM { tag: "Nil"@, vars: Seq::empty(), body: leave() },
            ArmM { tag: "Cons"@, vars: seq!["x"@, "rest"@], body: write_head() },
        ],
    )
}

/// `fn l -> match l ..`
pub open spec fn function() -> CompM {
    CompM::Comatch(seq![ArmM { tag: "arg"@, vars: seq!["l"@], body: cases() }])
}

/// `rec walk -> fn l -> match l ..`
pub open spec fn walk() -> CompM {
    CompM::Rec("walk"@, Box::new(function()))
}

/// The list of the strings `s`, as a value.
pub open spec fn list_value(s: Seq<Seq<char>>) -> SemM
    decreases s.len(),
{
    if s.len() == 0 {
        SemM::Ctor("Nil"@, Seq::empty())
    } else {
        SemM::Ctor("Cons"@, seq![SemM::Literal(LiteralM::String(s[0])), list_value(s.skip(1))])
    }
}

/// The operating system once each of the strings `s` has been written,
/// followed by a line feed, in order.
pub open spec fn written(os: OsM, s: Seq<Seq<char>>) -> OsM
    decreases s.len(),
{
    if s.len() == 0 {
        os
    } else {
        written(os.after_write(s[0]).after_write("\n"@), s.skip(1))
    }
}

/// An environment in which the program can run: `write_str` and `exit`
/// are bound to their primitives.
pub open spec fn fit(home: EnvM) -> bool {
    &&& home.contains_key("write_str"@)
    &&& home["write_str"@] matches SemM::Thunk(c, _) && c == CompM::Prim(2, PrimOp::WriteStr)
    &&& home.contains_key("exit"@)
    &&& home["exit"@] matches SemM::Thunk(c, _) && c == CompM::Prim(1, PrimOp::Exit)
}

/// The state in which the program is applied to the list of the strings
/// `s`: it is about to run in the environment `home`, on a stack that
/// holds the application and nothing else.
pub open spec fn applied(s: Seq<Seq<char>>, home: EnvM, os: OsM) -> StateM {
    StateM { comp: walk(), env: home, stack: seq![arg_frame(list_value(s))], os }
}

/// The names that the program uses are different names.
pub proof fn lemma_names()
    ensures
        "write_str"@ != "walk"@,
        "write_str"@ != "l"@,
        "write_str"@ != "x"@,
        "write_str"@ != "rest"@,
        "exit"@ != "walk"@,
        "exit"@ != "l"@,
        "walk"@ != "l"@,
        "walk"@ != "x"@,
        "walk"@ != "rest"@,
        "x"@ != "rest"@,
        "Nil"@ != "Cons"@,
{
    reveal_strlit("write_str");
    reveal_strlit("walk");
    reveal_strlit("exit");
    reveal_strlit("l");
    reveal_strlit("x");
    reveal_strlit("rest");
    reveal_strlit("Nil");
    reveal_strlit("Cons");
    assert("write_str"@.len() != "walk"@.len());
    assert("write_str"@.len() != "l"@.len());
    assert("write_str"@.len() != "rest"@.len());
    assert("exit"@[0] != "walk"@[0]);
    assert("exit"@.len() != "l"@.len());
    assert("walk"@.len() != "l"@.len());
    assert("walk"@[0] != "rest"@[0]);
    assert("x"@.len() != "rest"@.len());
    assert("Nil"@.len() != "Cons"@.len());
}

/// Two value terms are evaluated to two values.
pub proof fn lemma_eval_two(a: ValM, b: ValM, env: EnvM)
    requires
        eval(a, env) is Ok,
        eval(b, env) is Ok,
    ensures
        eval_all(seq![a, b], env, 2) == Ok::<Seq<SemM>, EvalErrorM>(
            seq![eval(a, env)->Ok_0, eval(b, env)->Ok_0],
        ),
{
    let va = eval(a, env)->Ok_0;
    let vb = eval(b, env)->Ok_0;
    assert(eval_all(seq![a, b], env, 0) == Ok::<Seq<SemM>, EvalErrorM>(Seq::empty()));
    assert(Seq::<SemM>::empty().push(va) =~= seq![va]);
    assert(eval_all(seq![a, b], env, 1) == Ok::<Seq<SemM>, EvalErrorM>(seq![va]));
    assert(seq![va].push(vb) =~= seq![va, vb]);
}

/// The term that a primitive makes of a list of strings has the list as
/// its value, in any environment.
pub proof fn lemma_string_list(s: Seq<Seq<char>>, env: EnvM)
    ensures
        eval(string_list(s), env) == Ok::<SemM, EvalErrorM>(list_value(s)),
    decreases s.len(),
{
    if s.len() == 0 {
        assert(eval_all(Seq::<ValM>::empty(), env, 0) == Ok::<Seq<SemM>, EvalErrorM>(Seq::empty()));
    } else {
        lemma_string_list(s.skip(1), env);
        lemma_eval_two(ValM::Literal(LiteralM::String(s[0])), string_list(s.skip(1)), env);
    }
}

/// A call of `write_str` on the string `text`, with the computation
/// `then` to go on with, in an environment `env` that binds `write_str`
/// to its primitive: five transitions write the string and lead to `then`
/// in `env`.
pub proof fn lemma_write(
    head: ValM,
    text: Seq<char>,
    then: CompM,
    env: EnvM,
    os: OsM,
    budget: nat,
)
    requires
        fit(env),
        eval(head, env) == Ok::<SemM, EvalErrorM>(SemM::Literal(LiteralM::String(text))),
    ensures
        run(
            StateM {
                comp: call(call(force_var("write_str"@), head), ValM::Thunk(Box::new(then))),
                env,
                stack: Seq::empty(),
                os,
            },
            5 + budget,
        ) == run(StateM { comp: then, env, stack: Seq::empty(), os: os.after_write(text) }, budget),
{
    reveal_strlit("k");
    let lit = SemM::Literal(LiteralM::String(text));
    let k = SemM::Thunk(then, env);
    let home = env["write_str"@]->Thunk_1;
    let inner = call(force_var("write_str"@), head);
    let s0 = StateM {
        comp: call(inner, ValM::Thunk(Box::new(then))),
        env,
        stack: Seq::empty(),
        os,
    };
    let s1 = StateM { comp: inner, env, stack: seq![arg_frame(k)], os };
    let s2 = StateM {
        comp: force_var("write_str"@),
        env,
        stack: seq![arg_frame(k), arg_frame(lit)],
        os,
    };
    let s3 = StateM { comp: CompM::Prim(2, PrimOp::WriteStr), env: home, stack: s2.stack, os };
    let s4 = StateM {
        comp: force_k(),
        env: kont_env(k, home),
        stack: Seq::empty(),
        os: os.after_write(text),
    };
    let s5 = StateM { comp: then, env, stack: Seq::empty(), os: os.after_write(text) };
    assert(goes_to(s0, s1)) by {
        assert(Seq::<FrameM>::empty().push(arg_frame(k)) =~= seq![arg_frame(k)]);
        lemma_call(s0, inner, ValM::Thunk(Box::new(then)), s1);
    }
    assert(goes_to(s1, s2)) by {
        assert(seq![arg_frame(k)].push(arg_frame(lit)) =~= seq![arg_frame(k), arg_frame(lit)]);
        lemma_call(s1, force_var("write_str"@), head, s2);
    }
    assert(goes_to(s2, s3)) by {
        lemma_force(s2, "write_str"@, s3);
    }
    assert(goes_to(s3, s4)) by {
        let st = s3.stack;
        assert(st.drop_last() =~= seq![arg_frame(k)]);
        assert(st.drop_last().drop_last() =~= Seq::<FrameM>::empty());
        assert(pop_args(Seq::<FrameM>::empty(), 0) == Some(
            (Seq::<SemM>::empty(), Seq::<FrameM>::empty()),
        ));
        assert(seq![k] + Seq::<SemM>::empty() =~= seq![k]);
        assert(pop_args(seq![arg_frame(k)], 1) == Some((seq![k], Seq::<FrameM>::empty())));
        assert(seq![lit] + seq![k] =~= seq![lit, k]);
        assert(pop_args(st, 2) == Some((seq![lit, k], Seq::<FrameM>::empty())));
    }
    assert(goes_to(s4, s5)) by {
        lemma_force(s4, "k"@, s5);
    }
    assert(run(s0, 5 + budget) == run(s1, 4 + budget));
    assert(run(s1, 4 + budget) == run(s2, 3 + budget));
    assert(run(s2, 3 + budget) == run(s3, 2 + budget));
    assert(run(s3, 2 + budget) == run(s4, 1 + budget));
    assert(run(s4, 1 + budget) == run(s5, budget));
}

/// The environment of the program once it has started and taken its
/// argument: the program itself and the list are bound.
pub open spec fn env_list(s: Seq<Seq<char>>, home: EnvM) -> EnvM {
    home.insert("walk"@, SemM::Thunk(walk(), home)).insert("l"@, list_value(s))
}

/// The program starts and takes the application off the stack: two
/// transitions lead to the inspection of the list.
pub proof fn lemma_enter(s: Seq<Seq<char>>, home: EnvM, os: OsM, budget: nat)
    ensures
        run(applied(s, home, os), 2 + budget) == run(
            StateM { comp: cases(), env: env_list(s, home), stack: Seq::empty(), os },
            budget,
        ),
{
    let s0 = applied(s, home, os);
    let env1 = home.insert("walk"@, SemM::Thunk(walk(), home));
    let s1 = StateM { comp: function(), env: env1, stack: s0.stack, os };
    let s2 = StateM { comp: cases(), env: env_list(s, home), stack: Seq::empty(), os };
    assert(step(s0) == Ok::<StepM, EvalErrorM>(StepM::Next(s1)));
    let arms = function()->Comatch_0;
    assert(arms.drop_last() =~= Seq::<ArmM>::empty());
    assert(find_arm(arms.drop_last(), "arg"@).is_none());
    assert(find_arm(arms, "arg"@) == Some(0int));
    let vars = seq!["l"@];
    let vals = seq![list_value(s)];
    assert(bind_all(env1, vars, vals, 0) == env1);
    assert(bind_all(env1, vars, vals, 1) == env_list(s, home));
    assert(s1.stack.drop_last() =~= Seq::<FrameM>::empty());
    assert(step(s1) == Ok::<StepM, EvalErrorM>(StepM::Next(s2)));
    assert(run(s0, 2 + budget) == run(s1, 1 + budget));
    assert(run(s1, 1 + budget) == run(s2, budget));
}

/// The arm of the inspection for a constructor of the lists.
pub proof fn lemma_cases_arm(empty: bool)
    ensures
        find_arm(
            cases()->Match_1,
            if empty {
                "Nil"@
            } else {
                "Cons"@
            },
        ) == Some(
            if empty {
                0int
            } else {
                1int
            },
        ),
{
    lemma_names();
    let arms = cases()->Match_1;
    let tag = if empty {
        "Nil"@
    } else {
        "Cons"@
    };
    let first = arms.drop_last();
    assert(first.len() == 1);
    assert(first.last().tag == "Nil"@);
    assert(first.drop_last() =~= Seq::<ArmM>::empty());
    assert(find_arm(first.drop_last(), tag).is_none());
    assert(find_arm(first, tag) == (if empty {
        Some(0int)
    } else {
        None
    }));
    assert(arms.last().tag == "Cons"@);
}

/// The program, applied to a list of strings in an environment that binds
/// `write_str` and `exit` to their primitives: within `15 * n + 6`
/// transitions, where `n` is the length of the list, the machine ends
/// with the exit code 0, and has written each string of the list,
/// followed by a line feed, in order.
pub proof fn lemma_applied(s: Seq<Seq<char>>, home: EnvM, os: OsM)
    requires
        fit(home),
    ensures
        run(applied(s, home, os), 15 * s.len() + 6) == Ok::<(ResultM, OsM), EvalErrorM>(
            (ResultM::ExitCode(0), written(os, s)),
        ),
    decreases s.len(),
{
    lemma_names();
    let env = env_list(s, home);
    let n = s.len();
    lemma_enter(s, home, os, (15 * n + 4) as nat);
    let s2 = StateM { comp: cases(), env, stack: Seq::empty(), os };
    assert(fit(env));
    if n == 0 {
        lemma_cases_arm(true);
        let zero = SemM::Literal(LiteralM::Int(0));
        let s3 = StateM { comp: leave(), env, stack: Seq::empty(), os };
        assert(bind_all(env, Seq::empty(), Seq::empty(), 0) == env);
        assert(step(s2) == Ok::<StepM, EvalErrorM>(StepM::Next(s3)));
        let s4 = StateM { comp: force_var("exit"@), env, stack: seq![arg_frame(zero)], os };
        assert(goes_to(s3, s4)) by {
            assert(Seq::<FrameM>::empty().push(arg_frame(zero)) =~= seq![arg_frame(zero)]);
            lemma_call(s3, force_var("exit"@), ValM::Literal(LiteralM::Int(0)), s4);
        }
        let s5 = StateM {
            comp: CompM::Prim(1, PrimOp::Exit),
            env: env["exit"@]->Thunk_1,
            stack: s4.stack,
            os,
        };
        assert(goes_to(s4, s5)) by {
            lemma_force(s4, "exit"@, s5);
        }
        assert(step(s5) == Ok::<StepM, EvalErrorM>(StepM::Done(ResultM::ExitCode(0), os))) by {
            let st = s5.stack;
            assert(st.drop_last() =~= Seq::<FrameM>::empty());
            assert(pop_args(st.drop_last(), 0) == Some(
                (Seq::<SemM>::empty(), Seq::<FrameM>::empty()),
            ));
            assert(seq![zero] + Seq::<SemM>::empty() =~= seq![zero]);
            assert(pop_args(st, 1) == Some((seq![zero], Seq::<FrameM>::empty())));
        }
        assert(run(s2, 4) == run(s3, 3));
        assert(run(s3, 3) == run(s4, 2));
        assert(run(s4, 2) == run(s5, 1));
    } else {
        let rest = s.skip(1);
        lemma_cases_arm(false);
        let head = SemM::Literal(LiteralM::String(s[0]));
        let vars = seq!["x"@, "rest"@];
        let vals = seq![head, list_value(rest)];
        let env1 = env.insert("x"@, head);
        let env2 = env1.insert("rest"@, list_value(rest));
        assert(bind_all(env, vars, vals, 0) == env);
        assert(bind_all(env, vars, vals, 1) == env1);
        assert(bind_all(env, vars, vals, 2) == env2);
        let s3 = StateM { comp: write_head(), env: env2, stack: Seq::empty(), os };
        assert(step(s2) == Ok::<StepM, EvalErrorM>(StepM::Next(s3)));
        assert(env1["write_str"@] == home["write_str"@] && env1["exit"@] == home["exit"@]) by {
            reveal_strlit("x");
            reveal_strlit("write_str");
            reveal_strlit("exit");
            assert("x"@.len() != "write_str"@.len() && "x"@.len() != "exit"@.len());
        }
        assert(env2["write_str"@] == home["write_str"@] && env2["exit"@] == home["exit"@]) by {
            reveal_strlit("rest");
            reveal_strlit("write_str");
            reveal_strlit("exit");
            assert("rest"@.len() != "write_str"@.len() && "rest"@[0] != "exit"@[0]);
        }
        assert(fit(env2));
        let after = (15 * rest.len() + 6) as nat;
        let os1 = os.after_write(s[0]);
        let os2 = os1.after_write("\n"@);
        lemma_write(ValM::Var("x"@), s[0], end_line(), env2, os, 7 + after);
        lemma_write(ValM::Literal(LiteralM::String("\n"@)), "\n"@, go_on(), env2, os1, 2 + after);
        let s13 = StateM { comp: go_on(), env: env2, stack: Seq::empty(), os: os2 };
        let s14 = StateM {
            comp: force_var("walk"@),
            env: env2,
            stack: seq![arg_frame(list_value(rest))],
            os: os2,
        };
        assert(goes_to(s13, s14)) by {
            assert(Seq::<FrameM>::empty().push(arg_frame(list_value(rest))) =~= seq![
                arg_frame(list_value(rest)),
            ]);
            lemma_call(s13, force_var("walk"@), ValM::Var("rest"@), s14);
        }
        assert(env2["walk"@] == SemM::Thunk(walk(), home));
        assert(goes_to(s14, applied(rest, home, os2))) by {
            lemma_force(s14, "walk"@, applied(rest, home, os2));
        }
        lemma_applied(rest, home, os2);
        assert(15 * n + 4 == 1 + (5 + (7 + after)));
        assert(run(s2, 1 + (5 + (7 + after))) == run(s3, 5 + (7 + after)));
        assert(7 + after == 5 + (2 + after));
        assert(run(s13, 2 + after) == run(s14, 1 + after));
        assert(run(s14, 1 + after) == run(applied(rest, home, os2), after));
    }
}

/// The linked program that prints its arguments: the three primitives it
/// uses, and the entry `! arg_list { rec walk -> .. }`.
pub open spec fn print_args() -> ModuleM {
    ModuleM {
        name: None,
        define: seq![
            ("write_str"@, prim_value(PrimOp::WriteStr)),
            ("exit"@, prim_value(PrimOp::Exit)),
            ("arg_list"@, prim_value(PrimOp::ArgList)),
        ],
        entry: call(force_var("arg_list"@), ValM::Thunk(Box::new(walk()))),
    }
}

/// The environment once `write_str` and `exit` are bound.
pub open spec fn env_two() -> EnvM {
    let one = empty_env().insert("write_str"@, prim_thunk(PrimOp::WriteStr, empty_env()));
    one.insert("exit"@, prim_thunk(PrimOp::Exit, one))
}

/// The environment once `arg_list` is bound too: the one the entry starts
/// in.
pub open spec fn env_three() -> EnvM {
    env_two().insert("arg_list"@, prim_thunk(PrimOp::ArgList, env_two()))
}

/// The top-level bindings of the program are made without failure, and
/// leave an environment in which it can run.
pub proof fn lemma_print_args_loads()
    ensures
        load(print_args().define, empty_env(), 3) == Ok::<EnvM, EvalErrorM>(env_three()),
        fit(env_three()),
{
    let d = print_args().define;
    let one = empty_env().insert("write_str"@, prim_thunk(PrimOp::WriteStr, empty_env()));
    assert(load(d, empty_env(), 0) == Ok::<EnvM, EvalErrorM>(empty_env()));
    assert(load(d, empty_env(), 1) == Ok::<EnvM, EvalErrorM>(one));
    assert(load(d, empty_env(), 2) == Ok::<EnvM, EvalErrorM>(env_two()));
    reveal_strlit("write_str");
    reveal_strlit("exit");
    reveal_strlit("arg_list");
    assert("write_str"@.len() != "exit"@.len());
    assert("write_str"@.len() != "arg_list"@.len());
    assert("exit"@.len() != "arg_list"@.len());
}

/// The entry of the program asks for the arguments and applies the walk
/// to their list: five transitions.
pub proof fn lemma_print_args_starts(os: OsM, budget: nat)
    ensures
        run(
            StateM { comp: print_args().entry, env: env_three(), stack: Seq::empty(), os },
            5 + budget,
        ) == run(applied(os.args, env_three(), os), budget),
{
    reveal_strlit("k");
    let home = env_three();
    let k = SemM::Thunk(walk(), home);
    let list = list_value(os.args);
    let s0 = StateM { comp: print_args().entry, env: home, stack: Seq::empty(), os };
    let s1 = StateM { comp: force_var("arg_list"@), env: home, stack: seq![arg_frame(k)], os };
    let s2 = StateM {
        comp: CompM::Prim(1, PrimOp::ArgList),
        env: env_two(),
        stack: s1.stack,
        os,
    };
    let s3 = StateM {
        comp: apply_k(string_list(os.args)),
        env: kont_env(k, env_two()),
        stack: Seq::empty(),
        os,
    };
    let s4 = StateM { comp: force_k(), env: s3.env, stack: seq![arg_frame(list)], os };
    assert(goes_to(s0, s1)) by {
        assert(Seq::<FrameM>::empty().push(arg_frame(k)) =~= seq![arg_frame(k)]);
        lemma_call(s0, force_var("arg_list"@), ValM::Thunk(Box::new(walk())), s1);
    }
    assert(goes_to(s1, s2)) by {
        lemma_force(s1, "arg_list"@, s2);
    }
    assert(goes_to(s2, s3)) by {
        let st = s2.stack;
        assert(st.drop_last() =~= Seq::<FrameM>::empty());
        assert(pop_args(st.drop_last(), 0) == Some((Seq::<SemM>::empty(), Seq::<FrameM>::empty())));
        assert(seq![k] + Seq::<SemM>::empty() =~= seq![k]);
        assert(pop_args(st, 1) == Some((seq![k], Seq::<FrameM>::empty())));
    }
    assert(goes_to(s3, s4)) by {
        lemma_string_list(os.args, s3.env);
        assert(Seq::<FrameM>::empty().push(arg_frame(list)) =~= seq![arg_frame(list)]);
        lemma_call(s3, force_k(), string_list(os.args), s4);
    }
    assert(goes_to(s4, applied(os.args, home, os))) by {
        lemma_force(s4, "k"@, applied(os.args, home, os));
    }
    assert(run(s0, 5 + budget) == run(s1, 4 + budget));
    assert(run(s1, 4 + budget) == run(s2, 3 + budget));
    assert(run(s2, 3 + budget) == run(s3, 2 + budget));
    assert(run(s3, 2 + budget) == run(s4, 1 + budget));
    assert(run(s4, 1 + budget) == run(applied(os.args, home, os), budget));
}

/// The program that prints its arguments, run against any operating
/// system with a budget of at least `15 * n + 11` transitions, where `n`
/// is the number of the arguments: it ends with the exit code 0, has read
/// nothing, and has written each argument, followed by a line feed, in
/// order.
pub proof fn lemma_print_args(os: OsM, budget: nat)
    requires
        budget >= 15 * os.args.len() + 11,
    ensures
        run_module(print_args(), os, budget) == Ok::<(ResultM, OsM), EvalErrorM>(
            (ResultM::ExitCode(0), written(os, os.args)),
        ),
{
    let least = (15 * os.args.len() + 11) as nat;
    let s0 = StateM { comp: print_args().entry, env: env_three(), stack: Seq::empty(), os };
    lemma_print_args_loads();
    lemma_print_args_starts(os, (15 * os.args.len() + 6) as nat);
    lemma_applied(os.args, env_three(), os);
    assert(least == 5 + (15 * os.args.len() + 6));
    crate::dynamics::machine::lemma_budget_monotone(s0, least, budget);
}

/// Run on the arguments `hello` and `world` with nothing written before,
/// the program writes `hello`, a line feed, `world` and a line feed.
pub proof fn lemma_print_hello_world(os: OsM, budget: nat)
    requires
        budget >= 41,
        os.args == seq!["hello"@, "world"@],
        os.output == Seq::<char>::empty(),
    ensures
        run_module(print_args(), os, budget) is Ok,
        run_module(print_args(), os, budget)->Ok_0.0 == ResultM::ExitCode(0),
        run_module(print_args(), os, budget)->Ok_0.1.output == "hello\nworld\n"@,
        run_module(print_args(), os, budget)->Ok_0.1.input == os.input,
{
    lemma_print_args(os, budget);
    let a = os.args;
    let os1 = os.after_write(a[0]).after_write("\n"@);
    let os2 = os1.after_write(a.skip(1)[0]).after_write("\n"@);
    assert(a.skip(1).len() == 1);
    assert(a.skip(1).skip(1).len() == 0);
    assert(written(os2, a.skip(1).skip(1)) == os2);
    assert(written(os1, a.skip(1)) == os2);
    assert(written(os, a) == os2);
    reveal_strlit("hello");
    reveal_strlit("world");
    reveal_strlit("\n");
    reveal_strlit("hello\nworld\n");
    assert(os2.output =~= "hello\nworld\n"@);
}

} // verus!
