//! A worked run of the machine: evenness and oddness of a natural number,
//! as the two destructors of one recursive record. The destructor `even`
//! of the record, applied to a number, returns `True` if the number is
//! even and `False` if it is odd; the destructor `odd` the other way
//! round. Each calls the other on the number before.

use vstd::prelude::*;
use crate::dynamics::echo::force_var;
use crate::dynamics::machine::{
    bind_all, eval, eval_all, find_arm, run, step, EvalErrorM, FrameM, ResultM, StateM, StepM,
};
use crate::dynamics::os::OsM;
use crate::dynamics::store::{EnvM, SemM};
use crate::linked::{ArmM, CompM, ValM};

verus! {

/// The name of a destructor of the record.
pub open spec fn dtor_name(even: bool) -> Seq<char> {
    if even {
        "even"@
    } else {
        "odd"@
    }
}

/// The name of a truth value.
pub open spec fn truth(b: bool) -> Seq<char> {
    if b {
        "True"@
    } else {
        "False"@
    }
}

/// The body of a destructor: `match n | Zero() -> ret at_zero() |
/// Succ(m) -> ! eo .next(m) end`, where `at_zero` is the answer for zero
/// and `next` is the other destructor.
pub open spec fn branch(even: bool) -> CompM {
    CompM::Match(
        Box::new(ValM::Var("n"@)),
        seq![
            ArmM {
                tag: "Zero"@,
                vars: Seq::empty(),
                body: CompM::Ret(Box::new(ValM::Ctor(truth(even), Seq::empty()))),
            },
            ArmM {
                tag: "Succ"@,
                vars: seq!["m"@],
                body: CompM::Dtor(
                    Box::new(force_var("eo"@)),
                    dtor_name(!even),
                    seq![ValM::Var("m"@)],
                ),
            },
        ],
    )
}

/// The record: `comatch | .even(n) -> .. | .odd(n) -> .. end`.
pub open spec fn record() -> CompM {
    CompM::Comatch(
        seq![
            ArmM { tag: "even"@, vars: seq!["n"@], body: branch(true) },
            ArmM { tag: "odd"@, vars: seq!["n"@], body: branch(false) },
        ],
    )
}

/// The recursive record: `rec eo -> comatch ..`.
pub open spec fn even_odd() -> CompM {
    CompM::Rec("eo"@, Box::new(record()))
}

/// The natural number `k` as a value: `Succ` applied `k` times to `Zero`.
pub open spec fn peano(k: nat) -> SemM
    decreases k,
{
    if k == 0 {
        SemM::Ctor("Zero"@, Seq::empty())
    } else {
        SemM::Ctor("Succ"@, seq![peano((k - 1) as nat)])
    }
}

/// The natural number `k` as a value term.
pub open spec fn peano_term(k: nat) -> ValM
    decreases k,
{
    if k == 0 {
        ValM::Ctor("Zero"@, Seq::empty())
    } else {
        ValM::Ctor("Succ"@, seq![peano_term((k - 1) as nat)])
    }
}

/// The state in which a destructor of the record is applied to the
/// number `k`: the record is about to run in the environment `home`, on a
/// stack that holds the application and nothing else.
pub open spec fn applied(even: bool, k: nat, home: EnvM, os: OsM) -> StateM {
    StateM {
        comp: even_odd(),
        env: home,
        stack: seq![FrameM::Dtor(dtor_name(even), seq![peano(k)])],
        os,
    }
}

/// What a destructor of the record answers for the number `k`.
pub open spec fn answer(even: bool, k: nat) -> bool {
    even == (k % 2 == 0)
}

/// The names that the record uses are different names.
pub proof fn lemma_names()
    ensures
        "eo"@ != "n"@,
        "eo"@ != "m"@,
        "even"@ != "odd"@,
        "Zero"@ != "Succ"@,
{
    reveal_strlit("eo");
    reveal_strlit("n");
    reveal_strlit("m");
    reveal_strlit("even");
    reveal_strlit("odd");
    reveal_strlit("Zero");
    reveal_strlit("Succ");
    assert("eo"@.len() != "n"@.len());
    assert("eo"@.len() != "m"@.len());
    assert("even"@.len() != "odd"@.len());
    assert("Zero"@[0] != "Succ"@[0]);
}

/// The term of a number has the number as its value, in any environment.
pub proof fn lemma_peano(k: nat, env: EnvM)
    ensures
        eval(peano_term(k), env) == Ok::<SemM, EvalErrorM>(peano(k)),
    decreases k,
{
    if k == 0 {
        assert(eval_all(Seq::<ValM>::empty(), env, 0) == Ok::<Seq<SemM>, EvalErrorM>(Seq::empty()));
    } else {
        lemma_peano((k - 1) as nat, env);
        crate::dynamics::echo::lemma_eval_one(peano_term((k - 1) as nat), env);
    }
}

/// The environment of the record once it has started: the record itself
/// is bound.
pub open spec fn env_rec(home: EnvM) -> EnvM {
    home.insert("eo"@, SemM::Thunk(even_odd(), home))
}

/// The environment of the body of a destructor: its argument is bound.
pub open spec fn env_arg(k: nat, home: EnvM) -> EnvM {
    env_rec(home).insert("n"@, peano(k))
}

/// The arm of the record for a destructor.
pub proof fn lemma_record_arm(even: bool)
    ensures
        find_arm(record()->Comatch_0, dtor_name(even)) == Some(
            if even {
                0int
            } else {
                1int
            },
        ),
{
    lemma_names();
    let arms = record()->Comatch_0;
    let tag = dtor_name(even);
    let first = arms.drop_last();
    assert(first =~= seq![ArmM { tag: "even"@, vars: seq!["n"@], body: branch(true) }]);
    assert(first.drop_last() =~= Seq::<ArmM>::empty());
    assert(find_arm(first.drop_last(), tag).is_none());
    assert(first.last().tag == "even"@);
    assert(find_arm(first, tag) == (if even {
        Some(0int)
    } else {
        None
    }));
    assert(arms.last().tag == "odd"@);
}

/// The arm of the body of a destructor for a constructor of the numbers.
pub proof fn lemma_branch_arm(even: bool, zero: bool)
    ensures
        find_arm(
            branch(even)->Match_1,
            if zero {
                "Zero"@
            } else {
                "Succ"@
            },
        ) == Some(
            if zero {
                0int
            } else {
                1int
            },
        ),
{
    lemma_names();
    let arms = branch(even)->Match_1;
    let tag = if zero {
        "Zero"@
    } else {
        "Succ"@
    };
    let first = arms.drop_last();
    assert(first.len() == 1);
    assert(first.last().tag == "Zero"@);
    assert(first.drop_last() =~= Seq::<ArmM>::empty());
    assert(find_arm(first.drop_last(), tag).is_none());
    assert(find_arm(first, tag) == (if zero {
        Some(0int)
    } else {
        None
    }));
    assert(arms.last().tag == "Succ"@);
}

/// The record starts, and takes the application off the stack: two
/// transitions lead to the body of the destructor, with the argument
/// bound.
pub proof fn lemma_enter(even: bool, k: nat, home: EnvM, os: OsM)
    ensures
        run(applied(even, k, home, os), 2 + 5 * k + 2) == run(
            StateM { comp: branch(even), env: env_arg(k, home), stack: Seq::empty(), os },
            5 * k + 2,
        ),
{
    let s0 = applied(even, k, home, os);
    let s1 = StateM { comp: record(), env: env_rec(home), stack: s0.stack, os };
    let s2 = StateM { comp: branch(even), env: env_arg(k, home), stack: Seq::empty(), os };
    assert(step(s0) == Ok::<StepM, EvalErrorM>(StepM::Next(s1)));
    lemma_record_arm(even);
    let vars = seq!["n"@];
    let vals = seq![peano(k)];
    assert(bind_all(env_rec(home), vars, vals, 0) == env_rec(home));
    assert(bind_all(env_rec(home), vars, vals, 1) == env_arg(k, home));
    assert(s1.stack.drop_last() =~= Seq::<FrameM>::empty());
    assert(step(s1) == Ok::<StepM, EvalErrorM>(StepM::Next(s2)));
    assert(run(s0, 2 + 5 * k + 2) == run(s1, 1 + 5 * k + 2));
    assert(run(s1, 1 + 5 * k + 2) == run(s2, 5 * k + 2));
}

/// A destructor of the record, applied to a number, returns its answer
/// for the number: from the state in which it is applied to `k`, the
/// machine ends within `5 * k + 4` transitions with the truth value, and
/// leaves the operating system as it was.
pub proof fn lemma_applied(even: bool, k: nat, home: EnvM, os: OsM)
    ensures
        run(applied(even, k, home, os), 5 * k + 4) == Ok::<(ResultM, OsM), EvalErrorM>(
            (ResultM::Ret(SemM::Ctor(truth(answer(even, k)), Seq::empty())), os),
        ),
    decreases k,
{
    lemma_names();
    lemma_enter(even, k, home, os);
    let s2 = StateM { comp: branch(even), env: env_arg(k, home), stack: Seq::empty(), os };
    if k == 0 {
        lemma_branch_arm(even, true);
        let s3 = StateM {
            comp: CompM::Ret(Box::new(ValM::Ctor(truth(even), Seq::empty()))),
            env: env_arg(k, home),
            stack: Seq::empty(),
            os,
        };
        assert(bind_all(env_arg(k, home), Seq::empty(), Seq::empty(), 0) == env_arg(k, home));
        assert(step(s2) == Ok::<StepM, EvalErrorM>(StepM::Next(s3)));
        assert(eval_all(Seq::<ValM>::empty(), s3.env, 0) == Ok::<Seq<SemM>, EvalErrorM>(
            Seq::empty(),
        ));
        assert(step(s3) == Ok::<StepM, EvalErrorM>(
            StepM::Done(ResultM::Ret(SemM::Ctor(truth(even), Seq::empty())), os),
        ));
        assert(run(s2, 2) == run(s3, 1));
    } else {
        let j = (k - 1) as nat;
        lemma_branch_arm(even, false);
        let env3 = env_arg(k, home).insert("m"@, peano(j));
        let call = CompM::Dtor(Box::new(force_var("eo"@)), dtor_name(!even), seq![ValM::Var("m"@)]);
        let s3 = StateM { comp: call, env: env3, stack: Seq::empty(), os };
        let vars = seq!["m"@];
        let vals = seq![peano(j)];
        assert(bind_all(env_arg(k, home), vars, vals, 0) == env_arg(k, home));
        assert(bind_all(env_arg(k, home), vars, vals, 1) == env3);
        assert(step(s2) == Ok::<StepM, EvalErrorM>(StepM::Next(s3)));
        let frame = FrameM::Dtor(dtor_name(!even), seq![peano(j)]);
        let s4 = StateM { comp: force_var("eo"@), env: env3, stack: seq![frame], os };
        crate::dynamics::echo::lemma_eval_one(ValM::Var("m"@), env3);
        assert(Seq::<FrameM>::empty().push(frame) =~= seq![frame]);
        assert(step(s3) == Ok::<StepM, EvalErrorM>(StepM::Next(s4)));
        let s5 = applied(!even, j, home, os);
        assert(env3["eo"@] == SemM::Thunk(even_odd(), home));
        assert(step(s4) == Ok::<StepM, EvalErrorM>(StepM::Next(s5)));
        lemma_applied(!even, j, home, os);
        assert(5 * k + 2 == 3 + (5 * j + 4));
        assert(run(s2, 3 + (5 * j + 4)) == run(s3, 2 + (5 * j + 4)));
        assert(run(s3, 2 + (5 * j + 4)) == run(s4, 1 + (5 * j + 4)));
        assert(run(s4, 1 + (5 * j + 4)) == run(s5, 5 * j + 4));
        assert(answer(!even, j) == answer(even, k));
    }
}

/// The record's destructor `even`, applied to the number `k` in any
/// environment: within `5 * k + 5` transitions the machine returns `True`
/// if `k` is even and `False` if it is odd.
pub proof fn lemma_even(k: nat, home: EnvM, os: OsM)
    ensures
        run(
            StateM {
                comp: CompM::Dtor(Box::new(even_odd()), "even"@, seq![peano_term(k)]),
                env: home,
                stack: Seq::empty(),
                os,
            },
            5 * k + 5,
        ) == Ok::<(ResultM, OsM), EvalErrorM>(
            (ResultM::Ret(SemM::Ctor(truth(k % 2 == 0), Seq::empty())), os),
        ),
{
    let s = StateM {
        comp: CompM::Dtor(Box::new(even_odd()), "even"@, seq![peano_term(k)]),
        env: home,
        stack: Seq::empty(),
        os,
    };
    lemma_peano(k, home);
    crate::dynamics::echo::lemma_eval_one(peano_term(k), home);
    let frame = FrameM::Dtor("even"@, seq![peano(k)]);
    assert(Seq::<FrameM>::empty().push(frame) =~= seq![frame]);
    assert(step(s) == Ok::<StepM, EvalErrorM>(StepM::Next(applied(true, k, home, os))));
    lemma_applied(true, k, home, os);
    assert(run(s, 1 + (5 * k + 4)) == run(applied(true, k, home, os), 5 * k + 4));
}

/// The record asked whether four is even answers `True`, and asked
/// whether three is even answers `False`.
pub proof fn lemma_even_four_and_three(home: EnvM, os: OsM)
    ensures
        run(
            StateM {
                comp: CompM::Dtor(Box::new(even_odd()), "even"@, seq![peano_term(4)]),
                env: home,
                stack: Seq::empty(),
                os,
            },
            25,
        ) == Ok::<(ResultM, OsM), EvalErrorM>((ResultM::Ret(SemM::Ctor("True"@, Seq::empty())), os)),
        run(
            StateM {
                comp: CompM::Dtor(Box::new(even_odd()), "even"@, seq![peano_term(3)]),
                env: home,
                stack: Seq::empty(),
                os,
            },
            20,
        ) == Ok::<(ResultM, OsM), EvalErrorM>(
            (ResultM::Ret(SemM::Ctor("False"@, Seq::empty())), os),
        ),
{
    lemma_even(4, home, os);
    lemma_even(3, home, os);
}

} // verus!
