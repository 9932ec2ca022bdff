//! Runtime values and the environment that holds them.
//!
//! The environment is a persistent hash map: binding a variable gives a new
//! environment and leaves the old one as it was, so a thunk that holds an
//! environment is not disturbed by what happens later.

use vstd::prelude::*;
use std::rc::Rc;
use crate::linked::{comp_model, CompM, LiteralM, RcComp};
use crate::sharing::rc_clone;
use crate::span::{CtorV, Name};
use crate::term::Literal;

verus! {

/// The mathematical value of a runtime value.
pub enum SemM {
    /// A suspended computation with the environment it was suspended in.
    Thunk(CompM, Map<Seq<char>, SemM>),
    /// A constructor applied to values.
    Ctor(Seq<char>, Seq<SemM>),
    /// A literal.
    Literal(LiteralM),
}

/// The mathematical value of an environment.
pub type EnvM = Map<Seq<char>, SemM>;

/// The value of the environment without a binding.
pub open spec fn empty_env() -> EnvM {
    Map::empty()
}

/// An environment: the values of the variables in scope. It holds a
/// persistent hash map of the `im` crate from the names of the variables to
/// their values; what it holds is known only from the functions below that
/// make, copy, read and extend one.
#[verifier::external_body]
#[derive(Debug)]
pub struct Env {
    inner: im::HashMap<String, SemValue>,
}

/// What an environment holds: the value of what is bound to each variable.
pub uninterp spec fn env_view(e: Env) -> Map<Seq<char>, SemM>;

impl View for Env {
    type V = Map<Seq<char>, SemM>;

    open spec fn view(&self) -> Map<Seq<char>, SemM> {
        env_view(*self)
    }
}

/// A runtime value.
#[derive(Debug)]
pub enum SemValue {
    Thunk { body: RcComp, env: Env },
    Ctor { ctor: CtorV, args: Vec<Rc<SemValue>> },
    Literal(Literal),
}

/// The mathematical value of `v`.
pub open spec fn sem_model(v: SemValue) -> SemM
    decreases v,
{
    match v {
        SemValue::Thunk { body, env } => SemM::Thunk(comp_model(*body), env@),
        SemValue::Ctor { ctor, args } => SemM::Ctor(ctor@, sems_model(args@)),
        SemValue::Literal(l) => SemM::Literal(l@),
    }
}

/// The mathematical values of a sequence of runtime values, in order.
pub open spec fn sems_model(args: Seq<Rc<SemValue>>) -> Seq<SemM>
    decreases args,
{
    Seq::new(
        args.len(),
        |i: int|
            if 0 <= i < args.len() {
                sem_model(*args[i])
            } else {
                arbitrary()
            },
    )
}

impl View for SemValue {
    type V = SemM;

    open spec fn view(&self) -> SemM {
        sem_model(*self)
    }
}

/// The environment without a binding.
///
/// Calls `im::HashMap::new`. A map made by it holds no entry.
#[verifier::external_body]
fn env_new() -> (r: Env)
    ensures
        env_view(r) == empty_env(),
{
    Env { inner: im::HashMap::new() }
}

/// A copy of the environment.
///
/// Calls `clone` of `im::HashMap`, which copies the handle to the shared
/// tree of entries: the copy holds what the map it was made from holds.
#[verifier::external_body]
fn env_clone(e: &Env) -> (r: Env)
    ensures
        env_view(r) == env_view(*e),
{
    Env { inner: e.inner.clone() }
}

/// The value bound to `k`, if the environment binds it.
///
/// Calls `im::HashMap::get`, which returns a reference to the value stored
/// under a key equal to `k`, or `None` if no key is equal to it.
#[verifier::external_body]
fn env_get<'a>(e: &'a Env, k: &String) -> (r: Option<&'a SemValue>)
    ensures
        r.is_some() == env_view(*e).contains_key(k@),
        r matches Some(v) ==> v@ == env_view(*e)[k@],
{
    e.inner.get(k)
}

/// The environment with `k` bound to `v`.
///
/// Calls `im::HashMap::update`, which returns a new map that holds `v`
/// under `k`, in the place of what was under `k` if anything was, and
/// otherwise what the old map holds. The old map is left as it is.
#[verifier::external_body]
fn env_update(e: &Env, k: String, v: SemValue) -> (r: Env)
    ensures
        env_view(r) == env_view(*e).insert(k@, v@),
{
    Env { inner: e.inner.update(k, v) }
}

impl Clone for Env {
    fn clone(&self) -> (r: Self)
        ensures
            r@ == self@,
    {
        env_clone(self)
    }
}

/// A copy of a list of shared runtime values, which shares them.
pub fn clone_sems(v: &Vec<Rc<SemValue>>) -> (r: Vec<Rc<SemValue>>)
    ensures
        r@ == v@,
{
    let mut out: Vec<Rc<SemValue>> = Vec::new();
    let mut i: usize = 0;
    while i < v.len()
        invariant
            i <= v.len(),
            out.len() == i,
            forall|j: int| 0 <= j < i ==> out@[j] == v@[j],
        decreases v.len() - i,
    {
        out.push(rc_clone(&v[i]));
        i += 1;
    }
    assert(out@ =~= v@);
    out
}

impl Clone for SemValue {
    fn clone(&self) -> (r: Self)
        ensures
            r@ == self@,
    {
        match self {
            SemValue::Thunk { body, env } => SemValue::Thunk {
                body: rc_clone(body),
                env: env.clone(),
            },
            SemValue::Ctor { ctor, args } => SemValue::Ctor {
                ctor: ctor.clone(),
                args: clone_sems(args),
            },
            SemValue::Literal(l) => SemValue::Literal(l.clone()),
        }
    }
}

impl Env {
    /// The environment without a binding.
    pub fn new() -> (r: Env)
        ensures
            r@ == empty_env(),
    {
        env_new()
    }

    /// The value of the variable `x`, if it is bound.
    pub fn lookup(&self, x: &Name) -> (r: Option<&SemValue>)
        ensures
            r.is_some() == self@.contains_key(x@),
            r matches Some(v) ==> v@ == self@[x@],
    {
        env_get(self, &x.name)
    }

    /// The environment with `x` bound to `v`.
    pub fn update(&self, x: &Name, v: SemValue) -> (r: Env)
        ensures
            r@ == self@.insert(x@, v@),
    {
        env_update(self, x.name.clone(), v)
    }
}

} // verus!
