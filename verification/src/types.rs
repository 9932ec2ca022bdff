//! Types: a syntactic head, an optional kind annotation and a deferred
//! substitution.

use vstd::prelude::*;
use std::rc::Rc;
use crate::kind::{Kind, KindM};
use crate::sharing::rc_clone;
use crate::span::{Name, Span, TypeV};

verus! {

/// An abstract type variable `$n`, which stands for a quantified variable
/// while two quantified types are compared. It is equal only to itself.
#[derive(Clone, Copy, Debug, PartialEq, Eq, Structural)]
pub struct AbstVar(pub usize);

/// A type that was left out and is to be found by checking.
#[derive(Clone, Copy, Debug, PartialEq, Eq, Structural)]
pub struct Hole;

/// A shared handle to a type, with its place in the source.
pub type RcType = Rc<Span<Type>>;

/// A type constructor or type variable applied to arguments.
#[derive(Debug, PartialEq, Eq)]
pub struct TypeApp {
    pub tvar: TypeV,
    pub args: Vec<RcType>,
}

/// The universal type `forall (param.0 : param.1) . ty`.
#[derive(Debug, PartialEq, Eq)]
pub struct Forall {
    pub param: (TypeV, Kind),
    pub ty: RcType,
}

/// The existential type `exists (param.0 : param.1) . ty`.
#[derive(Debug, PartialEq, Eq)]
pub struct Exists {
    pub param: (TypeV, Kind),
    pub ty: RcType,
}

/// The syntactic head of a type.
#[derive(Debug, PartialEq, Eq)]
pub enum SynType {
    TypeApp(TypeApp),
    Forall(Forall),
    Exists(Exists),
    AbstVar(AbstVar),
    Hole(Hole),
}

/// A deferred substitution: type variables and the types that stand for
/// them. Where a variable is listed twice the last entry counts.
#[derive(Debug, PartialEq, Eq)]
pub struct Env {
    pub entries: Vec<(TypeV, RcType)>,
}

/// A type: the head `synty`, the kind annotation `kd` if one was written,
/// and the substitution `env` that is still to be applied to the head.
#[derive(Debug, PartialEq, Eq)]
pub struct Type {
    pub synty: SynType,
    pub kd: Option<Kind>,
    pub env: Env,
}

/// The mathematical value of a type's head.
pub enum SynTypeM {
    App(Seq<char>, Seq<TypeM>),
    Forall(Seq<char>, KindM, Box<TypeM>),
    Exists(Seq<char>, KindM, Box<TypeM>),
    AbstVar(nat),
    Hole,
}

/// The mathematical value of a type.
pub struct TypeM {
    pub synty: SynTypeM,
    pub kd: Option<KindM>,
    pub env: Seq<(Seq<char>, TypeM)>,
}

/// The mathematical value of a deferred substitution.
pub type EnvM = Seq<(Seq<char>, TypeM)>;

/// The mathematical value of `t`.
pub open spec fn type_model(t: Type) -> TypeM
    decreases t,
{
    TypeM {
        synty: match t.synty {
            SynType::TypeApp(app) => SynTypeM::App(
                app.tvar@,
                Seq::new(
                    app.args@.len(),
                    |i: int|
                        if 0 <= i < app.args@.len() {
                            type_model(app.args@[i].inner)
                        } else {
                            arbitrary()
                        },
                ),
            ),
            SynType::Forall(q) => SynTypeM::Forall(q.param.0@, q.param.1@, Box::new(type_model(q.ty.inner))),
            SynType::Exists(q) => SynTypeM::Exists(q.param.0@, q.param.1@, Box::new(type_model(q.ty.inner))),
            SynType::AbstVar(a) => SynTypeM::AbstVar(a.0 as nat),
            SynType::Hole(_) => SynTypeM::Hole,
        },
        kd: match t.kd {
            Some(k) => Some(k@),
            None => None,
        },
        env: Seq::new(
            t.env.entries@.len(),
            |i: int|
                if 0 <= i < t.env.entries@.len() {
                    (t.env.entries@[i].0@, type_model(t.env.entries@[i].1.inner))
                } else {
                    arbitrary()
                },
        ),
    }
}

impl View for Type {
    type V = TypeM;

    open spec fn view(&self) -> TypeM {
        type_model(*self)
    }
}

impl View for Span<Type> {
    type V = TypeM;

    open spec fn view(&self) -> TypeM {
        type_model(self.inner)
    }
}

/// The mathematical values of a sequence of types, in order.
pub open spec fn types_model(s: Seq<RcType>) -> Seq<TypeM> {
    Seq::new(s.len(), |i: int| s[i]@)
}

/// The mathematical values of a sequence of types held by value, in order.
pub open spec fn owned_types_model(s: Seq<Type>) -> Seq<TypeM> {
    Seq::new(s.len(), |i: int| s[i]@)
}

/// The mathematical value of a list of substitution entries.
pub open spec fn entries_model(s: Seq<(TypeV, RcType)>) -> EnvM {
    Seq::new(s.len(), |i: int| (s[i].0@, s[i].1@))
}

impl View for Env {
    type V = EnvM;

    open spec fn view(&self) -> EnvM {
        entries_model(self.entries@)
    }
}

/// The mathematical value of a head, from the values of the types in it.
pub open spec fn synty_model(s: SynType) -> SynTypeM {
    match s {
        SynType::TypeApp(app) => SynTypeM::App(app.tvar@, types_model(app.args@)),
        SynType::Forall(q) => SynTypeM::Forall(q.param.0@, q.param.1@, Box::new(q.ty@)),
        SynType::Exists(q) => SynTypeM::Exists(q.param.0@, q.param.1@, Box::new(q.ty@)),
        SynType::AbstVar(a) => SynTypeM::AbstVar(a.0 as nat),
        SynType::Hole(_) => SynTypeM::Hole,
    }
}

/// The mathematical value of an optional kind annotation.
pub open spec fn kd_model(kd: Option<Kind>) -> Option<KindM> {
    match kd {
        Some(k) => Some(k@),
        None => None,
    }
}

/// The mathematical value of an optional type.
pub open spec fn opt_model(t: Option<Type>) -> Option<TypeM> {
    match t {
        Some(t) => Some(t@),
        None => None,
    }
}

/// A type's value is made of the values of its parts.
pub proof fn lemma_type_model(t: Type)
    ensures
        t@.env == t.env@,
        t@.kd == kd_model(t.kd),
        t@.synty == synty_model(t.synty),
{
    assert(t@.env =~= t.env@);
    match t.synty {
        SynType::TypeApp(app) => {
            assert(t@.synty->App_1 =~= types_model(app.args@));
        },
        _ => {},
    }
}

impl TypeM {
    /// The type with head `synty`, no kind annotation and nothing to
    /// substitute.
    pub open spec fn plain(synty: SynTypeM) -> TypeM {
        TypeM { synty, kd: None, env: Seq::empty() }
    }

    /// The application of the type constructor `name` to `args`.
    pub open spec fn app(name: Seq<char>, args: Seq<TypeM>) -> TypeM {
        TypeM::plain(SynTypeM::App(name, args))
    }

    /// The type of thunks of computations of type `arg`.
    pub open spec fn thunk(arg: TypeM) -> TypeM {
        TypeM::app("Thunk"@, seq![arg])
    }

    /// The type of computations that return a value of type `arg`.
    pub open spec fn ret(arg: TypeM) -> TypeM {
        TypeM::app("Ret"@, seq![arg])
    }

    /// The type of programs that run against the operating system.
    pub open spec fn os() -> TypeM {
        TypeM::app("OS"@, Seq::empty())
    }
}

impl SynTypeM {
    /// The first argument, if this head is an application of the type
    /// constructor `name` to at least one argument.
    pub open spec fn elim(self, name: Seq<char>) -> Option<TypeM> {
        match self {
            SynTypeM::App(x, args) => if x == name && args.len() > 0 {
                Some(args[0])
            } else {
                None
            },
            _ => None,
        }
    }

    /// Whether this head is the type constructor `name`, whatever it is
    /// applied to.
    pub open spec fn is_named(self, name: Seq<char>) -> bool {
        self matches SynTypeM::App(x, _) && x == name
    }
}

/// A copy of a list of shared types, which shares them.
pub fn clone_types(v: &Vec<RcType>) -> (r: Vec<RcType>)
    ensures
        r@ == v@,
{
    let mut out: Vec<RcType> = Vec::new();
    let mut i: usize = 0;
    while i < v.len()
        invariant
            i <= v.len(),
            out.len() == i,
            forall|j: int| 0 <= j < i ==> out@[j] == v@[j],
        decreases v.len() - i,
    {
        out.push(rc_clone(&v[i]));
        i += 1;
    }
    assert(out@ =~= v@);
    out
}

impl Clone for TypeApp {
    fn clone(&self) -> (r: Self)
        ensures
            r.tvar == self.tvar,
            r.args@ == self.args@,
    {
        TypeApp { tvar: self.tvar.clone(), args: clone_types(&self.args) }
    }
}

impl Clone for Forall {
    fn clone(&self) -> (r: Self)
        ensures
            r.param.0 == self.param.0,
            r.param.1@ == self.param.1@,
            r.ty == self.ty,
    {
        Forall { param: (self.param.0.clone(), self.param.1.clone()), ty: rc_clone(&self.ty) }
    }
}

impl Clone for Exists {
    fn clone(&self) -> (r: Self)
        ensures
            r.param.0 == self.param.0,
            r.param.1@ == self.param.1@,
            r.ty == self.ty,
    {
        Exists { param: (self.param.0.clone(), self.param.1.clone()), ty: rc_clone(&self.ty) }
    }
}

impl Clone for Env {
    fn clone(&self) -> (r: Self)
        ensures
            r.entries@ == self.entries@,
    {
        let mut out: Vec<(TypeV, RcType)> = Vec::new();
        let mut i: usize = 0;
        while i < self.entries.len()
            invariant
                i <= self.entries.len(),
                out.len() == i,
                forall|j: int| 0 <= j < i ==> out@[j] == self.entries@[j],
            decreases self.entries.len() - i,
        {
            out.push((self.entries[i].0.clone(), rc_clone(&self.entries[i].1)));
            i += 1;
        }
        assert(out@ =~= self.entries@);
        Env { entries: out }
    }
}

impl Clone for SynType {
    fn clone(&self) -> (r: Self)
        ensures
            synty_model(r) == synty_model(*self),
    {
        match self {
            SynType::TypeApp(app) => SynType::TypeApp(app.clone()),
            SynType::Forall(q) => SynType::Forall(q.clone()),
            SynType::Exists(q) => SynType::Exists(q.clone()),
            SynType::AbstVar(a) => SynType::AbstVar(*a),
            SynType::Hole(h) => SynType::Hole(*h),
        }
    }
}

/// A copy of an optional kind annotation.
pub fn clone_kd(kd: &Option<Kind>) -> (r: Option<Kind>)
    ensures
        kd_model(r) == kd_model(*kd),
{
    match kd {
        Some(k) => Some(k.clone()),
        None => None,
    }
}

impl Clone for Type {
    fn clone(&self) -> (r: Self)
        ensures
            r@ == self@,
    {
        let r = Type { synty: self.synty.clone(), kd: clone_kd(&self.kd), env: self.env.clone() };
        proof {
            lemma_type_model(r);
            lemma_type_model(*self);
        }
        r
    }
}

impl Env {
    /// The substitution that replaces nothing.
    pub fn new() -> (r: Env)
        ensures
            r@ == Seq::<(Seq<char>, TypeM)>::empty(),
    {
        let r = Env { entries: Vec::new() };
        assert(r@ =~= Seq::empty());
        r
    }
}

impl TypeApp {
    /// The application of the built-in type constructor `name` to `args`.
    pub fn internal(name: &str, args: Vec<RcType>) -> (r: TypeApp)
        ensures
            r.tvar@ == name@,
            r.tvar.info == (crate::span::SpanInfo { start: 0, end: 0 }),
            r.args == args,
    {
        TypeApp { tvar: Name::internal(name), args }
    }

    /// The type of the suspended computation, if this is `Thunk` applied to
    /// at least one argument.
    pub fn elim_thunk(&self) -> (r: Option<Type>)
        ensures
            opt_model(r) == SynTypeM::App(self.tvar@, types_model(self.args@)).elim("Thunk"@),
    {
        if self.tvar.is("Thunk") && self.args.len() > 0 {
            Some((*self.args[0]).inner.clone())
        } else {
            None
        }
    }

    /// The type of the returned value, if this is `Ret` applied to at least
    /// one argument.
    pub fn elim_ret(&self) -> (r: Option<Type>)
        ensures
            opt_model(r) == SynTypeM::App(self.tvar@, types_model(self.args@)).elim("Ret"@),
    {
        if self.tvar.is("Ret") && self.args.len() > 0 {
            Some((*self.args[0]).inner.clone())
        } else {
            None
        }
    }

    /// `Some(())` if this is the type constructor `OS`, whatever it is
    /// applied to.
    pub fn elim_os(&self) -> (r: Option<()>)
        ensures
            r.is_some() == SynTypeM::App(self.tvar@, types_model(self.args@)).is_named("OS"@),
    {
        if self.tvar.is("OS") {
            Some(())
        } else {
            None
        }
    }
}

impl Type {
    /// The type with head `synty`, no kind annotation and nothing to
    /// substitute.
    pub fn new(synty: SynType) -> (r: Type)
        ensures
            r.synty == synty,
            r.kd.is_none(),
            r.env@ == Seq::<(Seq<char>, TypeM)>::empty(),
    {
        Type { synty, kd: None, env: Env::new() }
    }

    /// The type variable or nullary type constructor `tvar`.
    pub fn var(tvar: TypeV) -> (r: Type)
        ensures
            r@ == TypeM::app(tvar@, Seq::empty()),
    {
        let r = Type::new(SynType::TypeApp(TypeApp { tvar, args: Vec::new() }));
        proof {
            lemma_type_model(r);
            assert(r@.synty->App_1 =~= Seq::empty());
        }
        r
    }

    /// The application of the built-in type constructor `name` to `args`.
    pub fn internal(name: &str, args: Vec<RcType>) -> (r: Type)
        ensures
            r@ == TypeM::app(name@, types_model(args@)),
            r.synty matches SynType::TypeApp(app) && app.args == args && app.tvar.info == (
            crate::span::SpanInfo { start: 0, end: 0 }),
    {
        let r = Type::new(SynType::TypeApp(TypeApp::internal(name, args)));
        proof {
            lemma_type_model(r);
        }
        r
    }

    /// The type `Thunk(arg)`.
    pub fn make_thunk(arg: RcType) -> (r: Type)
        ensures
            r@ == TypeM::thunk(arg@),
    {
        let ghost a = arg;
        let mut args: Vec<RcType> = Vec::new();
        args.push(arg);
        assert(types_model(args@) =~= seq![a@]);
        Type::internal("Thunk", args)
    }

    /// The type `Ret(arg)`.
    pub fn make_ret(arg: RcType) -> (r: Type)
        ensures
            r@ == TypeM::ret(arg@),
    {
        let ghost a = arg;
        let mut args: Vec<RcType> = Vec::new();
        args.push(arg);
        assert(types_model(args@) =~= seq![a@]);
        Type::internal("Ret", args)
    }

    /// The type `OS`.
    pub fn make_os() -> (r: Type)
        ensures
            r@ == TypeM::os(),
    {
        let r = Type::internal("OS", Vec::new());
        assert(types_model(Seq::<RcType>::empty()) =~= Seq::empty());
        r
    }
}

} // verus!
