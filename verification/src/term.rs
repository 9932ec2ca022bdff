//! Terms and declarations: values, computations, data and codata types,
//! modules and programs.

use vstd::prelude::*;
use std::rc::Rc;
use crate::kind::{Kind, KindM};
use crate::span::{CtorV, DtorV, Span, TermV, TypeV};
use crate::types::{types_model, RcType, TypeM};

verus! {

/// A literal value.
#[derive(Debug, PartialEq, Eq)]
pub enum Literal {
    Int(i64),
    String(String),
    Char(char),
}

/// A shared handle to a value term, with its place in the source.
pub type RcValue = Rc<Span<TermValue>>;

/// A shared handle to a computation term, with its place in the source.
pub type RcComp = Rc<Span<TermComputation>>;

/// A value term.
#[derive(Debug, PartialEq, Eq)]
pub enum TermValue {
    /// `term : ty`
    Annotation { term: RcValue, ty: RcType },
    /// A variable.
    Var(TermV),
    /// `thunk body`
    Thunk(RcComp),
    /// `ctor(args)`
    Ctor { ctor: CtorV, args: Vec<RcValue> },
    /// A literal.
    Literal(Literal),
    /// `pack (ty, body)`
    Pack { ty: RcType, body: RcValue },
}

/// One arm of a `match`: the constructor, the variables bound to its
/// arguments, and the computation to go on with.
#[derive(Debug, PartialEq, Eq)]
pub struct Matcher {
    pub ctor: CtorV,
    pub vars: Vec<TermV>,
    pub body: RcComp,
}

/// One arm of a `comatch`: the destructor, the variables bound to its
/// arguments, and the computation to go on with.
#[derive(Debug, PartialEq, Eq)]
pub struct Comatcher {
    pub dtor: DtorV,
    pub vars: Vec<TermV>,
    pub body: RcComp,
}

/// A computation term.
#[derive(Debug, PartialEq, Eq)]
pub enum TermComputation {
    /// `term : ty`
    Annotation { term: RcComp, ty: RcType },
    /// `ret v`
    Ret(RcValue),
    /// `force v`
    Force(RcValue),
    /// `let var = def in body`
    Let { var: TermV, def: RcValue, body: RcComp },
    /// `do var <- comp ; body`
    Do { var: TermV, comp: RcComp, body: RcComp },
    /// `rec var . body`
    Rec { var: TermV, body: RcComp },
    /// `match scrut { arms }`
    Match { scrut: RcValue, arms: Vec<Matcher> },
    /// `comatch { arms }`
    Comatch { arms: Vec<Comatcher> },
    /// `body . dtor(args)`
    Dtor { body: RcComp, dtor: DtorV, args: Vec<RcValue> },
    /// A type abstraction over `param`.
    TyAbsTerm { param: (TypeV, Kind), body: RcComp },
    /// The application of `body` to the type `arg`.
    TyAppTerm { body: RcComp, arg: RcType },
    /// `matchpack scrut as (tvar, var) in body`
    MatchPack { scrut: RcValue, tvar: TypeV, var: TermV, body: RcComp },
}

/// A term of either sort.
#[derive(Debug, PartialEq, Eq)]
pub enum Term {
    Value(TermValue),
    Computation(TermComputation),
}

/// A constructor of a data type with the types of its arguments.
#[derive(Debug, PartialEq, Eq)]
pub struct DataBr {
    pub ctor: CtorV,
    pub tys: Vec<RcType>,
}

/// A data type declaration.
#[derive(Debug, PartialEq, Eq)]
pub struct Data {
    pub name: TypeV,
    pub params: Vec<(TypeV, Kind)>,
    pub ctors: Vec<DataBr>,
}

/// A destructor of a codata type with the types of its arguments and the
/// type of its result.
#[derive(Debug, PartialEq, Eq)]
pub struct CodataBr {
    pub dtor: DtorV,
    pub tys: Vec<RcType>,
    pub ty: RcType,
}

/// A codata type declaration.
#[derive(Debug, PartialEq, Eq)]
pub struct Codata {
    pub name: TypeV,
    pub params: Vec<(TypeV, Kind)>,
    pub dtors: Vec<CodataBr>,
}

/// A type alias: the name `name`, applied to its parameters, stands for
/// `ty`.
#[derive(Debug, PartialEq, Eq)]
pub struct Alias {
    pub name: TypeV,
    pub params: Vec<(TypeV, Kind)>,
    pub ty: RcType,
}

/// A top-level definition `let name = def`.
#[derive(Debug, PartialEq, Eq)]
pub struct Define {
    pub name: TermV,
    pub def: RcValue,
}

/// The declaration `extern name : ty` of a primitive.
#[derive(Debug, PartialEq, Eq)]
pub struct DefineExt {
    pub name: TermV,
    pub ty: RcType,
}

/// A declaration with its markers: whether it is exported, and whether it
/// was written as `extern`.
#[derive(Debug, PartialEq, Eq)]
pub struct DeclSymbol<T> {
    pub public: bool,
    pub external: bool,
    pub inner: T,
}

/// A module: its declarations, each list in the order written. The type
/// aliases are carried and written out with the module; no rule of the
/// checker reads them.
#[derive(Debug, PartialEq, Eq)]
pub struct Module {
    pub name: Option<String>,
    pub data: Vec<DeclSymbol<Data>>,
    pub codata: Vec<DeclSymbol<Codata>>,
    pub alias: Vec<DeclSymbol<Alias>>,
    pub define: Vec<DeclSymbol<Define>>,
    pub define_ext: Vec<DeclSymbol<DefineExt>>,
}

/// A program: a module and the computation to run.
#[derive(Debug, PartialEq, Eq)]
pub struct Program {
    pub module: Span<Module>,
    pub entry: Span<TermComputation>,
}

/// The mathematical value of a list of type parameters.
pub open spec fn params_model(s: Seq<(TypeV, Kind)>) -> Seq<(Seq<char>, KindM)> {
    Seq::new(s.len(), |i: int| (s[i].0@, s[i].1@))
}

/// The mathematical value of a data type declaration: its name, its
/// parameters, and
/// each constructor with the types of its arguments.
pub struct DataM {
    pub name: Seq<char>,
    pub params: Seq<(Seq<char>, KindM)>,
    pub ctors: Seq<(Seq<char>, Seq<TypeM>)>,
}

/// The mathematical value of a codata type declaration: its name, its
/// parameters, and each destructor with the types of its arguments and of its result.
pub struct CodataM {
    pub name: Seq<char>,
    pub params: Seq<(Seq<char>, KindM)>,
    pub dtors: Seq<(Seq<char>, (Seq<TypeM>, TypeM))>,
}

/// The mathematical value of a list of constructors.
pub open spec fn ctors_model(s: Seq<DataBr>) -> Seq<(Seq<char>, Seq<TypeM>)> {
    Seq::new(s.len(), |i: int| (s[i].ctor@, types_model(s[i].tys@)))
}

/// The mathematical value of a list of destructors.
pub open spec fn dtors_model(s: Seq<CodataBr>) -> Seq<(Seq<char>, (Seq<TypeM>, TypeM))> {
    Seq::new(s.len(), |i: int| (s[i].dtor@, (types_model(s[i].tys@), s[i].ty@)))
}

impl View for Data {
    type V = DataM;

    open spec fn view(&self) -> DataM {
        DataM {
            name: self.name@,
            params: params_model(self.params@),
            ctors: ctors_model(self.ctors@),
        }
    }
}

impl View for Codata {
    type V = CodataM;

    open spec fn view(&self) -> CodataM {
        CodataM {
            name: self.name@,
            params: params_model(self.params@),
            dtors: dtors_model(self.dtors@),
        }
    }
}

/// A copy of a list of type parameters.
pub fn clone_params(v: &Vec<(TypeV, Kind)>) -> (r: Vec<(TypeV, Kind)>)
    ensures
        params_model(r@) == params_model(v@),
{
    let mut out: Vec<(TypeV, Kind)> = Vec::new();
    let mut i: usize = 0;
    while i < v.len()
        invariant
            i <= v.len(),
            out.len() == i,
            forall|j: int|
                0 <= j < i ==> (#[trigger] out@[j]).0@ == v@[j].0@ && out@[j].1@ == v@[j].1@,
        decreases v.len() - i,
    {
        out.push((v[i].0.clone(), v[i].1.clone()));
        i += 1;
    }
    assert(params_model(out@) =~= params_model(v@));
    out
}

impl Clone for DataBr {
    fn clone(&self) -> (r: Self)
        ensures
            r.ctor == self.ctor,
            r.tys@ == self.tys@,
    {
        DataBr { ctor: self.ctor.clone(), tys: crate::types::clone_types(&self.tys) }
    }
}

impl Clone for CodataBr {
    fn clone(&self) -> (r: Self)
        ensures
            r.dtor == self.dtor,
            r.tys@ == self.tys@,
            r.ty == self.ty,
    {
        CodataBr {
            dtor: self.dtor.clone(),
            tys: crate::types::clone_types(&self.tys),
            ty: crate::sharing::rc_clone(&self.ty),
        }
    }
}

impl Clone for Data {
    /// A copy of the declaration, which shares the types in it.
    fn clone(&self) -> (r: Self)
        ensures
            r@ == self@,
    {
        let mut ctors: Vec<DataBr> = Vec::new();
        let mut i: usize = 0;
        while i < self.ctors.len()
            invariant
                i <= self.ctors.len(),
                ctors.len() == i,
                forall|j: int|
                    0 <= j < i ==> (#[trigger] ctors@[j]).ctor@ == self.ctors@[j].ctor@
                        && ctors@[j].tys@ == self.ctors@[j].tys@,
            decreases self.ctors.len() - i,
        {
            ctors.push(self.ctors[i].clone());
            i += 1;
        }
        assert(ctors_model(ctors@) =~= ctors_model(self.ctors@));
        Data { name: self.name.clone(), params: clone_params(&self.params), ctors }
    }
}

impl Clone for Codata {
    /// A copy of the declaration, which shares the types in it.
    fn clone(&self) -> (r: Self)
        ensures
            r@ == self@,
    {
        let mut dtors: Vec<CodataBr> = Vec::new();
        let mut i: usize = 0;
        while i < self.dtors.len()
            invariant
                i <= self.dtors.len(),
                dtors.len() == i,
                forall|j: int|
                    0 <= j < i ==> (#[trigger] dtors@[j]).dtor@ == self.dtors@[j].dtor@
                        && dtors@[j].tys@ == self.dtors@[j].tys@ && dtors@[j].ty
                        == self.dtors@[j].ty,
            decreases self.dtors.len() - i,
        {
            dtors.push(self.dtors[i].clone());
            i += 1;
        }
        assert(dtors_model(dtors@) =~= dtors_model(self.dtors@));
        Codata { name: self.name.clone(), params: clone_params(&self.params), dtors }
    }
}

impl DataM {
    /// The kind of the declared type constructor.
    pub open spec fn kind(self) -> KindM {
        KindM::Arity(Seq::new(self.params.len(), |i: int| self.params[i].1), Box::new(KindM::VType))
    }
}

impl CodataM {
    /// The kind of the declared type constructor.
    pub open spec fn kind(self) -> KindM {
        KindM::Arity(Seq::new(self.params.len(), |i: int| self.params[i].1), Box::new(KindM::CType))
    }
}

} // verus!
