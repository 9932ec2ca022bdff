//! Kinds: the classifiers of types.

use vstd::prelude::*;

verus! {

/// A kind as written: the kind of value types, the kind of computation
/// types, or the kind of a type constructor that takes parameters.
#[derive(Debug, PartialEq, Eq)]
pub enum Kind {
    VType,
    CType,
    TypeArity(TypeArity),
}

/// The kind `(params) -> kd` of a parameterised type constructor.
#[derive(Debug, PartialEq, Eq)]
pub struct TypeArity {
    pub params: Vec<Kind>,
    pub kd: Box<Kind>,
}

/// The mathematical value of a kind.
pub enum KindM {
    VType,
    CType,
    Arity(Seq<KindM>, Box<KindM>),
}

/// The mathematical value of `k`.
pub open spec fn kind_model(k: Kind) -> KindM
    decreases k,
{
    match k {
        Kind::VType => KindM::VType,
        Kind::CType => KindM::CType,
        Kind::TypeArity(a) => KindM::Arity(
            Seq::new(
                a.params@.len(),
                |i: int|
                    if 0 <= i < a.params@.len() {
                        kind_model(a.params@[i])
                    } else {
                        KindM::VType
                    },
            ),
            Box::new(kind_model(*a.kd)),
        ),
    }
}

impl View for Kind {
    type V = KindM;

    open spec fn view(&self) -> KindM {
        kind_model(*self)
    }
}

/// The mathematical values of a sequence of kinds, in order.
pub open spec fn kinds_model(s: Seq<Kind>) -> Seq<KindM> {
    Seq::new(s.len(), |i: int| s[i]@)
}

impl KindM {
    /// The normal form of a kind: an arity without parameters goes to the
    /// normal form of its result; every other kind is its own normal form.
    pub open spec fn normalize(self) -> KindM
        decreases self,
    {
        match self {
            KindM::Arity(ps, r) => if ps.len() == 0 {
                r.normalize()
            } else {
                self
            },
            _ => self,
        }
    }

    /// Kind equivalence: equality of normal forms.
    pub open spec fn eqv(self, other: KindM) -> bool {
        self.normalize() == other.normalize()
    }

    /// The parameter kinds of a type constructor of this kind.
    pub open spec fn params(self) -> Seq<KindM> {
        match self {
            KindM::Arity(ps, _) => ps,
            _ => Seq::empty(),
        }
    }

    /// The kind of a full application of a type constructor of this kind.
    pub open spec fn result(self) -> KindM {
        match self {
            KindM::Arity(_, r) => *r,
            _ => self,
        }
    }
}

/// A normal form is its own normal form, and is no arity without
/// parameters.
pub proof fn lemma_normalize(k: KindM)
    ensures
        k.normalize().normalize() == k.normalize(),
        k.normalize() matches KindM::Arity(ps, _) ==> ps.len() > 0,
        !(k matches KindM::Arity(ps, _) && ps.len() == 0) ==> k.normalize() == k,
    decreases k,
{
    match k {
        KindM::Arity(ps, r) => {
            if ps.len() == 0 {
                lemma_normalize(*r);
            }
        },
        _ => {},
    }
}

impl Clone for Kind {
    #[verifier::loop_isolation(false)]
    fn clone(&self) -> (r: Self)
        ensures
            r@ == self@,
        decreases self,
    {
        match self {
            Kind::VType => Kind::VType,
            Kind::CType => Kind::CType,
            Kind::TypeArity(a) => {
                let mut params: Vec<Kind> = Vec::new();
                let mut i: usize = 0;
                while i < a.params.len()
                    invariant
                        i <= a.params.len(),
                        params.len() == i,
                        forall|j: int| 0 <= j < i ==> params@[j]@ == a.params@[j]@,
                    decreases a.params.len() - i,
                {
                    params.push(a.params[i].clone());
                    i += 1;
                }
                let kd = Box::new((*a.kd).clone());
                let r = Kind::TypeArity(TypeArity { params, kd });
                assert(r@->Arity_0 =~= self@->Arity_0);
                r
            },
        }
    }
}

impl Kind {
    /// The normal form of the kind.
    pub fn normalize(self) -> (r: Kind)
        ensures
            r@ == self@.normalize(),
    {
        self.normal_form()
    }

    /// The normal form of the kind, which is left as it is.
    pub fn normal_form(&self) -> (r: Kind)
        ensures
            r@ == self@.normalize(),
        decreases self,
    {
        match self {
            Kind::VType => Kind::VType,
            Kind::CType => Kind::CType,
            Kind::TypeArity(a) => {
                if a.params.len() == 0 {
                    assert(self@->Arity_0 =~= Seq::empty());
                    (*a.kd).normal_form()
                } else {
                    self.clone()
                }
            },
        }
    }

    /// Whether two kinds have the same mathematical value.
    #[verifier::loop_isolation(false)]
    pub fn same(&self, other: &Kind) -> (r: bool)
        ensures
            r == (self@ == other@),
        decreases self,
    {
        match (self, other) {
            (Kind::VType, Kind::VType) => true,
            (Kind::CType, Kind::CType) => true,
            (Kind::TypeArity(a), Kind::TypeArity(b)) => {
                if a.params.len() != b.params.len() {
                    assert(self@->Arity_0.len() != other@->Arity_0.len());
                    return false;
                }
                let mut i: usize = 0;
                while i < a.params.len()
                    invariant
                        i <= a.params.len(),
                        forall|j: int| 0 <= j < i ==> a.params@[j]@ == b.params@[j]@,
                    decreases a.params.len() - i,
                {
                    if !a.params[i].same(&b.params[i]) {
                        assert(self@->Arity_0[i as int] != other@->Arity_0[i as int]);
                        return false;
                    }
                    i += 1;
                }
                assert(self@->Arity_0 =~= other@->Arity_0);
                (*a.kd).same(&*b.kd)
            },
            _ => false,
        }
    }

    /// Kind equivalence: whether the two kinds have the same normal form.
    pub fn eqv(&self, other: &Kind) -> (r: bool)
        ensures
            r == self@.eqv(other@),
    {
        let a = self.normal_form();
        let b = other.normal_form();
        a.same(&b)
    }
}

} // verus!
