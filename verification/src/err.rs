//! What the type checker reports.

use vstd::prelude::*;
use crate::kind::{Kind, KindM};
use crate::span::{names_of, CtorV, DtorV, Name, Span, SpanInfo, TermV, TypeV};
use crate::types::{Type, TypeM};

verus! {

/// An error of the type checker.
#[derive(Debug, PartialEq, Eq)]
pub enum TypeCheckError {
    UnboundVar { var: TermV },
    UnboundTypeVariable { tvar: TypeV },
    UnknownConstructor { ctor: CtorV },
    UnknownDestructor { dtor: DtorV },
    DuplicateTypeDeclaration { name: TypeV },
    DuplicateCtorDeclaration { name: CtorV },
    DuplicateDtorDeclaration { name: DtorV },
    ExternalDeclaration { name: String },
    KindMismatch { context: String, expected: Kind, found: Kind },
    ArityMismatch { context: String, expected: usize, found: usize },
    TypeMismatch { context: String, expected: Type, found: Type },
    TypeExpected { context: String, expected: String, found: Type },
    Subsumption,
    NeedAnnotation { content: String },
    InconsistentMatchers { unexpected: Vec<CtorV>, missing: Vec<CtorV> },
    InconsistentCoMatchers { unexpected: Vec<DtorV>, missing: Vec<DtorV> },
    InconsistentBranches(Vec<Type>),
    WrongMain { found: Type },
}

/// The mathematical value of an error. A name that the error takes from a
/// term or a declaration is held as it was written, with its place.
pub enum ErrorM {
    UnboundVar { var: Name },
    UnboundTypeVariable { tvar: Seq<char> },
    UnknownConstructor { ctor: Name },
    UnknownDestructor { dtor: Name },
    DuplicateTypeDeclaration { name: Name },
    DuplicateCtorDeclaration { name: Name },
    DuplicateDtorDeclaration { name: Name },
    ExternalDeclaration { name: Seq<char> },
    KindMismatch { context: Seq<char>, expected: KindM, found: KindM },
    ArityMismatch { context: Seq<char>, expected: nat, found: nat },
    TypeMismatch { context: Seq<char>, expected: TypeM, found: TypeM },
    TypeExpected { context: Seq<char>, expected: Seq<char>, found: TypeM },
    Subsumption,
    NeedAnnotation { content: Seq<char> },
    InconsistentMatchers { unexpected: Seq<Seq<char>>, missing: Seq<Seq<char>> },
    InconsistentCoMatchers { unexpected: Seq<Seq<char>>, missing: Seq<Seq<char>> },
    InconsistentBranches(Seq<TypeM>),
    WrongMain { found: TypeM },
}

impl View for TypeCheckError {
    type V = ErrorM;

    open spec fn view(&self) -> ErrorM {
        match *self {
            TypeCheckError::UnboundVar { var } => ErrorM::UnboundVar { var },
            TypeCheckError::UnboundTypeVariable { tvar } => ErrorM::UnboundTypeVariable {
                tvar: tvar@,
            },
            TypeCheckError::UnknownConstructor { ctor } => ErrorM::UnknownConstructor { ctor },
            TypeCheckError::UnknownDestructor { dtor } => ErrorM::UnknownDestructor { dtor },
            TypeCheckError::DuplicateTypeDeclaration { name } => ErrorM::DuplicateTypeDeclaration { name },
            TypeCheckError::DuplicateCtorDeclaration { name } => ErrorM::DuplicateCtorDeclaration { name },
            TypeCheckError::DuplicateDtorDeclaration { name } => ErrorM::DuplicateDtorDeclaration { name },
            TypeCheckError::ExternalDeclaration { name } => ErrorM::ExternalDeclaration {
                name: name@,
            },
            TypeCheckError::KindMismatch { context, expected, found } => ErrorM::KindMismatch {
                context: context@,
                expected: expected@,
                found: found@,
            },
            TypeCheckError::ArityMismatch { context, expected, found } => ErrorM::ArityMismatch {
                context: context@,
                expected: expected as nat,
                found: found as nat,
            },
            TypeCheckError::TypeMismatch { context, expected, found } => ErrorM::TypeMismatch {
                context: context@,
                expected: expected@,
                found: found@,
            },
            TypeCheckError::TypeExpected { context, expected, found } => ErrorM::TypeExpected {
                context: context@,
                expected: expected@,
                found: found@,
            },
            TypeCheckError::Subsumption => ErrorM::Subsumption,
            TypeCheckError::NeedAnnotation { content } => ErrorM::NeedAnnotation {
                content: content@,
            },
            TypeCheckError::InconsistentMatchers { unexpected, missing } => {
                ErrorM::InconsistentMatchers {
                    unexpected: names_of(unexpected@),
                    missing: names_of(missing@),
                }
            },
            TypeCheckError::InconsistentCoMatchers { unexpected, missing } => {
                ErrorM::InconsistentCoMatchers {
                    unexpected: names_of(unexpected@),
                    missing: names_of(missing@),
                }
            },
            TypeCheckError::InconsistentBranches(types) => ErrorM::InconsistentBranches(
                crate::types::owned_types_model(types@),
            ),
            TypeCheckError::WrongMain { found } => ErrorM::WrongMain { found: found@ },
        }
    }
}

/// An error with the place it is reported at.
pub type TyckError = Span<TypeCheckError>;

/// The mathematical value of an error with its place.
pub type TyckErrorM = Span<ErrorM>;

/// The error `e` reported at `info`.
pub open spec fn at(info: SpanInfo, e: ErrorM) -> TyckErrorM {
    Span { info, inner: e }
}

/// The mathematical value of a located error.
pub open spec fn error_model(e: TyckError) -> TyckErrorM {
    Span { info: e.info, inner: e.inner@ }
}

/// The mathematical value of the outcome of checking a kind.
pub open spec fn kind_result_model(r: Result<Kind, TyckError>) -> Result<KindM, TyckErrorM> {
    match r {
        Ok(k) => Ok(k@),
        Err(e) => Err(error_model(e)),
    }
}

/// The mathematical value of the outcome of checking a type.
pub open spec fn type_result_model(r: Result<Type, TyckError>) -> Result<TypeM, TyckErrorM> {
    match r {
        Ok(t) => Ok(t@),
        Err(e) => Err(error_model(e)),
    }
}

/// The mathematical value of the outcome of a check without a result.
pub open spec fn unit_result_model(r: Result<(), TyckError>) -> Result<(), TyckErrorM> {
    match r {
        Ok(_) => Ok(()),
        Err(e) => Err(error_model(e)),
    }
}

} // verus!
