//! The evaluator's error surface.
//!
//! [`Error`] is the program-level taxonomy: each variant carries a source
//! span and has a stable diagnostic code. [`Fault`] covers conditions that
//! only ill-formed or ill-typed input can reach — where the language's
//! compiler would have rejected the program — so a verified evaluator
//! surfaces them as values instead of panicking.

use vstd::prelude::*;
use crate::span::PackageSpan;

verus! {

/// An evaluation error, with the span it is reported at.
#[derive(Clone, Debug)]
pub enum Error {
    ArrayTooLarge(PackageSpan),
    InvalidArrayLength(i64, PackageSpan),
    DivZero(PackageSpan),
    EmptyRange(PackageSpan),
    InvalidIndex(i64, PackageSpan),
    IntTooLarge(i64, PackageSpan),
    IndexOutOfRange(i64, PackageSpan),
    IntrinsicFail(String, String, PackageSpan),
    /// The angle carries the IEEE-754 binary64 bit pattern.
    InvalidRotationAngle(u64, PackageSpan),
    InvalidNegativeInt(i64, PackageSpan),
    OutputFail(PackageSpan),
    QubitUniqueness(PackageSpan),
    QubitsNotSeparable(PackageSpan),
    RangeStepZero(PackageSpan),
    ReleasedQubitNotZero(usize, PackageSpan),
    UnboundName(PackageSpan),
    UnknownIntrinsic(String, PackageSpan),
    UnsupportedIntrinsicType(String, PackageSpan),
    UserFail(String, PackageSpan),
}

pub open spec fn spec_error_span(e: Error) -> PackageSpan {
    match e {
        Error::ArrayTooLarge(span) => span,
        Error::InvalidArrayLength(_, span) => span,
        Error::DivZero(span) => span,
        Error::EmptyRange(span) => span,
        Error::InvalidIndex(_, span) => span,
        Error::IntTooLarge(_, span) => span,
        Error::IndexOutOfRange(_, span) => span,
        Error::IntrinsicFail(_, _, span) => span,
        Error::InvalidRotationAngle(_, span) => span,
        Error::InvalidNegativeInt(_, span) => span,
        Error::OutputFail(span) => span,
        Error::QubitUniqueness(span) => span,
        Error::QubitsNotSeparable(span) => span,
        Error::RangeStepZero(span) => span,
        Error::ReleasedQubitNotZero(_, span) => span,
        Error::UnboundName(span) => span,
        Error::UnknownIntrinsic(_, span) => span,
        Error::UnsupportedIntrinsicType(_, span) => span,
        Error::UserFail(_, span) => span,
    }
}

impl Error {
    /// The span the error is reported at.
    pub fn span(&self) -> (r: &PackageSpan)
        ensures
            *r == spec_error_span(*self),
    {
        match self {
            Error::ArrayTooLarge(span) => span,
            Error::InvalidArrayLength(_, span) => span,
            Error::DivZero(span) => span,
            Error::EmptyRange(span) => span,
            Error::InvalidIndex(_, span) => span,
            Error::IntTooLarge(_, span) => span,
            Error::IndexOutOfRange(_, span) => span,
            Error::IntrinsicFail(_, _, span) => span,
            Error::InvalidRotationAngle(_, span) => span,
            Error::InvalidNegativeInt(_, span) => span,
            Error::OutputFail(span) => span,
            Error::QubitUniqueness(span) => span,
            Error::QubitsNotSeparable(span) => span,
            Error::RangeStepZero(span) => span,
            Error::ReleasedQubitNotZero(_, span) => span,
            Error::UnboundName(span) => span,
            Error::UnknownIntrinsic(_, span) => span,
            Error::UnsupportedIntrinsicType(_, span) => span,
            Error::UserFail(_, span) => span,
        }
    }

    /// The stable diagnostic code of this error.
    pub fn code(&self) -> (r: &'static str) {
        match self {
            Error::ArrayTooLarge(_) => "Qsc.Eval.ArrayTooLarge",
            Error::InvalidArrayLength(_, _) => "Qsc.Eval.InvalidArrayLength",
            Error::DivZero(_) => "Qsc.Eval.DivZero",
            Error::EmptyRange(_) => "Qsc.Eval.EmptyRange",
            Error::InvalidIndex(_, _) => "Qsc.Eval.InvalidIndex",
            Error::IntTooLarge(_, _) => "Qsc.Eval.IntTooLarge",
            Error::IndexOutOfRange(_, _) => "Qsc.Eval.IndexOutOfRange",
            Error::IntrinsicFail(_, _, _) => "Qsc.Eval.IntrinsicFail",
            Error::InvalidRotationAngle(_, _) => "Qsc.Eval.InvalidRotationAngle",
            Error::InvalidNegativeInt(_, _) => "Qsc.Eval.InvalidNegativeInt",
            Error::OutputFail(_) => "Qsc.Eval.OutputFail",
            Error::QubitUniqueness(_) => "Qsc.Eval.QubitUniqueness",
            Error::QubitsNotSeparable(_) => "Qsc.Eval.QubitsNotSeparable",
            Error::RangeStepZero(_) => "Qsc.Eval.RangeStepZero",
            Error::ReleasedQubitNotZero(_, _) => "Qsc.Eval.ReleasedQubitNotZero",
            Error::UnboundName(_) => "Qsc.Eval.UnboundName",
            Error::UnknownIntrinsic(_, _) => "Qsc.Eval.UnknownIntrinsic",
            Error::UnsupportedIntrinsicType(_, _) => "Qsc.Eval.UnsupportedIntrinsicType",
            Error::UserFail(_, _) => "Qsc.Eval.UserFail",
        }
    }
}

/// A breach of the evaluator's input contract: conditions the language's
/// compiler rules out of well-typed programs, surfaced as ordinary values
/// so that evaluation never panics.
#[derive(Clone, Copy, Debug, PartialEq, Eq, Structural)]
pub enum Fault {
    /// An operand had the wrong tag for the operation.
    TypeMismatch,
    /// A node id pointed outside its package.
    MissingNode,
    /// The value stack held fewer operands than the fired action consumes.
    StackUnderflow,
    /// A frame continuation fired without a matching call frame.
    MissingFrame,
    /// A scope was left that was never entered.
    MissingScope,
    /// A `Hole` expression survived compilation.
    UnexpectedHole,
    /// A variable expression carried a failed resolution.
    ResolutionError,
    /// A call target was neither a global nor a closure.
    NotCallable,
    /// The selected specialization is not declared.
    MissingSpecialization,
    /// A controlled-specialization argument was not a two-element tuple.
    ArityMismatch,
    /// Assignment to something that is not an assignable pattern.
    UnassignablePattern,
    /// Assignment to an immutable binding.
    AssignToImmutable,
    /// A field access did not match the record's shape.
    InvalidFieldAccess,
    /// Pattern or assignment nesting deeper than the package holds
    /// patterns; only cyclic node graphs reach this.
    RecursionLimit,
    /// The run completed with values left beyond its result.
    StackImbalance,
}

/// Either a program-level error or an input-contract breach.
#[derive(Clone, Debug)]
pub enum Failure {
    Program(Error),
    Fault(Fault),
}

} // verus!
