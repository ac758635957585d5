//! The two fatal error families of the language: parse errors, carrying the
//! 1-based source line and the offending text, and runtime errors. There is
//! no recovery anywhere in the pipeline; any error aborts the whole parse or
//! the whole evaluation.

use vstd::prelude::*;
use crate::utils::BalanceFault;

verus! {

/// What went wrong while parsing.
#[derive(Debug, PartialEq)]
pub enum PErrKind {
    /// A closing character did not match the marker that was open.
    Unbalanced(BalanceFault),
    /// The input ended while a marker was still open; names the marker.
    Unclosed(crate::utils::TOCLOSE),
    /// A fully accumulated fragment fits no node shape; carries the fragment.
    NotAType(String),
    /// A decision chain was built without a condition before its `?`.
    MissingCondition,
    /// A decision chain was opened but its else clause is missing.
    MissingElse,
    /// The parser ran out of nesting depth.
    Depth,
}

/// A fatal parse error: the kind plus the 1-based source line.
#[derive(Debug, PartialEq)]
pub struct PErr {
    pub line: usize,
    pub kind: PErrKind,
}

/// Ghost mirror of `PErrKind`.
pub ghost enum PErrKindV {
    Unbalanced(BalanceFault),
    Unclosed(crate::utils::TOCLOSE),
    NotAType(Seq<char>),
    MissingCondition,
    MissingElse,
    Depth,
}

/// Ghost mirror of `PErr`.
pub ghost struct PErrV {
    pub line: int,
    pub kind: PErrKindV,
}

/// View of a parse error.
pub open spec fn view_perr(e: PErr) -> PErrV {
    PErrV {
        line: e.line as int,
        kind: match e.kind {
            PErrKind::Unbalanced(f) => PErrKindV::Unbalanced(f),
            PErrKind::Unclosed(m) => PErrKindV::Unclosed(m),
            PErrKind::NotAType(s) => PErrKindV::NotAType(s@),
            PErrKind::MissingCondition => PErrKindV::MissingCondition,
            PErrKind::MissingElse => PErrKindV::MissingElse,
            PErrKind::Depth => PErrKindV::Depth,
        },
    }
}

/// What went wrong while evaluating.
#[derive(Debug, PartialEq)]
pub enum RtErr {
    /// A name was resolved in no visible scope.
    VarNotFound(String),
    /// The named value was applied but is neither a lambda nor a native.
    NotCallable(String),
    /// An operator was applied to value kinds it does not accept.
    TypeError(crate::ast::JOINT),
    /// A definition tried to store the absence of a value.
    StoreVoid(String),
    /// An argument expression produced no value.
    VoidArg,
    /// A lambda was called with the wrong number of arguments.
    ArgCount { expected: usize, got: usize },
    /// Integer division by zero.
    DivByZero,
    /// An arithmetic result does not fit the numeric type.
    Overflow,
    /// A native function reported a fault of its own.
    Native(String),
    /// A native function asked the process to stop with this code.
    Exit(i64),
    /// The evaluator ran out of call depth.
    Depth,
}

/// Ghost mirror of `RtErr`.
pub ghost enum RtErrV {
    VarNotFound(Seq<char>),
    NotCallable(Seq<char>),
    TypeError(crate::ast::JOINT),
    StoreVoid(Seq<char>),
    VoidArg,
    ArgCount { expected: int, got: int },
    DivByZero,
    Overflow,
    Native(Seq<char>),
    Exit(i64),
    Depth,
}

/// View of a runtime error.
pub open spec fn view_rterr(e: RtErr) -> RtErrV {
    match e {
        RtErr::VarNotFound(s) => RtErrV::VarNotFound(s@),
        RtErr::NotCallable(s) => RtErrV::NotCallable(s@),
        RtErr::TypeError(j) => RtErrV::TypeError(j),
        RtErr::StoreVoid(s) => RtErrV::StoreVoid(s@),
        RtErr::VoidArg => RtErrV::VoidArg,
        RtErr::ArgCount { expected, got } => RtErrV::ArgCount {
            expected: expected as int,
            got: got as int,
        },
        RtErr::DivByZero => RtErrV::DivByZero,
        RtErr::Overflow => RtErrV::Overflow,
        RtErr::Native(s) => RtErrV::Native(s@),
        RtErr::Exit(c) => RtErrV::Exit(c),
        RtErr::Depth => RtErrV::Depth,
    }
}

} // verus!
