//! The conditions that abort a compilation.

use vstd::prelude::*;
use crate::ast::{IntrinsicKind, Pattern, PatternView, TExpr, TExprView, Variable, VariableView};

verus! {

/// Why a compilation stopped. Every condition is fatal; where a sub-term is to
/// blame, the error carries it.
#[derive(Debug, PartialEq, Eq)]
pub enum CompileError {
    /// A variable in callee position has no binding, or is a witness.
    UnboundVariable(Variable),
    /// The callee of an application is a value that is not a function.
    NotAFunction(TExpr),
    /// A constant pattern met a value that is still symbolic.
    IndeterminateMatch(Pattern, TExpr),
    /// No branch of a match accepted the scrutinee.
    NonExhaustiveMatch(TExpr),
    /// The exponent of a power is not an integer constant.
    SymbolicExponent(TExpr),
    /// A built-in received arguments of the wrong number or shape.
    MalformedIntrinsicArguments(IntrinsicKind),
    /// A term occurs where an earlier stage guarantees that it cannot.
    InternalInvariantViolation,
    /// The identifier generator has issued every identifier it can.
    IdentifiersExhausted,
    /// The nesting of substitutions or calls went beyond the given limit.
    RecursionLimit,
}

/// The model of an error: the same error over the models of the terms that it
/// carries.
pub enum ErrorView {
    UnboundVariable(VariableView),
    NotAFunction(TExprView),
    IndeterminateMatch(PatternView, TExprView),
    NonExhaustiveMatch(TExprView),
    SymbolicExponent(TExprView),
    MalformedIntrinsicArguments(IntrinsicKind),
    InternalInvariantViolation,
    IdentifiersExhausted,
    RecursionLimit,
}

impl View for CompileError {
    type V = ErrorView;

    open spec fn view(&self) -> ErrorView {
        match *self {
            CompileError::UnboundVariable(v) => ErrorView::UnboundVariable(v@),
            CompileError::NotAFunction(e) => ErrorView::NotAFunction(e@),
            CompileError::IndeterminateMatch(p, e) => ErrorView::IndeterminateMatch(p@, e@),
            CompileError::NonExhaustiveMatch(e) => ErrorView::NonExhaustiveMatch(e@),
            CompileError::SymbolicExponent(e) => ErrorView::SymbolicExponent(e@),
            CompileError::MalformedIntrinsicArguments(k) => ErrorView::MalformedIntrinsicArguments(
                k,
            ),
            CompileError::InternalInvariantViolation => ErrorView::InternalInvariantViolation,
            CompileError::IdentifiersExhausted => ErrorView::IdentifiersExhausted,
            CompileError::RecursionLimit => ErrorView::RecursionLimit,
        }
    }
}

/// The model of a result whose success value has a view.
pub open spec fn result_view<T: View>(r: Result<T, CompileError>) -> Result<T::V, ErrorView> {
    match r {
        Ok(x) => Ok(x@),
        Err(e) => Err(e@),
    }
}

/// Whether the result is a success or the error that the identifiers ran out.
pub open spec fn fails_only_by_exhaustion<T>(r: Result<T, ErrorView>) -> bool {
    match r {
        Ok(_) => true,
        Err(e) => e == ErrorView::IdentifiersExhausted,
    }
}

} // verus!
