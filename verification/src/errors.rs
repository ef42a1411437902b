//! The errors that can abort an evaluation run. Every one of them is fatal:
//! the language has no construct that could catch it, so an error propagates
//! to the entry point unchanged.

use vstd::prelude::*;
use crate::value::{Primitive, ValueX};

verus! {

/// The runtime type tag of a value, as named by diagnostics.
#[derive(Clone, Copy, Debug, PartialEq, Eq, Structural)]
pub enum ValueKind {
    Int,
    Str,
    Bool,
    Function,
    Tuple,
    Unit,
}

/// The operation a `TypeMismatch` complains about: a binary operator, or a
/// call whose callee is not a function.
#[derive(Clone, Copy, Debug, PartialEq, Eq, Structural)]
pub enum Operation {
    Binary(crate::ast::BinOp),
    Call,
}

/// A fatal evaluation error.
pub enum EvalError {
    /// A variable reference found no binding of that name.
    UnboundVariable { name: String },
    /// An operation was applied to an operand of the wrong runtime type.
    /// When several kinds would have been admissible, `expected` reports the
    /// representative one: the left operand's own kind for the right-hand
    /// side of `add`, `eq` and `neq`, and the operator's primary kind
    /// otherwise (`Int` for arithmetic and ordering, `Bool` for logic).
    TypeMismatch { operation: Operation, expected: ValueKind, actual: ValueKind },
    /// A call supplied a number of arguments different from the function's
    /// parameter count.
    ArityMismatch { function: String, expected_count: usize, actual_count: usize },
    /// An integer division or remainder with a zero divisor.
    DivisionByZero,
    /// The condition of an `if` evaluated to something other than a boolean.
    NonBooleanCondition,
    /// `first` or `second` was applied to a value that is not a tuple.
    ProjectionOnNonTuple,
    /// The recursion budget handed to the evaluator was exhausted; this is
    /// the resource limit that bounds call depth, not a language error.
    DepthLimit,
}

/// Specification-level twin of `EvalError`.
#[verifier::ext_equal]
pub enum ErrX {
    UnboundVariable(Seq<char>),
    TypeMismatch(Operation, ValueKind, ValueKind),
    ArityMismatch(Seq<char>, nat, nat),
    DivisionByZero,
    NonBooleanCondition,
    ProjectionOnNonTuple,
    DepthLimit,
}

/// The abstraction of an error.
pub open spec fn err_view(e: EvalError) -> ErrX {
    match e {
        EvalError::UnboundVariable { name } => ErrX::UnboundVariable(name@),
        EvalError::TypeMismatch { operation, expected, actual } => ErrX::TypeMismatch(
            operation,
            expected,
            actual,
        ),
        EvalError::ArityMismatch { function, expected_count, actual_count } => ErrX::ArityMismatch(
            function@,
            expected_count as nat,
            actual_count as nat,
        ),
        EvalError::DivisionByZero => ErrX::DivisionByZero,
        EvalError::NonBooleanCondition => ErrX::NonBooleanCondition,
        EvalError::ProjectionOnNonTuple => ErrX::ProjectionOnNonTuple,
        EvalError::DepthLimit => ErrX::DepthLimit,
    }
}

impl View for EvalError {
    type V = ErrX;

    open spec fn view(&self) -> ErrX {
        err_view(*self)
    }
}

/// The kind tag of a specification-level value.
pub open spec fn kind_of(v: ValueX) -> ValueKind {
    match v {
        ValueX::Int(_) => ValueKind::Int,
        ValueX::Str(_) => ValueKind::Str,
        ValueX::Bool(_) => ValueKind::Bool,
        ValueX::Function { .. } => ValueKind::Function,
        ValueX::Tuple(_, _) => ValueKind::Tuple,
        ValueX::Unit => ValueKind::Unit,
    }
}

impl Primitive {
    /// The kind tag of this value.
    pub fn kind(&self) -> (k: ValueKind)
        ensures
            k == kind_of(self@),
    {
        match self {
            Primitive::Int(_) => ValueKind::Int,
            Primitive::Str(_) => ValueKind::Str,
            Primitive::Bool(_) => ValueKind::Bool,
            Primitive::Function(_) => ValueKind::Function,
            Primitive::Tuple(_, _) => ValueKind::Tuple,
            Primitive::Unit => ValueKind::Unit,
        }
    }
}

} // verus!
