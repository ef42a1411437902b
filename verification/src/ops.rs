//! The binary operator table: pure functions from two already-evaluated
//! operands to a value or a type error. Dispatch goes by the runtime type
//! tag of the left operand, then the right one.
//!
//! Integer arithmetic wraps around on two's-complement overflow; division
//! and remainder truncate toward zero, and a zero divisor is
//! `DivisionByZero`. `add` doubles as concatenation: with a string on
//! either side, an integer operand is rendered as decimal text first, and
//! the operand order is preserved in the result.

use vstd::prelude::*;
use vstd::string::StringExecFns;
use crate::ast::BinOp;
use crate::errors::{ErrX, EvalError, Operation, ValueKind, err_view, kind_of};
use crate::render::{int_dec, int_to_string};
use crate::value::{Primitive, ValueX, prim_view};

verus! {

/// The abstraction of an operator's result.
pub open spec fn res_view(r: Result<Primitive, EvalError>) -> Result<ValueX, ErrX> {
    match r {
        Result::Ok(p) => Result::Ok(prim_view(p)),
        Result::Err(e) => Result::Err(err_view(e)),
    }
}

/// A type error for a binary operator.
pub open spec fn mismatch_x(op: BinOp, expected: ValueKind, actual: ValueKind) -> Result<
    ValueX,
    ErrX,
> {
    Result::Err(ErrX::TypeMismatch(Operation::Binary(op), expected, actual))
}

/// What `add` returns: integer sum (wrapping), string concatenation, or the
/// coercion of an integer to decimal text when the other side is a string.
pub open spec fn add_x(l: ValueX, r: ValueX) -> Result<ValueX, ErrX> {
    match (l, r) {
        (ValueX::Int(a), ValueX::Int(b)) => Result::Ok(
            ValueX::Int(vstd::wrapping::i32_specs::wrapping_add(a, b)),
        ),
        (ValueX::Int(a), ValueX::Str(s)) => Result::Ok(ValueX::Str(int_dec(a as int) + s)),
        (ValueX::Str(s), ValueX::Int(b)) => Result::Ok(ValueX::Str(s + int_dec(b as int))),
        (ValueX::Str(s), ValueX::Str(t)) => Result::Ok(ValueX::Str(s + t)),
        (ValueX::Int(_), _) => mismatch_x(BinOp::Add, ValueKind::Int, kind_of(r)),
        (ValueX::Str(_), _) => mismatch_x(BinOp::Add, ValueKind::Str, kind_of(r)),
        _ => mismatch_x(BinOp::Add, ValueKind::Int, kind_of(l)),
    }
}

/// What `sub`, `mul`, `div` and `rem` return on two integers.
pub open spec fn int_arith_x(op: BinOp, a: i32, b: i32) -> Result<ValueX, ErrX> {
    match op {
        BinOp::Sub => Result::Ok(ValueX::Int(vstd::wrapping::i32_specs::wrapping_sub(a, b))),
        BinOp::Mul => Result::Ok(ValueX::Int(vstd::wrapping::i32_specs::wrapping_mul(a, b))),
        BinOp::Div => if b == 0 {
            Result::Err(ErrX::DivisionByZero)
        } else {
            match a.checked_div(b) {
                Option::Some(q) => Result::Ok(ValueX::Int(q)),
                Option::None => Result::Ok(ValueX::Int(i32::MIN)),
            }
        },
        BinOp::Rem => if b == 0 {
            Result::Err(ErrX::DivisionByZero)
        } else {
            match a.checked_rem(b) {
                Option::Some(m) => Result::Ok(ValueX::Int(m)),
                Option::None => Result::Ok(ValueX::Int(0)),
            }
        },
        _ => Result::Err(ErrX::DivisionByZero),
    }
}

/// What an arithmetic operator returns: integer arithmetic, a type error
/// otherwise.
pub open spec fn arith_x(op: BinOp, l: ValueX, r: ValueX) -> Result<ValueX, ErrX> {
    match (l, r) {
        (ValueX::Int(a), ValueX::Int(b)) => int_arith_x(op, a, b),
        (ValueX::Int(_), _) => mismatch_x(op, ValueKind::Int, kind_of(r)),
        _ => mismatch_x(op, ValueKind::Int, kind_of(l)),
    }
}

/// What `eq` and `neq` return: same-variant structural equality on the
/// primitive kinds; comparing across kinds, or on closures and tuples, is a
/// type error rather than `false`.
pub open spec fn equality_x(op: BinOp, l: ValueX, r: ValueX) -> Result<ValueX, ErrX> {
    match (l, r) {
        (ValueX::Int(a), ValueX::Int(b)) => Result::Ok(
            ValueX::Bool(if op is Eq { a == b } else { a != b }),
        ),
        (ValueX::Str(s), ValueX::Str(t)) => Result::Ok(
            ValueX::Bool(if op is Eq { s == t } else { s != t }),
        ),
        (ValueX::Bool(a), ValueX::Bool(b)) => Result::Ok(
            ValueX::Bool(if op is Eq { a == b } else { a != b }),
        ),
        (ValueX::Int(_), _) => mismatch_x(op, ValueKind::Int, kind_of(r)),
        (ValueX::Str(_), _) => mismatch_x(op, ValueKind::Str, kind_of(r)),
        (ValueX::Bool(_), _) => mismatch_x(op, ValueKind::Bool, kind_of(r)),
        _ => mismatch_x(op, ValueKind::Int, kind_of(l)),
    }
}

/// What `lt`, `gt`, `lte` and `gte` return: integer ordering only.
pub open spec fn compare_x(op: BinOp, l: ValueX, r: ValueX) -> Result<ValueX, ErrX> {
    match (l, r) {
        (ValueX::Int(a), ValueX::Int(b)) => Result::Ok(
            ValueX::Bool(
                match op {
                    BinOp::Lt => a < b,
                    BinOp::Gt => a > b,
                    BinOp::Lte => a <= b,
                    _ => a >= b,
                },
            ),
        ),
        (ValueX::Int(_), _) => mismatch_x(op, ValueKind::Int, kind_of(r)),
        _ => mismatch_x(op, ValueKind::Int, kind_of(l)),
    }
}

/// What `and` and `or` return: boolean logic on two booleans. Both operands
/// were already evaluated by the caller; there is no short-circuiting.
pub open spec fn logic_x(op: BinOp, l: ValueX, r: ValueX) -> Result<ValueX, ErrX> {
    match (l, r) {
        (ValueX::Bool(a), ValueX::Bool(b)) => Result::Ok(
            ValueX::Bool(if op is And { a && b } else { a || b }),
        ),
        (ValueX::Bool(_), _) => mismatch_x(op, ValueKind::Bool, kind_of(r)),
        _ => mismatch_x(op, ValueKind::Bool, kind_of(l)),
    }
}

/// The whole operator table.
pub open spec fn binop_x(op: BinOp, l: ValueX, r: ValueX) -> Result<ValueX, ErrX> {
    match op {
        BinOp::Add => add_x(l, r),
        BinOp::Sub => arith_x(op, l, r),
        BinOp::Mul => arith_x(op, l, r),
        BinOp::Div => arith_x(op, l, r),
        BinOp::Rem => arith_x(op, l, r),
        BinOp::Eq => equality_x(op, l, r),
        BinOp::Neq => equality_x(op, l, r),
        BinOp::Lt => compare_x(op, l, r),
        BinOp::Gt => compare_x(op, l, r),
        BinOp::Lte => compare_x(op, l, r),
        BinOp::Gte => compare_x(op, l, r),
        BinOp::And => logic_x(op, l, r),
        BinOp::Or => logic_x(op, l, r),
    }
}

/// `add`: integer sum, or concatenation when a string is involved.
pub fn add_two_primitives(p1: Primitive, p2: Primitive) -> (r: Result<Primitive, EvalError>)
    ensures
        res_view(r) == add_x(prim_view(p1), prim_view(p2)),
{
    let k2 = p2.kind();
    match (p1, p2) {
        (Primitive::Int(a), Primitive::Int(b)) => Ok(Primitive::Int(a.wrapping_add(b))),
        (Primitive::Int(a), Primitive::Str(s)) => {
            let text = int_to_string(a);
            Ok(Primitive::Str(text.concat(s.as_str())))
        },
        (Primitive::Str(s), Primitive::Int(b)) => {
            let text = int_to_string(b);
            Ok(Primitive::Str(s.concat(text.as_str())))
        },
        (Primitive::Str(s), Primitive::Str(t)) => Ok(Primitive::Str(s.concat(t.as_str()))),
        (Primitive::Int(_), _) => Err(EvalError::TypeMismatch {
            operation: Operation::Binary(BinOp::Add),
            expected: ValueKind::Int,
            actual: k2,
        }),
        (Primitive::Str(_), _) => Err(EvalError::TypeMismatch {
            operation: Operation::Binary(BinOp::Add),
            expected: ValueKind::Str,
            actual: k2,
        }),
        (p1, _) => {
            let k1 = p1.kind();
            Err(EvalError::TypeMismatch {
                operation: Operation::Binary(BinOp::Add),
                expected: ValueKind::Int,
                actual: k1,
            })
        },
    }
}

/// One of `sub`, `mul`, `div`, `rem` on two evaluated operands.
fn arith_two_primitives(op: BinOp, p1: Primitive, p2: Primitive) -> (r: Result<
    Primitive,
    EvalError,
>)
    requires
        op is Sub || op is Mul || op is Div || op is Rem,
    ensures
        res_view(r) == arith_x(op, prim_view(p1), prim_view(p2)),
{
    let k2 = p2.kind();
    match (p1, p2) {
        (Primitive::Int(a), Primitive::Int(b)) => match op {
            BinOp::Sub => Ok(Primitive::Int(a.wrapping_sub(b))),
            BinOp::Mul => Ok(Primitive::Int(a.wrapping_mul(b))),
            BinOp::Div => if b == 0 {
                Err(EvalError::DivisionByZero)
            } else {
                match a.checked_div(b) {
                    Some(q) => Ok(Primitive::Int(q)),
                    None => Ok(Primitive::Int(i32::MIN)),
                }
            },
            _ => if b == 0 {
                Err(EvalError::DivisionByZero)
            } else {
                match a.checked_rem(b) {
                    Some(m) => Ok(Primitive::Int(m)),
                    None => Ok(Primitive::Int(0)),
                }
            },
        },
        (Primitive::Int(_), _) => Err(EvalError::TypeMismatch {
            operation: Operation::Binary(op),
            expected: ValueKind::Int,
            actual: k2,
        }),
        (p1, _) => {
            let k1 = p1.kind();
            Err(EvalError::TypeMismatch {
                operation: Operation::Binary(op),
                expected: ValueKind::Int,
                actual: k1,
            })
        },
    }
}

/// `sub`.
pub fn sub_two_primitives(p1: Primitive, p2: Primitive) -> (r: Result<Primitive, EvalError>)
    ensures
        res_view(r) == arith_x(BinOp::Sub, prim_view(p1), prim_view(p2)),
{
    arith_two_primitives(BinOp::Sub, p1, p2)
}

/// `mul`.
pub fn mul_two_primitives(p1: Primitive, p2: Primitive) -> (r: Result<Primitive, EvalError>)
    ensures
        res_view(r) == arith_x(BinOp::Mul, prim_view(p1), prim_view(p2)),
{
    arith_two_primitives(BinOp::Mul, p1, p2)
}

/// `div`: truncating toward zero; a zero divisor is an error.
pub fn div_two_primitives(p1: Primitive, p2: Primitive) -> (r: Result<Primitive, EvalError>)
    ensures
        res_view(r) == arith_x(BinOp::Div, prim_view(p1), prim_view(p2)),
{
    arith_two_primitives(BinOp::Div, p1, p2)
}

/// `rem`: the remainder of truncating division; a zero divisor is an error.
pub fn rem_two_primitives(p1: Primitive, p2: Primitive) -> (r: Result<Primitive, EvalError>)
    ensures
        res_view(r) == arith_x(BinOp::Rem, prim_view(p1), prim_view(p2)),
{
    arith_two_primitives(BinOp::Rem, p1, p2)
}

/// `eq` and `neq` on two evaluated operands.
fn equality_two_primitives(op: BinOp, p1: Primitive, p2: Primitive) -> (r: Result<
    Primitive,
    EvalError,
>)
    requires
        op is Eq || op is Neq,
    ensures
        res_view(r) == equality_x(op, prim_view(p1), prim_view(p2)),
{
    let is_eq = match op {
        BinOp::Eq => true,
        _ => false,
    };
    let k2 = p2.kind();
    match (p1, p2) {
        (Primitive::Int(a), Primitive::Int(b)) => Ok(
            Primitive::Bool(if is_eq { a == b } else { a != b }),
        ),
        (Primitive::Str(s), Primitive::Str(t)) => {
            let same = s == t;
            Ok(Primitive::Bool(if is_eq { same } else { !same }))
        },
        (Primitive::Bool(a), Primitive::Bool(b)) => Ok(
            Primitive::Bool(if is_eq { a == b } else { a != b }),
        ),
        (Primitive::Int(_), _) => Err(EvalError::TypeMismatch {
            operation: Operation::Binary(op),
            expected: ValueKind::Int,
            actual: k2,
        }),
        (Primitive::Str(_), _) => Err(EvalError::TypeMismatch {
            operation: Operation::Binary(op),
            expected: ValueKind::Str,
            actual: k2,
        }),
        (Primitive::Bool(_), _) => Err(EvalError::TypeMismatch {
            operation: Operation::Binary(op),
            expected: ValueKind::Bool,
            actual: k2,
        }),
        (p1, _) => {
            let k1 = p1.kind();
            Err(EvalError::TypeMismatch {
                operation: Operation::Binary(op),
                expected: ValueKind::Int,
                actual: k1,
            })
        },
    }
}

/// `eq`.
pub fn eq_two_primitives(p1: Primitive, p2: Primitive) -> (r: Result<Primitive, EvalError>)
    ensures
        res_view(r) == equality_x(BinOp::Eq, prim_view(p1), prim_view(p2)),
{
    equality_two_primitives(BinOp::Eq, p1, p2)
}

/// `neq`.
pub fn neq_two_primitives(p1: Primitive, p2: Primitive) -> (r: Result<Primitive, EvalError>)
    ensures
        res_view(r) == equality_x(BinOp::Neq, prim_view(p1), prim_view(p2)),
{
    equality_two_primitives(BinOp::Neq, p1, p2)
}

/// One of `lt`, `gt`, `lte`, `gte` on two evaluated operands.
fn compare_two_primitives(op: BinOp, p1: Primitive, p2: Primitive) -> (r: Result<
    Primitive,
    EvalError,
>)
    requires
        op is Lt || op is Gt || op is Lte || op is Gte,
    ensures
        res_view(r) == compare_x(op, prim_view(p1), prim_view(p2)),
{
    let k2 = p2.kind();
    match (p1, p2) {
        (Primitive::Int(a), Primitive::Int(b)) => Ok(
            Primitive::Bool(
                match op {
                    BinOp::Lt => a < b,
                    BinOp::Gt => a > b,
                    BinOp::Lte => a <= b,
                    _ => a >= b,
                },
            ),
        ),
        (Primitive::Int(_), _) => Err(EvalError::TypeMismatch {
            operation: Operation::Binary(op),
            expected: ValueKind::Int,
            actual: k2,
        }),
        (p1, _) => {
            let k1 = p1.kind();
            Err(EvalError::TypeMismatch {
                operation: Operation::Binary(op),
                expected: ValueKind::Int,
                actual: k1,
            })
        },
    }
}

/// `lt`.
pub fn lt_two_primitives(p1: Primitive, p2: Primitive) -> (r: Result<Primitive, EvalError>)
    ensures
        res_view(r) == compare_x(BinOp::Lt, prim_view(p1), prim_view(p2)),
{
    compare_two_primitives(BinOp::Lt, p1, p2)
}

/// `gt`.
pub fn gt_two_primitives(p1: Primitive, p2: Primitive) -> (r: Result<Primitive, EvalError>)
    ensures
        res_view(r) == compare_x(BinOp::Gt, prim_view(p1), prim_view(p2)),
{
    compare_two_primitives(BinOp::Gt, p1, p2)
}

/// `lte`.
pub fn lte_two_primitives(p1: Primitive, p2: Primitive) -> (r: Result<Primitive, EvalError>)
    ensures
        res_view(r) == compare_x(BinOp::Lte, prim_view(p1), prim_view(p2)),
{
    compare_two_primitives(BinOp::Lte, p1, p2)
}

/// `gte`.
pub fn gte_two_primitives(p1: Primitive, p2: Primitive) -> (r: Result<Primitive, EvalError>)
    ensures
        res_view(r) == compare_x(BinOp::Gte, prim_view(p1), prim_view(p2)),
{
    compare_two_primitives(BinOp::Gte, p1, p2)
}

/// `and` and `or` on two evaluated operands; no short-circuiting.
fn logic_two_primitives(op: BinOp, p1: Primitive, p2: Primitive) -> (r: Result<
    Primitive,
    EvalError,
>)
    requires
        op is And || op is Or,
    ensures
        res_view(r) == logic_x(op, prim_view(p1), prim_view(p2)),
{
    let k2 = p2.kind();
    match (p1, p2) {
        (Primitive::Bool(a), Primitive::Bool(b)) => Ok(
            Primitive::Bool(
                match op {
                    BinOp::And => a && b,
                    _ => a || b,
                },
            ),
        ),
        (Primitive::Bool(_), _) => Err(EvalError::TypeMismatch {
            operation: Operation::Binary(op),
            expected: ValueKind::Bool,
            actual: k2,
        }),
        (p1, _) => {
            let k1 = p1.kind();
            Err(EvalError::TypeMismatch {
                operation: Operation::Binary(op),
                expected: ValueKind::Bool,
                actual: k1,
            })
        },
    }
}

/// `and`.
pub fn and_two_primitives(p1: Primitive, p2: Primitive) -> (r: Result<Primitive, EvalError>)
    ensures
        res_view(r) == logic_x(BinOp::And, prim_view(p1), prim_view(p2)),
{
    logic_two_primitives(BinOp::And, p1, p2)
}

/// `or`.
pub fn or_two_primitives(p1: Primitive, p2: Primitive) -> (r: Result<Primitive, EvalError>)
    ensures
        res_view(r) == logic_x(BinOp::Or, prim_view(p1), prim_view(p2)),
{
    logic_two_primitives(BinOp::Or, p1, p2)
}

/// The whole table: dispatch on the operator tag.
pub fn apply_binop(op: BinOp, p1: Primitive, p2: Primitive) -> (r: Result<Primitive, EvalError>)
    ensures
        res_view(r) == binop_x(op, prim_view(p1), prim_view(p2)),
{
    match op {
        BinOp::Add => add_two_primitives(p1, p2),
        BinOp::Sub => sub_two_primitives(p1, p2),
        BinOp::Mul => mul_two_primitives(p1, p2),
        BinOp::Div => div_two_primitives(p1, p2),
        BinOp::Rem => rem_two_primitives(p1, p2),
        BinOp::Eq => eq_two_primitives(p1, p2),
        BinOp::Neq => neq_two_primitives(p1, p2),
        BinOp::Lt => lt_two_primitives(p1, p2),
        BinOp::Gt => gt_two_primitives(p1, p2),
        BinOp::Lte => lte_two_primitives(p1, p2),
        BinOp::Gte => gte_two_primitives(p1, p2),
        BinOp::And => and_two_primitives(p1, p2),
        BinOp::Or => or_two_primitives(p1, p2),
    }
}

} // verus!
