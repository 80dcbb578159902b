//! Primitive operators: pure functions on already-evaluated operands, plus
//! structural equality of values.
//!
//! Every operator first propagates an `Error` operand (left one first) and
//! otherwise checks operand types; arithmetic whose mathematical result does
//! not fit in 64 bits yields an overflow error instead of wrapping.
use vstd::prelude::*;

use crate::ast::{value_view, values_view, BinOp, UnaryOp, Value, ValueS};
use vstd::string::StringExecFns;

verus! {

broadcast use vstd::seq::group_seq_axioms, vstd::std_specs::vec::group_vec_axioms, crate::ast::lemma_values_view;

/// Name of a value's runtime type, as used in error messages.
pub open spec fn type_name_s(v: ValueS) -> Seq<char> {
    match v {
        ValueS::Int(_) => "Int"@,
        ValueS::Bool(_) => "Bool"@,
        ValueS::Char(_) => "Char"@,
        ValueS::Str(_) => "String"@,
        ValueS::Tuple(_) => "Tuple"@,
        ValueS::Boxed(_) => "Boxed"@,
        ValueS::Function(_, _, _) => "Function"@,
        ValueS::Thunk(_) => "Thunk"@,
        ValueS::Error(_) => "Error"@,
    }
}

/// Structural equality: componentwise on primitives, tuples, boxes and
/// errors; functions and thunks are never equal, values of different types
/// never compare equal.
pub open spec fn val_eq_s(a: ValueS, b: ValueS) -> bool
    decreases a,
{
    match (a, b) {
        (ValueS::Int(x), ValueS::Int(y)) => x == y,
        (ValueS::Bool(x), ValueS::Bool(y)) => x == y,
        (ValueS::Char(x), ValueS::Char(y)) => x == y,
        (ValueS::Str(x), ValueS::Str(y)) => x == y,
        (ValueS::Tuple(xs), ValueS::Tuple(ys)) => xs.len() == ys.len() && forall|i: int|
            0 <= i < xs.len() ==> val_eq_s(#[trigger] xs[i], ys[i]),
        (ValueS::Boxed(x), ValueS::Boxed(y)) => val_eq_s(*x, *y),
        (ValueS::Error(x), ValueS::Error(y)) => x == y,
        _ => false,
    }
}

/// The 64-bit signed result of an arithmetic operation, or the overflow
/// error when the mathematical result does not fit.
pub open spec fn arith_result(x: int) -> ValueS {
    if i64::MIN <= x <= i64::MAX {
        ValueS::Int(x as i64)
    } else {
        ValueS::Error("integer overflow"@)
    }
}

/// What a unary operator returns: the error operand unchanged, the negated
/// integer or complemented boolean, or a type-mismatch error.
pub open spec fn apply_unary_s(op: UnaryOp, v: ValueS) -> ValueS {
    match v {
        ValueS::Error(_) => v,
        _ => match op {
            UnaryOp::Negate => match v {
                ValueS::Int(x) => arith_result(-(x as int)),
                _ => ValueS::Error("type mismatch: negation expects an integer"@),
            },
            UnaryOp::Not => match v {
                ValueS::Bool(b) => ValueS::Bool(!b),
                _ => ValueS::Error("type mismatch: 'not' expects a boolean"@),
            },
        },
    }
}

/// What a binary operator returns: the first error operand unchanged,
/// otherwise the operator applied to operands of the right types, otherwise
/// a type-mismatch error. Division and modulo by zero, and quotients outside
/// the 64-bit range, yield errors.
pub open spec fn apply_binop_s(op: BinOp, a: ValueS, b: ValueS) -> ValueS {
    if a is Error {
        a
    } else if b is Error {
        b
    } else {
        match op {
            BinOp::Plus => match (a, b) {
                (ValueS::Int(x), ValueS::Int(y)) => arith_result(x as int + y as int),
                _ => ValueS::Error("type mismatch: arithmetic expects integers"@),
            },
            BinOp::Minus => match (a, b) {
                (ValueS::Int(x), ValueS::Int(y)) => arith_result(x as int - y as int),
                _ => ValueS::Error("type mismatch: arithmetic expects integers"@),
            },
            BinOp::Times => match (a, b) {
                (ValueS::Int(x), ValueS::Int(y)) => arith_result(x as int * y as int),
                _ => ValueS::Error("type mismatch: arithmetic expects integers"@),
            },
            BinOp::Divide => match (a, b) {
                (ValueS::Int(x), ValueS::Int(y)) => if y == 0 {
                    ValueS::Error("Divide by zero"@)
                } else {
                    match x.checked_div(y) {
                        Some(q) => ValueS::Int(q),
                        None => ValueS::Error("integer overflow"@),
                    }
                },
                _ => ValueS::Error("type mismatch: arithmetic expects integers"@),
            },
            BinOp::Modulo => match (a, b) {
                (ValueS::Int(x), ValueS::Int(y)) => if y == 0 {
                    ValueS::Error("Modulo by zero"@)
                } else {
                    match x.checked_rem(y) {
                        Some(r) => ValueS::Int(r),
                        None => ValueS::Error("integer overflow"@),
                    }
                },
                _ => ValueS::Error("type mismatch: arithmetic expects integers"@),
            },
            BinOp::And => match (a, b) {
                (ValueS::Bool(x), ValueS::Bool(y)) => ValueS::Bool(x && y),
                _ => ValueS::Error("type mismatch: boolean operator expects booleans"@),
            },
            BinOp::Or => match (a, b) {
                (ValueS::Bool(x), ValueS::Bool(y)) => ValueS::Bool(x || y),
                _ => ValueS::Error("type mismatch: boolean operator expects booleans"@),
            },
            BinOp::Xor => match (a, b) {
                (ValueS::Bool(x), ValueS::Bool(y)) => ValueS::Bool(x != y),
                _ => ValueS::Error("type mismatch: boolean operator expects booleans"@),
            },
            BinOp::Equal => ValueS::Bool(val_eq_s(a, b)),
            BinOp::NotEqual => ValueS::Bool(!val_eq_s(a, b)),
            BinOp::LessThan => match (a, b) {
                (ValueS::Int(x), ValueS::Int(y)) => ValueS::Bool(x < y),
                _ => ValueS::Error("type mismatch: comparison expects integers"@),
            },
            BinOp::LessThanEqual => match (a, b) {
                (ValueS::Int(x), ValueS::Int(y)) => ValueS::Bool(x <= y),
                _ => ValueS::Error("type mismatch: comparison expects integers"@),
            },
            BinOp::GreaterThan => match (a, b) {
                (ValueS::Int(x), ValueS::Int(y)) => ValueS::Bool(x > y),
                _ => ValueS::Error("type mismatch: comparison expects integers"@),
            },
            BinOp::GreaterThanEqual => match (a, b) {
                (ValueS::Int(x), ValueS::Int(y)) => ValueS::Bool(x >= y),
                _ => ValueS::Error("type mismatch: comparison expects integers"@),
            },
        }
    }
}

/// An error value carrying the given message.
pub fn error(message: &str) -> (r: Value)
    ensures
        r@ == ValueS::Error(message@),
{
    Value::Error(message.to_owned())
}

/// An error value whose message is the concatenation of the three parts.
pub fn error3(pre: &str, mid: &str, post: &str) -> (r: Value)
    ensures
        r@ == ValueS::Error(pre@ + mid@ + post@),
{
    let mut s = pre.to_owned();
    s.append(mid);
    s.append(post);
    Value::Error(s)
}

impl Value {
    /// Name of this value's runtime type, as used in error messages.
    pub fn type_(&self) -> (r: &'static str)
        ensures
            r@ == type_name_s(self@),
    {
        match self {
            Value::Int(_) => "Int",
            Value::Bool(_) => "Bool",
            Value::Char(_) => "Char",
            Value::Str(_) => "String",
            Value::Tuple(_) => "Tuple",
            Value::Boxed(_) => "Boxed",
            Value::Function(_, _, _) => "Function",
            Value::Thunk(_) => "Thunk",
            Value::Error(_) => "Error",
        }
    }
}

/// Structural equality of two values.
#[verifier::loop_isolation(false)]
pub fn val_eq(a: &Value, b: &Value) -> (r: bool)
    ensures
        r == val_eq_s(a@, b@),
    decreases *a,
{
    match (a, b) {
        (Value::Int(x), Value::Int(y)) => *x == *y,
        (Value::Bool(x), Value::Bool(y)) => *x == *y,
        (Value::Char(x), Value::Char(y)) => *x == *y,
        (Value::Str(x), Value::Str(y)) => x.eq(y),
        (Value::Tuple(xs), Value::Tuple(ys)) => {
            proof {
                crate::ast::lemma_values_view(xs@);
                crate::ast::lemma_values_view(ys@);
            }
            if xs.len() != ys.len() {
                return false;
            }
            let mut i: usize = 0;
            while i < xs.len()
                invariant
                    i <= xs.len(),
                    forall|j: int| 0 <= j < i ==> val_eq_s(
                        #[trigger] crate::ast::value_view(xs@[j]),
                        crate::ast::value_view(ys@[j]),
                    ),
                decreases xs.len() - i,
            {
                if !val_eq(&xs[i], &ys[i]) {
                    proof {
                        crate::ast::lemma_values_view(xs@);
                        crate::ast::lemma_values_view(ys@);
                        assert(values_view(xs@)[i as int] == value_view(xs@[i as int]));
                    }
                    return false;
                }
                i = i + 1;
            }
            true
        },
        (Value::Boxed(x), Value::Boxed(y)) => val_eq(&**x, &**y),
        (Value::Error(x), Value::Error(y)) => x.eq(y),
        _ => false,
    }
}

impl core::cmp::PartialEq for Value {
    /// Structural equality; functions and thunks compare unequal.
    fn eq(&self, other: &Value) -> (r: bool) {
        val_eq(self, other)
    }
}

impl vstd::std_specs::cmp::PartialEqSpecImpl for Value {
    open spec fn obeys_eq_spec() -> bool {
        true
    }

    open spec fn eq_spec(&self, other: &Value) -> bool {
        val_eq_s(self@, other@)
    }
}

/// The unary operator applied to an evaluated operand.
pub fn apply_unary(op: UnaryOp, v: Value) -> (r: Value)
    ensures
        r@ == apply_unary_s(op, v@),
{
    match v {
        Value::Error(_) => v,
        _ => match op {
            UnaryOp::Negate => match v {
                Value::Int(x) => {
                    if x == i64::MIN {
                        error("integer overflow")
                    } else {
                        Value::Int(-x)
                    }
                },
                _ => error("type mismatch: negation expects an integer"),
            },
            UnaryOp::Not => match v {
                Value::Bool(b) => Value::Bool(!b),
                _ => error("type mismatch: 'not' expects a boolean"),
            },
        },
    }
}

/// The binary operator applied to two evaluated operands, left one first.
pub fn apply_binop(op: BinOp, a: Value, b: Value) -> (r: Value)
    ensures
        r@ == apply_binop_s(op, a@, b@),
{
    if let Value::Error(_) = a {
        return a;
    }
    if let Value::Error(_) = b {
        return b;
    }
    match op {
        BinOp::Plus => match (a, b) {
            (Value::Int(x), Value::Int(y)) => match x.checked_add(y) {
                Some(s) => Value::Int(s),
                None => error("integer overflow"),
            },
            _ => error("type mismatch: arithmetic expects integers"),
        },
        BinOp::Minus => match (a, b) {
            (Value::Int(x), Value::Int(y)) => match x.checked_sub(y) {
                Some(s) => Value::Int(s),
                None => error("integer overflow"),
            },
            _ => error("type mismatch: arithmetic expects integers"),
        },
        BinOp::Times => match (a, b) {
            (Value::Int(x), Value::Int(y)) => match x.checked_mul(y) {
                Some(s) => Value::Int(s),
                None => error("integer overflow"),
            },
            _ => error("type mismatch: arithmetic expects integers"),
        },
        BinOp::Divide => match (a, b) {
            (Value::Int(x), Value::Int(y)) => {
                if y == 0 {
                    error("Divide by zero")
                } else {
                    match x.checked_div(y) {
                        Some(q) => Value::Int(q),
                        None => error("integer overflow"),
                    }
                }
            },
            _ => error("type mismatch: arithmetic expects integers"),
        },
        BinOp::Modulo => match (a, b) {
            (Value::Int(x), Value::Int(y)) => {
                if y == 0 {
                    error("Modulo by zero")
                } else {
                    match x.checked_rem(y) {
                        Some(r) => Value::Int(r),
                        None => error("integer overflow"),
                    }
                }
            },
            _ => error("type mismatch: arithmetic expects integers"),
        },
        BinOp::And => match (a, b) {
            (Value::Bool(x), Value::Bool(y)) => Value::Bool(x && y),
            _ => error("type mismatch: boolean operator expects booleans"),
        },
        BinOp::Or => match (a, b) {
            (Value::Bool(x), Value::Bool(y)) => Value::Bool(x || y),
            _ => error("type mismatch: boolean operator expects booleans"),
        },
        BinOp::Xor => match (a, b) {
            (Value::Bool(x), Value::Bool(y)) => Value::Bool(x != y),
            _ => error("type mismatch: boolean operator expects booleans"),
        },
        BinOp::Equal => Value::Bool(val_eq(&a, &b)),
        BinOp::NotEqual => Value::Bool(!val_eq(&a, &b)),
        BinOp::LessThan => match (a, b) {
            (Value::Int(x), Value::Int(y)) => Value::Bool(x < y),
            _ => error("type mismatch: comparison expects integers"),
        },
        BinOp::LessThanEqual => match (a, b) {
            (Value::Int(x), Value::Int(y)) => Value::Bool(x <= y),
            _ => error("type mismatch: comparison expects integers"),
        },
        BinOp::GreaterThan => match (a, b) {
            (Value::Int(x), Value::Int(y)) => Value::Bool(x > y),
            _ => error("type mismatch: comparison expects integers"),
        },
        BinOp::GreaterThanEqual => match (a, b) {
            (Value::Int(x), Value::Int(y)) => Value::Bool(x >= y),
            _ => error("type mismatch: comparison expects integers"),
        },
    }
}

} // verus!
