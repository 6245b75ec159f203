//! Binary and unary operators.

use std::rc::Rc;
use vstd::prelude::*;
use vstd::string::StringExecFns;
use crate::ast::Op;
use crate::error::Error;
use crate::typing::{type_of, type_of_spec, PrimitiveType, TypeDefinition};
use crate::value::Value;

verus! {

/// Whether an integer fits in an `i32`.
pub open spec fn fits(x: int) -> bool {
    i32::MIN <= x <= i32::MAX
}

pub open spec fn abs(x: int) -> int {
    if x < 0 { -x } else { x }
}

/// Quotient of `a / b` rounded toward zero, as Rust's `/` computes it.
pub open spec fn trunc_div(a: int, b: int) -> int {
    let q = abs(a) / abs(b);
    if (a < 0) == (b < 0) { q } else { -q }
}

/// Remainder that goes with [`trunc_div`]: it takes the sign of `a`.
pub open spec fn trunc_rem(a: int, b: int) -> int {
    let r = abs(a) % abs(b);
    if a < 0 { -r } else { r }
}

/// `a` to the power `n`, by repeated multiplication.
pub open spec fn pow_int(a: int, n: nat) -> int
    decreases n,
{
    if n == 0 { 1 } else { a * pow_int(a, (n - 1) as nat) }
}

pub open spec fn int_tag() -> TypeDefinition {
    TypeDefinition::PrimitiveType(PrimitiveType::Integer)
}

/// The error for an operator that is not defined on these operands.
pub open spec fn unsupported(op: Op, l: Value, r: Value) -> Result<Value, Error> {
    Err(Error::UnsupportedOperation { op, left: type_of_spec(l), right: type_of_spec(r) })
}

/// An integer result, or `Overflow` when it leaves the `i32` range.
pub open spec fn int_result(op: Op, x: int) -> Result<Value, Error> {
    if fits(x) { Ok(Value::Integer(x as i32)) } else { Err(Error::Overflow { op }) }
}

/// What an operator gives on two integers.
pub open spec fn infix_int_spec(a: i32, op: Op, b: i32) -> Result<Value, Error> {
    match op {
        Op::Add => int_result(op, a + b),
        Op::Sub => int_result(op, a - b),
        Op::Mul => int_result(op, a * b),
        Op::Div => if b == 0 {
            Err(Error::DivisionByZero { op })
        } else {
            int_result(op, trunc_div(a as int, b as int))
        },
        Op::Mod => if b == 0 {
            Err(Error::DivisionByZero { op })
        } else if a == i32::MIN && b == -1 {
            Err(Error::Overflow { op })
        } else {
            Ok(Value::Integer(trunc_rem(a as int, b as int) as i32))
        },
        Op::Shl => if 0 <= b < 32 { Ok(Value::Integer(a << (b as u32))) } else { Err(Error::Overflow { op }) },
        Op::Shr => if 0 <= b < 32 { Ok(Value::Integer(a >> (b as u32))) } else { Err(Error::Overflow { op }) },
        Op::And | Op::BitwiseAnd => Ok(Value::Integer(a & b)),
        Op::Or | Op::BitwiseOr => Ok(Value::Integer(a | b)),
        Op::BitwiseXor => Ok(Value::Integer(a ^ b)),
        Op::Exp => if b < 0 {
            Err(Error::NegativeExponent { exponent: b })
        } else {
            int_result(op, pow_int(a as int, b as nat))
        },
        Op::GreaterThan => Ok(Value::Bool(a > b)),
        Op::GreaterThanEqual => Ok(Value::Bool(a >= b)),
        Op::LessThan => Ok(Value::Bool(a < b)),
        Op::LessThanEqual => Ok(Value::Bool(a <= b)),
        Op::Equal => Ok(Value::Bool(a == b)),
        Op::NotEqual => Ok(Value::Bool(a != b)),
        _ => unsupported(op, Value::Integer(a), Value::Integer(b)),
    }
}

/// Whether `res` is what `l op r` gives. The operator is chosen by the type
/// of `l`: integers with integers, `+` on two strings, and indexing a list
/// with an integer; everything else is unsupported.
pub open spec fn infix_outcome(l: Value, op: Op, r: Value, res: Result<Value, Error>) -> bool {
    match (l, r) {
        (Value::Integer(a), Value::Integer(b)) => res == infix_int_spec(a, op, b),
        (Value::Str(a), Value::Str(b)) => if op == Op::Add {
            res matches Ok(Value::Str(s)) && s@ == a@ + b@
        } else {
            res == unsupported(op, l, r)
        },
        (Value::List(xs), Value::Integer(i)) => if op == Op::MemberAccess {
            if 0 <= i < xs@.len() {
                res == Ok::<Value, Error>(xs@[i as int])
            } else {
                res == Err::<Value, Error>(Error::IndexOutOfBounds { index: i, len: xs@.len() as usize })
            }
        } else {
            res == unsupported(op, l, r)
        },
        _ => res == unsupported(op, l, r),
    }
}

proof fn lemma_pow_small(a: int, n: nat)
    requires
        abs(a) <= 1,
    ensures
        abs(pow_int(a, n)) <= 1,
    decreases n,
{
    if n > 0 {
        lemma_pow_small(a, (n - 1) as nat);
        let p = pow_int(a, (n - 1) as nat);
        assert(abs(a * p) <= 1) by (nonlinear_arith)
            requires abs(a) <= 1, abs(p) <= 1, abs(a) == (if a < 0 { -a } else { a }),
                abs(p) == (if p < 0 { -p } else { p }), abs(a * p) == (if a * p < 0 { -(a * p) } else { a * p });
    }
}

proof fn lemma_pow_grows(a: int, k: nat, m: nat)
    requires
        abs(a) >= 2,
        k < m,
    ensures
        2 * abs(pow_int(a, k)) <= abs(pow_int(a, m)),
    decreases m - k,
{
    let p = pow_int(a, (m - 1) as nat);
    assert(2 * abs(p) <= abs(a * p)) by (nonlinear_arith)
        requires abs(a) >= 2, abs(a) == (if a < 0 { -a } else { a }),
            abs(p) == (if p < 0 { -p } else { p }), abs(a * p) == (if a * p < 0 { -(a * p) } else { a * p });
    if k + 1 < m {
        lemma_pow_grows(a, k, (m - 1) as nat);
    }
}

fn int_pow(a: i32, b: i32) -> (r: Result<Value, Error>)
    requires
        b >= 0,
    ensures
        r == int_result(Op::Exp, pow_int(a as int, b as nat)),
{
    let mut acc: i32 = 1;
    let mut k: i32 = 0;
    while k < b
        invariant
            0 <= k <= b,
            acc as int == pow_int(a as int, k as nat),
        decreases b - k,
    {
        match acc.checked_mul(a) {
            Some(x) => {
                acc = x;
                k = k + 1;
            },
            None => {
                proof {
                    let k1 = (k + 1) as nat;
                    assert(pow_int(a as int, k1) == a * pow_int(a as int, k as nat));
                    assert(acc * a == a * acc) by (nonlinear_arith);
                    if abs(a as int) <= 1 {
                        lemma_pow_small(a as int, k1);
                    } else if k1 < b {
                        lemma_pow_grows(a as int, k1, b as nat);
                    }
                }
                return Err(Error::Overflow { op: Op::Exp });
            },
        }
    }
    Ok(Value::Integer(acc))
}

/// An operator on two integers.
pub fn infix_int(a: i32, op: Op, b: i32) -> (r: Result<Value, Error>)
    ensures
        r == infix_int_spec(a, op, b),
{
    match op {
        Op::Add => match a.checked_add(b) {
            Some(x) => Ok(Value::Integer(x)),
            None => Err(Error::Overflow { op }),
        },
        Op::Sub => match a.checked_sub(b) {
            Some(x) => Ok(Value::Integer(x)),
            None => Err(Error::Overflow { op }),
        },
        Op::Mul => match a.checked_mul(b) {
            Some(x) => Ok(Value::Integer(x)),
            None => Err(Error::Overflow { op }),
        },
        Op::Div => if b == 0 {
            Err(Error::DivisionByZero { op })
        } else {
            match a.checked_div(b) {
                Some(x) => Ok(Value::Integer(x)),
                None => Err(Error::Overflow { op }),
            }
        },
        Op::Mod => if b == 0 {
            Err(Error::DivisionByZero { op })
        } else {
            match a.checked_rem(b) {
                Some(x) => Ok(Value::Integer(x)),
                None => Err(Error::Overflow { op }),
            }
        },
        Op::Shl => if 0 <= b && b < 32 {
            Ok(Value::Integer(a << (b as u32)))
        } else {
            Err(Error::Overflow { op })
        },
        Op::Shr => if 0 <= b && b < 32 {
            Ok(Value::Integer(a >> (b as u32)))
        } else {
            Err(Error::Overflow { op })
        },
        Op::And | Op::BitwiseAnd => Ok(Value::Integer(a & b)),
        Op::Or | Op::BitwiseOr => Ok(Value::Integer(a | b)),
        Op::BitwiseXor => Ok(Value::Integer(a ^ b)),
        Op::Exp => if b < 0 {
            Err(Error::NegativeExponent { exponent: b })
        } else {
            int_pow(a, b)
        },
        Op::GreaterThan => Ok(Value::Bool(a > b)),
        Op::GreaterThanEqual => Ok(Value::Bool(a >= b)),
        Op::LessThan => Ok(Value::Bool(a < b)),
        Op::LessThanEqual => Ok(Value::Bool(a <= b)),
        Op::Equal => Ok(Value::Bool(a == b)),
        Op::NotEqual => Ok(Value::Bool(a != b)),
        _ => Err(Error::UnsupportedOperation {
            op,
            left: TypeDefinition::PrimitiveType(PrimitiveType::Integer),
            right: TypeDefinition::PrimitiveType(PrimitiveType::Integer),
        }),
    }
}

/// An operator with a string on the left: only `+`, concatenation, is defined.
pub fn infix_str(a: String, op: Op, rhs: Value) -> (r: Result<Value, Error>)
    ensures
        infix_outcome(Value::Str(a), op, rhs, r),
{
    match rhs {
        Value::Str(b) => if op == Op::Add {
            Ok(Value::Str(a.concat(b.as_str())))
        } else {
            Err(Error::UnsupportedOperation {
                op,
                left: TypeDefinition::PrimitiveType(PrimitiveType::Str),
                right: TypeDefinition::PrimitiveType(PrimitiveType::Str),
            })
        },
        _ => Err(Error::UnsupportedOperation {
            op,
            left: TypeDefinition::PrimitiveType(PrimitiveType::Str),
            right: type_of(&rhs),
        }),
    }
}

/// An operator with a list on the left: only indexing by an integer is defined.
pub fn infix_list(a: Rc<Vec<Value>>, op: Op, r: Value) -> (res: Result<Value, Error>)
    ensures
        infix_outcome(Value::List(a), op, r, res),
{
    match r {
        Value::Integer(b) => if op == Op::MemberAccess {
            if 0 <= b && (b as usize) < a.len() {
                Ok(a[b as usize].duplicate())
            } else {
                Err(Error::IndexOutOfBounds { index: b, len: a.len() })
            }
        } else {
            Err(Error::UnsupportedOperation {
                op,
                left: TypeDefinition::PrimitiveType(PrimitiveType::List),
                right: TypeDefinition::PrimitiveType(PrimitiveType::Integer),
            })
        },
        _ => Err(Error::UnsupportedOperation {
            op,
            left: TypeDefinition::PrimitiveType(PrimitiveType::List),
            right: type_of(&r),
        }),
    }
}

/// Evaluates `lhs op rhs`, dispatching on the type of `lhs`.
pub fn infix(lhs: Value, op: Op, rhs: Value) -> (r: Result<Value, Error>)
    ensures
        infix_outcome(lhs, op, rhs, r),
{
    match lhs {
        Value::Integer(i) => match rhs {
            Value::Integer(b) => infix_int(i, op, b),
            _ => Err(Error::UnsupportedOperation {
                op,
                left: TypeDefinition::PrimitiveType(PrimitiveType::Integer),
                right: type_of(&rhs),
            }),
        },
        Value::Str(s) => infix_str(s, op, rhs),
        Value::List(l) => infix_list(l, op, rhs),
        _ => Err(Error::UnsupportedOperation { op, left: type_of(&lhs), right: type_of(&rhs) }),
    }
}

/// Unary operators are parsed but have no meaning yet: every unary
/// expression evaluates to `Unit`.
pub fn unary(op: Op, rhs: Value) -> (r: Value)
    ensures
        r == Value::Unit,
{
    Value::Unit
}

/// Truncating division: for `b != 0` (and not `i32::MIN / -1`, which
/// overflows), integer division gives the quotient rounded toward zero, the
/// one whose remainder `a - b * q` is smaller than `b` in magnitude and has the
/// sign of `a`. A negative exponent is refused.
pub proof fn lemma_division_truncates(a: i32, b: i32)
    requires
        b != 0,
        !(a == i32::MIN && b == -1),
    ensures
        infix_int_spec(a, Op::Div, b) == Ok::<Value, Error>(Value::Integer(trunc_div(a as int, b as int) as i32)),
        ({
            let q = trunc_div(a as int, b as int);
            let r = a - b * q;
            &&& abs(r) < abs(b as int)
            &&& (a >= 0 ==> r >= 0)
            &&& (a <= 0 ==> r <= 0)
        }),
        forall|e: i32| e < 0 ==> infix_int_spec(a, Op::Exp, e) == Err::<Value, Error>(Error::NegativeExponent { exponent: e }),
{
    let x = abs(a as int);
    let y = abs(b as int);
    let q = x / y;
    let m = x % y;
    assert(x == y * q + m && 0 <= m < y) by (nonlinear_arith)
        requires y > 0, q == x / y, m == x % y;
    assert(0 <= q <= x) by (nonlinear_arith)
        requires y >= 1, x >= 0, x == y * q + m, 0 <= m < y;
    let t = trunc_div(a as int, b as int);
    assert(a - b * t == (if a < 0 { -m } else { m })) by (nonlinear_arith)
        requires x == y * q + m, x == (if a < 0 { -(a as int) } else { a as int }),
            y == (if b < 0 { -(b as int) } else { b as int }),
            t == (if (a < 0) == (b < 0) { q } else { -q });
    assert(fits(t)) by (nonlinear_arith)
        requires 0 <= q <= x, x == (if a < 0 { -(a as int) } else { a as int }),
            t == (if (a < 0) == (b < 0) { q } else { -q }), y == (if b < 0 { -(b as int) } else { b as int }),
            !(a == i32::MIN && b == -1), x == y * q + m, 0 <= m < y, i32::MIN <= a <= i32::MAX;
}

} // verus!
