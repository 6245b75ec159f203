use std::rc::Rc;

use iris::ast::Op;
use iris::error::Error;
use iris::ops::{infix, infix_int, unary};
use iris::typing::{PrimitiveType, TypeDefinition};
use iris::value::Value;

fn int_of(r: Result<Value, Error>) -> i32 {
    match r {
        Ok(Value::Integer(i)) => i,
        other => panic!("expected an integer, got {:?}", other),
    }
}

fn bool_of(r: Result<Value, Error>) -> bool {
    match r {
        Ok(Value::Bool(b)) => b,
        other => panic!("expected a boolean, got {:?}", other),
    }
}

#[test]
fn division_truncates_toward_zero() {
    for (a, b) in [(7, 2), (-7, 2), (7, -2), (-7, -2), (0, 5), (i32::MAX, 3), (i32::MIN, 7)] {
        assert_eq!(int_of(infix(Value::Integer(a), Op::Div, Value::Integer(b))), a / b);
    }
}

#[test]
fn remainder_takes_sign_of_dividend() {
    for (a, b) in [(7, 2), (-7, 2), (7, -2), (-7, -2)] {
        assert_eq!(int_of(infix_int(a, Op::Mod, b)), a % b);
    }
}

#[test]
fn division_by_zero_fails() {
    assert!(matches!(infix_int(1, Op::Div, 0), Err(Error::DivisionByZero { .. })));
    assert!(matches!(infix_int(1, Op::Mod, 0), Err(Error::DivisionByZero { .. })));
}

#[test]
fn division_overflow_fails() {
    assert!(matches!(infix_int(i32::MIN, Op::Div, -1), Err(Error::Overflow { .. })));
    assert!(matches!(infix_int(i32::MIN, Op::Mod, -1), Err(Error::Overflow { .. })));
}

#[test]
fn arithmetic_on_integers() {
    assert_eq!(int_of(infix_int(2, Op::Add, 3)), 5);
    assert_eq!(int_of(infix_int(2, Op::Sub, 3)), -1);
    assert_eq!(int_of(infix_int(4, Op::Mul, -3)), -12);
    assert_eq!(int_of(infix_int(1, Op::Shl, 4)), 16);
    assert_eq!(int_of(infix_int(-16, Op::Shr, 2)), -4);
    assert_eq!(int_of(infix_int(12, Op::And, 10)), 8);
    assert_eq!(int_of(infix_int(12, Op::Or, 10)), 14);
    assert_eq!(int_of(infix_int(12, Op::BitwiseXor, 10)), 6);
}

#[test]
fn addition_overflow_fails() {
    assert!(matches!(infix_int(i32::MAX, Op::Add, 1), Err(Error::Overflow { op: Op::Add })));
    assert!(matches!(infix_int(1, Op::Shl, 32), Err(Error::Overflow { op: Op::Shl })));
}

#[test]
fn exponent_by_repeated_multiplication() {
    assert_eq!(int_of(infix_int(2, Op::Exp, 10)), 1024);
    assert_eq!(int_of(infix_int(-3, Op::Exp, 3)), -27);
    assert_eq!(int_of(infix_int(7, Op::Exp, 0)), 1);
    assert_eq!(int_of(infix_int(-2, Op::Exp, 31)), i32::MIN);
    assert!(matches!(infix_int(2, Op::Exp, 31), Err(Error::Overflow { op: Op::Exp })));
}

#[test]
fn negative_exponent_is_rejected() {
    assert!(matches!(infix_int(2, Op::Exp, -1), Err(Error::NegativeExponent { exponent: -1 })));
}

#[test]
fn comparisons_give_booleans() {
    assert!(bool_of(infix_int(3, Op::GreaterThan, 2)));
    assert!(bool_of(infix_int(2, Op::GreaterThanEqual, 2)));
    assert!(!bool_of(infix_int(3, Op::LessThan, 2)));
    assert!(bool_of(infix_int(2, Op::LessThanEqual, 2)));
    assert!(bool_of(infix_int(2, Op::Equal, 2)));
    assert!(bool_of(infix_int(2, Op::NotEqual, 3)));
}

#[test]
fn integer_with_string_is_unsupported() {
    match infix(Value::Integer(1), Op::Add, Value::Str("a".to_string())) {
        Err(Error::UnsupportedOperation { op, left, right }) => {
            assert_eq!(op, Op::Add);
            assert_eq!(left, TypeDefinition::PrimitiveType(PrimitiveType::Integer));
            assert_eq!(right, TypeDefinition::PrimitiveType(PrimitiveType::Str));
        },
        other => panic!("unexpected {:?}", other),
    }
    assert!(matches!(infix_int(1, Op::Not, 2), Err(Error::UnsupportedOperation { .. })));
}

#[test]
fn strings_concatenate() {
    match infix(Value::Str("ab".to_string()), Op::Add, Value::Str("cd".to_string())) {
        Ok(Value::Str(s)) => assert_eq!(s, "abcd"),
        other => panic!("unexpected {:?}", other),
    }
    assert!(matches!(
        infix(Value::Str("ab".to_string()), Op::Sub, Value::Str("cd".to_string())),
        Err(Error::UnsupportedOperation { .. })
    ));
}

#[test]
fn list_member_access() {
    let xs = Value::List(Rc::new(vec![Value::Integer(4), Value::Integer(5)]));
    assert_eq!(int_of(infix(xs.clone(), Op::MemberAccess, Value::Integer(1))), 5);
    assert!(matches!(
        infix(xs.clone(), Op::MemberAccess, Value::Integer(2)),
        Err(Error::IndexOutOfBounds { index: 2, len: 2 })
    ));
    assert!(matches!(
        infix(xs.clone(), Op::MemberAccess, Value::Integer(-1)),
        Err(Error::IndexOutOfBounds { index: -1, len: 2 })
    ));
    assert!(matches!(infix(xs.clone(), Op::Add, xs), Err(Error::UnsupportedOperation { .. })));
}

#[test]
fn other_left_operands_are_unsupported() {
    for l in [Value::Bool(true), Value::Unit, Value::Optional(None)] {
        assert!(matches!(infix(l, Op::Equal, Value::Integer(1)), Err(Error::UnsupportedOperation { .. })));
    }
}

#[test]
fn unary_is_a_placeholder() {
    assert!(matches!(unary(Op::Negation, Value::Integer(3)), Value::Unit));
}
