use std::rc::Rc;

use iris::builtins::{fmt, is_none, is_some, len, print, some, unwrap};
use iris::error::Error;
use iris::text::{int_to_text, is_capitalized, text_eq};
use iris::typing::{type_of, PrimitiveType, TypeDefinition};
use iris::value::{Function, Value};

fn list(xs: Vec<Value>) -> Value {
    Value::List(Rc::new(xs))
}

#[test]
fn formats_values() {
    assert_eq!(fmt(&Value::Integer(-42)), "-42");
    assert_eq!(fmt(&Value::Integer(i32::MIN)), "-2147483648");
    assert_eq!(fmt(&Value::Str("hi".to_string())), "hi");
    assert_eq!(fmt(&Value::Bool(false)), "false");
    assert_eq!(fmt(&Value::Unit), "None");
    assert_eq!(fmt(&Value::Optional(None)), "None");
    assert_eq!(fmt(&Value::Optional(Some(Rc::new(Value::Integer(3))))), "3");
    let f = Function { name: "add".to_string(), args: Rc::new(vec![]), body: Rc::new(vec![]), scope: 0 };
    assert_eq!(fmt(&Value::Function(f)), "function \"add\"");
    let nested = list(vec![Value::Integer(1), list(vec![Value::Str("a".to_string()), Value::Bool(true)]), list(vec![])]);
    assert_eq!(fmt(&nested), "[1, [a, true], []]");
}

#[test]
fn print_joins_with_spaces() {
    assert_eq!(print(&vec![Value::Integer(1), Value::Str("x".to_string()), Value::Unit]), "1 x None");
    assert_eq!(print(&vec![]), "");
}

#[test]
fn len_counts_list_elements() {
    assert!(matches!(len(&vec![list(vec![Value::Unit, Value::Unit])]), Ok(Value::Integer(2))));
    assert!(matches!(len(&vec![Value::Integer(1)]), Err(Error::TypeMismatch { .. })));
    assert!(matches!(
        len(&vec![]),
        Err(Error::ArityMismatch { ref name, expected: 1, got: 0 }) if name == "len"
    ));
}

#[test]
fn optional_builtins() {
    let present = some(&vec![Value::Integer(5)]).unwrap();
    assert!(matches!(is_some(&vec![present.clone()]), Ok(Value::Bool(true))));
    assert!(matches!(is_none(&vec![present.clone()]), Ok(Value::Bool(false))));
    assert!(matches!(unwrap(&vec![present]), Ok(Value::Integer(5))));
    assert!(matches!(is_some(&vec![Value::Optional(None)]), Ok(Value::Bool(false))));
    assert!(matches!(is_none(&vec![Value::Optional(None)]), Ok(Value::Bool(true))));
    assert!(matches!(unwrap(&vec![Value::Optional(None)]), Err(Error::UnwrapNone)));
    assert!(matches!(unwrap(&vec![Value::Integer(1)]), Err(Error::TypeMismatch { .. })));
    assert!(matches!(is_some(&vec![Value::Unit]), Err(Error::TypeMismatch { .. })));
    assert!(matches!(is_none(&vec![Value::Integer(0)]), Err(Error::TypeMismatch { .. })));
    assert!(matches!(some(&vec![]), Err(Error::ArityMismatch { .. })));
}

#[test]
fn type_tags() {
    assert_eq!(type_of(&Value::Integer(1)), TypeDefinition::PrimitiveType(PrimitiveType::Integer));
    assert_eq!(type_of(&list(vec![])), TypeDefinition::PrimitiveType(PrimitiveType::List));
    assert_eq!(type_of(&Value::Optional(None)), TypeDefinition::PrimitiveType(PrimitiveType::Optional));
    assert_eq!(type_of(&Value::Unit), TypeDefinition::PrimitiveType(PrimitiveType::Unit));
}

#[test]
fn decimal_text() {
    assert_eq!(int_to_text(0), "0");
    assert_eq!(int_to_text(1234567), "1234567");
    assert_eq!(int_to_text(i32::MAX), "2147483647");
    assert_eq!(int_to_text(-5), "-5");
}

#[test]
fn capitalized_names() {
    assert!(is_capitalized("Iter"));
    assert!(!is_capitalized("iter"));
    assert!(!is_capitalized("_x"));
    assert!(!is_capitalized(""));
    assert!(is_capitalized("Éclair"));
}

#[test]
fn text_equality() {
    assert!(text_eq("abc", "abc"));
    assert!(!text_eq("abc", "abd"));
    assert!(!text_eq("ab", "abc"));
}
