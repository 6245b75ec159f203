use iris::error::Error;
use iris::scope::Scope;
use iris::typing::{read_type_definition, PrimitiveType, TypeDefinition};
use iris::value::{Function, Value};
use std::rc::Rc;

fn as_int(v: Option<Value>) -> Option<i32> {
    match v {
        Some(Value::Integer(i)) => Some(i),
        Some(other) => panic!("unexpected {:?}", other),
        None => None,
    }
}

#[test]
fn redeclaration_fails_nested_declaration_shadows() {
    let mut s = Scope::new("<top level>".to_string());
    s.declare_var(0, "x", Value::Integer(1)).unwrap();
    assert!(matches!(
        s.declare_var(0, "x", Value::Integer(2)),
        Err(Error::DuplicateDeclaration { ref name, .. }) if name == "x"
    ));
    let inner = s.nest(0, "inner");
    s.declare_var(inner, "x", Value::Integer(3)).unwrap();
    assert_eq!(as_int(s.get_var(inner, "x")), Some(3));
    assert_eq!(as_int(s.get_var(0, "x")), Some(1));
}

#[test]
fn assignment_goes_to_nearest_declaring_frame() {
    let mut s = Scope::new("<top level>".to_string());
    s.declare_var(0, "x", Value::Integer(1)).unwrap();
    let a = s.nest(0, "a");
    let b = s.nest(a, "b");
    s.set_var(b, "x", Value::Integer(9)).unwrap();
    assert_eq!(as_int(s.get_var(0, "x")), Some(9));
    assert_eq!(as_int(s.get_var(a, "x")), Some(9));
    assert!(!s.var_is_set(b, "x"));
    assert!(s.var_is_set(0, "x"));
}

#[test]
fn assignment_to_undeclared_variable_fails() {
    let mut s = Scope::new("<top level>".to_string());
    let a = s.nest(0, "a");
    assert!(matches!(
        s.set_var(a, "y", Value::Integer(1)),
        Err(Error::UndeclaredVariable { ref name, .. }) if name == "y"
    ));
    assert!(s.get_var(a, "y").is_none());
}

#[test]
fn sibling_frames_share_their_parent() {
    let mut s = Scope::new("<top level>".to_string());
    s.declare_var(0, "n", Value::Integer(0)).unwrap();
    let left = s.nest(0, "left");
    let right = s.nest(0, "right");
    s.set_var(left, "n", Value::Integer(4)).unwrap();
    assert_eq!(as_int(s.get_var(right, "n")), Some(4));
}

#[test]
fn methods_resolve_through_parents_and_overwrite_locally() {
    let mut s = Scope::new("<top level>".to_string());
    let list_t = TypeDefinition::PrimitiveType(PrimitiveType::List);
    let f = |name: &str, scope: usize| Function {
        name: name.to_string(),
        args: Rc::new(vec![]),
        body: Rc::new(vec![]),
        scope,
    };
    s.declare_method(0, "Iter", list_t, f("first", 0));
    s.declare_method(0, "Iter", list_t, f("second", 0));
    let inner = s.nest(0, "inner");
    assert_eq!(s.get_method(inner, "Iter", list_t).unwrap().name, "second");
    assert!(s.get_method(inner, "Iter", TypeDefinition::PrimitiveType(PrimitiveType::Str)).is_none());
    assert_eq!(s.methods.len(), 1);
}

#[test]
fn get_fn_distinguishes_errors() {
    let mut s = Scope::new("<top level>".to_string());
    s.declare_var(0, "x", Value::Integer(1)).unwrap();
    assert!(matches!(s.get_fn(0, "x"), Err(Error::NotAFunction { ref name }) if name == "x"));
    assert!(matches!(s.get_fn(0, "y"), Err(Error::UndeclaredVariable { ref name, .. }) if name == "y"));
}

#[test]
fn only_list_type_is_known() {
    assert_eq!(read_type_definition("list").unwrap(), TypeDefinition::PrimitiveType(PrimitiveType::List));
    assert!(matches!(read_type_definition("int"), Err(Error::UnknownType { ref name }) if name == "int"));
}

#[test]
fn all_var_names_lists_local_declarations_in_order() {
    let mut s = Scope::new("<top level>".to_string());
    let inner = s.nest(0, "inner");
    s.declare_var(0, "b", Value::Integer(1)).unwrap();
    s.declare_var(inner, "z", Value::Integer(2)).unwrap();
    s.declare_var(0, "a", Value::Integer(3)).unwrap();
    assert_eq!(s.all_var_names(0), vec!["b".to_string(), "a".to_string()]);
    assert_eq!(s.all_var_names(inner), vec!["z".to_string()]);
}
