use std::rc::Rc;

use iris::ast::{infix, AstNode, Op, Term};
use iris::error::Error;
use iris::interp::{run, Interp};
use iris::typing::{PrimitiveType, TypeDefinition};

const FUEL: u64 = 10_000;

fn lit(i: i32) -> AstNode {
    AstNode::Term(Term::Integer(i))
}

fn ident(s: &str) -> AstNode {
    AstNode::Term(Term::Ident(s.to_string()))
}

fn call(name: &str, args: Vec<AstNode>) -> AstNode {
    AstNode::FnCall { name: name.to_string(), args }
}

fn decl(name: &str, e: AstNode) -> AstNode {
    AstNode::VarDeclaration(Term::Ident(name.to_string()), Box::new(e))
}

fn assign(name: &str, e: AstNode) -> AstNode {
    AstNode::Assignment(Term::Ident(name.to_string()), Box::new(e))
}

fn fndef(name: &str, params: &[&str], body: Vec<AstNode>) -> AstNode {
    AstNode::FnDef {
        name: name.to_string(),
        args: Rc::new(params.iter().map(|p| p.to_string()).collect()),
        body: Rc::new(body),
    }
}

fn named_fn(name: &str, params: &[&str], body: Vec<AstNode>) -> AstNode {
    decl(name, fndef(name, params, body))
}

fn print(args: Vec<AstNode>) -> AstNode {
    call("print", args)
}

/// `method Iter(lst) for list`: yields `Some(lst[i])` for each index, then `None`.
fn list_iter_method() -> AstNode {
    let next_body = vec![AstNode::If {
        cond_expr: Box::new(infix(ident("i"), Op::LessThan, call("len", vec![ident("lst")]))),
        body: vec![
            decl("v", infix(ident("lst"), Op::MemberAccess, ident("i"))),
            assign("i", infix(ident("i"), Op::Add, lit(1))),
            call("Some", vec![ident("v")]),
        ],
        else_if: vec![],
        else_body: vec![AstNode::Term(Term::NoneLiteral)],
    }];
    AstNode::MethodDef {
        name: "Iter".to_string(),
        for_type: "list".to_string(),
        args: Rc::new(vec!["lst".to_string()]),
        body: Rc::new(vec![decl("i", lit(0)), named_fn("next", &[], next_body), ident("next")]),
    }
}

fn lines(out: &[String]) -> Vec<&str> {
    out.iter().map(|s| s.as_str()).collect()
}

#[test]
fn prints_sum_of_variable() {
    let prog = vec![decl("x", lit(5)), print(vec![infix(ident("x"), Op::Add, lit(3))])];
    let r = run(&prog, FUEL);
    assert!(r.error.is_none());
    assert_eq!(lines(&r.output), vec!["8"]);
}

#[test]
fn calls_user_function() {
    let prog = vec![
        named_fn("add", &["a", "b"], vec![infix(ident("a"), Op::Add, ident("b"))]),
        print(vec![call("add", vec![lit(2), lit(3)])]),
    ];
    let r = run(&prog, FUEL);
    assert!(r.error.is_none());
    assert_eq!(lines(&r.output), vec!["5"]);
}

#[test]
fn prints_list_length() {
    let prog = vec![
        decl("y", call("list", vec![lit(1), lit(2), lit(3)])),
        print(vec![call("len", vec![ident("y")])]),
    ];
    let r = run(&prog, FUEL);
    assert!(r.error.is_none());
    assert_eq!(lines(&r.output), vec!["3"]);
}

#[test]
fn undeclared_variable_stops_the_run() {
    let prog = vec![print(vec![ident("missing")]), print(vec![lit(1)])];
    let r = run(&prog, FUEL);
    assert!(matches!(r.error, Some(Error::UndeclaredVariable { ref name, .. }) if name == "missing"));
    assert!(r.output.is_empty());
}

#[test]
fn closure_sees_later_mutation() {
    let make_body = vec![
        decl("count", lit(0)),
        named_fn("get", &[], vec![ident("count")]),
        assign("count", lit(5)),
        ident("get"),
    ];
    let prog = vec![
        named_fn("make", &[], make_body),
        decl("g", call("make", vec![])),
        print(vec![call("g", vec![])]),
    ];
    let r = run(&prog, FUEL);
    assert!(r.error.is_none());
    assert_eq!(lines(&r.output), vec!["5"]);
}

#[test]
fn closure_sees_later_global_mutation() {
    let prog = vec![
        decl("counter", lit(1)),
        named_fn("show", &[], vec![ident("counter")]),
        assign("counter", lit(2)),
        print(vec![call("show", vec![])]),
    ];
    let r = run(&prog, FUEL);
    assert!(r.error.is_none());
    assert_eq!(lines(&r.output), vec!["2"]);
}

#[test]
fn for_loop_visits_items_in_order() {
    let prog = vec![
        list_iter_method(),
        decl("xs", call("list", vec![lit(10), lit(20), lit(30)])),
        AstNode::ForStmt("item".to_string(), Box::new(ident("xs")), vec![print(vec![ident("item")])]),
        print(vec![AstNode::Term(Term::Str("done".to_string()))]),
    ];
    let r = run(&prog, FUEL);
    assert!(r.error.is_none(), "{:?}", r.error);
    assert_eq!(lines(&r.output), vec!["10", "20", "30", "done"]);
}

#[test]
fn for_loop_over_empty_list_runs_no_body() {
    let prog = vec![
        list_iter_method(),
        AstNode::ForStmt("item".to_string(), Box::new(call("list", vec![])), vec![print(vec![ident("item")])]),
    ];
    let r = run(&prog, FUEL);
    assert!(r.error.is_none(), "{:?}", r.error);
    assert!(r.output.is_empty());
}

#[test]
fn for_loop_without_iter_method_fails() {
    let prog = vec![AstNode::ForStmt("item".to_string(), Box::new(lit(3)), vec![print(vec![ident("item")])])];
    let r = run(&prog, FUEL);
    match r.error {
        Some(Error::UnknownMethod { name, typ }) => {
            assert_eq!(name, "Iter");
            assert_eq!(typ, TypeDefinition::PrimitiveType(PrimitiveType::Integer));
        },
        other => panic!("unexpected {:?}", other),
    }
}

#[test]
fn method_call_without_arguments_fails() {
    let prog = vec![list_iter_method(), call("Iter", vec![])];
    let r = run(&prog, FUEL);
    assert!(matches!(r.error, Some(Error::MethodWithoutReceiver { ref name }) if name == "Iter"));
}

#[test]
fn method_dispatch_by_type() {
    let prog = vec![
        AstNode::MethodDef {
            name: "First".to_string(),
            for_type: "list".to_string(),
            args: Rc::new(vec!["l".to_string()]),
            body: Rc::new(vec![infix(ident("l"), Op::MemberAccess, lit(0))]),
        },
        print(vec![call("First", vec![call("list", vec![lit(7), lit(8)])])]),
        print(vec![call("First", vec![lit(7)])]),
    ];
    let r = run(&prog, FUEL);
    assert_eq!(lines(&r.output), vec!["7"]);
    assert!(matches!(r.error, Some(Error::UnknownMethod { .. })));
}

#[test]
fn lowercase_method_definition_fails() {
    let prog = vec![AstNode::MethodDef {
        name: "first".to_string(),
        for_type: "list".to_string(),
        args: Rc::new(vec![]),
        body: Rc::new(vec![]),
    }];
    let r = run(&prog, FUEL);
    assert!(matches!(r.error, Some(Error::InvalidMethodName { ref name }) if name == "first"));
}

#[test]
fn unknown_method_type_fails() {
    let prog = vec![AstNode::MethodDef {
        name: "First".to_string(),
        for_type: "dict".to_string(),
        args: Rc::new(vec![]),
        body: Rc::new(vec![]),
    }];
    let r = run(&prog, FUEL);
    assert!(matches!(r.error, Some(Error::UnknownType { ref name }) if name == "dict"));
}

#[test]
fn arity_mismatch_is_reported() {
    let prog = vec![
        named_fn("add", &["a", "b"], vec![infix(ident("a"), Op::Add, ident("b"))]),
        call("add", vec![lit(1)]),
    ];
    let r = run(&prog, FUEL);
    match r.error {
        Some(Error::ArityMismatch { name, expected, got }) => {
            assert_eq!(name, "add");
            assert_eq!(expected, 2);
            assert_eq!(got, 1);
        },
        other => panic!("unexpected {:?}", other),
    }
}

#[test]
fn calling_a_non_function_fails() {
    let prog = vec![decl("x", lit(1)), call("x", vec![])];
    let r = run(&prog, FUEL);
    assert!(matches!(r.error, Some(Error::NotAFunction { ref name }) if name == "x"));
}

#[test]
fn argument_shadowing_outer_variable_fails() {
    let prog = vec![
        decl("a", lit(1)),
        named_fn("f", &["a"], vec![ident("a")]),
        call("f", vec![lit(2)]),
    ];
    let r = run(&prog, FUEL);
    assert!(matches!(r.error, Some(Error::ArgumentShadowsOuterVariable { ref name, .. }) if name == "a"));
}

#[test]
fn recursion_with_same_parameter_name() {
    // fact(n) = if n < 2 { 1 } else { n * fact(n - 1) }
    let body = vec![AstNode::If {
        cond_expr: Box::new(infix(ident("n"), Op::LessThan, lit(2))),
        body: vec![lit(1)],
        else_if: vec![],
        else_body: vec![infix(
            ident("n"),
            Op::Mul,
            call("fact", vec![infix(ident("n"), Op::Sub, lit(1))]),
        )],
    }];
    let prog = vec![named_fn("fact", &["n"], body), print(vec![call("fact", vec![lit(5)])])];
    let r = run(&prog, FUEL);
    assert!(r.error.is_none(), "{:?}", r.error);
    assert_eq!(lines(&r.output), vec!["120"]);
}

#[test]
fn redeclaration_in_same_scope_fails() {
    let prog = vec![decl("x", lit(1)), decl("x", lit(2))];
    let r = run(&prog, FUEL);
    assert!(matches!(r.error, Some(Error::DuplicateDeclaration { ref name, .. }) if name == "x"));
}

#[test]
fn assignment_to_undeclared_fails() {
    let prog = vec![assign("x", lit(1))];
    let r = run(&prog, FUEL);
    assert!(matches!(r.error, Some(Error::UndeclaredVariable { ref name, .. }) if name == "x"));
}

#[test]
fn if_elif_else_picks_first_true_branch() {
    let branch = |c: i32| AstNode::If {
        cond_expr: Box::new(infix(lit(c), Op::Equal, lit(1))),
        body: vec![AstNode::Term(Term::Str("one".to_string()))],
        else_if: vec![AstNode::ElseIf {
            cond_expr: Box::new(infix(lit(c), Op::Equal, lit(2))),
            body: vec![AstNode::Term(Term::Str("two".to_string()))],
        }],
        else_body: vec![AstNode::Term(Term::Str("other".to_string()))],
    };
    let prog = vec![print(vec![branch(1), branch(2), branch(3)])];
    let r = run(&prog, FUEL);
    assert!(r.error.is_none());
    assert_eq!(lines(&r.output), vec!["one two other"]);
}

#[test]
fn non_boolean_condition_fails() {
    let prog = vec![AstNode::If {
        cond_expr: Box::new(lit(1)),
        body: vec![],
        else_if: vec![],
        else_body: vec![],
    }];
    let r = run(&prog, FUEL);
    assert!(matches!(r.error, Some(Error::TypeMismatch { .. })));
}

#[test]
fn while_loop_counts() {
    let prog = vec![
        decl("i", lit(0)),
        AstNode::WhileStmt(
            Box::new(infix(ident("i"), Op::LessThan, lit(3))),
            vec![print(vec![ident("i")]), assign("i", infix(ident("i"), Op::Add, lit(1)))],
        ),
        print(vec![ident("i")]),
    ];
    let r = run(&prog, FUEL);
    assert!(r.error.is_none());
    assert_eq!(lines(&r.output), vec!["0", "1", "2", "3"]);
}

#[test]
fn endless_loop_runs_out_of_fuel() {
    let prog = vec![AstNode::WhileStmt(Box::new(AstNode::Term(Term::Bool(true))), vec![])];
    let r = run(&prog, 50);
    assert!(matches!(r.error, Some(Error::OutOfFuel)));
}

#[test]
fn unary_expression_gives_unit() {
    let prog = vec![print(vec![iris::ast::unary(Op::Negation, lit(4))])];
    let r = run(&prog, FUEL);
    assert!(r.error.is_none());
    assert_eq!(lines(&r.output), vec!["None"]);
}

#[test]
fn empty_program_prints_nothing() {
    let r = run(&vec![], FUEL);
    assert!(r.error.is_none());
    assert!(r.output.is_empty());
}

#[test]
fn interp_eval_of_function_body_returns_last_value() {
    let mut it = Interp::new();
    let f = fndef("f", &[], vec![lit(1), lit(2)]);
    let v = it.eval(&f, 0, FUEL).unwrap();
    let r = it.fn_call("f", &vec![], 0, FUEL);
    assert!(matches!(r, Err(Error::UndeclaredVariable { .. })));
    match v {
        iris::value::Value::Function(func) => {
            let out = it.call_function(&func, &vec![], FUEL).unwrap();
            assert!(matches!(out, iris::value::Value::Integer(2)));
        },
        _ => panic!("expected a function"),
    }
}

#[test]
fn while_body_declaration_fails_on_second_iteration() {
    let prog = vec![
        decl("i", lit(0)),
        AstNode::WhileStmt(
            Box::new(infix(ident("i"), Op::LessThan, lit(2))),
            vec![decl("tmp", ident("i")), assign("i", infix(ident("i"), Op::Add, lit(1)))],
        ),
    ];
    let r = run(&prog, FUEL);
    assert!(matches!(r.error, Some(Error::DuplicateDeclaration { ref name, .. }) if name == "tmp"));
}

#[test]
fn if_body_declarations_stay_inside() {
    let prog = vec![
        AstNode::If {
            cond_expr: Box::new(AstNode::Term(Term::Bool(true))),
            body: vec![decl("y", lit(1)), print(vec![ident("y")])],
            else_if: vec![],
            else_body: vec![],
        },
        print(vec![ident("y")]),
    ];
    let r = run(&prog, FUEL);
    assert_eq!(lines(&r.output), vec!["1"]);
    assert!(matches!(r.error, Some(Error::UndeclaredVariable { ref name, .. }) if name == "y"));
}

#[test]
fn misplaced_nodes_are_rejected() {
    let bad_elif = vec![AstNode::If {
        cond_expr: Box::new(AstNode::Term(Term::Bool(false))),
        body: vec![],
        else_if: vec![lit(1)],
        else_body: vec![],
    }];
    assert!(matches!(run(&bad_elif, FUEL).error, Some(Error::UnexpectedNode)));
    let bad_decl = vec![AstNode::VarDeclaration(Term::Integer(1), Box::new(lit(2)))];
    assert!(matches!(run(&bad_decl, FUEL).error, Some(Error::UnexpectedNode)));
}

#[test]
fn unbounded_recursion_runs_out_of_fuel() {
    let prog = vec![named_fn("loop_forever", &[], vec![call("loop_forever", vec![])]), call("loop_forever", vec![])];
    let r = run(&prog, 200);
    assert!(matches!(r.error, Some(Error::OutOfFuel)));
}

#[test]
fn strings_concatenate_in_programs() {
    let s = |x: &str| AstNode::Term(Term::Str(x.to_string()));
    let prog = vec![print(vec![infix(s("foo"), Op::Add, s("bar")), call("list", vec![s("a"), lit(1)])])];
    let r = run(&prog, FUEL);
    assert!(r.error.is_none());
    assert_eq!(lines(&r.output), vec!["foobar [a, 1]"]);
}
