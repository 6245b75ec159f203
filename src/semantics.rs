//! What running a program means, as relations between interpreter states.
//!
//! Each relation describes one evaluation function of [`crate::interp`]:
//! `rel(s0, .., s1, r, d)` holds when the function, started in state `s0`,
//! ends in state `s1` with result `r`, and `d` ([`Deriv`]) records the states
//! and results of the steps in between. Each function's contract is that such
//! a `d` exists. `fuel` is spent exactly as the functions spend it, so a run
//! that exhausts it ends in `OutOfFuel`.

use vstd::prelude::*;
use crate::ast::{AstNode, Term};
use crate::error::Error;
use crate::interp::{builtin_call, is_builtin, Interp};
use crate::ops::infix_outcome;
use crate::scope::{lemma_nested_frame_sees_parent, Scope};
use crate::text::capitalized;
use crate::typing::{type_of_spec, PrimitiveType, TypeDefinition};
use crate::value::{Function, Value};

verus! {

/// The budget ran out: nothing changes.
pub open spec fn oof<T>(s0: Interp, s1: Interp, r: Result<T, Error>) -> bool {
    s1 == s0 && r == Err::<T, Error>(Error::OutOfFuel)
}

/// `Unit` for a completed statement, or its error.
pub open spec fn unit_or(w: Result<(), Error>) -> Result<Value, Error> {
    match w {
        Ok(_) => Ok(Value::Unit),
        Err(e) => Err(e),
    }
}

/// A condition's value read as a boolean.
pub open spec fn bool_of(v: Value) -> Result<bool, Error> {
    match v {
        Value::Bool(b) => Ok(b),
        _ => Err(Error::TypeMismatch { expected: TypeDefinition::PrimitiveType(PrimitiveType::Bool), got: type_of_spec(v) }),
    }
}

/// Whether a loop item is a present optional; any other value is an error.
pub open spec fn presence_of(v: Value) -> Result<bool, Error> {
    match v {
        Value::Optional(o) => Ok(o is Some),
        _ => Err(Error::TypeMismatch { expected: TypeDefinition::PrimitiveType(PrimitiveType::Optional), got: type_of_spec(v) }),
    }
}

/// A new frame `id` under `parent`.
pub open spec fn nest_rel(a: Interp, b: Interp, id: int, parent: int, context: Seq<char>) -> bool {
    a.scope.after_nest(b.scope, id, parent, context) && b.output == a.output
}

/// Declaring `name` in frame `at`.
pub open spec fn declare_rel(a: Interp, b: Interp, at: int, name: Seq<char>, val: Value, r: Result<(), Error>) -> bool {
    &&& a.scope.local_slot(at, name) is Some ==> b == a && (r matches Err(Error::DuplicateDeclaration { name: n, .. })
        && n@ == name)
    &&& a.scope.local_slot(at, name) is None ==> r is Ok && b.output == a.output && a.scope.after_declare(
        b.scope,
        at,
        name,
        val,
    )
}

/// Assigning to `name` as resolved from frame `at`.
pub open spec fn assign_rel(a: Interp, b: Interp, at: int, name: Seq<char>, val: Value, r: Result<(), Error>) -> bool {
    &&& a.scope.resolve(at, name) is None ==> b == a && (r matches Err(Error::UndeclaredVariable { name: n, .. })
        && n@ == name)
    &&& a.scope.resolve(at, name) matches Some(i) ==> r is Ok && b.output == a.output && a.scope.after_assign(
        b.scope,
        i,
        val,
    )
}

/// Registering `func` as method `name` for `typ` in frame `at`.
pub open spec fn method_rel(a: Interp, b: Interp, at: int, name: Seq<char>, typ: TypeDefinition, func: Function) -> bool {
    &&& b.output == a.output
    &&& b.scope.frames@ == a.scope.frames@
    &&& b.scope.vars@ == a.scope.vars@
    &&& b.scope.lookup_method(at, name, typ) == Some(func)
    &&& a.scope.local_method_slot(at, name, typ) matches Some(i) ==> b.scope.methods@ == a.scope.methods@.update(
        i,
        crate::scope::MethodEntry { frame: a.scope.methods@[i].frame, name: a.scope.methods@[i].name, typ, func },
    )
    &&& a.scope.local_method_slot(at, name, typ) is None ==> b.scope.methods@.len() == a.scope.methods@.len() + 1
        && b.scope.methods@.drop_last() == a.scope.methods@ && b.scope.methods@.last().frame == at
        && b.scope.methods@.last().name@ == name && b.scope.methods@.last().typ == typ
        && b.scope.methods@.last().func == func
}

/// What a call of `name` with `args` invokes from frame `at`: a capitalized
/// name is a method of the first argument's type, any other a variable that
/// holds a function.
pub open spec fn resolve_rel(s: Scope, name: Seq<char>, args: Seq<Value>, at: int, r: Result<Function, Error>) -> bool {
    &&& capitalized(name) && args.len() == 0 ==> (r matches Err(Error::MethodWithoutReceiver { name: n }) && n@ == name)
    &&& capitalized(name) && args.len() > 0 ==> match s.lookup_method(at, name, type_of_spec(args[0])) {
        Some(f) => r == Ok::<Function, Error>(f),
        None => r matches Err(Error::UnknownMethod { name: n, typ }) && n@ == name && typ == type_of_spec(args[0]),
    }
    &&& !capitalized(name) ==> match s.lookup(at, name) {
        Some(Value::Function(f)) => r == Ok::<Function, Error>(f),
        Some(_) => r matches Err(Error::NotAFunction { name: n }) && n@ == name,
        None => r matches Err(Error::UndeclaredVariable { name: n, .. }) && n@ == name,
    }
}

/// Opening the call frame of `func` and binding `args` to its parameters.
pub open spec fn bind_rel(a: Interp, b: Interp, func: Function, args: Seq<Value>, r: Result<usize, Error>) -> bool {
    &&& b.output == a.output
    &&& func.args@.len() != args.len() <==> (r matches Err(Error::ArityMismatch { name, expected, got })
        && name == func.name && expected == func.args@.len() && got == args.len())
    &&& func.args@.len() != args.len() ==> b == a
    &&& r matches Err(Error::ArgumentShadowsOuterVariable { name, .. }) ==> exists|j: int|
        0 <= j < func.args@.len() && #[trigger] func.args@[j]@ == name@ && a.scope.lookup(func.scope as int, name@) is Some
    &&& r matches Ok(id) ==> id == a.scope.frames@.len() && id < b.scope.frames@.len() && b.scope.frames@[id as int].parent
        == Some(func.scope) && forall|j: int|
        0 <= j < args.len() ==> b.scope.lookup(id as int, #[trigger] func.args@[j]@) == Some(args[j])
    &&& func.args@.len() == args.len() && (forall|j: int|
        0 <= j < func.args@.len() ==> a.scope.lookup(func.scope as int, #[trigger] func.args@[j]@) is None) && (forall|
        j: int,
        k: int,
    | 0 <= j < k < func.args@.len() ==> func.args@[j]@ != func.args@[k]@) ==> r is Ok
}

/// A derivation: the intermediate states and results of one evaluation
/// step, and the derivations of its sub-steps. It names what happened in
/// between, so that each relation below is a plain recursive definition.
pub struct Deriv {
    pub states: Seq<Interp>,
    pub vals: Seq<Result<Value, Error>>,
    pub units: Seq<Result<(), Error>>,
    pub bools: Seq<Result<bool, Error>>,
    pub lists: Seq<Result<Seq<Value>, Error>>,
    pub callees: Seq<Result<Function, Error>>,
    pub frames: Seq<Result<usize, Error>>,
    pub subs: Seq<Deriv>,
}

/// A derivation that records nothing.
pub open spec fn leaf() -> Deriv {
    Deriv {
        states: Seq::empty(),
        vals: Seq::empty(),
        units: Seq::empty(),
        bools: Seq::empty(),
        lists: Seq::empty(),
        callees: Seq::empty(),
        frames: Seq::empty(),
        subs: Seq::empty(),
    }
}

/// Evaluating an expression in frame `at`.
pub open spec fn eval_rel(s0: Interp, ast: AstNode, at: int, fuel: nat, s1: Interp, r: Result<Value, Error>, d: Deriv) -> bool
    decreases d,
{
    if fuel == 0 {
        oof(s0, s1, r)
    } else {
        let f = (fuel - 1) as nat;
        match ast {
            AstNode::FnCall { name, args } => d.subs.len() >= 1 && fn_call_rel(s0, name@, args@, at, f, s1, r, d.subs[0]),
            AstNode::FnDef { name, args, body } => {
                let id = s0.scope.frames@.len() as int;
                nest_rel(s0, s1, id, at, name@) && r == Ok::<Value, Error>(
                    Value::Function(Function { name, args, body, scope: id as usize }),
                )
            },
            AstNode::If { cond_expr, body, else_if, else_body } => d.subs.len() >= 1 && if_rel(
                s0,
                *cond_expr,
                body@,
                else_if@,
                else_body@,
                at,
                f,
                s1,
                r,
                d.subs[0],
            ),
            AstNode::Infix(lhs, op, rhs) => d.subs.len() >= 2 && d.states.len() >= 1 && d.vals.len() >= 2
                && eval_rel(s0, *lhs, at, f, d.states[0], d.vals[0], d.subs[0]) && match d.vals[0] {
                Err(e) => s1 == d.states[0] && r == Err::<Value, Error>(e),
                Ok(x) => eval_rel(d.states[0], *rhs, at, f, s1, d.vals[1], d.subs[1]) && match d.vals[1] {
                    Err(e) => r == Err::<Value, Error>(e),
                    Ok(y) => infix_outcome(x, op, y, r),
                },
            },
            AstNode::Unary(_, e) => d.subs.len() >= 1 && d.vals.len() >= 1 && eval_rel(s0, *e, at, f, s1, d.vals[0], d.subs[0])
                && match d.vals[0] {
                Err(er) => r == Err::<Value, Error>(er),
                Ok(_) => r == Ok::<Value, Error>(Value::Unit),
            },
            AstNode::Term(t) => s1 == s0 && match t {
                Term::Integer(x) => r == Ok::<Value, Error>(Value::Integer(x)),
                Term::Bool(b) => r == Ok::<Value, Error>(Value::Bool(b)),
                Term::NoneLiteral => r == Ok::<Value, Error>(Value::Optional(None)),
                Term::Str(x) => r matches Ok(Value::Str(y)) && y@ == x@,
                Term::Ident(n) => match s0.scope.lookup(at, n@) {
                    Some(v) => r == Ok::<Value, Error>(v),
                    None => r matches Err(Error::UndeclaredVariable { name, .. }) && name@ == n@,
                },
            },
            _ => s1 == s0 && r == Err::<Value, Error>(Error::UnexpectedNode),
        }
    }
}

/// Executing a statement in frame `at`.
pub open spec fn stmt_rel(s0: Interp, ast: AstNode, at: int, fuel: nat, s1: Interp, r: Result<Value, Error>, d: Deriv) -> bool
    decreases d,
{
    if fuel == 0 {
        oof(s0, s1, r)
    } else {
        let f = (fuel - 1) as nat;
        match ast {
            AstNode::VarDeclaration(Term::Ident(var), e) => d.subs.len() >= 1 && d.states.len() >= 1 && d.vals.len() >= 1
                && d.units.len() >= 1 && eval_rel(s0, *e, at, f, d.states[0], d.vals[0], d.subs[0]) && match d.vals[0] {
                Err(er) => s1 == d.states[0] && r == Err::<Value, Error>(er),
                Ok(x) => declare_rel(d.states[0], s1, at, var@, x, d.units[0]) && r == unit_or(d.units[0]),
            },
            AstNode::Assignment(Term::Ident(var), e) => d.subs.len() >= 1 && d.states.len() >= 1 && d.vals.len() >= 1
                && d.units.len() >= 1 && eval_rel(s0, *e, at, f, d.states[0], d.vals[0], d.subs[0]) && match d.vals[0] {
                Err(er) => s1 == d.states[0] && r == Err::<Value, Error>(er),
                Ok(x) => assign_rel(d.states[0], s1, at, var@, x, d.units[0]) && r == unit_or(d.units[0]),
            },
            AstNode::VarDeclaration(_, _) => s1 == s0 && r == Err::<Value, Error>(Error::UnexpectedNode),
            AstNode::Assignment(_, _) => s1 == s0 && r == Err::<Value, Error>(Error::UnexpectedNode),
            AstNode::MethodDef { name, for_type, args, body } => if !capitalized(name@) {
                s1 == s0 && (r matches Err(Error::InvalidMethodName { name: n }) && n@ == name@)
            } else if for_type@ != "list"@ {
                s1 == s0 && (r matches Err(Error::UnknownType { name: n }) && n@ == for_type@)
            } else {
                let id = s0.scope.frames@.len() as int;
                r == Ok::<Value, Error>(Value::Unit) && d.states.len() >= 1 && nest_rel(s0, d.states[0], id, at, name@)
                    && method_rel(
                    d.states[0],
                    s1,
                    at,
                    name@,
                    TypeDefinition::PrimitiveType(PrimitiveType::List),
                    Function { name, args, body, scope: id as usize },
                )
            },
            AstNode::WhileStmt(cond, body) => d.subs.len() >= 1 && d.units.len() >= 1 && while_rel(
                s0,
                *cond,
                body@,
                at,
                f,
                s1,
                d.units[0],
                d.subs[0],
            ) && r == unit_or(d.units[0]),
            AstNode::ForStmt(item, iterable, body) => d.subs.len() >= 1 && d.units.len() >= 1 && for_rel(
                s0,
                item@,
                *iterable,
                body@,
                at,
                f,
                s1,
                d.units[0],
                d.subs[0],
            ) && r == unit_or(d.units[0]),
            _ => d.subs.len() >= 1 && eval_rel(s0, ast, at, f, s1, r, d.subs[0]),
        }
    }
}

/// Evaluating argument expressions from index `i` on, after the values `acc`.
pub open spec fn args_loop(
    s0: Interp,
    args: Seq<AstNode>,
    i: int,
    acc: Seq<Value>,
    at: int,
    f: nat,
    s1: Interp,
    r: Result<Seq<Value>, Error>,
    d: Deriv,
) -> bool
    decreases d,
{
    if i < 0 || i >= args.len() {
        s1 == s0 && r == Ok::<Seq<Value>, Error>(acc)
    } else {
        d.subs.len() >= 2 && d.states.len() >= 1 && d.vals.len() >= 1 && eval_rel(
            s0,
            args[i],
            at,
            f,
            d.states[0],
            d.vals[0],
            d.subs[0],
        ) && match d.vals[0] {
            Err(e) => s1 == d.states[0] && r == Err::<Seq<Value>, Error>(e),
            Ok(x) => args_loop(d.states[0], args, i + 1, acc.push(x), at, f, s1, r, d.subs[1]),
        }
    }
}

/// Evaluating argument expressions left to right.
pub open spec fn args_rel(
    s0: Interp,
    args: Seq<AstNode>,
    at: int,
    fuel: nat,
    s1: Interp,
    r: Result<Seq<Value>, Error>,
    d: Deriv,
) -> bool
    decreases d,
{
    if fuel == 0 {
        oof(s0, s1, r)
    } else {
        d.subs.len() >= 1 && args_loop(s0, args, 0, Seq::empty(), at, (fuel - 1) as nat, s1, r, d.subs[0])
    }
}

/// A call expression: its arguments, then the call.
pub open spec fn fn_call_rel(
    s0: Interp,
    name: Seq<char>,
    args: Seq<AstNode>,
    at: int,
    fuel: nat,
    s1: Interp,
    r: Result<Value, Error>,
    d: Deriv,
) -> bool
    decreases d,
{
    if fuel == 0 {
        oof(s0, s1, r)
    } else {
        let f = (fuel - 1) as nat;
        d.subs.len() >= 2 && d.states.len() >= 1 && d.lists.len() >= 1 && args_rel(
            s0,
            args,
            at,
            f,
            d.states[0],
            d.lists[0],
            d.subs[0],
        ) && match d.lists[0] {
            Err(e) => s1 == d.states[0] && r == Err::<Value, Error>(e),
            Ok(xs) => named_rel(d.states[0], name, xs, at, f, s1, r, d.subs[1]),
        }
    }
}

/// Calling `name` on evaluated arguments from frame `at`.
pub open spec fn named_rel(
    s0: Interp,
    name: Seq<char>,
    args: Seq<Value>,
    at: int,
    fuel: nat,
    s1: Interp,
    r: Result<Value, Error>,
    d: Deriv,
) -> bool
    decreases d,
{
    if fuel == 0 {
        oof(s0, s1, r)
    } else if is_builtin(name) {
        builtin_call(s0, s1, name, args, Some(r))
    } else {
        d.callees.len() >= 1 && resolve_rel(s0.scope, name, args, at, d.callees[0]) && match d.callees[0] {
            Err(e) => s1 == s0 && r == Err::<Value, Error>(e),
            Ok(func) => d.subs.len() >= 1 && call_function_rel(s0, func, args, (fuel - 1) as nat, s1, r, d.subs[0]),
        }
    }
}

/// Calling a function value on evaluated arguments.
pub open spec fn call_function_rel(
    s0: Interp,
    func: Function,
    args: Seq<Value>,
    fuel: nat,
    s1: Interp,
    r: Result<Value, Error>,
    d: Deriv,
) -> bool
    decreases d,
{
    if fuel == 0 {
        oof(s0, s1, r)
    } else {
        d.states.len() >= 1 && d.frames.len() >= 1 && bind_rel(s0, d.states[0], func, args, d.frames[0]) && match d.frames[0] {
            Err(e) => s1 == d.states[0] && r == Err::<Value, Error>(e),
            Ok(id) => d.subs.len() >= 1 && exec_fn_rel(d.states[0], func, id as int, (fuel - 1) as nat, s1, r, d.subs[0]),
        }
    }
}

/// Running a function body in its call frame.
pub open spec fn exec_fn_rel(
    s0: Interp,
    func: Function,
    frame: int,
    fuel: nat,
    s1: Interp,
    r: Result<Value, Error>,
    d: Deriv,
) -> bool
    decreases d,
{
    if fuel == 0 {
        oof(s0, s1, r)
    } else {
        d.subs.len() >= 1 && body_rel(s0, func.body@, frame, (fuel - 1) as nat, s1, r, d.subs[0])
    }
}

/// Running statements from index `i` on; `last` is the value of the one before.
pub open spec fn body_loop(
    s0: Interp,
    body: Seq<AstNode>,
    i: int,
    last: Value,
    at: int,
    f: nat,
    s1: Interp,
    r: Result<Value, Error>,
    d: Deriv,
) -> bool
    decreases d,
{
    if i < 0 || i >= body.len() {
        s1 == s0 && r == Ok::<Value, Error>(last)
    } else {
        d.subs.len() >= 2 && d.states.len() >= 1 && d.vals.len() >= 1 && stmt_rel(
            s0,
            body[i],
            at,
            f,
            d.states[0],
            d.vals[0],
            d.subs[0],
        ) && match d.vals[0] {
            Err(e) => s1 == d.states[0] && r == Err::<Value, Error>(e),
            Ok(x) => body_loop(d.states[0], body, i + 1, x, at, f, s1, r, d.subs[1]),
        }
    }
}

/// Running a statement sequence: the value of the last statement, `Unit` if none.
pub open spec fn body_rel(
    s0: Interp,
    body: Seq<AstNode>,
    at: int,
    fuel: nat,
    s1: Interp,
    r: Result<Value, Error>,
    d: Deriv,
) -> bool
    decreases d,
{
    if fuel == 0 {
        oof(s0, s1, r)
    } else {
        d.subs.len() >= 1 && body_loop(s0, body, 0, Value::Unit, at, (fuel - 1) as nat, s1, r, d.subs[0])
    }
}

/// Running a statement sequence in a new frame under `at`.
pub open spec fn nested_body_rel(
    s0: Interp,
    body: Seq<AstNode>,
    at: int,
    context: Seq<char>,
    f: nat,
    s1: Interp,
    r: Result<Value, Error>,
    d: Deriv,
) -> bool
    decreases d,
{
    let id = s0.scope.frames@.len() as int;
    d.states.len() >= 1 && d.subs.len() >= 1 && nest_rel(s0, d.states[0], id, at, context) && body_rel(
        d.states[0],
        body,
        id,
        f,
        s1,
        r,
        d.subs[0],
    )
}

/// Evaluating a condition.
pub open spec fn cond_rel(s0: Interp, c: AstNode, at: int, fuel: nat, s1: Interp, r: Result<bool, Error>, d: Deriv) -> bool
    decreases d,
{
    if fuel == 0 {
        oof(s0, s1, r)
    } else {
        d.vals.len() >= 1 && d.subs.len() >= 1 && eval_rel(s0, c, at, (fuel - 1) as nat, s1, d.vals[0], d.subs[0])
            && match d.vals[0] {
            Err(e) => r == Err::<bool, Error>(e),
            Ok(x) => r == bool_of(x),
        }
    }
}

/// An `if` with its `elif` branches and `else` body.
pub open spec fn if_rel(
    s0: Interp,
    cond: AstNode,
    body: Seq<AstNode>,
    elifs: Seq<AstNode>,
    else_body: Seq<AstNode>,
    at: int,
    fuel: nat,
    s1: Interp,
    r: Result<Value, Error>,
    d: Deriv,
) -> bool
    decreases d,
{
    if fuel == 0 {
        oof(s0, s1, r)
    } else {
        let f = (fuel - 1) as nat;
        d.states.len() >= 1 && d.bools.len() >= 1 && d.subs.len() >= 2 && cond_rel(
            s0,
            cond,
            at,
            f,
            d.states[0],
            d.bools[0],
            d.subs[0],
        ) && match d.bools[0] {
            Err(e) => s1 == d.states[0] && r == Err::<Value, Error>(e),
            Ok(true) => nested_body_rel(d.states[0], body, at, "if"@, f, s1, r, d.subs[1]),
            Ok(false) => elif_loop(d.states[0], elifs, 0, else_body, at, f, s1, r, d.subs[1]),
        }
    }
}

/// The `elif` branches from index `i` on, then the `else` body.
pub open spec fn elif_loop(
    s0: Interp,
    elifs: Seq<AstNode>,
    i: int,
    else_body: Seq<AstNode>,
    at: int,
    f: nat,
    s1: Interp,
    r: Result<Value, Error>,
    d: Deriv,
) -> bool
    decreases d,
{
    if i < 0 || i >= elifs.len() {
        d.subs.len() >= 1 && nested_body_rel(s0, else_body, at, "else"@, f, s1, r, d.subs[0])
    } else {
        match elifs[i] {
            AstNode::ElseIf { cond_expr, body } => d.states.len() >= 1 && d.bools.len() >= 1 && d.subs.len() >= 2
                && cond_rel(s0, *cond_expr, at, f, d.states[0], d.bools[0], d.subs[0]) && match d.bools[0] {
                Err(e) => s1 == d.states[0] && r == Err::<Value, Error>(e),
                Ok(true) => nested_body_rel(d.states[0], body@, at, "elif"@, f, s1, r, d.subs[1]),
                Ok(false) => elif_loop(d.states[0], elifs, i + 1, else_body, at, f, s1, r, d.subs[1]),
            },
            _ => s1 == s0 && r == Err::<Value, Error>(Error::UnexpectedNode),
        }
    }
}

/// A `while` loop: one new frame for all iterations.
pub open spec fn while_rel(
    s0: Interp,
    cond: AstNode,
    body: Seq<AstNode>,
    at: int,
    fuel: nat,
    s1: Interp,
    r: Result<(), Error>,
    d: Deriv,
) -> bool
    decreases d,
{
    if fuel == 0 {
        oof(s0, s1, r)
    } else {
        let id = s0.scope.frames@.len() as int;
        d.states.len() >= 1 && d.subs.len() >= 1 && nest_rel(s0, d.states[0], id, at, "while loop"@) && while_loop(
            d.states[0],
            cond,
            body,
            id,
            (fuel - 1) as nat,
            fuel,
            s1,
            r,
            d.subs[0],
        )
    }
}

/// Iterations of a `while` loop, at most `budget` more.
pub open spec fn while_loop(
    s0: Interp,
    cond: AstNode,
    body: Seq<AstNode>,
    at: int,
    f: nat,
    budget: nat,
    s1: Interp,
    r: Result<(), Error>,
    d: Deriv,
) -> bool
    decreases d,
{
    if budget == 0 {
        oof(s0, s1, r)
    } else {
        d.states.len() >= 2 && d.bools.len() >= 1 && d.vals.len() >= 1 && d.subs.len() >= 3 && cond_rel(
            s0,
            cond,
            at,
            f,
            d.states[0],
            d.bools[0],
            d.subs[0],
        ) && match d.bools[0] {
            Err(e) => s1 == d.states[0] && r == Err::<(), Error>(e),
            Ok(false) => s1 == d.states[0] && r == Ok::<(), Error>(()),
            Ok(true) => body_rel(d.states[0], body, at, f, d.states[1], d.vals[0], d.subs[1]) && match d.vals[0] {
                Err(e) => s1 == d.states[1] && r == Err::<(), Error>(e),
                Ok(_) => while_loop(d.states[1], cond, body, at, f, (budget - 1) as nat, s1, r, d.subs[2]),
            },
        }
    }
}

/// Starting an iteration: the `Iter` method for the iterable's type, called on it.
pub open spec fn start_rel(s0: Interp, iterable: Value, at: int, fuel: nat, s1: Interp, r: Result<Value, Error>, d: Deriv) -> bool
    decreases d,
{
    if fuel == 0 {
        oof(s0, s1, r)
    } else {
        match s0.scope.lookup_method(at, "Iter"@, type_of_spec(iterable)) {
            None => s1 == s0 && (r matches Err(Error::UnknownMethod { name, typ }) && name@ == "Iter"@ && typ
                == type_of_spec(iterable)),
            Some(func) => d.subs.len() >= 1 && call_function_rel(
                s0,
                func,
                seq![iterable],
                (fuel - 1) as nat,
                s1,
                r,
                d.subs[0],
            ),
        }
    }
}

/// A `for` loop: a new frame holding the hidden `__next` function and the
/// item variable, then the iterations.
pub open spec fn for_rel(
    s0: Interp,
    item: Seq<char>,
    iterable: AstNode,
    body: Seq<AstNode>,
    at: int,
    fuel: nat,
    s1: Interp,
    r: Result<(), Error>,
    d: Deriv,
) -> bool
    decreases d,
{
    if fuel == 0 {
        oof(s0, s1, r)
    } else {
        let f = (fuel - 1) as nat;
        let id = s0.scope.frames@.len() as int;
        d.states.len() >= 6 && d.vals.len() >= 3 && d.units.len() >= 2 && d.subs.len() >= 4 && nest_rel(
            s0,
            d.states[0],
            id,
            at,
            "for loop"@,
        ) && eval_rel(d.states[0], iterable, id, f, d.states[1], d.vals[0], d.subs[0]) && match d.vals[0] {
            Err(e) => s1 == d.states[1] && r == Err::<(), Error>(e),
            Ok(x) => start_rel(d.states[1], x, id, f, d.states[2], d.vals[1], d.subs[1]) && match d.vals[1] {
                Err(e) => s1 == d.states[2] && r == Err::<(), Error>(e),
                Ok(nx) => declare_rel(d.states[2], d.states[3], id, "__next"@, nx, d.units[0]) && match d.units[0] {
                    Err(e) => s1 == d.states[3] && r == Err::<(), Error>(e),
                    Ok(_) => named_rel(d.states[3], "__next"@, Seq::empty(), id, f, d.states[4], d.vals[2], d.subs[2])
                        && match d.vals[2] {
                        Err(e) => s1 == d.states[4] && r == Err::<(), Error>(e),
                        Ok(fx) => declare_rel(d.states[4], d.states[5], id, item, fx, d.units[1]) && match d.units[1] {
                            Err(e) => s1 == d.states[5] && r == Err::<(), Error>(e),
                            Ok(_) => for_loop(d.states[5], item, body, id, f, fuel, s1, r, d.subs[3]),
                        },
                    },
                },
            },
        }
    }
}

/// Iterations of a `for` loop, at most `budget` more.
pub open spec fn for_loop(
    s0: Interp,
    item: Seq<char>,
    body: Seq<AstNode>,
    at: int,
    f: nat,
    budget: nat,
    s1: Interp,
    r: Result<(), Error>,
    d: Deriv,
) -> bool
    decreases d,
{
    if budget == 0 {
        oof(s0, s1, r)
    } else {
        match s0.scope.lookup(at, item) {
            None => s1 == s0 && (r matches Err(Error::UndeclaredVariable { name, .. }) && name@ == item),
            Some(cur) => match presence_of(cur) {
                Err(e) => s1 == s0 && r == Err::<(), Error>(e),
                Ok(false) => s1 == s0 && r == Ok::<(), Error>(()),
                Ok(true) => d.states.len() >= 3 && d.vals.len() >= 2 && d.units.len() >= 1 && d.subs.len() >= 3 && body_rel(
                    s0,
                    body,
                    at,
                    f,
                    d.states[0],
                    d.vals[0],
                    d.subs[0],
                ) && match d.vals[0] {
                    Err(e) => s1 == d.states[0] && r == Err::<(), Error>(e),
                    Ok(_) => named_rel(d.states[0], "__next"@, Seq::empty(), at, f, d.states[1], d.vals[1], d.subs[1])
                        && match d.vals[1] {
                        Err(e) => s1 == d.states[1] && r == Err::<(), Error>(e),
                        Ok(x) => assign_rel(d.states[1], d.states[2], at, item, x, d.units[0]) && match d.units[0] {
                            Err(e) => s1 == d.states[2] && r == Err::<(), Error>(e),
                            Ok(_) => for_loop(d.states[2], item, body, at, f, (budget - 1) as nat, s1, r, d.subs[2]),
                        },
                    },
                },
            },
        }
    }
}

/// A state in which nothing has run: the top-level frame alone, no
/// bindings, no output.
pub open spec fn fresh(s: Interp) -> bool {
    &&& s.scope.frames@.len() == 1
    &&& s.scope.frames@[0].parent is None
    &&& s.scope.frames@[0].context@ == "<top level>"@
    &&& s.scope.vars@.len() == 0
    &&& s.scope.methods@.len() == 0
    &&& s.output@.len() == 0
}

/// Running the top-level statements from index `i` on, each in the
/// top-level frame with `fuel`; the first error stops the run.
pub open spec fn program_loop(
    s0: Interp,
    prog: Seq<AstNode>,
    i: int,
    fuel: nat,
    s1: Interp,
    err: Option<Error>,
    d: Deriv,
) -> bool
    decreases d,
{
    if i < 0 || i >= prog.len() {
        s1 == s0 && err is None
    } else {
        d.subs.len() >= 2 && d.states.len() >= 1 && d.vals.len() >= 1 && stmt_rel(
            s0,
            prog[i],
            0,
            fuel,
            d.states[0],
            d.vals[0],
            d.subs[0],
        ) && match d.vals[0] {
            Err(e) => s1 == d.states[0] && err == Some(e),
            Ok(_) => program_loop(d.states[0], prog, i + 1, fuel, s1, err, d.subs[1]),
        }
    }
}

/// A call of a capitalized name that is no built-in, with no arguments, is
/// refused before any dispatch: it fails with `MethodWithoutReceiver`
/// naming the method, and changes nothing.
pub proof fn lemma_method_call_needs_receiver(
    s0: Interp,
    name: Seq<char>,
    at: int,
    fuel: nat,
    s1: Interp,
    r: Result<Value, Error>,
    d: Deriv,
)
    requires
        fn_call_rel(s0, name, Seq::empty(), at, fuel, s1, r, d),
        fuel >= 3,
        capitalized(name),
        !is_builtin(name),
    ensures
        s1 == s0,
        r matches Err(Error::MethodWithoutReceiver { name: n }) && n@ == name,
{
    let f = (fuel - 1) as nat;
    assert(args_rel(s0, Seq::empty(), at, f, d.states[0], d.lists[0], d.subs[0]));
    assert(args_loop(s0, Seq::empty(), 0, Seq::empty(), at, (f - 1) as nat, d.states[0], d.lists[0], d.subs[0].subs[0]));
    assert(d.states[0] == s0 && d.lists[0] == Ok::<Seq<Value>, Error>(Seq::empty()));
    assert(named_rel(s0, name, Seq::empty(), at, f, s1, r, d.subs[1]));
}

/// The value of a term that reads no variable.
pub open spec fn literal_value(t: Term) -> Option<Value> {
    match t {
        Term::Integer(x) => Some(Value::Integer(x)),
        Term::Bool(b) => Some(Value::Bool(b)),
        Term::NoneLiteral => Some(Value::Optional(None)),
        _ => None,
    }
}

/// A `for` loop over a value whose type has no `Iter` method visible where
/// the loop stands fails with `UnknownMethod`, naming `Iter` and that type.
/// The iterable here is a variable or a literal.
pub proof fn lemma_for_needs_iter(
    s0: Interp,
    item: Seq<char>,
    t: Term,
    x: Value,
    body: Seq<AstNode>,
    at: int,
    fuel: nat,
    s1: Interp,
    r: Result<(), Error>,
    d: Deriv,
)
    requires
        s0.scope.wf(),
        0 <= at < s0.scope.frames@.len(),
        fuel >= 2,
        for_rel(s0, item, AstNode::Term(t), body, at, fuel, s1, r, d),
        literal_value(t) == Some(x) || (t matches Term::Ident(n) && s0.scope.lookup(at, n@) == Some(x)),
        s0.scope.lookup_method(at, "Iter"@, type_of_spec(x)) is None,
    ensures
        r matches Err(Error::UnknownMethod { name, typ }) && name@ == "Iter"@ && typ == type_of_spec(x),
{
    let id = s0.scope.frames@.len() as int;
    let m1 = d.states[0];
    lemma_nested_frame_sees_parent(s0.scope, m1.scope, id, at, "for loop"@, "Iter"@, type_of_spec(x));
    if let Term::Ident(n) = t {
        lemma_nested_frame_sees_parent(s0.scope, m1.scope, id, at, "for loop"@, n@, type_of_spec(x));
    }
    assert(d.vals[0] == Ok::<Value, Error>(x));
    assert(start_rel(d.states[1], x, id, (fuel - 1) as nat, d.states[2], d.vals[1], d.subs[1]));
}

} // verus!

