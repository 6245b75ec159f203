//! The evaluator: statements, expressions, calls and control flow.
//!
//! Every evaluation function takes `fuel`, a budget that bounds the depth of
//! nested evaluation and the number of iterations of each loop; when it runs
//! out the run stops with [`Error::OutOfFuel`]. What `print` writes is
//! collected in [`Interp::output`], one entry per line.

use std::rc::Rc;
use vstd::prelude::*;
use crate::ast::{AstNode, Term};
use crate::builtins;
use crate::builtins::{
    is_none_outcome, is_some_outcome, len_outcome, print_line, some_outcome, unwrap_outcome,
};
use crate::error::Error;
use crate::ops;
use crate::scope::{lemma_var_slot_absent, lemma_var_slot_push, Scope};
use crate::semantics::{
    args_loop, args_rel, bind_rel, body_loop, body_rel, call_function_rel, cond_rel, elif_loop, eval_rel,
    exec_fn_rel, fn_call_rel, for_loop, for_rel, if_rel, leaf, named_rel, nested_body_rel, resolve_rel, start_rel,
    stmt_rel, while_loop, while_rel, Deriv, fresh, program_loop,
};
use crate::text::{capitalized, is_capitalized, text_eq};
use crate::typing::{read_type_definition, type_of, type_of_spec, PrimitiveType, TypeDefinition};
use crate::value::{Function, Value};

verus! {

/// Whether `a` is a prefix of `b`.
pub open spec fn is_prefix<T>(a: Seq<T>, b: Seq<T>) -> bool {
    a.len() <= b.len() && forall|k: int| 0 <= k < a.len() ==> #[trigger] a[k] == b[k]
}

/// The names that calls resolve to a built-in before any user definition.
pub open spec fn is_builtin(name: Seq<char>) -> bool {
    name == "print"@ || name == "list"@ || name == "len"@ || name == "Some"@ || name == "unwrap"@
        || name == "is_some"@ || name == "is_none"@
}

/// What calling `name` as a built-in does: `after` is the state after the
/// call, `r` its result, `None` when `name` is no built-in.
pub open spec fn builtin_call(
    before: Interp,
    after: Interp,
    name: Seq<char>,
    args: Seq<Value>,
    r: Option<Result<Value, Error>>,
) -> bool {
    &&& after.scope == before.scope
    &&& if name == "print"@ {
        &&& r == Some(Ok::<Value, Error>(Value::Unit))
        &&& after.output@.len() == before.output@.len() + 1
        &&& after.output@.drop_last() == before.output@
        &&& after.output@.last()@ == print_line(args, args.len() as int)
    } else {
        &&& after.output == before.output
        &&& if name == "list"@ {
            r matches Some(Ok(Value::List(xs))) && xs@ == args
        } else if name == "len"@ {
            r matches Some(x) && len_outcome(args, x)
        } else if name == "Some"@ {
            r matches Some(x) && some_outcome(args, x)
        } else if name == "unwrap"@ {
            r matches Some(x) && unwrap_outcome(args, x)
        } else if name == "is_some"@ {
            r matches Some(x) && is_some_outcome(args, x)
        } else if name == "is_none"@ {
            r matches Some(x) && is_none_outcome(args, x)
        } else {
            r is None
        }
    }
}

/// The state of a run: the environments and the lines printed so far.
pub struct Interp {
    pub scope: Scope,
    pub output: Vec<String>,
}

/// How a run ended: the lines it printed, and the error that stopped it, if any.
pub struct Outcome {
    pub output: Vec<String>,
    pub error: Option<Error>,
}

/// A copy of a sequence of values.
pub fn copy_values(v: &Vec<Value>) -> (r: Vec<Value>)
    ensures
        r@ == v@,
{
    let mut r: Vec<Value> = Vec::new();
    let mut i: usize = 0;
    while i < v.len()
        invariant
            i <= v@.len(),
            r@ == v@.subrange(0, i as int),
        decreases v@.len() - i,
    {
        r.push(v[i].duplicate());
        i = i + 1;
        assert(r@ =~= v@.subrange(0, i as int));
    }
    assert(r@ =~= v@);
    r
}

/// The values of a successful evaluation as a sequence.
pub open spec fn seq_result(r: Result<Vec<Value>, Error>) -> Result<Seq<Value>, Error> {
    match r {
        Ok(vs) => Ok(vs@),
        Err(e) => Err(e),
    }
}

/// Reads a condition: only a boolean is accepted.
pub fn test_bool_val(v: &Value) -> (r: Result<bool, Error>)
    ensures
        *v matches Value::Bool(b) ==> r == Ok::<bool, Error>(b),
        !(*v is Bool) ==> r == Err::<bool, Error>(Error::TypeMismatch {
            expected: TypeDefinition::PrimitiveType(PrimitiveType::Bool),
            got: type_of_spec(*v),
        }),
{
    match v {
        Value::Bool(b) => Ok(*b),
        _ => Err(Error::TypeMismatch {
            expected: TypeDefinition::PrimitiveType(PrimitiveType::Bool),
            got: type_of(v),
        }),
    }
}

impl Interp {
    /// Environments are never removed or changed in place, and output is
    /// only ever appended.
    pub open spec fn grows_from(self, before: Interp) -> bool {
        &&& is_prefix(before.scope.frames@, self.scope.frames@)
        &&& is_prefix(before.output@, self.output@)
    }

    /// A fresh state: one top-level environment (index 0) and no output.
    pub fn new() -> (r: Interp)
        ensures
            fresh(r),
            r.scope.frames@.len() == 1,
            r.scope.frames@[0].parent is None,
            r.scope.vars@.len() == 0,
            r.scope.methods@.len() == 0,
            r.output@.len() == 0,
    {
        proof {
            reveal_strlit("<top level>");
        }
        Interp { scope: Scope::new(String::from_str("<top level>")), output: Vec::new() }
    }

    /// Runs a built-in, when `name` is one.
    pub fn call_builtin(&mut self, name: &str, args: &Vec<Value>) -> (r: Option<Result<Value, Error>>)
        ensures
            builtin_call(*old(self), *final(self), name@, args@, r),
    {
        if text_eq(name, "print") {
            let line = builtins::print(args);
            self.output.push(line);
            assert(self.output@.drop_last() =~= old(self).output@);
            Some(Ok(Value::Unit))
        } else if text_eq(name, "list") {
            Some(Ok(Value::List(Rc::new(copy_values(args)))))
        } else if text_eq(name, "len") {
            Some(builtins::len(args))
        } else if text_eq(name, "Some") {
            Some(builtins::some(args))
        } else if text_eq(name, "unwrap") {
            Some(builtins::unwrap(args))
        } else if text_eq(name, "is_some") {
            Some(builtins::is_some(args))
        } else if text_eq(name, "is_none") {
            Some(builtins::is_none(args))
        } else {
            None
        }
    }

    /// Finds what a call of `name` with `args` invokes: a capitalized name is
    /// a method of the first argument's type, any other a variable holding a
    /// function.
    pub fn resolve_callee(&self, name: &str, args: &Vec<Value>, at: usize) -> (r: Result<Function, Error>)
        ensures
            resolve_rel(self.scope, name@, args@, at as int, r),
            capitalized(name@) && args@.len() == 0 ==> (r matches Err(Error::MethodWithoutReceiver { name: n })
                && n@ == name@),
            capitalized(name@) && args@.len() > 0 ==> match self.scope.lookup_method(
                at as int,
                name@,
                type_of_spec(args@[0]),
            ) {
                Some(f) => r == Ok::<Function, Error>(f),
                None => r matches Err(Error::UnknownMethod { name: n, typ }) && n@ == name@ && typ
                    == type_of_spec(args@[0]),
            },
            !capitalized(name@) ==> match self.scope.lookup(at as int, name@) {
                Some(Value::Function(f)) => r == Ok::<Function, Error>(f),
                Some(_) => r matches Err(Error::NotAFunction { name: n }) && n@ == name@,
                None => r matches Err(Error::UndeclaredVariable { name: n, .. }) && n@ == name@,
            },
    {
        if is_capitalized(name) {
            if args.len() == 0 {
                return Err(Error::MethodWithoutReceiver { name: name.to_string() });
            }
            let typ = type_of(&args[0]);
            match self.scope.get_method(at, name, typ) {
                Some(f) => Ok(f),
                None => Err(Error::UnknownMethod { name: name.to_string(), typ }),
            }
        } else {
            self.scope.get_fn(at, name)
        }
    }

    /// Opens a call frame for `func` under its captured environment and binds
    /// the arguments to the parameters there. A parameter name that is
    /// already visible from the captured environment is refused.
    pub fn bind_args(&mut self, func: &Function, args: &Vec<Value>) -> (r: Result<usize, Error>)
        requires
            old(self).scope.wf(),
        ensures
            final(self).scope.wf(),
            final(self).grows_from(*old(self)),
            bind_rel(*old(self), *final(self), *func, args@, r),
            final(self).output == old(self).output,
            func.args@.len() != args@.len() <==> (r matches Err(Error::ArityMismatch { name, expected, got })
                && name == func.name && expected == func.args@.len() && got == args@.len()),
            func.args@.len() != args@.len() ==> *final(self) == *old(self),
            r matches Err(Error::ArgumentShadowsOuterVariable { name, .. }) ==> exists|j: int|
                0 <= j < func.args@.len() && #[trigger] func.args@[j]@ == name@ && old(self).scope.lookup(
                    func.scope as int,
                    name@,
                ) is Some,
            r matches Ok(id) ==> id == old(self).scope.frames@.len() && id < final(self).scope.frames@.len()
                && final(self).scope.frames@[id as int].parent
                == Some(func.scope) && forall|j: int|
                0 <= j < args@.len() ==> final(self).scope.lookup(id as int, #[trigger] func.args@[j]@) == Some(
                    args@[j],
                ),
            func.args@.len() == args@.len() && (forall|j: int|
                0 <= j < func.args@.len() ==> old(self).scope.lookup(func.scope as int, #[trigger] func.args@[j]@)
                    is None) && (forall|j: int, k: int|
                0 <= j < k < func.args@.len() ==> func.args@[j]@ != func.args@[k]@) ==> r is Ok,
    {
        if func.args.len() != args.len() {
            return Err(Error::ArityMismatch { name: func.name.clone(), expected: func.args.len(), got: args.len() });
        }
        let mut i: usize = 0;
        while i < args.len()
            invariant
                i <= args@.len(),
                func.args@.len() == args@.len(),
                *self == *old(self),
                self.scope.wf(),
                forall|j: int| 0 <= j < i ==> self.scope.lookup(func.scope as int, #[trigger] func.args@[j]@) is None,
            decreases args@.len() - i,
        {
            if self.scope.get_var(func.scope, func.args[i].as_str()).is_some() {
                return Err(Error::ArgumentShadowsOuterVariable { name: func.args[i].clone(), function: func.name.clone() });
            }
            i = i + 1;
        }
        let id = self.scope.nest(func.scope, func.name.as_str());
        proof {
            assert forall|n: Seq<char>| self.scope.local_slot(id as int, n) is None by {
                lemma_var_slot_absent(self.scope.vars@, id as int, n, 0);
            }
        }
        let ghost s1 = self.scope;
        let mut i: usize = 0;
        while i < args.len()
            invariant
                i <= args@.len(),
                func.args@.len() == args@.len(),
                self.scope.wf(),
                self.scope.frames@ == s1.frames@,
                self.output == old(self).output,
                id == old(self).scope.frames@.len(),
                s1.frames@.len() == id + 1,
                s1.frames@.drop_last() == old(self).scope.frames@,
                s1.frames@[id as int].parent == Some(func.scope),
                forall|j: int|
                    0 <= j < i ==> (self.scope.local_slot(id as int, #[trigger] func.args@[j]@) matches Some(k) && 0 <= k
                        < self.scope.vars@.len() && self.scope.vars@[k].value == args@[j]),
                forall|n: Seq<char>|
                    #[trigger] self.scope.local_slot(id as int, n) is Some ==> exists|j: int|
                        0 <= j < i && #[trigger] func.args@[j]@ == n,
            decreases args@.len() - i,
        {
            let ghost before = self.scope;
            match self.scope.declare_var(id, func.args[i].as_str(), args[i].duplicate()) {
                Ok(()) => {
                    proof {
                        assert(self.scope.vars@ == before.vars@.push(self.scope.vars@.last()));
                        assert forall|n: Seq<char>| #[trigger] self.scope.local_slot(id as int, n) is Some implies exists|j: int|
                            0 <= j < i + 1 && #[trigger] func.args@[j]@ == n by {
                            lemma_var_slot_push(before.vars@, self.scope.vars@.last(), id as int, n, 0);
                            if before.local_slot(id as int, n) is None {
                                assert(func.args@[i as int]@ == n);
                            }
                        }
                        assert forall|j: int| 0 <= j < i + 1 implies (self.scope.local_slot(id as int, #[trigger] func.args@[j]@) matches Some(k) && 0 <= k
                            < self.scope.vars@.len() && self.scope.vars@[k].value == args@[j]) by {
                            lemma_var_slot_push(before.vars@, self.scope.vars@.last(), id as int, func.args@[j]@, 0);
                        }
                    }
                },
                Err(e) => {
                    return Err(e);
                },
            }
            i = i + 1;
        }
        proof {
            assert(is_prefix(old(self).scope.frames@, self.scope.frames@));
        }
        Ok(id)
    }

    /// Runs the body of `func` in its call frame `frame`; the result is the
    /// value of the last statement, `Unit` for an empty body.
    pub fn exec_fn(&mut self, func: &Function, frame: usize, fuel: u64) -> (r: Result<Value, Error>)
        requires
            old(self).scope.wf(),
            frame < old(self).scope.frames@.len(),
        ensures
            final(self).scope.wf(),
            final(self).grows_from(*old(self)),
            exists|d: Deriv| exec_fn_rel(*old(self), *func, frame as int, fuel as nat, *final(self), r, d),
        decreases fuel, 0nat,
    {
        let ghost s0 = *self;
        if fuel == 0 {
            assert(exec_fn_rel(s0, *func, frame as int, 0, *self, Err::<Value, Error>(Error::OutOfFuel), leaf()));
            return Err(Error::OutOfFuel);
        }
        let r = self.stmt_body(&*func.body, frame, fuel - 1);
        proof {
            let d0 = choose|d: Deriv| #[trigger] body_rel(s0, func.body@, frame as int, (fuel - 1) as nat, *self, r, d);
            assert(exec_fn_rel(s0, *func, frame as int, fuel as nat, *self, r, Deriv { subs: seq![d0], ..leaf() }));
        }
        r
    }

    /// Calls `func` with evaluated arguments: binds them in a fresh call
    /// frame under the captured environment and runs the body there.
    pub fn call_function(&mut self, func: &Function, args: &Vec<Value>, fuel: u64) -> (r: Result<Value, Error>)
        requires
            old(self).scope.wf(),
        ensures
            final(self).scope.wf(),
            final(self).grows_from(*old(self)),
            exists|d: Deriv| call_function_rel(*old(self), *func, args@, fuel as nat, *final(self), r, d),
        decreases fuel, 0nat,
    {
        let ghost s0 = *self;
        if fuel == 0 {
            assert(call_function_rel(s0, *func, args@, 0, *self, Err::<Value, Error>(Error::OutOfFuel), leaf()));
            return Err(Error::OutOfFuel);
        }
        let b = self.bind_args(func, args);
        let ghost m = *self;
        let ghost bg = b;
        match b {
            Err(e) => {
                assert(call_function_rel(
                    s0,
                    *func,
                    args@,
                    fuel as nat,
                    *self,
                    Err::<Value, Error>(e),
                    Deriv { states: seq![m], frames: seq![bg], ..leaf() },
                ));
                Err(e)
            },
            Ok(frame) => {
                let r = self.exec_fn(func, frame, fuel - 1);
                proof {
                    let d0 = choose|d: Deriv| #[trigger] exec_fn_rel(m, *func, frame as int, (fuel - 1) as nat, *self, r, d);
                    assert(call_function_rel(
                        s0,
                        *func,
                        args@,
                        fuel as nat,
                        *self,
                        r,
                        Deriv { states: seq![m], frames: seq![bg], subs: seq![d0], ..leaf() },
                    ));
                }
                r
            },
        }
    }

    /// Calls `name` on evaluated arguments from frame `at`: a built-in if the
    /// name is one, else the method or function that it resolves to.
    pub fn call_named(&mut self, name: &str, args: &Vec<Value>, at: usize, fuel: u64) -> (r: Result<Value, Error>)
        requires
            old(self).scope.wf(),
            at < old(self).scope.frames@.len(),
        ensures
            final(self).scope.wf(),
            final(self).grows_from(*old(self)),
            exists|d: Deriv| named_rel(*old(self), name@, args@, at as int, fuel as nat, *final(self), r, d),
            fuel > 0 && !is_builtin(name@) && capitalized(name@) && args@.len() == 0 ==> *final(self) == *old(self)
                && (r matches Err(Error::MethodWithoutReceiver { name: n }) && n@ == name@),
        decreases fuel, 0nat,
    {
        let ghost s0 = *self;
        if fuel == 0 {
            assert(named_rel(s0, name@, args@, at as int, 0, *self, Err::<Value, Error>(Error::OutOfFuel), leaf()));
            return Err(Error::OutOfFuel);
        }
        match self.call_builtin(name, args) {
            Some(r) => {
                assert(named_rel(s0, name@, args@, at as int, fuel as nat, *self, r, leaf()));
                r
            },
            None => {
                let fr = self.resolve_callee(name, args, at);
                let ghost frg = fr;
                match fr {
                    Err(e) => {
                        assert(named_rel(
                            s0,
                            name@,
                            args@,
                            at as int,
                            fuel as nat,
                            *self,
                            Err::<Value, Error>(e),
                            Deriv { callees: seq![frg], ..leaf() },
                        ));
                        Err(e)
                    },
                    Ok(func) => {
                        let r = self.call_function(&func, args, fuel - 1);
                        proof {
                            let d0 = choose|d: Deriv| #[trigger] call_function_rel(s0, func, args@, (fuel - 1) as nat, *self, r, d);
                            assert(named_rel(
                                s0,
                                name@,
                                args@,
                                at as int,
                                fuel as nat,
                                *self,
                                r,
                                Deriv { callees: seq![frg], subs: seq![d0], ..leaf() },
                            ));
                        }
                        r
                    },
                }
            },
        }
    }

    /// Evaluates `args[i..]` left to right, after the values `acc`.
    fn args_from(&mut self, args: &Vec<AstNode>, i: usize, acc: Vec<Value>, at: usize, fuel: u64) -> (r: Result<Vec<Value>, Error>)
        requires
            old(self).scope.wf(),
            at < old(self).scope.frames@.len(),
            i <= args@.len(),
        ensures
            final(self).scope.wf(),
            final(self).grows_from(*old(self)),
            exists|d: Deriv| args_loop(*old(self), args@, i as int, acc@, at as int, fuel as nat, *final(self), seq_result(r), d),
        decreases fuel, (args@.len() - i + 1) as nat,
    {
        let ghost s0 = *self;
        let ghost acc0 = acc@;
        if i >= args.len() {
            assert(args_loop(s0, args@, i as int, acc0, at as int, fuel as nat, *self, Ok::<Seq<Value>, Error>(acc0), leaf()));
            return Ok(acc);
        }
        let res = self.eval(&args[i], at, fuel);
        let ghost m = *self;
        let ghost resg = res;
        proof {
            let d0 = choose|d: Deriv| #[trigger] eval_rel(s0, args@[i as int], at as int, fuel as nat, m, resg, d);
            assert(eval_rel(s0, args@[i as int], at as int, fuel as nat, m, resg, d0));
        }
        let ghost d0 = choose|d: Deriv| #[trigger] eval_rel(s0, args@[i as int], at as int, fuel as nat, m, resg, d);
        match res {
            Ok(v) => {
                let ghost x = v;
                let mut acc = acc;
                acc.push(v);
                let r = self.args_from(args, i + 1, acc, at, fuel);
                proof {
                    let d1 = choose|d: Deriv|
                        #[trigger] args_loop(m, args@, i + 1, acc0.push(x), at as int, fuel as nat, *self, seq_result(r), d);
                    assert(args_loop(
                        s0,
                        args@,
                        i as int,
                        acc0,
                        at as int,
                        fuel as nat,
                        *self,
                        seq_result(r),
                        Deriv { states: seq![m], vals: seq![resg], subs: seq![d0, d1], ..leaf() },
                    ));
                }
                r
            },
            Err(e) => {
                assert(args_loop(
                    s0,
                    args@,
                    i as int,
                    acc0,
                    at as int,
                    fuel as nat,
                    *self,
                    Err::<Seq<Value>, Error>(e),
                    Deriv { states: seq![m], vals: seq![resg], subs: seq![d0, leaf()], ..leaf() },
                ));
                Err(e)
            },
        }
    }

    /// Evaluates argument expressions left to right.
    pub fn eval_args(&mut self, args: &Vec<AstNode>, at: usize, fuel: u64) -> (r: Result<Vec<Value>, Error>)
        requires
            old(self).scope.wf(),
            at < old(self).scope.frames@.len(),
        ensures
            final(self).scope.wf(),
            final(self).grows_from(*old(self)),
            exists|d: Deriv| args_rel(*old(self), args@, at as int, fuel as nat, *final(self), seq_result(r), d),
        decreases fuel, 0nat,
    {
        let ghost s0 = *self;
        if fuel == 0 {
            assert(args_rel(s0, args@, at as int, 0, *self, Err::<Seq<Value>, Error>(Error::OutOfFuel), leaf()));
            return Err(Error::OutOfFuel);
        }
        let empty: Vec<Value> = Vec::new();
        let r = self.args_from(args, 0, empty, at, fuel - 1);
        proof {
            let d0 = choose|d: Deriv|
                #[trigger] args_loop(s0, args@, 0, Seq::<Value>::empty(), at as int, (fuel - 1) as nat, *self, seq_result(r), d);
            assert(args_rel(s0, args@, at as int, fuel as nat, *self, seq_result(r), Deriv { subs: seq![d0], ..leaf() }));
        }
        r
    }

    /// Evaluates a call: the arguments first, in the calling frame, then the
    /// call itself.
    pub fn fn_call(&mut self, name: &str, args: &Vec<AstNode>, at: usize, fuel: u64) -> (r: Result<Value, Error>)
        requires
            old(self).scope.wf(),
            at < old(self).scope.frames@.len(),
        ensures
            final(self).scope.wf(),
            final(self).grows_from(*old(self)),
            exists|d: Deriv| fn_call_rel(*old(self), name@, args@, at as int, fuel as nat, *final(self), r, d),
        decreases fuel, 0nat,
    {
        let ghost s0 = *self;
        if fuel == 0 {
            assert(fn_call_rel(s0, name@, args@, at as int, 0, *self, Err::<Value, Error>(Error::OutOfFuel), leaf()));
            return Err(Error::OutOfFuel);
        }
        let vr = self.eval_args(args, at, fuel - 1);
        let ghost m = *self;
        let ghost lg = seq_result(vr);
        let ghost d0 = choose|d: Deriv| #[trigger] args_rel(s0, args@, at as int, (fuel - 1) as nat, m, lg, d);
        match vr {
            Err(e) => {
                assert(fn_call_rel(
                    s0,
                    name@,
                    args@,
                    at as int,
                    fuel as nat,
                    *self,
                    Err::<Value, Error>(e),
                    Deriv { states: seq![m], lists: seq![lg], subs: seq![d0, leaf()], ..leaf() },
                ));
                Err(e)
            },
            Ok(vals) => {
                let r = self.call_named(name, &vals, at, fuel - 1);
                proof {
                    let d1 = choose|d: Deriv| #[trigger] named_rel(m, name@, vals@, at as int, (fuel - 1) as nat, *self, r, d);
                    assert(fn_call_rel(
                        s0,
                        name@,
                        args@,
                        at as int,
                        fuel as nat,
                        *self,
                        r,
                        Deriv { states: seq![m], lists: seq![lg], subs: seq![d0, d1], ..leaf() },
                    ));
                }
                r
            },
        }
    }

    /// Runs `body[i..]`; `last` is the value of the statement before.
    fn body_from(&mut self, body: &Vec<AstNode>, i: usize, last: Value, at: usize, fuel: u64) -> (r: Result<Value, Error>)
        requires
            old(self).scope.wf(),
            at < old(self).scope.frames@.len(),
            i <= body@.len(),
        ensures
            final(self).scope.wf(),
            final(self).grows_from(*old(self)),
            exists|d: Deriv| body_loop(*old(self), body@, i as int, last, at as int, fuel as nat, *final(self), r, d),
        decreases fuel, (body@.len() - i + 1) as nat,
    {
        let ghost s0 = *self;
        let ghost lastg = last;
        if i >= body.len() {
            assert(body_loop(s0, body@, i as int, lastg, at as int, fuel as nat, *self, Ok::<Value, Error>(lastg), leaf()));
            return Ok(last);
        }
        let res = self.stmt(&body[i], at, fuel);
        let ghost m = *self;
        let ghost resg = res;
        let ghost d0 = choose|d: Deriv| #[trigger] stmt_rel(s0, body@[i as int], at as int, fuel as nat, m, resg, d);
        match res {
            Ok(v) => {
                let ghost x = v;
                let r = self.body_from(body, i + 1, v, at, fuel);
                proof {
                    let d1 = choose|d: Deriv| #[trigger] body_loop(m, body@, i + 1, x, at as int, fuel as nat, *self, r, d);
                    assert(body_loop(
                        s0,
                        body@,
                        i as int,
                        lastg,
                        at as int,
                        fuel as nat,
                        *self,
                        r,
                        Deriv { states: seq![m], vals: seq![resg], subs: seq![d0, d1], ..leaf() },
                    ));
                }
                r
            },
            Err(e) => {
                assert(body_loop(
                    s0,
                    body@,
                    i as int,
                    lastg,
                    at as int,
                    fuel as nat,
                    *self,
                    Err::<Value, Error>(e),
                    Deriv { states: seq![m], vals: seq![resg], subs: seq![d0, leaf()], ..leaf() },
                ));
                Err(e)
            },
        }
    }

    /// Runs a statement sequence in frame `at`; the result is the value of
    /// the last statement, `Unit` for an empty sequence.
    pub fn stmt_body(&mut self, body: &Vec<AstNode>, at: usize, fuel: u64) -> (r: Result<Value, Error>)
        requires
            old(self).scope.wf(),
            at < old(self).scope.frames@.len(),
        ensures
            final(self).scope.wf(),
            final(self).grows_from(*old(self)),
            exists|d: Deriv| body_rel(*old(self), body@, at as int, fuel as nat, *final(self), r, d),
        decreases fuel, 0nat,
    {
        let ghost s0 = *self;
        if fuel == 0 {
            assert(body_rel(s0, body@, at as int, 0, *self, Err::<Value, Error>(Error::OutOfFuel), leaf()));
            return Err(Error::OutOfFuel);
        }
        let r = self.body_from(body, 0, Value::Unit, at, fuel - 1);
        proof {
            let d0 = choose|d: Deriv| #[trigger] body_loop(s0, body@, 0, Value::Unit, at as int, (fuel - 1) as nat, *self, r, d);
            assert(body_rel(s0, body@, at as int, fuel as nat, *self, r, Deriv { subs: seq![d0], ..leaf() }));
        }
        r
    }

    /// Runs a statement sequence in a new frame under `at`.
    fn nested_body(&mut self, body: &Vec<AstNode>, at: usize, context: &str, fuel: u64) -> (r: Result<Value, Error>)
        requires
            old(self).scope.wf(),
            at < old(self).scope.frames@.len(),
        ensures
            final(self).scope.wf(),
            final(self).grows_from(*old(self)),
            exists|d: Deriv| nested_body_rel(*old(self), body@, at as int, context@, fuel as nat, *final(self), r, d),
        decreases fuel, 1nat,
    {
        let ghost s0 = *self;
        let inner = self.scope.nest(at, context);
        let ghost m = *self;
        proof {
            assert(is_prefix(old(self).scope.frames@, self.scope.frames@));
        }
        let r = self.stmt_body(body, inner, fuel);
        proof {
            let d0 = choose|d: Deriv| #[trigger] body_rel(m, body@, inner as int, fuel as nat, *self, r, d);
            assert(nested_body_rel(
                s0,
                body@,
                at as int,
                context@,
                fuel as nat,
                *self,
                r,
                Deriv { states: seq![m], subs: seq![d0], ..leaf() },
            ));
        }
        r
    }

    /// Evaluates a condition in frame `at` and reads it as a boolean.
    pub fn eval_cond(&mut self, cond_expr: &AstNode, at: usize, fuel: u64) -> (r: Result<bool, Error>)
        requires
            old(self).scope.wf(),
            at < old(self).scope.frames@.len(),
        ensures
            final(self).scope.wf(),
            final(self).grows_from(*old(self)),
            exists|d: Deriv| cond_rel(*old(self), *cond_expr, at as int, fuel as nat, *final(self), r, d),
        decreases fuel, 0nat,
    {
        let ghost s0 = *self;
        if fuel == 0 {
            assert(cond_rel(s0, *cond_expr, at as int, 0, *self, Err::<bool, Error>(Error::OutOfFuel), leaf()));
            return Err(Error::OutOfFuel);
        }
        let v = self.eval(cond_expr, at, fuel - 1);
        let ghost vg = v;
        let r = match v {
            Ok(x) => test_bool_val(&x),
            Err(e) => Err(e),
        };
        proof {
            let d0 = choose|d: Deriv| #[trigger] eval_rel(s0, *cond_expr, at as int, (fuel - 1) as nat, *self, vg, d);
            assert(cond_rel(
                s0,
                *cond_expr,
                at as int,
                fuel as nat,
                *self,
                r,
                Deriv { vals: seq![vg], subs: seq![d0], ..leaf() },
            ));
        }
        r
    }

    /// The `elif` branches from index `i` on, then the `else` body.
    fn elifs_from(
        &mut self,
        else_if: &Vec<AstNode>,
        i: usize,
        else_body: &Vec<AstNode>,
        at: usize,
        fuel: u64,
    ) -> (r: Result<Value, Error>)
        requires
            old(self).scope.wf(),
            at < old(self).scope.frames@.len(),
            i <= else_if@.len(),
        ensures
            final(self).scope.wf(),
            final(self).grows_from(*old(self)),
            exists|d: Deriv| elif_loop(*old(self), else_if@, i as int, else_body@, at as int, fuel as nat, *final(self), r, d),
        decreases fuel, (else_if@.len() - i + 2) as nat,
    {
        let ghost s0 = *self;
        if i >= else_if.len() {
            let r = self.nested_body(else_body, at, "else", fuel);
            proof {
                let d0 = choose|d: Deriv| #[trigger] nested_body_rel(s0, else_body@, at as int, "else"@, fuel as nat, *self, r, d);
                assert(elif_loop(
                    s0,
                    else_if@,
                    i as int,
                    else_body@,
                    at as int,
                    fuel as nat,
                    *self,
                    r,
                    Deriv { subs: seq![d0], ..leaf() },
                ));
            }
            return r;
        }
        match &else_if[i] {
            AstNode::ElseIf { cond_expr, body } => {
                let c = self.eval_cond(&**cond_expr, at, fuel);
                let ghost m = *self;
                let ghost cg = c;
                let ghost d0 = choose|d: Deriv| #[trigger] cond_rel(s0, **cond_expr, at as int, fuel as nat, m, cg, d);
                match c {
                    Ok(true) => {
                        let r = self.nested_body(body, at, "elif", fuel);
                        proof {
                            let d1 = choose|d: Deriv| #[trigger] nested_body_rel(m, body@, at as int, "elif"@, fuel as nat, *self, r, d);
                            assert(elif_loop(
                                s0,
                                else_if@,
                                i as int,
                                else_body@,
                                at as int,
                                fuel as nat,
                                *self,
                                r,
                                Deriv { states: seq![m], bools: seq![cg], subs: seq![d0, d1], ..leaf() },
                            ));
                        }
                        r
                    },
                    Ok(false) => {
                        let r = self.elifs_from(else_if, i + 1, else_body, at, fuel);
                        proof {
                            let d1 = choose|d: Deriv|
                                #[trigger] elif_loop(m, else_if@, i + 1, else_body@, at as int, fuel as nat, *self, r, d);
                            assert(elif_loop(
                                s0,
                                else_if@,
                                i as int,
                                else_body@,
                                at as int,
                                fuel as nat,
                                *self,
                                r,
                                Deriv { states: seq![m], bools: seq![cg], subs: seq![d0, d1], ..leaf() },
                            ));
                        }
                        r
                    },
                    Err(e) => {
                        assert(elif_loop(
                            s0,
                            else_if@,
                            i as int,
                            else_body@,
                            at as int,
                            fuel as nat,
                            *self,
                            Err::<Value, Error>(e),
                            Deriv { states: seq![m], bools: seq![cg], subs: seq![d0, leaf()], ..leaf() },
                        ));
                        Err(e)
                    },
                }
            },
            _ => {
                assert(elif_loop(
                    s0,
                    else_if@,
                    i as int,
                    else_body@,
                    at as int,
                    fuel as nat,
                    *self,
                    Err::<Value, Error>(Error::UnexpectedNode),
                    leaf(),
                ));
                Err(Error::UnexpectedNode)
            },
        }
    }

    /// Runs the body of the first branch whose condition holds, in a new
    /// frame under `at`, and gives its value; `Unit` for an empty branch.
    pub fn exec_if(
        &mut self,
        cond_expr: &AstNode,
        body: &Vec<AstNode>,
        else_if: &Vec<AstNode>,
        else_body: &Vec<AstNode>,
        at: usize,
        fuel: u64,
    ) -> (r: Result<Value, Error>)
        requires
            old(self).scope.wf(),
            at < old(self).scope.frames@.len(),
        ensures
            final(self).scope.wf(),
            final(self).grows_from(*old(self)),
            exists|d: Deriv|
                if_rel(*old(self), *cond_expr, body@, else_if@, else_body@, at as int, fuel as nat, *final(self), r, d),
        decreases fuel, 0nat,
    {
        let ghost s0 = *self;
        if fuel == 0 {
            assert(if_rel(
                s0,
                *cond_expr,
                body@,
                else_if@,
                else_body@,
                at as int,
                0,
                *self,
                Err::<Value, Error>(Error::OutOfFuel),
                leaf(),
            ));
            return Err(Error::OutOfFuel);
        }
        let c = self.eval_cond(cond_expr, at, fuel - 1);
        let ghost m = *self;
        let ghost cg = c;
        let ghost d0 = choose|d: Deriv| #[trigger] cond_rel(s0, *cond_expr, at as int, (fuel - 1) as nat, m, cg, d);
        match c {
            Ok(true) => {
                let r = self.nested_body(body, at, "if", fuel - 1);
                proof {
                    let d1 = choose|d: Deriv| #[trigger] nested_body_rel(m, body@, at as int, "if"@, (fuel - 1) as nat, *self, r, d);
                    assert(if_rel(
                        s0,
                        *cond_expr,
                        body@,
                        else_if@,
                        else_body@,
                        at as int,
                        fuel as nat,
                        *self,
                        r,
                        Deriv { states: seq![m], bools: seq![cg], subs: seq![d0, d1], ..leaf() },
                    ));
                }
                r
            },
            Ok(false) => {
                let r = self.elifs_from(else_if, 0, else_body, at, fuel - 1);
                proof {
                    let d1 = choose|d: Deriv|
                        #[trigger] elif_loop(m, else_if@, 0, else_body@, at as int, (fuel - 1) as nat, *self, r, d);
                    assert(if_rel(
                        s0,
                        *cond_expr,
                        body@,
                        else_if@,
                        else_body@,
                        at as int,
                        fuel as nat,
                        *self,
                        r,
                        Deriv { states: seq![m], bools: seq![cg], subs: seq![d0, d1], ..leaf() },
                    ));
                }
                r
            },
            Err(e) => {
                assert(if_rel(
                    s0,
                    *cond_expr,
                    body@,
                    else_if@,
                    else_body@,
                    at as int,
                    fuel as nat,
                    *self,
                    Err::<Value, Error>(e),
                    Deriv { states: seq![m], bools: seq![cg], subs: seq![d0, leaf()], ..leaf() },
                ));
                Err(e)
            },
        }
    }

    /// Iterations of a while loop in frame `at`, at most `budget` more.
    fn while_iter(&mut self, cond_expr: &AstNode, body: &Vec<AstNode>, at: usize, fuel: u64, budget: u64) -> (r: Result<(), Error>)
        requires
            old(self).scope.wf(),
            at < old(self).scope.frames@.len(),
        ensures
            final(self).scope.wf(),
            final(self).grows_from(*old(self)),
            exists|d: Deriv|
                while_loop(*old(self), *cond_expr, body@, at as int, fuel as nat, budget as nat, *final(self), r, d),
        decreases fuel, budget + 1,
    {
        let ghost s0 = *self;
        if budget == 0 {
            assert(while_loop(
                s0,
                *cond_expr,
                body@,
                at as int,
                fuel as nat,
                0,
                *self,
                Err::<(), Error>(Error::OutOfFuel),
                leaf(),
            ));
            return Err(Error::OutOfFuel);
        }
        let c = self.eval_cond(cond_expr, at, fuel);
        let ghost m = *self;
        let ghost cg = c;
        let ghost d0 = choose|d: Deriv| #[trigger] cond_rel(s0, *cond_expr, at as int, fuel as nat, m, cg, d);
        match c {
            Ok(true) => {},
            Ok(false) => {
                assert(while_loop(
                    s0,
                    *cond_expr,
                    body@,
                    at as int,
                    fuel as nat,
                    budget as nat,
                    *self,
                    Ok::<(), Error>(()),
                    Deriv {
                        states: seq![m, m],
                        bools: seq![cg],
                        vals: seq![Ok::<Value, Error>(Value::Unit)],
                        subs: seq![d0, leaf(), leaf()],
                        ..leaf()
                    },
                ));
                return Ok(());
            },
            Err(e) => {
                assert(while_loop(
                    s0,
                    *cond_expr,
                    body@,
                    at as int,
                    fuel as nat,
                    budget as nat,
                    *self,
                    Err::<(), Error>(e),
                    Deriv {
                        states: seq![m, m],
                        bools: seq![cg],
                        vals: seq![Ok::<Value, Error>(Value::Unit)],
                        subs: seq![d0, leaf(), leaf()],
                        ..leaf()
                    },
                ));
                return Err(e);
            },
        }
        let b = self.stmt_body(body, at, fuel);
        let ghost m2 = *self;
        let ghost bg = b;
        let ghost d1 = choose|d: Deriv| #[trigger] body_rel(m, body@, at as int, fuel as nat, m2, bg, d);
        match b {
            Ok(_) => {
                let r = self.while_iter(cond_expr, body, at, fuel, budget - 1);
                proof {
                    let d2 = choose|d: Deriv|
                       #[trigger]  #[trigger] while_loop(m2, *cond_expr, body@, at as int, fuel as nat, (budget - 1) as nat, *self, r, d);
                    assert(while_loop(
                        s0,
                        *cond_expr,
                        body@,
                        at as int,
                        fuel as nat,
                        budget as nat,
                        *self,
                        r,
                        Deriv { states: seq![m, m2], bools: seq![cg], vals: seq![bg], subs: seq![d0, d1, d2], ..leaf() },
                    ));
                }
                r
            },
            Err(e) => {
                assert(while_loop(
                    s0,
                    *cond_expr,
                    body@,
                    at as int,
                    fuel as nat,
                    budget as nat,
                    *self,
                    Err::<(), Error>(e),
                    Deriv { states: seq![m, m2], bools: seq![cg], vals: seq![bg], subs: seq![d0, d1, leaf()], ..leaf() },
                ));
                Err(e)
            },
        }
    }

    /// Runs a while loop in one new frame under `at`, shared by all
    /// iterations; each iteration takes one unit of `fuel`.
    pub fn while_stmt(&mut self, cond_expr: &AstNode, body: &Vec<AstNode>, at: usize, fuel: u64) -> (r: Result<(), Error>)
        requires
            old(self).scope.wf(),
            at < old(self).scope.frames@.len(),
        ensures
            final(self).scope.wf(),
            final(self).grows_from(*old(self)),
            exists|d: Deriv| while_rel(*old(self), *cond_expr, body@, at as int, fuel as nat, *final(self), r, d),
        decreases fuel, 0nat,
    {
        let ghost s0 = *self;
        if fuel == 0 {
            assert(while_rel(s0, *cond_expr, body@, at as int, 0, *self, Err::<(), Error>(Error::OutOfFuel), leaf()));
            return Err(Error::OutOfFuel);
        }
        let inner = self.scope.nest(at, "while loop");
        let ghost m = *self;
        proof {
            assert(is_prefix(old(self).scope.frames@, self.scope.frames@));
        }
        let r = self.while_iter(cond_expr, body, inner, fuel - 1, fuel);
        proof {
            let d0 = choose|d: Deriv|
                #[trigger] while_loop(m, *cond_expr, body@, inner as int, (fuel - 1) as nat, fuel as nat, *self, r, d);
            assert(while_rel(
                s0,
                *cond_expr,
                body@,
                at as int,
                fuel as nat,
                *self,
                r,
                Deriv { states: seq![m], subs: seq![d0], ..leaf() },
            ));
        }
        r
    }

    /// Starts iterating over `iterable`: calls the method `Iter` registered
    /// for its type, which gives the function that yields the items.
    pub fn start_iteration(&mut self, iterable: Value, at: usize, fuel: u64) -> (r: Result<Value, Error>)
        requires
            old(self).scope.wf(),
            at < old(self).scope.frames@.len(),
        ensures
            final(self).scope.wf(),
            final(self).grows_from(*old(self)),
            exists|d: Deriv| start_rel(*old(self), iterable, at as int, fuel as nat, *final(self), r, d),
            fuel > 0 && old(self).scope.lookup_method(at as int, "Iter"@, type_of_spec(iterable)) is None ==> *final(self)
                == *old(self) && (r matches Err(Error::UnknownMethod { name, typ }) && name@ == "Iter"@ && typ
                == type_of_spec(iterable)),
        decreases fuel, 0nat,
    {
        let ghost s0 = *self;
        let ghost itg = iterable;
        if fuel == 0 {
            assert(start_rel(s0, itg, at as int, 0, *self, Err::<Value, Error>(Error::OutOfFuel), leaf()));
            return Err(Error::OutOfFuel);
        }
        let typ = type_of(&iterable);
        match self.scope.get_method(at, "Iter", typ) {
            Some(f) => {
                let mut args: Vec<Value> = Vec::new();
                args.push(iterable);
                assert(args@ =~= seq![itg]);
                let r = self.call_function(&f, &args, fuel - 1);
                proof {
                    let d0 = choose|d: Deriv| #[trigger] call_function_rel(s0, f, seq![itg], (fuel - 1) as nat, *self, r, d);
                    assert(start_rel(s0, itg, at as int, fuel as nat, *self, r, Deriv { subs: seq![d0], ..leaf() }));
                }
                r
            },
            None => {
                let r = Err(Error::UnknownMethod { name: "Iter".to_string(), typ });
                assert(start_rel(s0, itg, at as int, fuel as nat, *self, r, leaf()));
                r
            },
        }
    }

    /// Iterations of a for loop in frame `at`, at most `budget` more: while
    /// the item is a present optional, run the body and fetch the next item.
    fn for_iter(&mut self, item_var: &str, body: &Vec<AstNode>, at: usize, fuel: u64, budget: u64) -> (r: Result<(), Error>)
        requires
            old(self).scope.wf(),
            at < old(self).scope.frames@.len(),
        ensures
            final(self).scope.wf(),
            final(self).grows_from(*old(self)),
            exists|d: Deriv|
                for_loop(*old(self), item_var@, body@, at as int, fuel as nat, budget as nat, *final(self), r, d),
        decreases fuel, budget + 1,
    {
        let ghost s0 = *self;
        if budget == 0 {
            assert(for_loop(s0, item_var@, body@, at as int, fuel as nat, 0, *self, Err::<(), Error>(Error::OutOfFuel), leaf()));
            return Err(Error::OutOfFuel);
        }
        let cur = match self.scope.get_var(at, item_var) {
            Some(v) => v,
            None => {
                let r = Err(Error::UndeclaredVariable { name: item_var.to_string(), context: self.scope.context_of(at) });
                assert(for_loop(s0, item_var@, body@, at as int, fuel as nat, budget as nat, *self, r, leaf()));
                return r;
            },
        };
        let ghost curg = cur;
        let mut item_args: Vec<Value> = Vec::new();
        item_args.push(cur);
        assert(item_args@ =~= seq![curg]);
        let present = match builtins::is_some(&item_args) {
            Ok(v) => match test_bool_val(&v) {
                Ok(b) => b,
                Err(e) => {
                    return Err(e);
                },
            },
            Err(e) => {
                assert(for_loop(
                    s0,
                    item_var@,
                    body@,
                    at as int,
                    fuel as nat,
                    budget as nat,
                    *self,
                    Err::<(), Error>(e),
                    leaf(),
                ));
                return Err(e);
            },
        };
        if !present {
            assert(for_loop(s0, item_var@, body@, at as int, fuel as nat, budget as nat, *self, Ok::<(), Error>(()), leaf()));
            return Ok(());
        }
        let b = self.stmt_body(body, at, fuel);
        let ghost m = *self;
        let ghost bg = b;
        let ghost d0 = choose|d: Deriv| #[trigger] body_rel(s0, body@, at as int, fuel as nat, m, bg, d);
        match b {
            Ok(_) => {},
            Err(e) => {
                assert(for_loop(
                    s0,
                    item_var@,
                    body@,
                    at as int,
                    fuel as nat,
                    budget as nat,
                    *self,
                    Err::<(), Error>(e),
                    Deriv {
                        states: seq![m, m, m],
                        vals: seq![bg, bg],
                        units: seq![Ok::<(), Error>(())],
                        subs: seq![d0, leaf(), leaf()],
                        ..leaf()
                    },
                ));
                return Err(e);
            },
        }
        let no_args: Vec<Value> = Vec::new();
        assert(no_args@ =~= Seq::<Value>::empty());
        let nx = self.call_named("__next", &no_args, at, fuel);
        let ghost m2 = *self;
        let ghost nxg = nx;
        let ghost d1 = choose|d: Deriv| #[trigger] named_rel(m, "__next"@, Seq::<Value>::empty(), at as int, fuel as nat, m2, nxg, d);
        let item = match nx {
            Ok(v) => v,
            Err(e) => {
                assert(for_loop(
                    s0,
                    item_var@,
                    body@,
                    at as int,
                    fuel as nat,
                    budget as nat,
                    *self,
                    Err::<(), Error>(e),
                    Deriv {
                        states: seq![m, m2, m2],
                        vals: seq![bg, nxg],
                        units: seq![Ok::<(), Error>(())],
                        subs: seq![d0, d1, leaf()],
                        ..leaf()
                    },
                ));
                return Err(e);
            },
        };
        let sr = self.scope.set_var(at, item_var, item);
        let ghost m3 = *self;
        let ghost srg = sr;
        match sr {
            Ok(()) => {},
            Err(e) => {
                assert(for_loop(
                    s0,
                    item_var@,
                    body@,
                    at as int,
                    fuel as nat,
                    budget as nat,
                    *self,
                    Err::<(), Error>(e),
                    Deriv {
                        states: seq![m, m2, m3],
                        vals: seq![bg, nxg],
                        units: seq![srg],
                        subs: seq![d0, d1, leaf()],
                        ..leaf()
                    },
                ));
                return Err(e);
            },
        }
        let r = self.for_iter(item_var, body, at, fuel, budget - 1);
        proof {
            let d2 = choose|d: Deriv|#[trigger]  #[trigger] for_loop(m3, item_var@, body@, at as int, fuel as nat, (budget - 1) as nat, *self, r, d);
            assert(for_loop(
                s0,
                item_var@,
                body@,
                at as int,
                fuel as nat,
                budget as nat,
                *self,
                r,
                Deriv { states: seq![m, m2, m3], vals: seq![bg, nxg], units: seq![srg], subs: seq![d0, d1, d2], ..leaf() },
            ));
        }
        r
    }

    /// Runs `for item_var in iterable { body }` through the optional-value
    /// protocol, in one new frame under `at`: the function that `Iter` gives
    /// is kept in the hidden variable `__next`, and each call of it yields the
    /// next item, until one that `is_some` finds absent. Each iteration takes
    /// one unit of `fuel`.
    pub fn for_in(
        &mut self,
        item_var: &str,
        iterable: &AstNode,
        body: &Vec<AstNode>,
        at: usize,
        fuel: u64,
    ) -> (r: Result<(), Error>)
        requires
            old(self).scope.wf(),
            at < old(self).scope.frames@.len(),
        ensures
            final(self).scope.wf(),
            final(self).grows_from(*old(self)),
            exists|d: Deriv| for_rel(*old(self), item_var@, *iterable, body@, at as int, fuel as nat, *final(self), r, d),
        decreases fuel, 0nat,
    {
        let ghost s0 = *self;
        if fuel == 0 {
            assert(for_rel(s0, item_var@, *iterable, body@, at as int, 0, *self, Err::<(), Error>(Error::OutOfFuel), leaf()));
            return Err(Error::OutOfFuel);
        }
        let inner = self.scope.nest(at, "for loop");
        let ghost m1 = *self;
        proof {
            assert(is_prefix(old(self).scope.frames@, self.scope.frames@));
        }
        let itr = self.eval(iterable, inner, fuel - 1);
        let ghost m2 = *self;
        let ghost vg = itr;
        let ghost d0 = choose|d: Deriv| #[trigger] eval_rel(m1, *iterable, inner as int, (fuel - 1) as nat, m2, vg, d);
        let it = match itr {
            Ok(v) => v,
            Err(e) => {
                assert(for_rel(
                    s0,
                    item_var@,
                    *iterable,
                    body@,
                    at as int,
                    fuel as nat,
                    *self,
                    Err::<(), Error>(e),
                    Deriv {
                        states: seq![m1, m2, m2, m2, m2, m2],
                        vals: seq![vg, vg, vg],
                        units: seq![Ok::<(), Error>(()), Ok::<(), Error>(())],
                        subs: seq![d0, leaf(), leaf(), leaf()],
                        ..leaf()
                    },
                ));
                return Err(e);
            },
        };
        let ghost x = it;
        let nr = self.start_iteration(it, inner, fuel - 1);
        let ghost m3 = *self;
        let ghost ng = nr;
        let ghost d1 = choose|d: Deriv| #[trigger] start_rel(m2, x, inner as int, (fuel - 1) as nat, m3, ng, d);
        let next = match nr {
            Ok(v) => v,
            Err(e) => {
                assert(for_rel(
                    s0,
                    item_var@,
                    *iterable,
                    body@,
                    at as int,
                    fuel as nat,
                    *self,
                    Err::<(), Error>(e),
                    Deriv {
                        states: seq![m1, m2, m3, m3, m3, m3],
                        vals: seq![vg, ng, ng],
                        units: seq![Ok::<(), Error>(()), Ok::<(), Error>(())],
                        subs: seq![d0, d1, leaf(), leaf()],
                        ..leaf()
                    },
                ));
                return Err(e);
            },
        };
        let dr = self.scope.declare_var(inner, "__next", next);
        let ghost m4 = *self;
        let ghost drg = dr;
        match dr {
            Ok(()) => {},
            Err(e) => {
                assert(for_rel(
                    s0,
                    item_var@,
                    *iterable,
                    body@,
                    at as int,
                    fuel as nat,
                    *self,
                    Err::<(), Error>(e),
                    Deriv {
                        states: seq![m1, m2, m3, m4, m4, m4],
                        vals: seq![vg, ng, ng],
                        units: seq![drg, drg],
                        subs: seq![d0, d1, leaf(), leaf()],
                        ..leaf()
                    },
                ));
                return Err(e);
            },
        }
        let no_args: Vec<Value> = Vec::new();
        assert(no_args@ =~= Seq::<Value>::empty());
        let fr = self.call_named("__next", &no_args, inner, fuel - 1);
        let ghost m5 = *self;
        let ghost fg = fr;
        let ghost d2 = choose|d: Deriv|
            #[trigger] named_rel(m4, "__next"@, Seq::<Value>::empty(), inner as int, (fuel - 1) as nat, m5, fg, d);
        let first = match fr {
            Ok(v) => v,
            Err(e) => {
                assert(for_rel(
                    s0,
                    item_var@,
                    *iterable,
                    body@,
                    at as int,
                    fuel as nat,
                    *self,
                    Err::<(), Error>(e),
                    Deriv {
                        states: seq![m1, m2, m3, m4, m5, m5],
                        vals: seq![vg, ng, fg],
                        units: seq![drg, drg],
                        subs: seq![d0, d1, d2, leaf()],
                        ..leaf()
                    },
                ));
                return Err(e);
            },
        };
        let d2r = self.scope.declare_var(inner, item_var, first);
        let ghost m6 = *self;
        let ghost d2g = d2r;
        match d2r {
            Ok(()) => {},
            Err(e) => {
                assert(for_rel(
                    s0,
                    item_var@,
                    *iterable,
                    body@,
                    at as int,
                    fuel as nat,
                    *self,
                    Err::<(), Error>(e),
                    Deriv {
                        states: seq![m1, m2, m3, m4, m5, m6],
                        vals: seq![vg, ng, fg],
                        units: seq![drg, d2g],
                        subs: seq![d0, d1, d2, leaf()],
                        ..leaf()
                    },
                ));
                return Err(e);
            },
        }
        let r = self.for_iter(item_var, body, inner, fuel - 1, fuel);
        proof {
            let d3 = choose|d: Deriv|
                #[trigger] for_loop(m6, item_var@, body@, inner as int, (fuel - 1) as nat, fuel as nat, *self, r, d);
            assert(for_rel(
                s0,
                item_var@,
                *iterable,
                body@,
                at as int,
                fuel as nat,
                *self,
                r,
                Deriv {
                    states: seq![m1, m2, m3, m4, m5, m6],
                    vals: seq![vg, ng, fg],
                    units: seq![drg, d2g],
                    subs: seq![d0, d1, d2, d3],
                    ..leaf()
                },
            ));
        }
        r
    }

    /// Runs the top-level statements `prog[i..]` in frame 0, stopping at
    /// the first error, which it returns.
    pub fn run_from(&mut self, prog: &Vec<AstNode>, i: usize, fuel: u64) -> (r: Option<Error>)
        requires
            old(self).scope.wf(),
            0 < old(self).scope.frames@.len(),
            i <= prog@.len(),
        ensures
            final(self).scope.wf(),
            final(self).grows_from(*old(self)),
            exists|d: Deriv| program_loop(*old(self), prog@, i as int, fuel as nat, *final(self), r, d),
        decreases prog@.len() - i,
    {
        let ghost s0 = *self;
        if i >= prog.len() {
            assert(program_loop(s0, prog@, i as int, fuel as nat, *self, None, leaf()));
            return None;
        }
        let res = self.stmt(&prog[i], 0, fuel);
        let ghost m = *self;
        let ghost resg = res;
        let ghost d0 = choose|d: Deriv| #[trigger] stmt_rel(s0, prog@[i as int], 0, fuel as nat, m, resg, d);
        match res {
            Ok(_) => {
                let r = self.run_from(prog, i + 1, fuel);
                proof {
                    let d1 = choose|d: Deriv| #[trigger] program_loop(m, prog@, i + 1, fuel as nat, *self, r, d);
                    assert(program_loop(
                        s0,
                        prog@,
                        i as int,
                        fuel as nat,
                        *self,
                        r,
                        Deriv { states: seq![m], vals: seq![resg], subs: seq![d0, d1], ..leaf() },
                    ));
                }
                r
            },
            Err(e) => {
                assert(program_loop(
                    s0,
                    prog@,
                    i as int,
                    fuel as nat,
                    *self,
                    Some(e),
                    Deriv { states: seq![m], vals: seq![resg], subs: seq![d0, leaf()], ..leaf() },
                ));
                Some(e)
            },
        }
    }

    /// Evaluates an expression in frame `at`.
    pub fn eval(&mut self, ast: &AstNode, at: usize, fuel: u64) -> (r: Result<Value, Error>)
        requires
            old(self).scope.wf(),
            at < old(self).scope.frames@.len(),
        ensures
            final(self).scope.wf(),
            final(self).grows_from(*old(self)),
            exists|d: Deriv| eval_rel(*old(self), *ast, at as int, fuel as nat, *final(self), r, d),
        decreases fuel, 0nat,
    {
        let ghost s0 = *self;
        if fuel == 0 {
            assert(eval_rel(s0, *ast, at as int, 0, *self, Err::<Value, Error>(Error::OutOfFuel), leaf()));
            return Err(Error::OutOfFuel);
        }
        match ast {
            AstNode::FnCall { name, args } => {
                let r = self.fn_call(name.as_str(), args, at, fuel - 1);
                proof {
                    let d0 = choose|d: Deriv| #[trigger] fn_call_rel(s0, name@, args@, at as int, (fuel - 1) as nat, *self, r, d);
                    assert(eval_rel(s0, *ast, at as int, fuel as nat, *self, r, Deriv { subs: seq![d0], ..leaf() }));
                }
                r
            },
            AstNode::FnDef { name, args, body } => {
                let scope = self.scope.nest(at, name.as_str());
                proof {
                    assert(is_prefix(old(self).scope.frames@, self.scope.frames@));
                }
                let r = Ok(
                    Value::Function(
                        Function { name: name.clone(), args: Rc::clone(args), body: Rc::clone(body), scope },
                    ),
                );
                assert(eval_rel(s0, *ast, at as int, fuel as nat, *self, r, leaf()));
                r
            },
            AstNode::If { cond_expr, body, else_if, else_body } => {
                let r = self.exec_if(&**cond_expr, body, else_if, else_body, at, fuel - 1);
                proof {
                    let d0 = choose|d: Deriv|
                        #[trigger] if_rel(s0, **cond_expr, body@, else_if@, else_body@, at as int, (fuel - 1) as nat, *self, r, d);
                    assert(eval_rel(s0, *ast, at as int, fuel as nat, *self, r, Deriv { subs: seq![d0], ..leaf() }));
                }
                r
            },
            AstNode::Infix(l, op, rr) => {
                let a = self.eval(&**l, at, fuel - 1);
                let ghost m = *self;
                let ghost ag = a;
                let ghost d0 = choose|d: Deriv| #[trigger] eval_rel(s0, **l, at as int, (fuel - 1) as nat, m, ag, d);
                let x = match a {
                    Ok(v) => v,
                    Err(e) => {
                        assert(eval_rel(
                            s0,
                            *ast,
                            at as int,
                            fuel as nat,
                            *self,
                            Err::<Value, Error>(e),
                            Deriv { states: seq![m], vals: seq![ag, ag], subs: seq![d0, leaf()], ..leaf() },
                        ));
                        return Err(e);
                    },
                };
                let b = self.eval(&**rr, at, fuel - 1);
                let ghost bg = b;
                let ghost d1 = choose|d: Deriv| #[trigger] eval_rel(m, **rr, at as int, (fuel - 1) as nat, *self, bg, d);
                let y = match b {
                    Ok(v) => v,
                    Err(e) => {
                        assert(eval_rel(
                            s0,
                            *ast,
                            at as int,
                            fuel as nat,
                            *self,
                            Err::<Value, Error>(e),
                            Deriv { states: seq![m], vals: seq![ag, bg], subs: seq![d0, d1], ..leaf() },
                        ));
                        return Err(e);
                    },
                };
                let r = ops::infix(x, *op, y);
                assert(eval_rel(
                    s0,
                    *ast,
                    at as int,
                    fuel as nat,
                    *self,
                    r,
                    Deriv { states: seq![m], vals: seq![ag, bg], subs: seq![d0, d1], ..leaf() },
                ));
                r
            },
            AstNode::Unary(op, e) => {
                let v = self.eval(&**e, at, fuel - 1);
                let ghost vg = v;
                let r = match v {
                    Ok(x) => Ok(ops::unary(*op, x)),
                    Err(er) => Err(er),
                };
                proof {
                    let d0 = choose|d: Deriv| #[trigger] eval_rel(s0, **e, at as int, (fuel - 1) as nat, *self, vg, d);
                    assert(eval_rel(
                        s0,
                        *ast,
                        at as int,
                        fuel as nat,
                        *self,
                        r,
                        Deriv { vals: seq![vg], subs: seq![d0], ..leaf() },
                    ));
                }
                r
            },
            AstNode::Term(t) => {
                let r = match t {
                    Term::Integer(x) => Ok(Value::Integer(*x)),
                    Term::Str(x) => Ok(Value::Str(x.clone())),
                    Term::Bool(x) => Ok(Value::Bool(*x)),
                    Term::NoneLiteral => Ok(Value::Optional(None)),
                    Term::Ident(var) => match self.scope.get_var(at, var.as_str()) {
                        Some(v) => Ok(v),
                        None => Err(Error::UndeclaredVariable { name: var.clone(), context: self.scope.context_of(at) }),
                    },
                };
                assert(eval_rel(s0, *ast, at as int, fuel as nat, *self, r, leaf()));
                r
            },
            _ => {
                assert(eval_rel(s0, *ast, at as int, fuel as nat, *self, Err::<Value, Error>(Error::UnexpectedNode), leaf()));
                Err(Error::UnexpectedNode)
            },
        }
    }

    /// Executes a statement in frame `at`. Declarations, assignments, loops
    /// and method definitions give `Unit`; other nodes are evaluated.
    pub fn stmt(&mut self, ast: &AstNode, at: usize, fuel: u64) -> (r: Result<Value, Error>)
        requires
            old(self).scope.wf(),
            at < old(self).scope.frames@.len(),
        ensures
            final(self).scope.wf(),
            final(self).grows_from(*old(self)),
            exists|d: Deriv| stmt_rel(*old(self), *ast, at as int, fuel as nat, *final(self), r, d),
        decreases fuel, 0nat,
    {
        let ghost s0 = *self;
        if fuel == 0 {
            assert(stmt_rel(s0, *ast, at as int, 0, *self, Err::<Value, Error>(Error::OutOfFuel), leaf()));
            return Err(Error::OutOfFuel);
        }
        match ast {
            AstNode::VarDeclaration(Term::Ident(var), e) => {
                let v = self.eval(&**e, at, fuel - 1);
                let ghost m = *self;
                let ghost vg = v;
                let ghost d0 = choose|d: Deriv| #[trigger] eval_rel(s0, **e, at as int, (fuel - 1) as nat, m, vg, d);
                let x = match v {
                    Ok(x) => x,
                    Err(er) => {
                        assert(stmt_rel(
                            s0,
                            *ast,
                            at as int,
                            fuel as nat,
                            *self,
                            Err::<Value, Error>(er),
                            Deriv { states: seq![m], vals: seq![vg], units: seq![Ok::<(), Error>(())], subs: seq![d0], ..leaf() },
                        ));
                        return Err(er);
                    },
                };
                let dr = self.scope.declare_var(at, var.as_str(), x);
                let ghost drg = dr;
                let r = match dr {
                    Ok(()) => Ok(Value::Unit),
                    Err(er) => Err(er),
                };
                assert(stmt_rel(
                    s0,
                    *ast,
                    at as int,
                    fuel as nat,
                    *self,
                    r,
                    Deriv { states: seq![m], vals: seq![vg], units: seq![drg], subs: seq![d0], ..leaf() },
                ));
                r
            },
            AstNode::Assignment(Term::Ident(var), e) => {
                let v = self.eval(&**e, at, fuel - 1);
                let ghost m = *self;
                let ghost vg = v;
                let ghost d0 = choose|d: Deriv| #[trigger] eval_rel(s0, **e, at as int, (fuel - 1) as nat, m, vg, d);
                let x = match v {
                    Ok(x) => x,
                    Err(er) => {
                        assert(stmt_rel(
                            s0,
                            *ast,
                            at as int,
                            fuel as nat,
                            *self,
                            Err::<Value, Error>(er),
                            Deriv { states: seq![m], vals: seq![vg], units: seq![Ok::<(), Error>(())], subs: seq![d0], ..leaf() },
                        ));
                        return Err(er);
                    },
                };
                let sr = self.scope.set_var(at, var.as_str(), x);
                let ghost srg = sr;
                let r = match sr {
                    Ok(()) => Ok(Value::Unit),
                    Err(er) => Err(er),
                };
                assert(stmt_rel(
                    s0,
                    *ast,
                    at as int,
                    fuel as nat,
                    *self,
                    r,
                    Deriv { states: seq![m], vals: seq![vg], units: seq![srg], subs: seq![d0], ..leaf() },
                ));
                r
            },
            AstNode::VarDeclaration(_, _) | AstNode::Assignment(_, _) => {
                assert(stmt_rel(s0, *ast, at as int, fuel as nat, *self, Err::<Value, Error>(Error::UnexpectedNode), leaf()));
                Err(Error::UnexpectedNode)
            },
            AstNode::MethodDef { name, for_type, args, body } => {
                if !is_capitalized(name.as_str()) {
                    let r = Err(Error::InvalidMethodName { name: name.clone() });
                    assert(stmt_rel(s0, *ast, at as int, fuel as nat, *self, r, leaf()));
                    return r;
                }
                let typ = match read_type_definition(for_type.as_str()) {
                    Ok(t) => t,
                    Err(e) => {
                        assert(stmt_rel(s0, *ast, at as int, fuel as nat, *self, Err::<Value, Error>(e), leaf()));
                        return Err(e);
                    },
                };
                let scope = self.scope.nest(at, name.as_str());
                let ghost m = *self;
                let method = Function { name: name.clone(), args: Rc::clone(args), body: Rc::clone(body), scope };
                self.scope.declare_method(at, name.as_str(), typ, method);
                proof {
                    assert(is_prefix(old(self).scope.frames@, self.scope.frames@));
                }
                assert(stmt_rel(
                    s0,
                    *ast,
                    at as int,
                    fuel as nat,
                    *self,
                    Ok::<Value, Error>(Value::Unit),
                    Deriv { states: seq![m], ..leaf() },
                ));
                Ok(Value::Unit)
            },
            AstNode::WhileStmt(cond, body) => {
                let w = self.while_stmt(&**cond, body, at, fuel - 1);
                let ghost wg = w;
                let r = match w {
                    Ok(()) => Ok(Value::Unit),
                    Err(e) => Err(e),
                };
                proof {
                    let d0 = choose|d: Deriv| #[trigger] while_rel(s0, **cond, body@, at as int, (fuel - 1) as nat, *self, wg, d);
                    assert(stmt_rel(
                        s0,
                        *ast,
                        at as int,
                        fuel as nat,
                        *self,
                        r,
                        Deriv { units: seq![wg], subs: seq![d0], ..leaf() },
                    ));
                }
                r
            },
            AstNode::ForStmt(item_var, iterable, body) => {
                let w = self.for_in(item_var.as_str(), &**iterable, body, at, fuel - 1);
                let ghost wg = w;
                let r = match w {
                    Ok(()) => Ok(Value::Unit),
                    Err(e) => Err(e),
                };
                proof {
                    let d0 = choose|d: Deriv|
                        #[trigger] for_rel(s0, item_var@, **iterable, body@, at as int, (fuel - 1) as nat, *self, wg, d);
                    assert(stmt_rel(
                        s0,
                        *ast,
                        at as int,
                        fuel as nat,
                        *self,
                        r,
                        Deriv { units: seq![wg], subs: seq![d0], ..leaf() },
                    ));
                }
                r
            },
            _ => {
                let r = self.eval(ast, at, fuel - 1);
                proof {
                    let d0 = choose|d: Deriv| #[trigger] eval_rel(s0, *ast, at as int, (fuel - 1) as nat, *self, r, d);
                    assert(stmt_rel(s0, *ast, at as int, fuel as nat, *self, r, Deriv { subs: seq![d0], ..leaf() }));
                }
                r
            },
        }
    }
}

/// Runs a program: each top-level node in order, in one fresh top-level
/// environment, each with `fuel` to spend. The first error stops the run.
pub fn run(ast_list: &Vec<AstNode>, fuel: u64) -> (r: Outcome)
    ensures
        exists|s0: Interp, s1: Interp, d: Deriv|
            fresh(s0) && #[trigger] program_loop(s0, ast_list@, 0, fuel as nat, s1, r.error, d) && r.output == s1.output,
        ast_list@.len() == 0 ==> r.output@.len() == 0 && r.error is None,
{
    let mut it = Interp::new();
    let ghost s0 = it;
    let error = it.run_from(ast_list, 0, fuel);
    proof {
        let d = choose|d: Deriv| #[trigger] program_loop(s0, ast_list@, 0, fuel as nat, it, error, d);
        assert(fresh(s0) && program_loop(s0, ast_list@, 0, fuel as nat, it, error, d));
    }
    Outcome { output: it.output, error }
}

} // verus!
