//! Runtime values.

use std::rc::Rc;
use vstd::prelude::*;
use crate::ast::AstNode;

verus! {

/// A function value: a definition together with the environment it captured.
///
/// `scope` is the index, in the interpreter's environment arena, of the
/// environment that was created for the definition as a child of the defining
/// environment. Calls run in fresh children of it, so a closure sees later
/// assignments to variables of the scopes around its definition.
#[derive(Clone, Debug)]
pub struct Function {
    pub name: String,
    pub args: Rc<Vec<String>>,
    pub body: Rc<Vec<AstNode>>,
    pub scope: usize,
}

/// A runtime value. Values never change once made; lists and optionals share
/// their contents, which is the same as copying them.
#[derive(Clone, Debug)]
pub enum Value {
    Integer(i32),
    Str(String),
    Bool(bool),
    List(Rc<Vec<Value>>),
    Function(Function),
    /// An optional: present with a value, or absent.
    Optional(Option<Rc<Value>>),
    /// The result of a statement that yields nothing.
    Unit,
}

impl Function {
    /// A copy of this function value.
    pub fn duplicate(&self) -> (r: Function)
        ensures
            r == *self,
    {
        Function {
            name: self.name.clone(),
            args: Rc::clone(&self.args),
            body: Rc::clone(&self.body),
            scope: self.scope,
        }
    }
}

impl Value {
    /// A copy of this value.
    pub fn duplicate(&self) -> (r: Value)
        ensures
            r == *self,
    {
        match self {
            Value::Integer(i) => Value::Integer(*i),
            Value::Str(s) => Value::Str(s.clone()),
            Value::Bool(b) => Value::Bool(*b),
            Value::List(xs) => Value::List(Rc::clone(xs)),
            Value::Function(f) => Value::Function(f.duplicate()),
            Value::Optional(None) => Value::Optional(None),
            Value::Optional(Some(v)) => Value::Optional(Some(Rc::clone(v))),
            Value::Unit => Value::Unit,
        }
    }
}

} // verus!
