//! The node tree that the parser hands to the evaluator.

use std::rc::Rc;
use vstd::prelude::*;

verus! {

/// A primitive-valued leaf of the tree.
#[derive(Clone, Debug, PartialEq, Eq)]
pub enum Term {
    Integer(i32),
    Ident(String),
    Str(String),
    Bool(bool),
    /// The `None` literal, an absent optional.
    NoneLiteral,
}

/// Binary and unary operators.
#[derive(Clone, Copy, Debug, PartialEq, Eq, Structural)]
pub enum Op {
    Add,
    Sub,
    Mul,
    Div,
    Mod,
    Shl,
    Shr,
    And,
    Or,
    Exp,
    Not,
    GreaterThan,
    GreaterThanEqual,
    LessThan,
    LessThanEqual,
    Equal,
    NotEqual,
    BitwiseAnd,
    BitwiseOr,
    BitwiseXor,
    BitwiseNot,
    Negation,
    MemberAccess,
}

/// A statement or expression node.
///
/// The parameter lists and bodies of definitions are reference counted: the
/// function values that a definition produces share them with the tree.
#[derive(Debug, PartialEq, Eq)]
pub enum AstNode {
    FnCall { name: String, args: Vec<AstNode> },
    FnDef { name: String, args: Rc<Vec<String>>, body: Rc<Vec<AstNode>> },
    MethodDef { name: String, for_type: String, args: Rc<Vec<String>>, body: Rc<Vec<AstNode>> },
    Term(Term),
    Infix(Box<AstNode>, Op, Box<AstNode>),
    Unary(Op, Box<AstNode>),
    VarDeclaration(Term, Box<AstNode>),
    Assignment(Term, Box<AstNode>),
    WhileStmt(Box<AstNode>, Vec<AstNode>),
    ForStmt(String, Box<AstNode>, Vec<AstNode>),
    If { cond_expr: Box<AstNode>, body: Vec<AstNode>, else_if: Vec<AstNode>, else_body: Vec<AstNode> },
    ElseIf { cond_expr: Box<AstNode>, body: Vec<AstNode> },
}

/// Builds the infix node `l op r`.
pub fn infix(l: AstNode, op: Op, r: AstNode) -> (n: AstNode)
    ensures
        n matches AstNode::Infix(a, o, b) && *a == l && o == op && *b == r,
{
    AstNode::Infix(Box::new(l), op, Box::new(r))
}

/// Builds the unary node `op r`.
pub fn unary(op: Op, r: AstNode) -> (n: AstNode)
    ensures
        n matches AstNode::Unary(o, b) && o == op && *b == r,
{
    AstNode::Unary(op, Box::new(r))
}

} // verus!
