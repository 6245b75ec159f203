//! The errors that end a run.

use vstd::prelude::*;
use crate::ast::Op;
use crate::typing::TypeDefinition;

verus! {

/// Every error is fatal: evaluation stops where it is detected.
#[derive(Clone, Debug, PartialEq, Eq)]
pub enum Error {
    /// A name was read or assigned that no enclosing environment declares.
    UndeclaredVariable { name: String, context: String },
    /// A name was declared twice in one environment.
    DuplicateDeclaration { name: String, context: String },
    /// A call named a variable that does not hold a function.
    NotAFunction { name: String },
    /// A call passed another number of arguments than the callee takes.
    ArityMismatch { name: String, expected: usize, got: usize },
    /// A parameter name is already visible from the function's captured environment.
    ArgumentShadowsOuterVariable { name: String, function: String },
    /// No method of this name is registered for the receiver's type.
    UnknownMethod { name: String, typ: TypeDefinition },
    /// A method (a capitalized name) was called without a receiver argument.
    MethodWithoutReceiver { name: String },
    /// A method definition whose name does not start with an uppercase letter.
    InvalidMethodName { name: String },
    /// The operator is not defined for these operand types.
    UnsupportedOperation { op: Op, left: TypeDefinition, right: TypeDefinition },
    /// A value of another type was expected.
    TypeMismatch { expected: TypeDefinition, got: TypeDefinition },
    /// A list index outside `[0, len)`.
    IndexOutOfBounds { index: i32, len: usize },
    /// A method definition names a type that is not known.
    UnknownType { name: String },
    /// An integer result does not fit in 32 bits, or a shift amount is outside `[0, 32)`.
    Overflow { op: Op },
    /// A list too long for its length to be an `i32`.
    LengthOverflow { len: usize },
    /// Division or remainder by zero.
    DivisionByZero { op: Op },
    /// `**` with a negative exponent.
    NegativeExponent { exponent: i32 },
    /// `unwrap` of an absent optional.
    UnwrapNone,
    /// A node that cannot stand where it was found.
    UnexpectedNode,
    /// The evaluation budget ran out.
    OutOfFuel,
}

} // verus!
