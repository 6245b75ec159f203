//! Runtime type tags, used for method dispatch.

use vstd::prelude::*;
use crate::error::Error;
use crate::text::text_eq;
use crate::value::Value;

verus! {

/// The shape of a runtime value.
#[derive(Clone, Copy, Debug, PartialEq, Eq, Hash, Structural)]
pub enum PrimitiveType {
    Integer,
    Str,
    Bool,
    List,
    Function,
    Optional,
    Unit,
}

/// A type as methods are registered for it.
#[derive(Clone, Copy, Debug, PartialEq, Eq, Hash, Structural)]
pub enum TypeDefinition {
    PrimitiveType(PrimitiveType),
}

/// The type tag of a value.
pub open spec fn type_of_spec(v: Value) -> TypeDefinition {
    TypeDefinition::PrimitiveType(
        match v {
            Value::Integer(_) => PrimitiveType::Integer,
            Value::Str(_) => PrimitiveType::Str,
            Value::Bool(_) => PrimitiveType::Bool,
            Value::List(_) => PrimitiveType::List,
            Value::Function(_) => PrimitiveType::Function,
            Value::Optional(_) => PrimitiveType::Optional,
            Value::Unit => PrimitiveType::Unit,
        },
    )
}

/// Resolves the type name of a method definition; only `list` is known.
pub fn read_type_definition(s: &str) -> (r: Result<TypeDefinition, Error>)
    ensures
        s@ == "list"@ ==> r == Ok::<TypeDefinition, Error>(TypeDefinition::PrimitiveType(PrimitiveType::List)),
        s@ != "list"@ ==> (r matches Err(Error::UnknownType { name }) && name@ == s@),
{
    if text_eq(s, "list") {
        Ok(TypeDefinition::PrimitiveType(PrimitiveType::List))
    } else {
        Err(Error::UnknownType { name: s.to_string() })
    }
}

/// Returns the type of the given value.
pub fn type_of(v: &Value) -> (r: TypeDefinition)
    ensures
        r == type_of_spec(*v),
{
    TypeDefinition::PrimitiveType(
        match v {
            Value::Integer(_) => PrimitiveType::Integer,
            Value::Str(_) => PrimitiveType::Str,
            Value::Bool(_) => PrimitiveType::Bool,
            Value::List(_) => PrimitiveType::List,
            Value::Function(_) => PrimitiveType::Function,
            Value::Optional(_) => PrimitiveType::Optional,
            Value::Unit => PrimitiveType::Unit,
        },
    )
}

} // verus!
