//! Built-in functions and the display format of values.

use std::rc::Rc;
use vstd::prelude::*;
use vstd::string::StringExecFns;
use crate::error::Error;
use crate::text::{int_text, int_to_text};
use crate::typing::{type_of, type_of_spec, PrimitiveType, TypeDefinition};
use crate::value::Value;

verus! {

/// The display text of a value.
pub open spec fn fmt_spec(v: Value) -> Seq<char>
    decreases v,
{
    match v {
        Value::Integer(i) => int_text(i as int),
        Value::Str(s) => s@,
        Value::Bool(b) => if b { seq!['t', 'r', 'u', 'e'] } else { seq!['f', 'a', 'l', 's', 'e'] },
        Value::Function(f) => seq!['f', 'u', 'n', 'c', 't', 'i', 'o', 'n', ' ', '"'] + f.name@ + seq!['"'],
        Value::List(xs) => seq!['['] + fmt_items(v, xs@.len() as int) + seq![']'],
        Value::Optional(Some(x)) => fmt_spec(*x),
        Value::Optional(None) => seq!['N', 'o', 'n', 'e'],
        Value::Unit => seq!['N', 'o', 'n', 'e'],
    }
}

/// The first `n` elements of the list `v`, formatted and joined by `", "`.
pub open spec fn fmt_items(v: Value, n: int) -> Seq<char>
    decreases v, n,
{
    if let Value::List(xs) = v {
        if n <= 0 || n > xs@.len() {
            Seq::empty()
        } else if n == 1 {
            fmt_spec(xs@[0])
        } else {
            fmt_items(v, n - 1) + seq![',', ' '] + fmt_spec(xs@[n - 1])
        }
    } else {
        Seq::empty()
    }
}

/// The first `n` values, formatted and joined by single spaces.
pub open spec fn print_line(args: Seq<Value>, n: int) -> Seq<char>
    decreases n,
{
    if n <= 0 || n > args.len() {
        Seq::empty()
    } else if n == 1 {
        fmt_spec(args[0])
    } else {
        print_line(args, n - 1) + seq![' '] + fmt_spec(args[n - 1])
    }
}

/// Whether `r` is the arity error of built-in `name` called with `got` arguments.
pub open spec fn builtin_arity_error(r: Result<Value, Error>, name: Seq<char>, got: int) -> bool {
    r matches Err(Error::ArityMismatch { name: n, expected, got: g }) && n@ == name && expected == 1 && g == got
}

pub open spec fn opt_tag() -> TypeDefinition {
    TypeDefinition::PrimitiveType(PrimitiveType::Optional)
}

/// What the built-in `len` gives on `args`.
pub open spec fn len_outcome(args: Seq<Value>, r: Result<Value, Error>) -> bool {
    &&& args.len() != 1 ==> builtin_arity_error(r, "len"@, args.len() as int)
    &&& args.len() == 1 ==> match args[0] {
        Value::List(xs) => if xs@.len() <= i32::MAX {
            r == Ok::<Value, Error>(Value::Integer(xs@.len() as i32))
        } else {
            r == Err::<Value, Error>(Error::LengthOverflow { len: xs@.len() as usize })
        },
        v => r == Err::<Value, Error>(Error::TypeMismatch {
            expected: TypeDefinition::PrimitiveType(PrimitiveType::List),
            got: type_of_spec(v),
        }),
    }
}

/// What the built-in `Some` gives on `args`.
pub open spec fn some_outcome(args: Seq<Value>, r: Result<Value, Error>) -> bool {
    &&& args.len() != 1 ==> builtin_arity_error(r, "Some"@, args.len() as int)
    &&& args.len() == 1 ==> r == Ok::<Value, Error>(Value::Optional(Some(Rc::new(args[0]))))
}

/// What the built-in `unwrap` gives on `args`.
pub open spec fn unwrap_outcome(args: Seq<Value>, r: Result<Value, Error>) -> bool {
    &&& args.len() != 1 ==> builtin_arity_error(r, "unwrap"@, args.len() as int)
    &&& args.len() == 1 ==> match args[0] {
        Value::Optional(Some(x)) => r == Ok::<Value, Error>(*x),
        Value::Optional(None) => r == Err::<Value, Error>(Error::UnwrapNone),
        v => r == Err::<Value, Error>(Error::TypeMismatch { expected: opt_tag(), got: type_of_spec(v) }),
    }
}

/// What the built-in `is_some` gives on `args`.
pub open spec fn is_some_outcome(args: Seq<Value>, r: Result<Value, Error>) -> bool {
    &&& args.len() != 1 ==> builtin_arity_error(r, "is_some"@, args.len() as int)
    &&& args.len() == 1 ==> match args[0] {
        Value::Optional(o) => r == Ok::<Value, Error>(Value::Bool(o is Some)),
        v => r == Err::<Value, Error>(Error::TypeMismatch { expected: opt_tag(), got: type_of_spec(v) }),
    }
}

/// What the built-in `is_none` gives on `args`.
pub open spec fn is_none_outcome(args: Seq<Value>, r: Result<Value, Error>) -> bool {
    &&& args.len() != 1 ==> builtin_arity_error(r, "is_none"@, args.len() as int)
    &&& args.len() == 1 ==> match args[0] {
        Value::Optional(o) => r == Ok::<Value, Error>(Value::Bool(o is None)),
        v => r == Err::<Value, Error>(Error::TypeMismatch { expected: opt_tag(), got: type_of_spec(v) }),
    }
}

/// Formats a value for display.
pub fn fmt(val: &Value) -> (r: String)
    ensures
        r@ == fmt_spec(*val),
    decreases val,
{
    match val {
        Value::Integer(x) => int_to_text(*x),
        Value::Str(x) => x.clone(),
        Value::Bool(x) => {
            proof {
                reveal_strlit("true");
                reveal_strlit("false");
            }
            let r = if *x { String::from_str("true") } else { String::from_str("false") };
            assert(r@ =~= fmt_spec(*val));
            r
        },
        Value::Function(f) => {
            proof {
                reveal_strlit("function \"");
                reveal_strlit("\"");
            }
            let r = String::from_str("function \"").concat(f.name.as_str()).concat("\"");
            assert(r@ =~= fmt_spec(*val));
            r
        },
        Value::List(xs) => {
            proof {
                reveal_strlit("[");
            }
            let mut s = String::from_str("[");
            let mut i: usize = 0;
            while i < xs.len()
                invariant
                    i <= xs@.len(),
                    *val == Value::List(*xs),
                    s@ == seq!['['] + fmt_items(*val, i as int),
                decreases xs@.len() - i,
            {
                proof {
                    reveal_strlit(", ");
                }
                if i > 0 {
                    s.append(", ");
                }
                proof {
                    broadcast use vstd::std_specs::vec::group_vec_axioms;
                    let ghost vv = *val;
                    let ghost inner: Vec<Value> = *vv->List_0;
                    assert(decreases_to!(vv => inner));
                    assert(decreases_to!(inner => inner@));
                    assert(decreases_to!(inner@ => inner@[i as int]));
                }
                let e = fmt(&xs[i]);
                s.append(e.as_str());
                proof {
                    if i == 0 {
                        assert(s@ =~= seq!['['] + fmt_items(*val, 1));
                    } else {
                        assert(s@ =~= seq!['['] + fmt_items(*val, i + 1));
                    }
                }
                i = i + 1;
            }
            proof {
                reveal_strlit("]");
            }
            s.append("]");
            s
        },
        Value::Optional(Some(x)) => fmt(&**x),
        Value::Optional(None) | Value::Unit => {
            proof {
                reveal_strlit("None");
            }
            let r = String::from_str("None");
            assert(r@ =~= fmt_spec(*val));
            r
        },
    }
}

/// The built-in `print`: the line it writes, each argument formatted and
/// separated by one space.
pub fn print(args: &Vec<Value>) -> (r: String)
    ensures
        r@ == print_line(args@, args@.len() as int),
{
    let mut s = String::new();
    let mut i: usize = 0;
    while i < args.len()
        invariant
            i <= args@.len(),
            s@ == print_line(args@, i as int),
        decreases args@.len() - i,
    {
        proof {
            reveal_strlit(" ");
        }
        if i > 0 {
            s.append(" ");
        }
        let e = fmt(&args[i]);
        s.append(e.as_str());
        proof {
            if i == 0 {
                assert(s@ =~= print_line(args@, 1));
            } else {
                assert(s@ =~= print_line(args@, i + 1));
            }
        }
        i = i + 1;
    }
    s
}

fn arity_error(name: &str, got: usize) -> (r: Result<Value, Error>)
    ensures
        builtin_arity_error(r, name@, got as int),
{
    Err(Error::ArityMismatch { name: name.to_string(), expected: 1, got })
}

/// The built-in `len`: the number of elements of its one list argument.
pub fn len(args: &Vec<Value>) -> (r: Result<Value, Error>)
    ensures
        len_outcome(args@, r),
{
    if args.len() != 1 {
        return arity_error("len", args.len());
    }
    match &args[0] {
        Value::List(xs) => if xs.len() <= i32::MAX as usize {
            Ok(Value::Integer(xs.len() as i32))
        } else {
            Err(Error::LengthOverflow { len: xs.len() })
        },
        v => Err(Error::TypeMismatch {
            expected: TypeDefinition::PrimitiveType(PrimitiveType::List),
            got: type_of(v),
        }),
    }
}

/// The built-in `Some`: wraps its one argument as a present optional.
pub fn some(args: &Vec<Value>) -> (r: Result<Value, Error>)
    ensures
        some_outcome(args@, r),
{
    if args.len() != 1 {
        return arity_error("Some", args.len());
    }
    Ok(Value::Optional(Some(Rc::new(args[0].duplicate()))))
}

/// The built-in `unwrap`: the value inside its one present optional argument.
pub fn unwrap(args: &Vec<Value>) -> (r: Result<Value, Error>)
    ensures
        unwrap_outcome(args@, r),
{
    if args.len() != 1 {
        return arity_error("unwrap", args.len());
    }
    match &args[0] {
        Value::Optional(Some(x)) => Ok((**x).duplicate()),
        Value::Optional(None) => Err(Error::UnwrapNone),
        v => Err(Error::TypeMismatch {
            expected: TypeDefinition::PrimitiveType(PrimitiveType::Optional),
            got: type_of(v),
        }),
    }
}

/// The built-in `is_some`: whether its one optional argument is present.
pub fn is_some(args: &Vec<Value>) -> (r: Result<Value, Error>)
    ensures
        is_some_outcome(args@, r),
{
    if args.len() != 1 {
        return arity_error("is_some", args.len());
    }
    match &args[0] {
        Value::Optional(o) => Ok(Value::Bool(o.is_some())),
        v => Err(Error::TypeMismatch {
            expected: TypeDefinition::PrimitiveType(PrimitiveType::Optional),
            got: type_of(v),
        }),
    }
}

/// The built-in `is_none`: whether its one optional argument is absent.
pub fn is_none(args: &Vec<Value>) -> (r: Result<Value, Error>)
    ensures
        is_none_outcome(args@, r),
{
    if args.len() != 1 {
        return arity_error("is_none", args.len());
    }
    match &args[0] {
        Value::Optional(o) => Ok(Value::Bool(o.is_none())),
        v => Err(Error::TypeMismatch {
            expected: TypeDefinition::PrimitiveType(PrimitiveType::Optional),
            got: type_of(v),
        }),
    }
}

} // verus!
