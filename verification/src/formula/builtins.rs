use vstd::prelude::*;
use crate::text::str_equals;

use super::error::FormulaError;

verus! {

/// The built-in functions a formula may call. Trigonometric functions
/// work in degrees.
#[derive(Debug, Clone, Copy, PartialEq, Eq, Structural)]
pub enum Builtin {
    Sin,
    Cos,
    Tan,
    Asin,
    Acos,
    Atan,
    Sqrt,
    Abs,
    Min,
    Max,
    Ln,
    Log10,
    Exp,
    Round,
}

/// The built-in called `name`, if any.
pub open spec fn builtin_named(name: Seq<char>) -> Option<Builtin> {
    if name == "sin"@ {
        Some(Builtin::Sin)
    } else if name == "cos"@ {
        Some(Builtin::Cos)
    } else if name == "tan"@ {
        Some(Builtin::Tan)
    } else if name == "asin"@ {
        Some(Builtin::Asin)
    } else if name == "acos"@ {
        Some(Builtin::Acos)
    } else if name == "atan"@ {
        Some(Builtin::Atan)
    } else if name == "sqrt"@ {
        Some(Builtin::Sqrt)
    } else if name == "abs"@ {
        Some(Builtin::Abs)
    } else if name == "min"@ {
        Some(Builtin::Min)
    } else if name == "max"@ {
        Some(Builtin::Max)
    } else if name == "ln"@ {
        Some(Builtin::Ln)
    } else if name == "log10"@ {
        Some(Builtin::Log10)
    } else if name == "exp"@ {
        Some(Builtin::Exp)
    } else if name == "round"@ {
        Some(Builtin::Round)
    } else {
        None
    }
}

/// How many arguments a built-in takes: two for `min`/`max`, one otherwise.
pub open spec fn arity(b: Builtin) -> nat {
    match b {
        Builtin::Min | Builtin::Max => 2,
        _ => 1,
    }
}

fn lookup_builtin(name: &str) -> (r: Option<Builtin>)
    ensures
        r == builtin_named(name@),
{
    proof {
        reveal_strlit("sin");
        reveal_strlit("cos");
        reveal_strlit("tan");
        reveal_strlit("asin");
        reveal_strlit("acos");
        reveal_strlit("atan");
        reveal_strlit("sqrt");
        reveal_strlit("abs");
        reveal_strlit("min");
        reveal_strlit("max");
        reveal_strlit("ln");
        reveal_strlit("log10");
        reveal_strlit("exp");
        reveal_strlit("round");
    }
    if str_equals(name, "sin") {
        Some(Builtin::Sin)
    } else if str_equals(name, "cos") {
        Some(Builtin::Cos)
    } else if str_equals(name, "tan") {
        Some(Builtin::Tan)
    } else if str_equals(name, "asin") {
        Some(Builtin::Asin)
    } else if str_equals(name, "acos") {
        Some(Builtin::Acos)
    } else if str_equals(name, "atan") {
        Some(Builtin::Atan)
    } else if str_equals(name, "sqrt") {
        Some(Builtin::Sqrt)
    } else if str_equals(name, "abs") {
        Some(Builtin::Abs)
    } else if str_equals(name, "min") {
        Some(Builtin::Min)
    } else if str_equals(name, "max") {
        Some(Builtin::Max)
    } else if str_equals(name, "ln") {
        Some(Builtin::Ln)
    } else if str_equals(name, "log10") {
        Some(Builtin::Log10)
    } else if str_equals(name, "exp") {
        Some(Builtin::Exp)
    } else if str_equals(name, "round") {
        Some(Builtin::Round)
    } else {
        None
    }
}

/// The number of arguments built-in `b` takes.
pub fn builtin_arity(b: Builtin) -> (r: usize)
    ensures
        r == arity(b),
{
    match b {
        Builtin::Min | Builtin::Max => 2,
        _ => 1,
    }
}

/// Decides which built-in a call to `name` with `found` evaluated
/// arguments dispatches to: `UnknownFunction(name)` when no built-in has
/// that name, `WrongArgCount` when the count differs from its arity, and
/// the built-in otherwise.
pub fn resolve_builtin(name: &str, found: usize) -> (r: Result<Builtin, FormulaError>)
    ensures
        match builtin_named(name@) {
            None => r matches Err(FormulaError::UnknownFunction(n)) && n@ == name@,
            Some(b) => if arity(b) == found {
                r == Ok::<Builtin, FormulaError>(b)
            } else {
                r matches Err(FormulaError::WrongArgCount { function, expected, found: f })
                    && function@ == name@ && expected == arity(b) && f == found
            },
        },
{
    match lookup_builtin(name) {
        None => Err(FormulaError::UnknownFunction(name.to_string())),
        Some(b) => {
            let expected = builtin_arity(b);
            if expected == found {
                Ok(b)
            } else {
                Err(FormulaError::WrongArgCount { function: name.to_string(), expected, found })
            }
        },
    }
}

} // verus!
