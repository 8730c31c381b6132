//! The formula front end: characters to tokens to expression trees, plus
//! the built-in function table. Numeric evaluation is left to callers.
use vstd::prelude::*;

pub mod builtins;
pub mod chars;
pub mod error;
pub mod lexer;
pub mod parser;

pub use error::FormulaError;

use crate::container::PatternData;
use lexer::{lex, tokenize, TokenView};
use parser::{parse, parse_tokens, token_debug_text, Expr, ParseFailure};
use crate::scalar::Real;
use crate::variable::{Variable, VariableView};

verus! {

/// `err` reports the parse failure `f` of the tokens `t`.
pub open spec fn reports_parse_failure(err: FormulaError, f: ParseFailure, t: Seq<TokenView>) -> bool {
    match f {
        ParseFailure::Eof => err is UnexpectedEof,
        ParseFailure::UnexpectedAt(k) => err matches FormulaError::UnexpectedToken { found, pos }
            && pos == k && 0 <= k < t.len() && found@ == token_debug_text(t[k]),
    }
}

/// The front end of formula evaluation: tokenizes `source` and parses the
/// tokens into an expression tree. A character the lexer does not accept,
/// or a token the grammar does not expect, is reported with its position.
pub fn parse_formula(source: &str) -> (r: Result<Expr, FormulaError>)
    ensures
        match lex(source@) {
            Err(e) => r matches Err(FormulaError::UnexpectedToken { found, pos }) && found@
                == e.found && pos == e.pos,
            Ok(vs) => match parse_tokens(vs) {
                Ok(ev) => r matches Ok(x) && x@ == ev,
                Err(f) => r matches Err(err) && reports_parse_failure(err, f, vs),
            },
        },
{
    let tokens = match tokenize(source) {
        Ok(ts) => ts,
        Err(e) => {
            return Err(e);
        },
    };
    proof {
        let tv = lexer::tokens_view(tokens@);
        assert(tv.last() == tokens@.last()@);
    }
    parse(tokens.as_slice())
}

/// The numeric value a formula sees for a variable: the measured value,
/// a custom variable's last evaluated value, or the derived quantity.
pub open spec fn value_of(v: VariableView) -> Real {
    match v {
        VariableView::Measurement { value } => value,
        VariableView::Custom { cached_value, .. } => cached_value,
        VariableView::LineLength { value } => value,
        VariableView::LineAngle { value } => value,
        VariableView::CurveLength { value } => value,
        VariableView::ArcRadius { value } => value,
    }
}

/// Every variable of `data` as a (name, value) pair, in storage order:
/// the table formulas are evaluated against.
pub fn flatten_variables(data: &PatternData) -> (r: Vec<(String, Real)>)
    ensures
        r@.len() == data.vars().len(),
        forall|i: int|
            0 <= i < r@.len() ==> (#[trigger] r@[i]).0@ == data.vars()[i].0 && r@[i].1
                == value_of(data.vars()[i].1),
{
    let vars = data.variables();
    let mut out: Vec<(String, Real)> = Vec::new();
    let mut i: usize = 0;
    while i < vars.len()
        invariant
            crate::variable::table_view(vars@) == data.vars(),
            i <= vars@.len(),
            out@.len() == i,
            forall|j: int|
                0 <= j < i ==> (#[trigger] out@[j]).0@ == data.vars()[j].0 && out@[j].1
                    == value_of(data.vars()[j].1),
        decreases vars@.len() - i,
    {
        assert(data.vars()[i as int] == (vars@[i as int].0@, vars@[i as int].1@));
        let value = match &vars[i].1 {
            Variable::Measurement { value } => *value,
            Variable::Custom { cached_value, .. } => *cached_value,
            Variable::LineLength { value } => *value,
            Variable::LineAngle { value } => *value,
            Variable::CurveLength { value } => *value,
            Variable::ArcRadius { value } => *value,
        };
        out.push((vars[i].0.clone(), value));
        i = i + 1;
    }
    out
}

/// Text that stood in for the formula engine before it existed.
pub fn placeholder() -> (r: &'static str)
    ensures
        r@ == "formula engine not yet implemented"@,
{
    "formula engine not yet implemented"
}

} // verus!
