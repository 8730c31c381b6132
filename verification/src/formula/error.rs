use vstd::prelude::*;

verus! {

/// Every way tokenizing, parsing or evaluating a formula can fail.
#[derive(Debug, Clone, PartialEq)]
pub enum FormulaError {
    /// The lexer or parser met a character/token it does not accept here.
    /// `pos` is a character index (lexer) or a token index (parser).
    UnexpectedToken { found: String, pos: usize },
    /// The token stream ended before a complete expression was formed.
    UnexpectedEof,
    /// A formula referenced a variable the variable table does not hold.
    UnknownVariable(String),
    /// A formula called a function that is not a built-in.
    UnknownFunction(String),
    /// A built-in was called with the wrong number of arguments.
    WrongArgCount { function: String, expected: usize, found: usize },
    /// The right-hand side of a division evaluated to exactly zero.
    DivisionByZero,
    /// The fully evaluated result was NaN or infinite.
    InvalidResult,
}

} // verus!
