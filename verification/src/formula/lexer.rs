use vstd::prelude::*;

use super::chars::{
    char_is_alphabetic, char_is_alphanumeric, char_is_digit, char_is_whitespace,
    is_alphabetic_char, is_alphanumeric_char, is_digit_char, is_whitespace_char,
};
use crate::text::{chars_of, string_from_chars};
use super::error::FormulaError;

verus! {

/// Every kind of lexical token a formula string is broken into.
///
/// A numeric literal is kept as its source text (digits with at most one
/// decimal point, and at least one digit); turning that text into a
/// number is the evaluator's business.
#[derive(Debug, Clone, PartialEq)]
pub enum Token {
    Number(String),
    Ident(String),
    Plus,
    Minus,
    Star,
    Slash,
    Caret,
    LParen,
    RParen,
    Comma,
    Eof,
}

/// The mathematical content of a [`Token`]: texts as character sequences.
pub enum TokenView {
    Number(Seq<char>),
    Ident(Seq<char>),
    Plus,
    Minus,
    Star,
    Slash,
    Caret,
    LParen,
    RParen,
    Comma,
    Eof,
}

impl View for Token {
    type V = TokenView;

    open spec fn view(&self) -> TokenView {
        match self {
            Token::Number(s) => TokenView::Number(s@),
            Token::Ident(s) => TokenView::Ident(s@),
            Token::Plus => TokenView::Plus,
            Token::Minus => TokenView::Minus,
            Token::Star => TokenView::Star,
            Token::Slash => TokenView::Slash,
            Token::Caret => TokenView::Caret,
            Token::LParen => TokenView::LParen,
            Token::RParen => TokenView::RParen,
            Token::Comma => TokenView::Comma,
            Token::Eof => TokenView::Eof,
        }
    }
}

/// The views of a token sequence.
pub open spec fn tokens_view(ts: Seq<Token>) -> Seq<TokenView> {
    ts.map_values(|t: Token| t@)
}

/// The single-character symbol token for `c`, if `c` is one.
pub open spec fn symbol_token(c: char) -> Option<TokenView> {
    if c == '+' {
        Some(TokenView::Plus)
    } else if c == '-' {
        Some(TokenView::Minus)
    } else if c == '*' {
        Some(TokenView::Star)
    } else if c == '/' {
        Some(TokenView::Slash)
    } else if c == '^' {
        Some(TokenView::Caret)
    } else if c == '(' {
        Some(TokenView::LParen)
    } else if c == ')' {
        Some(TokenView::RParen)
    } else if c == ',' {
        Some(TokenView::Comma)
    } else {
        None
    }
}

/// The end of the run of digits and decimal points starting at `pos`: the
/// extent of a numeric literal.
pub open spec fn number_end(s: Seq<char>, pos: int) -> int
    decreases s.len() - pos,
{
    if 0 <= pos < s.len() && (is_digit_char(s[pos]) || s[pos] == '.') {
        number_end(s, pos + 1)
    } else {
        pos
    }
}

/// The number of decimal points in `t`.
pub open spec fn dot_count(t: Seq<char>) -> nat
    decreases t.len(),
{
    if t.len() == 0 {
        0
    } else {
        dot_count(t.drop_last()) + if t.last() == '.' {
            1nat
        } else {
            0nat
        }
    }
}

/// Whether a run of digits and decimal points is a number: at most one
/// decimal point, and not the point alone.
pub open spec fn is_number_text(t: Seq<char>) -> bool {
    dot_count(t) <= 1 && t != seq!['.']
}

/// The end of the longest run of alphanumeric characters and underscores
/// starting at `pos`.
pub open spec fn ident_end(s: Seq<char>, pos: int) -> int
    decreases s.len() - pos,
{
    if 0 <= pos < s.len() && (is_alphanumeric_char(s[pos]) || s[pos] == '_') {
        ident_end(s, pos + 1)
    } else {
        pos
    }
}

/// A lexing failure: the offending text and the character index where it
/// starts.
pub struct LexError {
    pub found: Seq<char>,
    pub pos: int,
}

/// The tokens of `s[pos..]`, ending in `Eof`, or the first lexing error.
///
/// Whitespace separates tokens; a digit or `.` starts a numeric literal, a
/// letter or `_` starts an identifier, eight characters are one-character
/// symbols, and anything else is rejected. A numeric literal runs over all
/// following digits and points; one with a second point (`1.2.3`), or
/// that is just `.`, is rejected as a whole, at its start.
pub open spec fn lex_from(s: Seq<char>, pos: int) -> Result<Seq<TokenView>, LexError>
    decreases s.len() - pos,
{
    if pos < 0 || pos >= s.len() {
        Ok(seq![TokenView::Eof])
    } else {
        let c = s[pos];
        if is_whitespace_char(c) {
            lex_from(s, pos + 1)
        } else if is_digit_char(c) || c == '.' {
            let end = number_end(s, pos + 1);
            let text = s.subrange(pos, end);
            if !is_number_text(text) {
                Err(LexError { found: text, pos })
            } else if !(pos < end <= s.len()) {
                Err(LexError { found: text, pos })
            } else {
                match lex_from(s, end) {
                    Ok(rest) => Ok(seq![TokenView::Number(text)] + rest),
                    Err(e) => Err(e),
                }
            }
        } else if is_alphabetic_char(c) || c == '_' {
            let end = ident_end(s, pos + 1);
            let text = s.subrange(pos, end);
            if !(pos < end <= s.len()) {
                Err(LexError { found: text, pos })
            } else {
                match lex_from(s, end) {
                    Ok(rest) => Ok(seq![TokenView::Ident(text)] + rest),
                    Err(e) => Err(e),
                }
            }
        } else {
            match symbol_token(c) {
                Some(t) => match lex_from(s, pos + 1) {
                    Ok(rest) => Ok(seq![t] + rest),
                    Err(e) => Err(e),
                },
                None => Err(LexError { found: seq![c], pos }),
            }
        }
    }
}

/// The tokens of a whole formula text.
pub open spec fn lex(s: Seq<char>) -> Result<Seq<TokenView>, LexError> {
    lex_from(s, 0)
}

/// Prepends already produced tokens to the outcome of lexing the rest.
pub open spec fn lex_prefixed(done: Seq<TokenView>, rest: Result<Seq<TokenView>, LexError>) -> Result<Seq<TokenView>, LexError> {
    match rest {
        Ok(ts) => Ok(done + ts),
        Err(e) => Err(e),
    }
}

proof fn lemma_lex_prefixed_assoc(
    a: Seq<TokenView>,
    b: Seq<TokenView>,
    r: Result<Seq<TokenView>, LexError>,
)
    ensures
        lex_prefixed(a, lex_prefixed(b, r)) == lex_prefixed(a + b, r),
{
    if let Ok(ts) = r {
        assert(a + (b + ts) =~= (a + b) + ts);
    }
}

proof fn lemma_number_end_bounds(s: Seq<char>, pos: int)
    requires
        0 <= pos <= s.len(),
    ensures
        pos <= number_end(s, pos) <= s.len(),
    decreases s.len() - pos,
{
    if 0 <= pos < s.len() && (is_digit_char(s[pos]) || s[pos] == '.') {
        lemma_number_end_bounds(s, pos + 1);
    }
}

proof fn lemma_ident_end_bounds(s: Seq<char>, pos: int)
    requires
        0 <= pos <= s.len(),
    ensures
        pos <= ident_end(s, pos) <= s.len(),
    decreases s.len() - pos,
{
    if 0 <= pos < s.len() && (is_alphanumeric_char(s[pos]) || s[pos] == '_') {
        lemma_ident_end_bounds(s, pos + 1);
    }
}

/// Converts formula source text into tokens ending in `Eof`; the result is
/// exactly `lex(source@)`, and the produced sequence always ends in `Eof`.
pub fn tokenize(source: &str) -> (res: Result<Vec<Token>, FormulaError>)
    ensures
        match (res, lex(source@)) {
            (Ok(ts), Ok(vs)) => tokens_view(ts@) == vs,
            (Err(FormulaError::UnexpectedToken { found, pos }), Err(e)) => found@ == e.found && pos
                == e.pos,
            _ => false,
        },
        res matches Ok(ts) ==> ts@.len() > 0 && ts@.last() is Eof,
{
    let chars = chars_of(source);
    let ghost s = source@;
    let n = chars.len();
    let mut tokens: Vec<Token> = Vec::new();
    let mut pos: usize = 0;
    while pos < n
        invariant
            n == chars@.len(),
            s == chars@,
            s == source@,
            pos <= n,
            lex(s) == lex_prefixed(tokens_view(tokens@), lex_from(s, pos as int)),
        decreases n - pos,
    {
        let c = chars[pos];
        if char_is_whitespace(c) {
            pos = pos + 1;
            continue;
        }
        if char_is_digit(c) || c == '.' {
            let start = pos;
            let mut dots: usize = if c == '.' {
                1
            } else {
                0
            };
            pos = pos + 1;
            proof {
                let first = s.subrange(start as int, pos as int);
                assert(first.drop_last() =~= Seq::<char>::empty());
                assert(dot_count(Seq::<char>::empty()) == 0);
                assert(first.last() == c);
            }
            while pos < n && (char_is_digit(chars[pos]) || chars[pos] == '.')
                invariant
                    n == chars@.len(),
                    s == chars@,
                    start < pos <= n,
                    number_end(s, start + 1) == number_end(s, pos as int),
                    dots == dot_count(s.subrange(start as int, pos as int)),
                    dots <= pos - start,
                decreases n - pos,
            {
                if chars[pos] == '.' {
                    dots = dots + 1;
                }
                proof {
                    assert(s.subrange(start as int, pos + 1).drop_last() =~= s.subrange(
                        start as int,
                        pos as int,
                    ));
                }
                pos = pos + 1;
            }
            proof {
                assert(number_end(s, pos as int) == pos as int);
                lemma_number_end_bounds(s, start + 1);
            }
            let text = string_from_chars(&chars, start, pos);
            if dots > 1 || (pos == start + 1 && c == '.') {
                proof {
                    assert(text@ == s.subrange(start as int, pos as int));
                    if dots <= 1 {
                        assert(text@ =~= seq!['.']);
                    }
                    assert(!is_number_text(text@));
                    assert(lex_from(s, start as int) == Err::<Seq<TokenView>, LexError>(
                        LexError { found: text@, pos: start as int },
                    ));
                }
                return Err(FormulaError::UnexpectedToken { found: text, pos: start });
            }
            proof {
                assert(text@[0] == c);
                assert(text@ != seq!['.']) by {
                    if text@ =~= seq!['.'] {
                        assert(text@.len() == 1);
                        assert(text@[0] == '.');
                    }
                }
                assert(is_number_text(text@));
                assert(tokens_view(tokens@.push(Token::Number(text))) =~= tokens_view(tokens@)
                    + seq![TokenView::Number(text@)]);
                assert(lex_from(s, start as int) == lex_prefixed(
                    seq![TokenView::Number(text@)],
                    lex_from(s, pos as int),
                ));
                lemma_lex_prefixed_assoc(
                    tokens_view(tokens@),
                    seq![TokenView::Number(text@)],
                    lex_from(s, pos as int),
                );
            }
            tokens.push(Token::Number(text));
            continue;
        }
        if char_is_alphabetic(c) || c == '_' {
            let start = pos;
            pos = pos + 1;
            while pos < n && (char_is_alphanumeric(chars[pos]) || chars[pos] == '_')
                invariant
                    n == chars@.len(),
                    s == chars@,
                    start < pos <= n,
                    ident_end(s, start + 1) == ident_end(s, pos as int),
                decreases n - pos,
            {
                pos = pos + 1;
            }
            proof {
                assert(ident_end(s, pos as int) == pos as int);
                lemma_ident_end_bounds(s, start + 1);
            }
            let text = string_from_chars(&chars, start, pos);
            proof {
                assert(tokens_view(tokens@.push(Token::Ident(text))) =~= tokens_view(tokens@)
                    + seq![TokenView::Ident(text@)]);
                assert(lex_from(s, start as int) == lex_prefixed(
                    seq![TokenView::Ident(text@)],
                    lex_from(s, pos as int),
                ));
                lemma_lex_prefixed_assoc(
                    tokens_view(tokens@),
                    seq![TokenView::Ident(text@)],
                    lex_from(s, pos as int),
                );
            }
            tokens.push(Token::Ident(text));
            continue;
        }
        let token = if c == '+' {
            Token::Plus
        } else if c == '-' {
            Token::Minus
        } else if c == '*' {
            Token::Star
        } else if c == '/' {
            Token::Slash
        } else if c == '^' {
            Token::Caret
        } else if c == '(' {
            Token::LParen
        } else if c == ')' {
            Token::RParen
        } else if c == ',' {
            Token::Comma
        } else {
            let found = string_from_chars(&chars, pos, pos + 1);
            proof {
                assert(found@ =~= seq![c]);
                assert(symbol_token(c) is None);
                assert(lex_from(s, pos as int) == Err::<Seq<TokenView>, LexError>(
                    LexError { found: found@, pos: pos as int },
                ));
            }
            return Err(FormulaError::UnexpectedToken { found, pos });
        };
        proof {
            assert(tokens_view(tokens@.push(token)) =~= tokens_view(tokens@) + seq![token@]);
            assert(symbol_token(c) == Some(token@));
            lemma_lex_prefixed_assoc(tokens_view(tokens@), seq![token@], lex_from(s, pos + 1));
        }
        tokens.push(token);
        pos = pos + 1;
    }
    proof {
        assert(tokens_view(tokens@.push(Token::Eof)) =~= tokens_view(tokens@) + seq![TokenView::Eof]);
    }
    tokens.push(Token::Eof);
    Ok(tokens)
}

} // verus!
