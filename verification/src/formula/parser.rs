use vstd::prelude::*;

use super::error::FormulaError;
use super::chars::{is_ascii_letter, is_digit_char};
use super::lexer::{tokens_view, Token, TokenView};

verus! {

/// The tree a formula parses into.
#[derive(Debug, PartialEq)]
pub enum Expr {
    /// A numeric literal, as its source text.
    Number(String),
    /// A bare identifier not followed by `(`.
    Variable(String),
    /// Unary negation.
    Neg(Box<Expr>),
    /// A binary operation.
    BinOp { op: BinOp, lhs: Box<Expr>, rhs: Box<Expr> },
    /// A function call with its argument expressions, in order.
    Call { name: String, args: Vec<Expr> },
}

/// The binary operators of [`Expr::BinOp`].
#[derive(Debug, Clone, Copy, PartialEq, Eq, Structural)]
pub enum BinOp {
    Add,
    Sub,
    Mul,
    Div,
    Pow,
}

/// The mathematical content of an [`Expr`].
pub enum ExprView {
    Number(Seq<char>),
    Variable(Seq<char>),
    Neg(Box<ExprView>),
    BinOp { op: BinOp, lhs: Box<ExprView>, rhs: Box<ExprView> },
    Call { name: Seq<char>, args: Seq<ExprView> },
}

/// The view of one expression.
pub open spec fn expr_view(e: Expr) -> ExprView
    decreases e,
{
    match e {
        Expr::Number(s) => ExprView::Number(s@),
        Expr::Variable(s) => ExprView::Variable(s@),
        Expr::Neg(inner) => ExprView::Neg(Box::new(expr_view(*inner))),
        Expr::BinOp { op, lhs, rhs } => ExprView::BinOp {
            op,
            lhs: Box::new(expr_view(*lhs)),
            rhs: Box::new(expr_view(*rhs)),
        },
        Expr::Call { name, args } => ExprView::Call { name: name@, args: exprs_view(args@) },
    }
}

/// The views of a sequence of expressions.
pub open spec fn exprs_view(s: Seq<Expr>) -> Seq<ExprView>
    decreases s,
{
    if s.len() == 0 {
        Seq::empty()
    } else {
        exprs_view(s.drop_last()).push(expr_view(s.last()))
    }
}

impl View for Expr {
    type V = ExprView;

    open spec fn view(&self) -> ExprView {
        expr_view(*self)
    }
}

/// Why a token sequence does not parse: an unexpected token at an index,
/// or running out of tokens.
pub enum ParseFailure {
    UnexpectedAt(int),
    Eof,
}

/// A parsing step's outcome: the expression and the index just past it.
pub type Parsed = Result<(ExprView, int), ParseFailure>;

/// A token sequence the parser accepts as input: non-empty and ending in
/// `Eof` (as `tokenize` produces).
pub open spec fn well_terminated(t: Seq<TokenView>) -> bool {
    t.len() > 0 && t.last() is Eof
}

/// `expr := term (("+" | "-") term)*`, left-associative, at index `p`.
pub open spec fn parse_expr_at(t: Seq<TokenView>, p: int) -> Parsed
    decreases t.len() - p, 6int,
{
    if !(0 <= p < t.len()) {
        Err(ParseFailure::Eof)
    } else {
        match parse_term_at(t, p) {
            Err(f) => Err(f),
            Ok((lhs, p1)) => if p < p1 < t.len() {
                parse_expr_rest(t, lhs, p1)
            } else {
                Err(ParseFailure::Eof)
            },
        }
    }
}

/// The `(("+" | "-") term)*` part of `expr`, folding into `lhs`.
pub open spec fn parse_expr_rest(t: Seq<TokenView>, lhs: ExprView, p: int) -> Parsed
    decreases t.len() - p, 5int,
{
    if !(0 <= p < t.len()) {
        Err(ParseFailure::Eof)
    } else {
        let op = match t[p] {
            TokenView::Plus => Some(BinOp::Add),
            TokenView::Minus => Some(BinOp::Sub),
            _ => None,
        };
        match op {
            None => Ok((lhs, p)),
            Some(op) => if p + 1 < t.len() {
                match parse_term_at(t, p + 1) {
                    Err(f) => Err(f),
                    Ok((rhs, p2)) => if p + 1 < p2 < t.len() {
                        parse_expr_rest(
                            t,
                            ExprView::BinOp { op, lhs: Box::new(lhs), rhs: Box::new(rhs) },
                            p2,
                        )
                    } else {
                        Err(ParseFailure::Eof)
                    },
                }
            } else {
                Err(ParseFailure::Eof)
            },
        }
    }
}

/// `term := unary (("*" | "/") unary)*`, left-associative, at index `p`.
pub open spec fn parse_term_at(t: Seq<TokenView>, p: int) -> Parsed
    decreases t.len() - p, 4int,
{
    if !(0 <= p < t.len()) {
        Err(ParseFailure::Eof)
    } else {
        match parse_unary_at(t, p) {
            Err(f) => Err(f),
            Ok((lhs, p1)) => if p < p1 < t.len() {
                parse_term_rest(t, lhs, p1)
            } else {
                Err(ParseFailure::Eof)
            },
        }
    }
}

/// The `(("*" | "/") unary)*` part of `term`, folding into `lhs`.
pub open spec fn parse_term_rest(t: Seq<TokenView>, lhs: ExprView, p: int) -> Parsed
    decreases t.len() - p, 3int,
{
    if !(0 <= p < t.len()) {
        Err(ParseFailure::Eof)
    } else {
        let op = match t[p] {
            TokenView::Star => Some(BinOp::Mul),
            TokenView::Slash => Some(BinOp::Div),
            _ => None,
        };
        match op {
            None => Ok((lhs, p)),
            Some(op) => if p + 1 < t.len() {
                match parse_unary_at(t, p + 1) {
                    Err(f) => Err(f),
                    Ok((rhs, p2)) => if p + 1 < p2 < t.len() {
                        parse_term_rest(
                            t,
                            ExprView::BinOp { op, lhs: Box::new(lhs), rhs: Box::new(rhs) },
                            p2,
                        )
                    } else {
                        Err(ParseFailure::Eof)
                    },
                }
            } else {
                Err(ParseFailure::Eof)
            },
        }
    }
}

/// `unary := "-" unary | power`: a leading minus covers a whole power.
pub open spec fn parse_unary_at(t: Seq<TokenView>, p: int) -> Parsed
    decreases t.len() - p, 2int,
{
    if !(0 <= p < t.len()) {
        Err(ParseFailure::Eof)
    } else {
        match t[p] {
            TokenView::Minus => if p + 1 < t.len() {
                match parse_unary_at(t, p + 1) {
                    Err(f) => Err(f),
                    Ok((operand, p1)) => Ok((ExprView::Neg(Box::new(operand)), p1)),
                }
            } else {
                Err(ParseFailure::Eof)
            },
            _ => parse_power_at(t, p),
        }
    }
}

/// `power := primary ("^" unary)?`: right-associative, with a signed
/// exponent allowed.
pub open spec fn parse_power_at(t: Seq<TokenView>, p: int) -> Parsed
    decreases t.len() - p, 1int,
{
    if !(0 <= p < t.len()) {
        Err(ParseFailure::Eof)
    } else {
        match parse_primary_at(t, p) {
            Err(f) => Err(f),
            Ok((base, p1)) => if p < p1 < t.len() {
                match t[p1] {
                    TokenView::Caret => if p1 + 1 < t.len() {
                        match parse_unary_at(t, p1 + 1) {
                            Err(f) => Err(f),
                            Ok((exponent, p2)) => Ok(
                                (
                                    ExprView::BinOp {
                                        op: BinOp::Pow,
                                        lhs: Box::new(base),
                                        rhs: Box::new(exponent),
                                    },
                                    p2,
                                ),
                            ),
                        }
                    } else {
                        Err(ParseFailure::Eof)
                    },
                    _ => Ok((base, p1)),
                }
            } else {
                Err(ParseFailure::Eof)
            },
        }
    }
}

/// The closing `)` at index `q`: the index past it, or the failure.
pub open spec fn expect_rparen_at(t: Seq<TokenView>, q: int) -> Result<int, ParseFailure> {
    if !(0 <= q < t.len()) {
        Err(ParseFailure::Eof)
    } else {
        match t[q] {
            TokenView::RParen => if q + 1 < t.len() {
                Ok(q + 1)
            } else {
                Err(ParseFailure::Eof)
            },
            TokenView::Eof => Err(ParseFailure::Eof),
            _ => Err(ParseFailure::UnexpectedAt(q)),
        }
    }
}

/// `primary := NUMBER | IDENT ("(" (expr ("," expr)*)? ")")? | "(" expr ")"`.
pub open spec fn parse_primary_at(t: Seq<TokenView>, p: int) -> Parsed
    decreases t.len() - p, 0int,
{
    if !(0 <= p < t.len()) || p + 1 >= t.len() {
        Err(ParseFailure::Eof)
    } else {
        match t[p] {
            TokenView::Number(text) => Ok((ExprView::Number(text), p + 1)),
            TokenView::Ident(name) => match t[p + 1] {
                TokenView::LParen => {
                    let q = p + 2;
                    if q >= t.len() {
                        Err(ParseFailure::Eof)
                    } else {
                        match t[q] {
                            TokenView::RParen => match expect_rparen_at(t, q) {
                                Err(f) => Err(f),
                                Ok(q1) => Ok((ExprView::Call { name, args: Seq::empty() }, q1)),
                            },
                            _ => match parse_expr_at(t, q) {
                                Err(f) => Err(f),
                                Ok((first, q1)) => if q < q1 < t.len() {
                                    parse_args_rest(t, name, seq![first], q1)
                                } else {
                                    Err(ParseFailure::Eof)
                                },
                            },
                        }
                    }
                },
                _ => Ok((ExprView::Variable(name), p + 1)),
            },
            TokenView::LParen => match parse_expr_at(t, p + 1) {
                Err(f) => Err(f),
                Ok((inner, q1)) => if p + 1 < q1 < t.len() {
                    match expect_rparen_at(t, q1) {
                        Err(f) => Err(f),
                        Ok(q2) => Ok((inner, q2)),
                    }
                } else {
                    Err(ParseFailure::Eof)
                },
            },
            TokenView::Eof => Err(ParseFailure::Eof),
            _ => Err(ParseFailure::UnexpectedAt(p)),
        }
    }
}

/// The `("," expr)* ")"` part of a call's argument list, collecting into
/// `args`.
pub open spec fn parse_args_rest(t: Seq<TokenView>, name: Seq<char>, args: Seq<ExprView>, q: int) -> Parsed
    decreases t.len() - q, 0int,
{
    if !(0 <= q < t.len()) {
        Err(ParseFailure::Eof)
    } else {
        match t[q] {
            TokenView::Comma => if q + 1 < t.len() {
                match parse_expr_at(t, q + 1) {
                    Err(f) => Err(f),
                    Ok((e, q2)) => if q + 1 < q2 < t.len() {
                        parse_args_rest(t, name, args.push(e), q2)
                    } else {
                        Err(ParseFailure::Eof)
                    },
                }
            } else {
                Err(ParseFailure::Eof)
            },
            _ => match expect_rparen_at(t, q) {
                Err(f) => Err(f),
                Ok(q1) => Ok((ExprView::Call { name, args }, q1)),
            },
        }
    }
}

/// A whole token sequence as one expression followed by `Eof`.
pub open spec fn parse_tokens(t: Seq<TokenView>) -> Result<ExprView, ParseFailure> {
    match parse_expr_at(t, 0) {
        Err(f) => Err(f),
        Ok((e, p)) => if 0 <= p < t.len() && t[p] is Eof {
            Ok(e)
        } else {
            Err(ParseFailure::UnexpectedAt(p))
        },
    }
}

/// Result of std's `Debug` formatting of a string holding `x`: `x` in
/// double quotes, with std's escapes.
pub uninterp spec fn str_debug_text(x: Seq<char>) -> Seq<char>;

/// A text that `Debug` prints without escapes: ASCII letters, digits, `_`
/// and `.` only.
pub open spec fn is_plain_text(x: Seq<char>) -> bool {
    forall|i: int|
        0 <= i < x.len() ==> is_ascii_letter(#[trigger] x[i]) || is_digit_char(x[i]) || x[i]
            == '_' || x[i] == '.'
}

/// The `Debug` text of a string holding `x`: a plain text in double
/// quotes, otherwise std's escaped form.
pub open spec fn quoted_text(x: Seq<char>) -> Seq<char> {
    if is_plain_text(x) {
        seq!['"'] + x + seq!['"']
    } else {
        str_debug_text(x)
    }
}

/// The derived `Debug` text of a token (as `{:?}` prints it), the text
/// parse errors report: the variant's name, and for a number or an
/// identifier its quoted text in parentheses.
pub open spec fn token_debug_text(t: TokenView) -> Seq<char> {
    match t {
        TokenView::Number(x) => "Number("@ + quoted_text(x) + ")"@,
        TokenView::Ident(x) => "Ident("@ + quoted_text(x) + ")"@,
        TokenView::Plus => "Plus"@,
        TokenView::Minus => "Minus"@,
        TokenView::Star => "Star"@,
        TokenView::Slash => "Slash"@,
        TokenView::Caret => "Caret"@,
        TokenView::LParen => "LParen"@,
        TokenView::RParen => "RParen"@,
        TokenView::Comma => "Comma"@,
        TokenView::Eof => "Eof"@,
    }
}

/// Formats `t` with its derived `Debug` implementation (`format!`): the
/// variant name, with a number's or identifier's text quoted in
/// parentheses; std's escaping of other texts is named, not restated.
#[verifier::external_body]
fn describe_token(t: &Token) -> (r: String)
    ensures
        r@ == token_debug_text(t@),
        match t@ {
            TokenView::Ident(x) => !is_plain_text(x) ==> r@ == "Ident("@ + str_debug_text(x) + ")"@,
            _ => true,
        },
{
    format!("{:?}", t)
}

/// The error a failure is reported as.
pub open spec fn failure_matches(err: FormulaError, f: ParseFailure, toks: Seq<Token>) -> bool {
    match f {
        ParseFailure::Eof => err is UnexpectedEof,
        ParseFailure::UnexpectedAt(k) => match err {
            FormulaError::UnexpectedToken { found, pos } => pos == k && 0 <= k < toks.len()
                && found@ == token_debug_text(toks[k]@),
            _ => false,
        },
    }
}

/// An executable parsing step agrees with its specification.
pub open spec fn step_matches(
    res: Result<(Expr, usize), FormulaError>,
    sp: Parsed,
    toks: Seq<Token>,
) -> bool {
    match res {
        Ok((e, q)) => sp == Parsed::Ok((e@, q as int)),
        Err(err) => match sp {
            Err(f) => failure_matches(err, f, toks),
            Ok(_) => false,
        },
    }
}

proof fn lemma_exprs_view_push(s: Seq<Expr>, e: Expr)
    ensures
        exprs_view(s.push(e)) == exprs_view(s).push(e@),
{
    assert(s.push(e).drop_last() =~= s);
}

fn unexpected(t: &[Token], k: usize) -> (err: FormulaError)
    requires
        k < t@.len(),
    ensures
        failure_matches(err, ParseFailure::UnexpectedAt(k as int), t@),
{
    FormulaError::UnexpectedToken { found: describe_token(&t[k]), pos: k }
}

fn parse_expr(t: &[Token], p: usize) -> (res: Result<(Expr, usize), FormulaError>)
    requires
        well_terminated(tokens_view(t@)),
        p < t@.len(),
    ensures
        step_matches(res, parse_expr_at(tokens_view(t@), p as int), t@),
        res matches Ok((_, q)) ==> p < q < t@.len(),
    decreases t@.len() - p, 6int,
{
    let ghost tv = tokens_view(t@);
    let (mut lhs, mut pos) = match parse_term(t, p) {
        Ok(r) => r,
        Err(e) => return Err(e),
    };
    loop
        invariant
            tv == tokens_view(t@),
            well_terminated(tv),
            p < pos < t@.len(),
            parse_expr_at(tv, p as int) == parse_expr_rest(tv, lhs@, pos as int),
        ensures
            p < pos < t@.len(),
            parse_expr_at(tv, p as int) == Parsed::Ok((lhs@, pos as int)),
        decreases t@.len() - pos,
    {
        let op = match &t[pos] {
            Token::Plus => BinOp::Add,
            Token::Minus => BinOp::Sub,
            _ => break,
        };
        assert(tv[pos as int] == t@[pos as int]@);
        match parse_term(t, pos + 1) {
            Err(e) => return Err(e),
            Ok((rhs, p2)) => {
                lhs = Expr::BinOp { op, lhs: Box::new(lhs), rhs: Box::new(rhs) };
                pos = p2;
            },
        }
    }
    Ok((lhs, pos))
}

fn parse_term(t: &[Token], p: usize) -> (res: Result<(Expr, usize), FormulaError>)
    requires
        well_terminated(tokens_view(t@)),
        p < t@.len(),
    ensures
        step_matches(res, parse_term_at(tokens_view(t@), p as int), t@),
        res matches Ok((_, q)) ==> p < q < t@.len(),
    decreases t@.len() - p, 4int,
{
    let ghost tv = tokens_view(t@);
    let (mut lhs, mut pos) = match parse_unary(t, p) {
        Ok(r) => r,
        Err(e) => return Err(e),
    };
    loop
        invariant
            tv == tokens_view(t@),
            well_terminated(tv),
            p < pos < t@.len(),
            parse_term_at(tv, p as int) == parse_term_rest(tv, lhs@, pos as int),
        ensures
            p < pos < t@.len(),
            parse_term_at(tv, p as int) == Parsed::Ok((lhs@, pos as int)),
        decreases t@.len() - pos,
    {
        let op = match &t[pos] {
            Token::Star => BinOp::Mul,
            Token::Slash => BinOp::Div,
            _ => break,
        };
        assert(tv[pos as int] == t@[pos as int]@);
        match parse_unary(t, pos + 1) {
            Err(e) => return Err(e),
            Ok((rhs, p2)) => {
                lhs = Expr::BinOp { op, lhs: Box::new(lhs), rhs: Box::new(rhs) };
                pos = p2;
            },
        }
    }
    Ok((lhs, pos))
}

fn parse_unary(t: &[Token], p: usize) -> (res: Result<(Expr, usize), FormulaError>)
    requires
        well_terminated(tokens_view(t@)),
        p < t@.len(),
    ensures
        step_matches(res, parse_unary_at(tokens_view(t@), p as int), t@),
        res matches Ok((_, q)) ==> p < q < t@.len(),
    decreases t@.len() - p, 2int,
{
    let ghost tv = tokens_view(t@);
    assert(tv[p as int] == t@[p as int]@);
    match &t[p] {
        Token::Minus => {
            match parse_unary(t, p + 1) {
                Err(e) => Err(e),
                Ok((operand, p1)) => Ok((Expr::Neg(Box::new(operand)), p1)),
            }
        },
        _ => parse_power(t, p),
    }
}

fn parse_power(t: &[Token], p: usize) -> (res: Result<(Expr, usize), FormulaError>)
    requires
        well_terminated(tokens_view(t@)),
        p < t@.len(),
    ensures
        step_matches(res, parse_power_at(tokens_view(t@), p as int), t@),
        res matches Ok((_, q)) ==> p < q < t@.len(),
    decreases t@.len() - p, 1int,
{
    let ghost tv = tokens_view(t@);
    let (base, p1) = match parse_primary(t, p) {
        Ok(r) => r,
        Err(e) => return Err(e),
    };
    assert(tv[p1 as int] == t@[p1 as int]@);
    match &t[p1] {
        Token::Caret => {
            match parse_unary(t, p1 + 1) {
                Err(e) => Err(e),
                Ok((exponent, p2)) => Ok(
                    (Expr::BinOp { op: BinOp::Pow, lhs: Box::new(base), rhs: Box::new(exponent) }, p2),
                ),
            }
        },
        _ => Ok((base, p1)),
    }
}

fn expect_rparen(t: &[Token], q: usize) -> (res: Result<usize, FormulaError>)
    requires
        well_terminated(tokens_view(t@)),
        q < t@.len(),
    ensures
        match (res, expect_rparen_at(tokens_view(t@), q as int)) {
            (Ok(a), Ok(b)) => a == b,
            (Err(err), Err(f)) => failure_matches(err, f, t@),
            _ => false,
        },
{
    let ghost tv = tokens_view(t@);
    assert(tv[q as int] == t@[q as int]@);
    match &t[q] {
        Token::RParen => Ok(q + 1),
        Token::Eof => Err(FormulaError::UnexpectedEof),
        _ => Err(unexpected(t, q)),
    }
}

fn parse_primary(t: &[Token], p: usize) -> (res: Result<(Expr, usize), FormulaError>)
    requires
        well_terminated(tokens_view(t@)),
        p < t@.len(),
    ensures
        step_matches(res, parse_primary_at(tokens_view(t@), p as int), t@),
        res matches Ok((_, q)) ==> p < q < t@.len(),
    decreases t@.len() - p, 0int,
{
    let ghost tv = tokens_view(t@);
    if p + 1 >= t.len() {
        return Err(FormulaError::UnexpectedEof);
    }
    assert(tv[p as int] == t@[p as int]@);
    assert(tv[p + 1] == t@[p + 1]@);
    match &t[p] {
        Token::Number(text) => Ok((Expr::Number(text.clone()), p + 1)),
        Token::Ident(name) => {
            match &t[p + 1] {
                Token::LParen => {
                    let q = p + 2;
                    assert(tv[q as int] == t@[q as int]@);
                    let mut args: Vec<Expr> = Vec::new();
                    match &t[q] {
                        Token::RParen => {
                            let q1 = match expect_rparen(t, q) {
                                Ok(q1) => q1,
                                Err(e) => return Err(e),
                            };
                            proof {
                                assert(exprs_view(args@) =~= Seq::<ExprView>::empty());
                            }
                            return Ok((Expr::Call { name: name.clone(), args }, q1));
                        },
                        _ => {},
                    }
                    let (first, q1) = match parse_expr(t, q) {
                        Ok(r) => r,
                        Err(e) => return Err(e),
                    };
                    proof {
                        lemma_exprs_view_push(args@, first);
                        assert(exprs_view(args@) =~= Seq::<ExprView>::empty());
                        assert(seq![first@] =~= Seq::<ExprView>::empty().push(first@));
                    }
                    args.push(first);
                    let mut pos = q1;
                    loop
                        invariant
                            tv == tokens_view(t@),
                            well_terminated(tv),
                            p + 2 < pos < t@.len(),
                            tv[p as int] == TokenView::Ident(name@),
                            parse_primary_at(tv, p as int) == parse_args_rest(
                                tv,
                                name@,
                                exprs_view(args@),
                                pos as int,
                            ),
                        ensures
                            p + 2 < pos < t@.len(),
                            !(tv[pos as int] is Comma),
                            parse_primary_at(tv, p as int) == parse_args_rest(
                                tv,
                                name@,
                                exprs_view(args@),
                                pos as int,
                            ),
                        decreases t@.len() - pos,
                    {
                        assert(tv[pos as int] == t@[pos as int]@);
                        match &t[pos] {
                            Token::Comma => {},
                            _ => break,
                        }
                        let (e, q2) = match parse_expr(t, pos + 1) {
                            Ok(r) => r,
                            Err(err) => return Err(err),
                        };
                        proof {
                            lemma_exprs_view_push(args@, e);
                        }
                        args.push(e);
                        pos = q2;
                    }
                    let q2 = match expect_rparen(t, pos) {
                        Ok(q2) => q2,
                        Err(e) => return Err(e),
                    };
                    Ok((Expr::Call { name: name.clone(), args }, q2))
                },
                _ => Ok((Expr::Variable(name.clone()), p + 1)),
            }
        },
        Token::LParen => {
            let (inner, q1) = match parse_expr(t, p + 1) {
                Ok(r) => r,
                Err(e) => return Err(e),
            };
            let q2 = match expect_rparen(t, q1) {
                Ok(q2) => q2,
                Err(e) => return Err(e),
            };
            Ok((inner, q2))
        },
        Token::Eof => Err(FormulaError::UnexpectedEof),
        _ => Err(unexpected(t, p)),
    }
}

/// Parses a whole token stream (as `tokenize` produces: non-empty, ending
/// in `Eof`) into one expression; tokens left over after a complete
/// expression are an error. The outcome is exactly `parse_tokens`: `Ok`
/// with the tree's view, `UnexpectedEof`, or `UnexpectedToken` naming the
/// token index and that token's debug text.
pub fn parse(tokens: &[Token]) -> (res: Result<Expr, FormulaError>)
    requires
        well_terminated(tokens_view(tokens@)),
    ensures
        match (res, parse_tokens(tokens_view(tokens@))) {
            (Ok(e), Ok(ev)) => e@ == ev,
            (Err(err), Err(f)) => failure_matches(err, f, tokens@),
            _ => false,
        },
{
    let ghost tv = tokens_view(tokens@);
    let (expr, pos) = match parse_expr(tokens, 0) {
        Ok(r) => r,
        Err(e) => return Err(e),
    };
    assert(tv[pos as int] == tokens@[pos as int]@);
    match &tokens[pos] {
        Token::Eof => Ok(expr),
        _ => Err(unexpected(tokens, pos)),
    }
}


/// The expression `base ^ exponent`.
pub open spec fn pow_view(base: ExprView, exponent: ExprView) -> ExprView {
    ExprView::BinOp { op: BinOp::Pow, lhs: Box::new(base), rhs: Box::new(exponent) }
}

/// A signed exponent: `a ^ - b` reads as `a` raised to the negation of
/// `b`, for every pair of number literals.
pub proof fn law_power_takes_signed_exponent(a: Seq<char>, b: Seq<char>)
    ensures
        parse_tokens(
            seq![
                TokenView::Number(a),
                TokenView::Caret,
                TokenView::Minus,
                TokenView::Number(b),
                TokenView::Eof,
            ],
        ) == Ok::<ExprView, ParseFailure>(
            pow_view(ExprView::Number(a), ExprView::Neg(Box::new(ExprView::Number(b)))),
        ),
{
    let t = seq![
        TokenView::Number(a),
        TokenView::Caret,
        TokenView::Minus,
        TokenView::Number(b),
        TokenView::Eof,
    ];
    let nb = ExprView::Number(b);
    let neg = ExprView::Neg(Box::new(nb));
    let e = pow_view(ExprView::Number(a), neg);
    assert(parse_primary_at(t, 3) == Ok::<(ExprView, int), ParseFailure>((nb, 4)));
    assert(parse_power_at(t, 3) == Ok::<(ExprView, int), ParseFailure>((nb, 4)));
    assert(parse_unary_at(t, 3) == Ok::<(ExprView, int), ParseFailure>((nb, 4)));
    assert(parse_unary_at(t, 2) == Ok::<(ExprView, int), ParseFailure>((neg, 4)));
    assert(parse_primary_at(t, 0) == Ok::<(ExprView, int), ParseFailure>((ExprView::Number(a), 1)));
    assert(parse_power_at(t, 0) == Ok::<(ExprView, int), ParseFailure>((e, 4)));
    assert(parse_unary_at(t, 0) == Ok::<(ExprView, int), ParseFailure>((e, 4)));
    assert(parse_term_rest(t, e, 4) == Ok::<(ExprView, int), ParseFailure>((e, 4)));
    assert(parse_term_at(t, 0) == Ok::<(ExprView, int), ParseFailure>((e, 4)));
    assert(parse_expr_rest(t, e, 4) == Ok::<(ExprView, int), ParseFailure>((e, 4)));
    assert(parse_expr_at(t, 0) == Ok::<(ExprView, int), ParseFailure>((e, 4)));
}

/// Powers group to the right: `a ^ b ^ c` reads as `a ^ (b ^ c)`, for
/// every three number literals.
pub proof fn law_power_is_right_associative(a: Seq<char>, b: Seq<char>, c: Seq<char>)
    ensures
        parse_tokens(
            seq![
                TokenView::Number(a),
                TokenView::Caret,
                TokenView::Number(b),
                TokenView::Caret,
                TokenView::Number(c),
                TokenView::Eof,
            ],
        ) == Ok::<ExprView, ParseFailure>(
            pow_view(ExprView::Number(a), pow_view(ExprView::Number(b), ExprView::Number(c))),
        ),
{
    let t = seq![
        TokenView::Number(a),
        TokenView::Caret,
        TokenView::Number(b),
        TokenView::Caret,
        TokenView::Number(c),
        TokenView::Eof,
    ];
    let nc = ExprView::Number(c);
    let inner = pow_view(ExprView::Number(b), nc);
    let e = pow_view(ExprView::Number(a), inner);
    assert(parse_primary_at(t, 4) == Ok::<(ExprView, int), ParseFailure>((nc, 5)));
    assert(parse_power_at(t, 4) == Ok::<(ExprView, int), ParseFailure>((nc, 5)));
    assert(parse_unary_at(t, 4) == Ok::<(ExprView, int), ParseFailure>((nc, 5)));
    assert(parse_primary_at(t, 2) == Ok::<(ExprView, int), ParseFailure>((ExprView::Number(b), 3)));
    assert(parse_power_at(t, 2) == Ok::<(ExprView, int), ParseFailure>((inner, 5)));
    assert(parse_unary_at(t, 2) == Ok::<(ExprView, int), ParseFailure>((inner, 5)));
    assert(parse_primary_at(t, 0) == Ok::<(ExprView, int), ParseFailure>((ExprView::Number(a), 1)));
    assert(parse_power_at(t, 0) == Ok::<(ExprView, int), ParseFailure>((e, 5)));
    assert(parse_unary_at(t, 0) == Ok::<(ExprView, int), ParseFailure>((e, 5)));
    assert(parse_term_rest(t, e, 5) == Ok::<(ExprView, int), ParseFailure>((e, 5)));
    assert(parse_term_at(t, 0) == Ok::<(ExprView, int), ParseFailure>((e, 5)));
    assert(parse_expr_rest(t, e, 5) == Ok::<(ExprView, int), ParseFailure>((e, 5)));
    assert(parse_expr_at(t, 0) == Ok::<(ExprView, int), ParseFailure>((e, 5)));
}

/// A leading minus covers the whole power: `- a ^ b` reads as
/// `-(a ^ b)`, for every two number literals.
pub proof fn law_minus_covers_power(a: Seq<char>, b: Seq<char>)
    ensures
        parse_tokens(
            seq![
                TokenView::Minus,
                TokenView::Number(a),
                TokenView::Caret,
                TokenView::Number(b),
                TokenView::Eof,
            ],
        ) == Ok::<ExprView, ParseFailure>(
            ExprView::Neg(Box::new(pow_view(ExprView::Number(a), ExprView::Number(b)))),
        ),
{
    let t = seq![
        TokenView::Minus,
        TokenView::Number(a),
        TokenView::Caret,
        TokenView::Number(b),
        TokenView::Eof,
    ];
    let nb = ExprView::Number(b);
    let pw = pow_view(ExprView::Number(a), nb);
    let e = ExprView::Neg(Box::new(pw));
    assert(parse_primary_at(t, 3) == Ok::<(ExprView, int), ParseFailure>((nb, 4)));
    assert(parse_power_at(t, 3) == Ok::<(ExprView, int), ParseFailure>((nb, 4)));
    assert(parse_unary_at(t, 3) == Ok::<(ExprView, int), ParseFailure>((nb, 4)));
    assert(parse_primary_at(t, 1) == Ok::<(ExprView, int), ParseFailure>((ExprView::Number(a), 2)));
    assert(parse_power_at(t, 1) == Ok::<(ExprView, int), ParseFailure>((pw, 4)));
    assert(parse_unary_at(t, 1) == Ok::<(ExprView, int), ParseFailure>((pw, 4)));
    assert(parse_unary_at(t, 0) == Ok::<(ExprView, int), ParseFailure>((e, 4)));
    assert(parse_term_rest(t, e, 4) == Ok::<(ExprView, int), ParseFailure>((e, 4)));
    assert(parse_term_at(t, 0) == Ok::<(ExprView, int), ParseFailure>((e, 4)));
    assert(parse_expr_rest(t, e, 4) == Ok::<(ExprView, int), ParseFailure>((e, 4)));
    assert(parse_expr_at(t, 0) == Ok::<(ExprView, int), ParseFailure>((e, 4)));
}


/// The expression `lhs op rhs`.
pub open spec fn bin_view(op: BinOp, lhs: ExprView, rhs: ExprView) -> ExprView {
    ExprView::BinOp { op, lhs: Box::new(lhs), rhs: Box::new(rhs) }
}

/// Products bind tighter than sums: `a + b * c` reads as `a + (b * c)`,
/// for every three number literals.
pub proof fn law_product_binds_tighter_than_sum(a: Seq<char>, b: Seq<char>, c: Seq<char>)
    ensures
        parse_tokens(
            seq![
                TokenView::Number(a),
                TokenView::Plus,
                TokenView::Number(b),
                TokenView::Star,
                TokenView::Number(c),
                TokenView::Eof,
            ],
        ) == Ok::<ExprView, ParseFailure>(
            bin_view(
                BinOp::Add,
                ExprView::Number(a),
                bin_view(BinOp::Mul, ExprView::Number(b), ExprView::Number(c)),
            ),
        ),
{
    let t = seq![
        TokenView::Number(a),
        TokenView::Plus,
        TokenView::Number(b),
        TokenView::Star,
        TokenView::Number(c),
        TokenView::Eof,
    ];
    let na = ExprView::Number(a);
    let nb = ExprView::Number(b);
    let nc = ExprView::Number(c);
    let prod = bin_view(BinOp::Mul, nb, nc);
    let e = bin_view(BinOp::Add, na, prod);
    assert(parse_primary_at(t, 0) == Ok::<(ExprView, int), ParseFailure>((na, 1)));
    assert(parse_power_at(t, 0) == Ok::<(ExprView, int), ParseFailure>((na, 1)));
    assert(parse_unary_at(t, 0) == Ok::<(ExprView, int), ParseFailure>((na, 1)));
    assert(parse_term_rest(t, na, 1) == Ok::<(ExprView, int), ParseFailure>((na, 1)));
    assert(parse_term_at(t, 0) == Ok::<(ExprView, int), ParseFailure>((na, 1)));
    assert(parse_primary_at(t, 4) == Ok::<(ExprView, int), ParseFailure>((nc, 5)));
    assert(parse_power_at(t, 4) == Ok::<(ExprView, int), ParseFailure>((nc, 5)));
    assert(parse_unary_at(t, 4) == Ok::<(ExprView, int), ParseFailure>((nc, 5)));
    assert(parse_primary_at(t, 2) == Ok::<(ExprView, int), ParseFailure>((nb, 3)));
    assert(parse_power_at(t, 2) == Ok::<(ExprView, int), ParseFailure>((nb, 3)));
    assert(parse_unary_at(t, 2) == Ok::<(ExprView, int), ParseFailure>((nb, 3)));
    assert(parse_term_rest(t, prod, 5) == Ok::<(ExprView, int), ParseFailure>((prod, 5)));
    assert(parse_term_rest(t, nb, 3) == Ok::<(ExprView, int), ParseFailure>((prod, 5)));
    assert(parse_term_at(t, 2) == Ok::<(ExprView, int), ParseFailure>((prod, 5)));
    assert(parse_expr_rest(t, e, 5) == Ok::<(ExprView, int), ParseFailure>((e, 5)));
    assert(parse_expr_rest(t, na, 1) == Ok::<(ExprView, int), ParseFailure>((e, 5)));
    assert(parse_expr_at(t, 0) == Ok::<(ExprView, int), ParseFailure>((e, 5)));
}

/// Differences group to the left: `a - b - c` reads as `(a - b) - c`,
/// for every three number literals.
pub proof fn law_difference_is_left_associative(a: Seq<char>, b: Seq<char>, c: Seq<char>)
    ensures
        parse_tokens(
            seq![
                TokenView::Number(a),
                TokenView::Minus,
                TokenView::Number(b),
                TokenView::Minus,
                TokenView::Number(c),
                TokenView::Eof,
            ],
        ) == Ok::<ExprView, ParseFailure>(
            bin_view(
                BinOp::Sub,
                bin_view(BinOp::Sub, ExprView::Number(a), ExprView::Number(b)),
                ExprView::Number(c),
            ),
        ),
{
    let t = seq![
        TokenView::Number(a),
        TokenView::Minus,
        TokenView::Number(b),
        TokenView::Minus,
        TokenView::Number(c),
        TokenView::Eof,
    ];
    let na = ExprView::Number(a);
    let nb = ExprView::Number(b);
    let nc = ExprView::Number(c);
    let d1 = bin_view(BinOp::Sub, na, nb);
    let e = bin_view(BinOp::Sub, d1, nc);
    assert(parse_primary_at(t, 0) == Ok::<(ExprView, int), ParseFailure>((na, 1)));
    assert(parse_power_at(t, 0) == Ok::<(ExprView, int), ParseFailure>((na, 1)));
    assert(parse_unary_at(t, 0) == Ok::<(ExprView, int), ParseFailure>((na, 1)));
    assert(parse_term_rest(t, na, 1) == Ok::<(ExprView, int), ParseFailure>((na, 1)));
    assert(parse_term_at(t, 0) == Ok::<(ExprView, int), ParseFailure>((na, 1)));
    assert(parse_primary_at(t, 2) == Ok::<(ExprView, int), ParseFailure>((nb, 3)));
    assert(parse_power_at(t, 2) == Ok::<(ExprView, int), ParseFailure>((nb, 3)));
    assert(parse_unary_at(t, 2) == Ok::<(ExprView, int), ParseFailure>((nb, 3)));
    assert(parse_term_rest(t, nb, 3) == Ok::<(ExprView, int), ParseFailure>((nb, 3)));
    assert(parse_term_at(t, 2) == Ok::<(ExprView, int), ParseFailure>((nb, 3)));
    assert(parse_primary_at(t, 4) == Ok::<(ExprView, int), ParseFailure>((nc, 5)));
    assert(parse_power_at(t, 4) == Ok::<(ExprView, int), ParseFailure>((nc, 5)));
    assert(parse_unary_at(t, 4) == Ok::<(ExprView, int), ParseFailure>((nc, 5)));
    assert(parse_term_rest(t, nc, 5) == Ok::<(ExprView, int), ParseFailure>((nc, 5)));
    assert(parse_term_at(t, 4) == Ok::<(ExprView, int), ParseFailure>((nc, 5)));
    assert(parse_expr_rest(t, e, 5) == Ok::<(ExprView, int), ParseFailure>((e, 5)));
    assert(parse_expr_rest(t, d1, 3) == Ok::<(ExprView, int), ParseFailure>((e, 5)));
    assert(parse_expr_rest(t, na, 1) == Ok::<(ExprView, int), ParseFailure>((e, 5)));
    assert(parse_expr_at(t, 0) == Ok::<(ExprView, int), ParseFailure>((e, 5)));
}

} // verus!
