//! The recursive-descent parser. Grammar, with left-associative binary
//! operators and a right-binding unary minus:
//!
//! ```text
//! expr    := term (('+' | '-') term)*
//! term    := unary (('*' | '/') unary)*
//! unary   := '-' unary | primary
//! primary := NUMBER | '(' expr ')'
//! ```

use crate::lexer::{Tok, TokKind};
use vstd::prelude::*;

verus! {

/// A binary arithmetic operator.
#[derive(Clone, Copy, PartialEq, Eq, Structural, Debug)]
pub enum Op {
    Add,
    Sub,
    Mul,
    Div,
}

/// An expression tree. A literal names its lexeme by where it starts and
/// ends in the expression text.
pub enum Ast {
    Lit { lo: usize, hi: usize },
    Neg { e: Box<Ast> },
    Bin { op: Op, l: Box<Ast>, r: Box<Ast> },
}

/// Why parsing failed: no tokens at all, a token that fits no grammar rule,
/// input that ends in the middle of a rule, or a parenthesis with no mate.
#[derive(Clone, Copy, PartialEq, Eq, Structural, Debug)]
pub enum ParseError {
    Empty,
    Unexpected { pos: usize },
    UnexpectedEnd,
    UnmatchedParen,
}

/// What `primary` parses from position `i` on: a number, or a
/// parenthesized expression.
pub open spec fn parse_primary_spec(ts: Seq<Tok>, i: int) -> Result<(Ast, int), ParseError>
    decreases ts.len() - i, 0int,
{
    if i < 0 || i >= ts.len() {
        Err(ParseError::UnexpectedEnd)
    } else {
        let t = ts[i];
        match t.kind {
            TokKind::Number { hi } => Ok((Ast::Lit { lo: t.pos, hi }, i + 1)),
            TokKind::LParen => match parse_expr_spec(ts, i + 1) {
                Ok((a, j)) => if j >= ts.len() {
                    Err(ParseError::UnmatchedParen)
                } else if ts[j].kind == TokKind::RParen {
                    Ok((a, j + 1))
                } else {
                    Err(ParseError::Unexpected { pos: ts[j].pos })
                },
                Err(e) => Err(e),
            },
            _ => Err(ParseError::Unexpected { pos: t.pos }),
        }
    }
}

/// What `unary` parses: a minus sign binds to the unary it precedes.
pub open spec fn parse_unary_spec(ts: Seq<Tok>, i: int) -> Result<(Ast, int), ParseError>
    decreases ts.len() - i, 1int,
{
    if i < 0 || i >= ts.len() {
        Err(ParseError::UnexpectedEnd)
    } else if ts[i].kind == TokKind::Minus {
        match parse_unary_spec(ts, i + 1) {
            Ok((a, j)) => Ok((Ast::Neg { e: Box::new(a) }, j)),
            Err(e) => Err(e),
        }
    } else {
        parse_primary_spec(ts, i)
    }
}

/// What `term` parses: a unary, then any run of `*` or `/` steps.
pub open spec fn parse_term_spec(ts: Seq<Tok>, i: int) -> Result<(Ast, int), ParseError>
    decreases ts.len() - i, 2int,
{
    match parse_unary_spec(ts, i) {
        Ok((a, j)) => if i < j && j <= ts.len() {
            // a parse step always moves forward; the bound check only serves termination
            parse_term_more_spec(ts, a, j)
        } else {
            Err(ParseError::UnexpectedEnd)
        },
        Err(e) => Err(e),
    }
}

/// Folds further `*` or `/` steps onto a parsed left operand, left to right.
pub open spec fn parse_term_more_spec(ts: Seq<Tok>, acc: Ast, i: int) -> Result<
    (Ast, int),
    ParseError,
>
    decreases ts.len() - i, 3int,
{
    if 0 <= i < ts.len() && (ts[i].kind == TokKind::Star || ts[i].kind == TokKind::Slash) {
        let op = if ts[i].kind == TokKind::Star {
            Op::Mul
        } else {
            Op::Div
        };
        match parse_unary_spec(ts, i + 1) {
            Ok((b, j)) => if i < j && j <= ts.len() {
                parse_term_more_spec(ts, Ast::Bin { op, l: Box::new(acc), r: Box::new(b) }, j)
            } else {
                Err(ParseError::UnexpectedEnd)
            },
            Err(e) => Err(e),
        }
    } else {
        Ok((acc, i))
    }
}

/// What `expr` parses: a term, then any run of `+` or `-` steps.
pub open spec fn parse_expr_spec(ts: Seq<Tok>, i: int) -> Result<(Ast, int), ParseError>
    decreases ts.len() - i, 4int,
{
    match parse_term_spec(ts, i) {
        Ok((a, j)) => if i < j && j <= ts.len() {
            parse_expr_more_spec(ts, a, j)
        } else {
            Err(ParseError::UnexpectedEnd)
        },
        Err(e) => Err(e),
    }
}

/// Folds further `+` or `-` steps onto a parsed left operand, left to right.
pub open spec fn parse_expr_more_spec(ts: Seq<Tok>, acc: Ast, i: int) -> Result<
    (Ast, int),
    ParseError,
>
    decreases ts.len() - i, 5int,
{
    if 0 <= i < ts.len() && (ts[i].kind == TokKind::Plus || ts[i].kind == TokKind::Minus) {
        let op = if ts[i].kind == TokKind::Plus {
            Op::Add
        } else {
            Op::Sub
        };
        match parse_term_spec(ts, i + 1) {
            Ok((b, j)) => if i < j && j <= ts.len() {
                parse_expr_more_spec(ts, Ast::Bin { op, l: Box::new(acc), r: Box::new(b) }, j)
            } else {
                Err(ParseError::UnexpectedEnd)
            },
            Err(e) => Err(e),
        }
    } else {
        Ok((acc, i))
    }
}

/// What `parse` returns on a whole token sequence: the tree of the one
/// expression the tokens spell, or the error. No tokens at all is `Empty`; a
/// leftover closing parenthesis is `UnmatchedParen`; any other leftover
/// token is `Unexpected`.
pub open spec fn parse_spec(ts: Seq<Tok>) -> Result<Ast, ParseError> {
    if ts.len() == 0 {
        Err(ParseError::Empty)
    } else {
        match parse_expr_spec(ts, 0) {
            Ok((a, j)) => if j == ts.len() {
                Ok(a)
            } else if 0 <= j < ts.len() && ts[j].kind == TokKind::RParen {
                Err(ParseError::UnmatchedParen)
            } else if 0 <= j < ts.len() {
                Err(ParseError::Unexpected { pos: ts[j].pos })
            } else {
                Err(ParseError::UnexpectedEnd)
            },
            Err(e) => Err(e),
        }
    }
}

/// Every literal of the tree names the lexeme of some number token.
pub open spec fn ast_lits_in(a: Ast, ts: Seq<Tok>) -> bool
    decreases a,
{
    match a {
        Ast::Lit { lo, hi } => exists|k: int|
            0 <= k < ts.len() && (#[trigger] ts[k]).pos == lo && ts[k].kind == (TokKind::Number {
                hi,
            }),
        Ast::Neg { e } => ast_lits_in(*e, ts),
        Ast::Bin { op: _, l, r } => ast_lits_in(*l, ts) && ast_lits_in(*r, ts),
    }
}

/// Parses a `primary`.
fn parse_primary(ts: &Vec<Tok>, i: usize) -> (r: Result<(Ast, usize), ParseError>)
    ensures
        (match r {
            Ok((a, j)) => parse_primary_spec(ts@, i as int) == Ok::<(Ast, int), ParseError>(
                (a, j as int),
            ) && i < j <= ts@.len() && ast_lits_in(a, ts@),
            Err(e) => parse_primary_spec(ts@, i as int) == Err::<(Ast, int), ParseError>(e),
        }),
    decreases ts@.len() - i, 0int,
{
    if i >= ts.len() {
        return Err(ParseError::UnexpectedEnd);
    }
    let t = ts[i];
    match t.kind {
        TokKind::Number { hi } => Ok((Ast::Lit { lo: t.pos, hi }, i + 1)),
        TokKind::LParen => match parse_expr(ts, i + 1) {
            Ok((a, j)) => {
                if j >= ts.len() {
                    Err(ParseError::UnmatchedParen)
                } else {
                    let tj = ts[j];
                    match tj.kind {
                        TokKind::RParen => Ok((a, j + 1)),
                        _ => Err(ParseError::Unexpected { pos: tj.pos }),
                    }
                }
            },
            Err(e) => Err(e),
        },
        _ => Err(ParseError::Unexpected { pos: t.pos }),
    }
}

/// Parses a `unary`.
fn parse_unary(ts: &Vec<Tok>, i: usize) -> (r: Result<(Ast, usize), ParseError>)
    ensures
        (match r {
            Ok((a, j)) => parse_unary_spec(ts@, i as int) == Ok::<(Ast, int), ParseError>(
                (a, j as int),
            ) && i < j <= ts@.len() && ast_lits_in(a, ts@),
            Err(e) => parse_unary_spec(ts@, i as int) == Err::<(Ast, int), ParseError>(e),
        }),
    decreases ts@.len() - i, 1int,
{
    if i >= ts.len() {
        return Err(ParseError::UnexpectedEnd);
    }
    let minus = match ts[i].kind {
        TokKind::Minus => true,
        _ => false,
    };
    if minus {
        match parse_unary(ts, i + 1) {
            Ok((a, j)) => Ok((Ast::Neg { e: Box::new(a) }, j)),
            Err(e) => Err(e),
        }
    } else {
        parse_primary(ts, i)
    }
}

/// Parses a `term`.
fn parse_term(ts: &Vec<Tok>, i: usize) -> (r: Result<(Ast, usize), ParseError>)
    ensures
        (match r {
            Ok((a, j)) => parse_term_spec(ts@, i as int) == Ok::<(Ast, int), ParseError>(
                (a, j as int),
            ) && i < j <= ts@.len() && ast_lits_in(a, ts@),
            Err(e) => parse_term_spec(ts@, i as int) == Err::<(Ast, int), ParseError>(e),
        }),
    decreases ts@.len() - i, 2int,
{
    match parse_unary(ts, i) {
        Ok((a, j)) => parse_term_more(ts, a, j),
        Err(e) => Err(e),
    }
}

/// Folds further `*` or `/` steps, left to right.
fn parse_term_more(ts: &Vec<Tok>, acc: Ast, i: usize) -> (r: Result<(Ast, usize), ParseError>)
    requires
        i <= ts@.len(),
        ast_lits_in(acc, ts@),
    ensures
        (match r {
            Ok((a, j)) => parse_term_more_spec(ts@, acc, i as int) == Ok::<(Ast, int), ParseError>(
                (a, j as int),
            ) && i <= j <= ts@.len() && ast_lits_in(a, ts@),
            Err(e) => parse_term_more_spec(ts@, acc, i as int) == Err::<(Ast, int), ParseError>(e),
        }),
    decreases ts@.len() - i, 3int,
{
    if i >= ts.len() {
        return Ok((acc, i));
    }
    let op = match ts[i].kind {
        TokKind::Star => Some(Op::Mul),
        TokKind::Slash => Some(Op::Div),
        _ => None,
    };
    match op {
        None => Ok((acc, i)),
        Some(op) => match parse_unary(ts, i + 1) {
            Ok((b, j)) => parse_term_more(
                ts,
                Ast::Bin { op, l: Box::new(acc), r: Box::new(b) },
                j,
            ),
            Err(e) => Err(e),
        },
    }
}

/// Parses an `expr`.
fn parse_expr(ts: &Vec<Tok>, i: usize) -> (r: Result<(Ast, usize), ParseError>)
    ensures
        (match r {
            Ok((a, j)) => parse_expr_spec(ts@, i as int) == Ok::<(Ast, int), ParseError>(
                (a, j as int),
            ) && i < j <= ts@.len() && ast_lits_in(a, ts@),
            Err(e) => parse_expr_spec(ts@, i as int) == Err::<(Ast, int), ParseError>(e),
        }),
    decreases ts@.len() - i, 4int,
{
    match parse_term(ts, i) {
        Ok((a, j)) => parse_expr_more(ts, a, j),
        Err(e) => Err(e),
    }
}

/// Folds further `+` or `-` steps, left to right.
fn parse_expr_more(ts: &Vec<Tok>, acc: Ast, i: usize) -> (r: Result<(Ast, usize), ParseError>)
    requires
        i <= ts@.len(),
        ast_lits_in(acc, ts@),
    ensures
        (match r {
            Ok((a, j)) => parse_expr_more_spec(ts@, acc, i as int) == Ok::<(Ast, int), ParseError>(
                (a, j as int),
            ) && i <= j <= ts@.len() && ast_lits_in(a, ts@),
            Err(e) => parse_expr_more_spec(ts@, acc, i as int) == Err::<(Ast, int), ParseError>(e),
        }),
    decreases ts@.len() - i, 5int,
{
    if i >= ts.len() {
        return Ok((acc, i));
    }
    let op = match ts[i].kind {
        TokKind::Plus => Some(Op::Add),
        TokKind::Minus => Some(Op::Sub),
        _ => None,
    };
    match op {
        None => Ok((acc, i)),
        Some(op) => match parse_term(ts, i + 1) {
            Ok((b, j)) => parse_expr_more(
                ts,
                Ast::Bin { op, l: Box::new(acc), r: Box::new(b) },
                j,
            ),
            Err(e) => Err(e),
        },
    }
}

/// Parses a whole token sequence into one expression tree, or reports why
/// there is none.
pub fn parse(ts: &Vec<Tok>) -> (r: Result<Ast, ParseError>)
    ensures
        (match r {
            Ok(a) => parse_spec(ts@) == Ok::<Ast, ParseError>(a) && ast_lits_in(a, ts@),
            Err(e) => parse_spec(ts@) == Err::<Ast, ParseError>(e),
        }),
{
    if ts.len() == 0 {
        return Err(ParseError::Empty);
    }
    match parse_expr(ts, 0) {
        Ok((a, j)) => {
            if j == ts.len() {
                Ok(a)
            } else {
                let tj = ts[j];
                match tj.kind {
                    TokKind::RParen => Err(ParseError::UnmatchedParen),
                    _ => Err(ParseError::Unexpected { pos: tj.pos }),
                }
            }
        },
        Err(e) => Err(e),
    }
}

} // verus!
