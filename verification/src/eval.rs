//! The evaluator: a pure walk of the expression tree over rendered doubles,
//! the composed `evaluate` pipeline (tokenize, parse, walk), and the laws
//! that single numbers evaluate to themselves.

use crate::lexer::{tokenize, tokenize_spec, toks_wf, tok_wf, LexError, Tok, TokKind};
use crate::parser::{ast_lits_in, parse, parse_spec, Ast, Op, ParseError};
use crate::value::{
    add_of, canon_of, div_of, good, is_digit, is_zero_text, lemma_neg_good, lexeme_valid, mul_of,
    neg_text, rendered, sub_of,
};
use vstd::prelude::*;

verus! {

/// Why evaluation failed: an unrecognized character, a token sequence that
/// spells no expression, or a division whose right operand is zero.
#[derive(Clone, Copy, PartialEq, Eq, Structural, Debug)]
pub enum EvalError {
    Lex(LexError),
    Parse(ParseError),
    DivisionByZero,
}

/// Every literal's lexeme lies inside the text and is a valid number lexeme.
pub open spec fn ast_wf(text: Seq<char>, a: Ast) -> bool
    decreases a,
{
    match a {
        Ast::Lit { lo, hi } => lo < hi <= text.len() && lexeme_valid(
            text.subrange(lo as int, hi as int),
        ),
        Ast::Neg { e } => ast_wf(text, *e),
        Ast::Bin { op: _, l, r } => ast_wf(text, *l) && ast_wf(text, *r),
    }
}

/// A tree whose literals all name number tokens of a well-formed token
/// sequence is well formed for the text the tokens came from.
pub proof fn lemma_lits_wf(text: Seq<char>, ts: Seq<Tok>, a: Ast)
    requires
        toks_wf(text, ts),
        ast_lits_in(a, ts),
    ensures
        ast_wf(text, a),
    decreases a,
{
    match a {
        Ast::Lit { lo, hi } => {
            let k = choose|k: int|
                0 <= k < ts.len() && (#[trigger] ts[k]).pos == lo && ts[k].kind
                    == (TokKind::Number { hi });
            assert(tok_wf(text, ts[k]));
        },
        Ast::Neg { e } => {
            lemma_lits_wf(text, ts, *e);
        },
        Ast::Bin { op: _, l, r } => {
            lemma_lits_wf(text, ts, *l);
            lemma_lits_wf(text, ts, *r);
        },
    }
}

/// The value of an expression tree: literals are their lexeme's double,
/// rendered; the operators fold values left to right; a division whose right
/// operand renders a zero fails.
pub open spec fn eval_ast_spec(text: Seq<char>, a: Ast) -> Result<Seq<char>, EvalError>
    decreases a,
{
    match a {
        Ast::Lit { lo, hi } => Ok(canon_of(text.subrange(lo as int, hi as int))),
        Ast::Neg { e } => match eval_ast_spec(text, *e) {
            Ok(v) => Ok(neg_text(v)),
            Err(er) => Err(er),
        },
        Ast::Bin { op, l, r } => match eval_ast_spec(text, *l) {
            Ok(x) => match eval_ast_spec(text, *r) {
                Ok(y) => match op {
                    Op::Add => Ok(add_of(x, y)),
                    Op::Sub => Ok(sub_of(x, y)),
                    Op::Mul => Ok(mul_of(x, y)),
                    Op::Div => if is_zero_text(y) {
                        Err(EvalError::DivisionByZero)
                    } else {
                        Ok(div_of(x, y))
                    },
                },
                Err(er) => Err(er),
            },
            Err(er) => Err(er),
        },
    }
}

/// Walks an expression tree and returns its value, or the first failure,
/// evaluating left operands before right ones.
pub fn eval_ast(text: &Vec<char>, a: &Ast) -> (r: Result<Vec<char>, EvalError>)
    requires
        ast_wf(text@, *a),
    ensures
        (match r {
            Ok(v) => eval_ast_spec(text@, *a) == Ok::<Seq<char>, EvalError>(v@) && good(v@),
            Err(e) => eval_ast_spec(text@, *a) == Err::<Seq<char>, EvalError>(e),
        }),
    decreases *a,
{
    match a {
        Ast::Lit { lo, hi } => {
            let lex = vstd::slice::slice_subrange(text.as_slice(), *lo, *hi);
            Ok(crate::value::lit_canon(lex))
        },
        Ast::Neg { e } => {
            match eval_ast(text, e) {
                Ok(v) => {
                    proof {
                        lemma_neg_good(v@);
                    }
                    Ok(crate::value::neg(&v))
                },
                Err(er) => Err(er),
            }
        },
        Ast::Bin { op, l, r } => {
            let lv = match eval_ast(text, l) {
                Ok(v) => v,
                Err(er) => {
                    return Err(er);
                },
            };
            let rv = match eval_ast(text, r) {
                Ok(v) => v,
                Err(er) => {
                    return Err(er);
                },
            };
            match op {
                Op::Add => Ok(crate::value::add(&lv, &rv)),
                Op::Sub => Ok(crate::value::sub(&lv, &rv)),
                Op::Mul => Ok(crate::value::mul(&lv, &rv)),
                Op::Div => {
                    if crate::value::is_zero(&rv) {
                        Err(EvalError::DivisionByZero)
                    } else {
                        Ok(crate::value::div(&lv, &rv))
                    }
                },
            }
        },
    }
}

/// The value of an expression text: what tokenizing, parsing and walking
/// give, or the first failure among them.
pub open spec fn eval_spec(s: Seq<char>) -> Result<Seq<char>, EvalError> {
    match tokenize_spec(s, 0) {
        Err(le) => Err(EvalError::Lex(le)),
        Ok(ts) => match parse_spec(ts) {
            Err(pe) => Err(EvalError::Parse(pe)),
            Ok(a) => eval_ast_spec(s, a),
        },
    }
}

/// Evaluates an expression text given as characters.
pub fn evaluate_chars(text: &Vec<char>) -> (r: Result<Vec<char>, EvalError>)
    ensures
        (match r {
            Ok(v) => eval_spec(text@) == Ok::<Seq<char>, EvalError>(v@) && good(v@),
            Err(e) => eval_spec(text@) == Err::<Seq<char>, EvalError>(e),
        }),
{
    let ts = match tokenize(text) {
        Ok(ts) => ts,
        Err(le) => {
            return Err(EvalError::Lex(le));
        },
    };
    let a = match parse(&ts) {
        Ok(a) => a,
        Err(pe) => {
            return Err(EvalError::Parse(pe));
        },
    };
    proof {
        lemma_lits_wf(text@, ts@, a);
    }
    eval_ast(text, &a)
}

/// Evaluates an expression text: the value as its rendered decimal text, or
/// the first failure.
pub fn evaluate(s: &str) -> (r: Result<Vec<char>, EvalError>)
    ensures
        (match r {
            Ok(v) => eval_spec(s@) == Ok::<Seq<char>, EvalError>(v@) && good(v@),
            Err(e) => eval_spec(s@) == Err::<Seq<char>, EvalError>(e),
        }),
{
    let text = crate::value::chars_of(s);
    evaluate_chars(&text)
}

/// Evaluates an expression text and returns the value as a `String`.
pub fn evaluate_text(s: &str) -> (r: Result<String, EvalError>)
    ensures
        (match r {
            Ok(v) => eval_spec(s@) == Ok::<Seq<char>, EvalError>(v@),
            Err(e) => eval_spec(s@) == Err::<Seq<char>, EvalError>(e),
        }),
{
    match evaluate(s) {
        Ok(v) => Ok(crate::value::string_of(&v)),
        Err(e) => Err(e),
    }
}

/// A run of digits and at most one dot scans to the end of the text.
proof fn lemma_scan_all(s: Seq<char>, i: int, seen: bool)
    requires
        0 <= i <= s.len(),
        forall|k: int| i <= k < s.len() ==> is_digit(#[trigger] s[k]) || s[k] == '.',
        !seen ==> (forall|k1: int, k2: int|
            i <= k1 < s.len() && i <= k2 < s.len() && s[k1] == '.' && s[k2] == '.' ==> k1 == k2),
        seen ==> (forall|k: int| i <= k < s.len() ==> is_digit(#[trigger] s[k])),
    ensures
        crate::lexer::scan_num(s, i, seen) == s.len(),
    decreases s.len() - i,
{
    if i < s.len() {
        if is_digit(s[i]) {
            lemma_scan_all(s, i + 1, seen);
        } else {
            assert(s[i] == '.');
            assert(!seen);
            assert forall|k: int| i + 1 <= k < s.len() implies is_digit(#[trigger] s[k]) by {
                if s[k] == '.' {
                    assert(k == i);
                }
            }
            lemma_scan_all(s, i + 1, true);
        }
    }
}

/// Law: evaluating a text that is one decimal-number lexeme succeeds and
/// gives exactly the double that standard float parsing gives the lexeme,
/// rendered canonically.
pub proof fn lemma_eval_number(s: Seq<char>)
    requires
        lexeme_valid(s),
        s.len() <= usize::MAX,
    ensures
        eval_spec(s) == Ok::<Seq<char>, EvalError>(canon_of(s)),
{
    let n = s.len() as int;
    lemma_scan_all(s, 0, false);
    assert(s.subrange(0, n) =~= s);
    let tok = Tok { kind: TokKind::Number { hi: s.len() as usize }, pos: 0 as usize };
    assert(tokenize_spec(s, n) == Ok::<Seq<Tok>, LexError>(Seq::empty()));
    let ts = seq![tok];
    assert(tokenize_spec(s, 0) == Ok::<Seq<Tok>, LexError>(seq![tok] + Seq::empty()));
    assert(seq![tok] + Seq::empty() =~= ts);
    let lit = Ast::Lit { lo: 0 as usize, hi: s.len() as usize };
    assert(crate::parser::parse_primary_spec(ts, 0) == Ok::<(Ast, int), ParseError>((lit, 1)));
    assert(crate::parser::parse_unary_spec(ts, 0) == Ok::<(Ast, int), ParseError>((lit, 1)));
    assert(crate::parser::parse_term_more_spec(ts, lit, 1) == Ok::<(Ast, int), ParseError>(
        (lit, 1),
    ));
    assert(crate::parser::parse_term_spec(ts, 0) == Ok::<(Ast, int), ParseError>((lit, 1)));
    assert(crate::parser::parse_expr_more_spec(ts, lit, 1) == Ok::<(Ast, int), ParseError>(
        (lit, 1),
    ));
    assert(crate::parser::parse_expr_spec(ts, 0) == Ok::<(Ast, int), ParseError>((lit, 1)));
    assert(parse_spec(ts) == Ok::<Ast, ParseError>(lit));
    assert(eval_ast_spec(s, lit) == Ok::<Seq<char>, EvalError>(canon_of(s)));
}

/// Law: a rendered value re-evaluates to itself. Evaluating the text of a
/// computed number (one lexeme, with at most a leading minus sign) gives
/// that very text back: the round trip through evaluation is the identity on
/// finite results.
pub proof fn lemma_eval_rendered(v: Seq<char>)
    requires
        rendered(v),
        lexeme_valid(v) || (v.len() > 1 && v[0] == '-' && lexeme_valid(v.skip(1))),
        v.len() <= usize::MAX,
    ensures
        eval_spec(v) == Ok::<Seq<char>, EvalError>(v),
{
    if lexeme_valid(v) {
        lemma_eval_number(v);
        assert(canon_of(v) == v);
    } else {
        let n = v.len() as int;
        let t = v.skip(1);
        assert(forall|k: int| 1 <= k < n ==> (is_digit(#[trigger] v[k]) || v[k] == '.')) by {
            assert(forall|k: int| 0 <= k < t.len() ==> is_digit(#[trigger] t[k]) || t[k] == '.');
            assert(forall|k: int| 1 <= k < n ==> v[k] == t[k - 1]);
        }
        assert forall|k1: int, k2: int|
            1 <= k1 < n && 1 <= k2 < n && v[k1] == '.' && v[k2] == '.' implies k1 == k2 by {
            assert(t[k1 - 1] == '.' && t[k2 - 1] == '.');
        }
        lemma_scan_all(v, 1, false);
        assert(v.subrange(1, n) =~= t);
        let mtok = Tok { kind: TokKind::Minus, pos: 0 as usize };
        let ntok = Tok { kind: TokKind::Number { hi: v.len() as usize }, pos: 1 as usize };
        assert(tokenize_spec(v, n) == Ok::<Seq<Tok>, LexError>(Seq::empty()));
        assert(tokenize_spec(v, 1) == Ok::<Seq<Tok>, LexError>(seq![ntok] + Seq::empty()));
        assert(tokenize_spec(v, 0) == Ok::<Seq<Tok>, LexError>(
            seq![mtok] + (seq![ntok] + Seq::empty()),
        ));
        let ts = seq![mtok, ntok];
        assert(seq![mtok] + (seq![ntok] + Seq::empty()) =~= ts);
        let lit = Ast::Lit { lo: 1 as usize, hi: v.len() as usize };
        let neg = Ast::Neg { e: Box::new(lit) };
        assert(crate::parser::parse_primary_spec(ts, 1) == Ok::<(Ast, int), ParseError>((lit, 2)));
        assert(crate::parser::parse_unary_spec(ts, 1) == Ok::<(Ast, int), ParseError>((lit, 2)));
        assert(crate::parser::parse_unary_spec(ts, 0) == Ok::<(Ast, int), ParseError>((neg, 2)));
        assert(crate::parser::parse_term_more_spec(ts, neg, 2) == Ok::<(Ast, int), ParseError>(
            (neg, 2),
        ));
        assert(crate::parser::parse_term_spec(ts, 0) == Ok::<(Ast, int), ParseError>((neg, 2)));
        assert(crate::parser::parse_expr_more_spec(ts, neg, 2) == Ok::<(Ast, int), ParseError>(
            (neg, 2),
        ));
        assert(crate::parser::parse_expr_spec(ts, 0) == Ok::<(Ast, int), ParseError>((neg, 2)));
        assert(parse_spec(ts) == Ok::<Ast, ParseError>(neg));
        assert(eval_ast_spec(v, lit) == Ok::<Seq<char>, EvalError>(canon_of(t)));
        assert(canon_of(t) == t);
        assert(t.len() > 0 && t[0] != '-');
        assert(eval_ast_spec(v, neg) == Ok::<Seq<char>, EvalError>(neg_text(t)));
        assert(neg_text(t) =~= v);
    }
}

} // verus!
