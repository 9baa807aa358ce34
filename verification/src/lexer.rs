//! The tokenizer: it scans the expression text left to right, gathering
//! consecutive digits and at most one dot into a number token, mapping the
//! single-character operators and parentheses to their tokens, skipping
//! whitespace, and failing on any other character.

use crate::value::{is_digit, lexeme_valid};
use vstd::prelude::*;

verus! {

/// The kind of a token. A number token names its lexeme by where it ends in
/// the text; the lexeme starts at the token's own position.
#[derive(Clone, Copy, PartialEq, Eq, Structural, Debug)]
pub enum TokKind {
    Number { hi: usize },
    Plus,
    Minus,
    Star,
    Slash,
    LParen,
    RParen,
}

/// A token, with the text position it starts at.
#[derive(Clone, Copy, PartialEq, Eq, Structural, Debug)]
pub struct Tok {
    pub kind: TokKind,
    pub pos: usize,
}

/// An unrecognized character, with its position.
#[derive(Clone, Copy, PartialEq, Eq, Structural, Debug)]
pub struct LexError {
    pub pos: usize,
    pub ch: char,
}

/// Whitespace, which the tokenizer skips.
pub open spec fn is_space(c: char) -> bool {
    c == ' ' || c == '\t' || c == '\n' || c == '\r'
}

/// Where the number run that starts at `i` ends: the first position at or
/// after `i` that holds neither a digit nor the run's first dot.
pub open spec fn scan_num(s: Seq<char>, i: int, seen_dot: bool) -> int
    decreases s.len() - i,
{
    if i < 0 || i >= s.len() {
        i
    } else if is_digit(s[i]) {
        scan_num(s, i + 1, seen_dot)
    } else if s[i] == '.' && !seen_dot {
        scan_num(s, i + 1, true)
    } else {
        i
    }
}

/// The token sequence of the text from position `i` on, or the first
/// unrecognized character. A number run without a digit (a lone dot) is
/// unrecognized at the dot's position.
pub open spec fn tokenize_spec(s: Seq<char>, i: int) -> Result<Seq<Tok>, LexError>
    decreases s.len() - i,
{
    if i < 0 || i >= s.len() {
        Ok(Seq::empty())
    } else {
        let c = s[i];
        if is_space(c) {
            tokenize_spec(s, i + 1)
        } else if is_digit(c) || c == '.' {
            let j = scan_num(s, i, false);
            // the run always moves forward; the bound check only serves termination
            if i < j && j <= s.len() {
                if lexeme_valid(s.subrange(i, j)) {
                    match tokenize_spec(s, j) {
                        Ok(rest) => Ok(
                            seq![Tok { kind: TokKind::Number { hi: j as usize }, pos: i as usize }]
                                + rest,
                        ),
                        Err(e) => Err(e),
                    }
                } else {
                    Err(LexError { pos: i as usize, ch: c })
                }
            } else {
                Err(LexError { pos: i as usize, ch: c })
            }
        } else if c == '+' || c == '-' || c == '*' || c == '/' || c == '(' || c == ')' {
            let kind = if c == '+' {
                TokKind::Plus
            } else if c == '-' {
                TokKind::Minus
            } else if c == '*' {
                TokKind::Star
            } else if c == '/' {
                TokKind::Slash
            } else if c == '(' {
                TokKind::LParen
            } else {
                TokKind::RParen
            };
            match tokenize_spec(s, i + 1) {
                Ok(rest) => Ok(seq![Tok { kind, pos: i as usize }] + rest),
                Err(e) => Err(e),
            }
        } else {
            Err(LexError { pos: i as usize, ch: c })
        }
    }
}

/// A number token's lexeme lies inside the text and is a valid lexeme; every
/// other token sits on the character it was made from.
pub open spec fn tok_wf(s: Seq<char>, t: Tok) -> bool {
    match t.kind {
        TokKind::Number { hi } => t.pos < hi <= s.len() && lexeme_valid(
            s.subrange(t.pos as int, hi as int),
        ),
        _ => t.pos < s.len(),
    }
}

/// All tokens are well formed for the text.
pub open spec fn toks_wf(s: Seq<char>, ts: Seq<Tok>) -> bool {
    forall|k: int| 0 <= k < ts.len() ==> tok_wf(s, #[trigger] ts[k])
}

/// The number run that starts at `i` stays inside the text, holds only
/// digits and at most one dot, and moves forward when it starts on a digit
/// or a fresh dot.
pub proof fn lemma_scan_num(s: Seq<char>, i: int, seen_dot: bool)
    requires
        0 <= i <= s.len(),
    ensures
        i <= scan_num(s, i, seen_dot) <= s.len(),
        forall|k: int|
            i <= k < scan_num(s, i, seen_dot) ==> is_digit(#[trigger] s[k]) || s[k] == '.',
        !seen_dot ==> (forall|k1: int, k2: int|
            i <= k1 < scan_num(s, i, seen_dot) && i <= k2 < scan_num(s, i, seen_dot) && s[k1]
                == '.' && s[k2] == '.' ==> k1 == k2),
        seen_dot ==> (forall|k: int|
            i <= k < scan_num(s, i, seen_dot) ==> is_digit(#[trigger] s[k])),
        i < s.len() && (is_digit(s[i]) || (s[i] == '.' && !seen_dot)) ==> scan_num(s, i, seen_dot)
            > i,
    decreases s.len() - i,
{
    if i < s.len() && (is_digit(s[i]) || (s[i] == '.' && !seen_dot)) {
        let next_seen = seen_dot || s[i] == '.';
        lemma_scan_num(s, i + 1, next_seen);
    }
}

/// The exec scan that mirrors `scan_num`.
fn scan_num_exec(text: &Vec<char>, i: usize, seen_dot: bool) -> (j: usize)
    requires
        i <= text.len(),
    ensures
        j as int == scan_num(text@, i as int, seen_dot),
        i <= j <= text.len(),
    decreases text.len() - i,
{
    if i == text.len() {
        i
    } else {
        let c = text[i];
        if '0' <= c && c <= '9' {
            scan_num_exec(text, i + 1, seen_dot)
        } else if c == '.' && !seen_dot {
            scan_num_exec(text, i + 1, true)
        } else {
            i
        }
    }
}

/// Turns the expression text into its token sequence, or reports the first
/// unrecognized character.
pub fn tokenize(text: &Vec<char>) -> (r: Result<Vec<Tok>, LexError>)
    ensures
        (match r {
            Ok(ts) => tokenize_spec(text@, 0) == Ok::<Seq<Tok>, LexError>(ts@) && toks_wf(
                text@,
                ts@,
            ),
            Err(e) => tokenize_spec(text@, 0) == Err::<Seq<Tok>, LexError>(e),
        }),
{
    let mut toks: Vec<Tok> = Vec::new();
    let mut i: usize = 0;
    while i < text.len()
        invariant
            0 <= i <= text.len(),
            toks_wf(text@, toks@),
            (match tokenize_spec(text@, i as int) {
                Ok(rest) => tokenize_spec(text@, 0) == Ok::<Seq<Tok>, LexError>(toks@ + rest),
                Err(e) => tokenize_spec(text@, 0) == Err::<Seq<Tok>, LexError>(e),
            }),
        decreases text.len() - i,
    {
        let ghost toks0 = toks@;
        let c = text[i];
        if c == ' ' || c == '\t' || c == '\n' || c == '\r' {
            i = i + 1;
        } else if ('0' <= c && c <= '9') || c == '.' {
            let j = scan_num_exec(text, i, false);
            proof {
                lemma_scan_num(text@, i as int, false);
            }
            // the run has a digit unless it is a lone dot: it holds at most
            // one dot, so any second character is a digit
            if j == i + 1 && c == '.' {
                proof {
                    let lex = text@.subrange(i as int, j as int);
                    assert(lex.len() == 1 && lex[0] == '.');
                    assert(!lexeme_valid(lex));
                }
                return Err(LexError { pos: i, ch: c });
            }
            proof {
                let lex = text@.subrange(i as int, j as int);
                assert(i < j);
                if is_digit(text@[i as int]) {
                    assert(is_digit(lex[0]));
                } else {
                    assert(j - i >= 2);
                    assert(text@[i as int] == '.');
                    assert(is_digit(text@[i + 1]) || text@[i + 1] == '.');
                    assert(is_digit(lex[1]));
                }
                assert(lexeme_valid(lex));
            }
            let tok = Tok { kind: TokKind::Number { hi: j }, pos: i };
            toks.push(tok);
            proof {
                lemma_invariant_step(text@, toks0, tok, i as int, j as int);
            }
            i = j;
        } else if c == '+' || c == '-' || c == '*' || c == '/' || c == '(' || c == ')' {
            let kind = if c == '+' {
                TokKind::Plus
            } else if c == '-' {
                TokKind::Minus
            } else if c == '*' {
                TokKind::Star
            } else if c == '/' {
                TokKind::Slash
            } else if c == '(' {
                TokKind::LParen
            } else {
                TokKind::RParen
            };
            let tok = Tok { kind, pos: i };
            toks.push(tok);
            proof {
                lemma_invariant_step(text@, toks0, tok, i as int, i + 1);
            }
            i = i + 1;
        } else {
            return Err(LexError { pos: i, ch: c });
        }
    }
    proof {
        assert(toks@ + Seq::<Tok>::empty() =~= toks@);
    }
    Ok(toks)
}

/// Folding one more token into the done prefix keeps the loop's accounting:
/// sequence concatenation reassociates.
proof fn lemma_invariant_step(s: Seq<char>, done: Seq<Tok>, t: Tok, i: int, j: int)
    ensures
        (match tokenize_spec(s, j) {
            Ok(rest) => done + (seq![t] + rest) =~= done.push(t) + rest,
            Err(e) => true,
        }),
{
}

} // verus!
