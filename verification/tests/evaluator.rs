//! Tests of the expression evaluator: tokenizing, parsing, arithmetic,
//! precedence, and the error taxonomy.

use rustulator::eval::{evaluate, evaluate_text, EvalError};
use rustulator::lexer::{tokenize, LexError, Tok, TokKind};
use rustulator::parser::{parse, ParseError};
use rustulator::value::{is_zero, neg};

fn text(r: Result<Vec<char>, EvalError>) -> String {
    r.unwrap().iter().collect()
}

#[test]
fn single_numbers_evaluate_like_float_parsing() {
    for n in ["3.5", ".5", "3.", "0.1", "123456789.25", "007", "0", "12345678901234567890"] {
        let expected = format!("{}", n.parse::<f64>().unwrap());
        assert_eq!(text(evaluate(n)), expected);
    }
}

#[test]
fn overflowing_literals_render_as_infinity() {
    let big = "9".repeat(400);
    assert_eq!(format!("{}", big.parse::<f64>().unwrap()), "inf");
    assert_eq!(text(evaluate(&big)), "inf");
}

#[test]
fn precedence_is_honored() {
    assert_eq!(text(evaluate("2+3*4")), "14");
    assert_eq!(evaluate_text("2+3*4").unwrap(), "14");
}

#[test]
fn parentheses_override_precedence() {
    assert_eq!(text(evaluate("(2+3)*4")), "20");
}

#[test]
fn binary_operators_are_left_associative() {
    assert_eq!(text(evaluate("2-3-4")), "-5");
    assert_eq!(text(evaluate("8/2/2")), "2");
}

#[test]
fn arithmetic_matches_doubles() {
    assert_eq!(text(evaluate("1+2")), "3");
    assert_eq!(text(evaluate("5-3")), "2");
    assert_eq!(text(evaluate("2*3")), "6");
    assert_eq!(text(evaluate("1/4")), "0.25");
    assert_eq!(text(evaluate("0.1+0.2")), format!("{}", 0.1f64 + 0.2f64));
    assert_eq!(text(evaluate("1/3")), format!("{}", 1.0f64 / 3.0f64));
}

#[test]
fn unary_minus_binds_right() {
    assert_eq!(text(evaluate("-5+3")), "-2");
    assert_eq!(text(evaluate("--5")), "5");
    assert_eq!(text(evaluate("2*-3")), "-6");
    assert_eq!(text(evaluate("-(2+3)")), "-5");
}

#[test]
fn whitespace_is_skipped() {
    assert_eq!(text(evaluate("1 + 2")), "3");
    assert_eq!(text(evaluate(" 7 ")), "7");
}

#[test]
fn division_by_zero_fails() {
    assert_eq!(evaluate("5/0"), Err(EvalError::DivisionByZero));
    assert_eq!(evaluate("1/(2-2)"), Err(EvalError::DivisionByZero));
    assert_eq!(evaluate("5/0.5").unwrap(), vec!['1', '0']);
}

#[test]
fn empty_input_fails_with_empty() {
    assert_eq!(evaluate(""), Err(EvalError::Parse(ParseError::Empty)));
    assert_eq!(evaluate("   "), Err(EvalError::Parse(ParseError::Empty)));
}

#[test]
fn unrecognized_characters_fail_with_position() {
    assert_eq!(evaluate("2a"), Err(EvalError::Lex(LexError { pos: 1, ch: 'a' })));
    assert_eq!(evaluate("x"), Err(EvalError::Lex(LexError { pos: 0, ch: 'x' })));
    assert_eq!(evaluate("."), Err(EvalError::Lex(LexError { pos: 0, ch: '.' })));
}

#[test]
fn unmatched_parentheses_fail() {
    assert_eq!(evaluate("(2+3"), Err(EvalError::Parse(ParseError::UnmatchedParen)));
    assert_eq!(evaluate("2)"), Err(EvalError::Parse(ParseError::UnmatchedParen)));
}

#[test]
fn trailing_operator_fails_at_end_of_input() {
    assert_eq!(evaluate("5+"), Err(EvalError::Parse(ParseError::UnexpectedEnd)));
    assert_eq!(evaluate("5*"), Err(EvalError::Parse(ParseError::UnexpectedEnd)));
}

#[test]
fn unexpected_tokens_fail_with_position() {
    assert_eq!(evaluate("()"), Err(EvalError::Parse(ParseError::Unexpected { pos: 1 })));
    assert_eq!(evaluate("3 4"), Err(EvalError::Parse(ParseError::Unexpected { pos: 2 })));
    assert_eq!(evaluate("1.2.3"), Err(EvalError::Parse(ParseError::Unexpected { pos: 3 })));
    assert_eq!(evaluate("+"), Err(EvalError::Parse(ParseError::Unexpected { pos: 0 })));
}

#[test]
fn reevaluating_a_result_returns_it() {
    for e in ["2+3*4", "1/4", "0-14", "0.1+0.2", "5"] {
        let v: String = text(evaluate(e));
        assert_eq!(text(evaluate(&v)), v);
    }
}

#[test]
fn tokenizer_reports_lexemes_and_positions() {
    let toks = tokenize(&"1.5+(2)".chars().collect()).unwrap();
    assert_eq!(
        toks,
        vec![
            Tok { kind: TokKind::Number { hi: 3 }, pos: 0 },
            Tok { kind: TokKind::Plus, pos: 3 },
            Tok { kind: TokKind::LParen, pos: 4 },
            Tok { kind: TokKind::Number { hi: 6 }, pos: 5 },
            Tok { kind: TokKind::RParen, pos: 6 },
        ]
    );
}

#[test]
fn parsing_no_tokens_is_empty() {
    assert!(matches!(parse(&Vec::new()), Err(ParseError::Empty)));
}

#[test]
fn negation_toggles_the_sign_text() {
    assert_eq!(neg(&vec!['5']), vec!['-', '5']);
    assert_eq!(neg(&vec!['-', '5']), vec!['5']);
}

#[test]
fn zero_texts_are_recognized() {
    assert!(is_zero(&vec!['0']));
    assert!(is_zero(&vec!['-', '0']));
    assert!(!is_zero(&vec!['0', '.', '1']));
    assert!(!is_zero(&Vec::new()));
}
