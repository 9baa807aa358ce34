//! Tests of the button state machine: digit entry, operator collapse, the
//! decimal guard, sign toggling, and the computed buttons.

use rustulator::editor::{ButtonInput, CalculatorApp};
use rustulator::parser::Op;

fn press(app: &mut CalculatorApp, inputs: &[ButtonInput]) {
    for b in inputs {
        app.handle_input(*b);
    }
}

#[test]
fn digits_operator_equals_evaluate() {
    let mut app = CalculatorApp::new();
    press(
        &mut app,
        &[
            ButtonInput::Digit('1'),
            ButtonInput::Digit('2'),
            ButtonInput::Operator(Op::Add),
            ButtonInput::Digit('3'),
            ButtonInput::Equals,
        ],
    );
    assert_eq!(app.expression_text(), "12+3");
    assert_eq!(app.result_text(), "15");
}

#[test]
fn consecutive_operators_collapse_to_the_latest() {
    let mut app = CalculatorApp::new();
    press(
        &mut app,
        &[
            ButtonInput::Digit('5'),
            ButtonInput::Operator(Op::Add),
            ButtonInput::Operator(Op::Sub),
            ButtonInput::Digit('3'),
            ButtonInput::Equals,
        ],
    );
    assert_eq!(app.expression_text(), "5-3");
    assert_eq!(app.result_text(), "2");
}

#[test]
fn toggle_sign_removes_a_leading_minus() {
    let mut app = CalculatorApp::new();
    press(
        &mut app,
        &[
            ButtonInput::Operator(Op::Sub),
            ButtonInput::Digit('5'),
            ButtonInput::ToggleSign,
            ButtonInput::Equals,
        ],
    );
    assert_eq!(app.expression_text(), "5");
    assert_eq!(app.result_text(), "5");
}

#[test]
fn toggle_sign_prepends_a_minus_and_leaves_empty_alone() {
    let mut app = CalculatorApp::new();
    app.handle_input(ButtonInput::ToggleSign);
    assert_eq!(app.expression_text(), "");
    press(&mut app, &[ButtonInput::Digit('7'), ButtonInput::ToggleSign]);
    assert_eq!(app.expression_text(), "-7");
}

#[test]
fn decimal_guard_allows_one_dot_per_run() {
    let mut app = CalculatorApp::new();
    press(&mut app, &[ButtonInput::Decimal, ButtonInput::Decimal]);
    assert_eq!(app.expression_text(), ".");
    press(&mut app, &[ButtonInput::Digit('5'), ButtonInput::Decimal]);
    assert_eq!(app.expression_text(), ".5");
    press(
        &mut app,
        &[ButtonInput::Operator(Op::Add), ButtonInput::Digit('1'), ButtonInput::Decimal],
    );
    assert_eq!(app.expression_text(), ".5+1.");
}

#[test]
fn clear_empties_both_buffers() {
    let mut app = CalculatorApp::new();
    press(
        &mut app,
        &[ButtonInput::Digit('8'), ButtonInput::Equals, ButtonInput::Clear],
    );
    assert_eq!(app.expression_text(), "");
    assert_eq!(app.result_text(), "");
}

#[test]
fn percent_feeds_the_divided_value_back() {
    let mut app = CalculatorApp::new();
    press(
        &mut app,
        &[ButtonInput::Digit('5'), ButtonInput::Digit('0'), ButtonInput::Percent],
    );
    assert_eq!(app.expression_text(), "0.5");
    assert_eq!(app.result_text(), "0.5");
}

#[test]
fn square_feeds_the_squared_value_back() {
    let mut app = CalculatorApp::new();
    press(&mut app, &[ButtonInput::Digit('4'), ButtonInput::Square]);
    assert_eq!(app.expression_text(), "16");
    assert_eq!(app.result_text(), "16");
    app.handle_input(ButtonInput::Square);
    assert_eq!(app.result_text(), "256");
}

#[test]
fn percent_and_square_swallow_failures() {
    let mut app = CalculatorApp::new();
    press(&mut app, &[ButtonInput::Digit('5'), ButtonInput::Operator(Op::Add)]);
    app.handle_input(ButtonInput::Percent);
    assert_eq!(app.expression_text(), "5+");
    assert_eq!(app.result_text(), "");
    app.handle_input(ButtonInput::Square);
    assert_eq!(app.expression_text(), "5+");
    assert_eq!(app.result_text(), "");
}

#[test]
fn equals_shows_the_error_and_keeps_the_expression() {
    let mut app = CalculatorApp::new();
    press(
        &mut app,
        &[
            ButtonInput::Digit('5'),
            ButtonInput::Operator(Op::Div),
            ButtonInput::Digit('0'),
            ButtonInput::Equals,
        ],
    );
    assert_eq!(app.expression_text(), "5/0");
    assert_eq!(app.result_text(), "Error");
    app.handle_input(ButtonInput::Clear);
    app.handle_input(ButtonInput::Equals);
    assert_eq!(app.result_text(), "Error");
}

#[test]
fn digits_append_after_operators_and_results() {
    let mut app = CalculatorApp::new();
    press(
        &mut app,
        &[ButtonInput::Digit('4'), ButtonInput::Square, ButtonInput::Digit('2')],
    );
    assert_eq!(app.expression_text(), "162");
    let mut other = CalculatorApp::default();
    press(
        &mut other,
        &[ButtonInput::Digit('1'), ButtonInput::Operator(Op::Mul), ButtonInput::Digit('2')],
    );
    assert_eq!(other.expression_text(), "1*2");
}
