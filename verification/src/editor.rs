//! The button state machine. The calculator holds two text buffers: the
//! expression being composed and the last shown result. Every button press
//! is one transition of `edit_spec`, applied by `handle_input`.

use crate::eval::{eval_spec, evaluate_chars};
use crate::parser::Op;
use crate::value::{div_of, is_digit, mul_of};
use vstd::prelude::*;

verus! {

/// One button press, decoded from its label at the boundary.
#[derive(Clone, Copy, PartialEq, Eq, Structural, Debug)]
pub enum ButtonInput {
    Clear,
    ToggleSign,
    Percent,
    Square,
    Decimal,
    Operator(Op),
    Digit(char),
    Equals,
}

/// The character a binary operator shows in the expression buffer.
pub open spec fn glyph(op: Op) -> char {
    match op {
        Op::Add => '+',
        Op::Sub => '-',
        Op::Mul => '*',
        Op::Div => '/',
    }
}

/// An operator character in the expression buffer.
pub open spec fn is_op_char(c: char) -> bool {
    c == '+' || c == '-' || c == '*' || c == '/'
}

/// Where the trailing numeric run of the first `k` buffer characters starts:
/// scanning backwards, the first position whose predecessor is neither a
/// digit nor a dot.
pub open spec fn run_start(e: Seq<char>, k: int) -> int
    decreases k,
{
    if k <= 0 {
        0
    } else if is_digit(e[k - 1]) || e[k - 1] == '.' {
        run_start(e, k - 1)
    } else {
        k
    }
}

/// Whether the trailing numeric run of the buffer already holds a dot.
pub open spec fn trailing_run_has_dot(e: Seq<char>) -> bool {
    exists|k: int| run_start(e, e.len() as int) <= k < e.len() && e[k] == '.'
}

/// The run start lies between zero and its argument.
proof fn lemma_run_start_bounds(e: Seq<char>, k: int)
    requires
        k >= 0,
    ensures
        0 <= run_start(e, k) <= k,
    decreases k,
{
    if k > 0 && (is_digit(e[k - 1]) || e[k - 1] == '.') {
        lemma_run_start_bounds(e, k - 1);
    }
}

/// The rendered text of every evaluation failure: the calculator shows one
/// short message whatever went wrong.
pub open spec fn error_text() -> Seq<char> {
    "Error"@
}

/// The digits `100`, the divisor of the percent button.
pub open spec fn hundred() -> Seq<char> {
    seq!['1', '0', '0']
}

/// One button press turns the pair (expression, result) into a new pair:
/// - `Clear` empties both;
/// - `Digit` always appends;
/// - `Decimal` appends a dot unless the trailing numeric run has one;
/// - `Operator` appends its glyph, first removing a trailing operator
///   glyph, so operators collapse to the latest one instead of stacking;
/// - `ToggleSign` removes a leading minus, or puts one on a non-empty
///   buffer;
/// - `Percent` and `Square` evaluate, feed the transformed value back as
///   the new expression and show it, and do nothing on failure;
/// - `Equals` evaluates, shows the value or the error message, and leaves
///   the expression as it was.
pub open spec fn edit_spec(e: Seq<char>, r: Seq<char>, b: ButtonInput) -> (Seq<char>, Seq<char>) {
    match b {
        ButtonInput::Clear => (Seq::empty(), Seq::empty()),
        ButtonInput::Digit(d) => (e.push(d), r),
        ButtonInput::Decimal => if trailing_run_has_dot(e) {
            (e, r)
        } else {
            (e.push('.'), r)
        },
        ButtonInput::Operator(op) => {
            let base = if e.len() > 0 && is_op_char(e[e.len() - 1]) {
                e.drop_last()
            } else {
                e
            };
            (base.push(glyph(op)), r)
        },
        ButtonInput::ToggleSign => if e.len() > 0 && e[0] == '-' {
            (e.skip(1), r)
        } else if e.len() > 0 {
            (seq!['-'] + e, r)
        } else {
            (e, r)
        },
        ButtonInput::Percent => match eval_spec(e) {
            Ok(v) => (div_of(v, hundred()), div_of(v, hundred())),
            Err(_) => (e, r),
        },
        ButtonInput::Square => match eval_spec(e) {
            Ok(v) => (mul_of(v, v), mul_of(v, v)),
            Err(_) => (e, r),
        },
        ButtonInput::Equals => match eval_spec(e) {
            Ok(v) => (e, v),
            Err(_) => (e, error_text()),
        },
    }
}

/// The calculator: the expression being composed and the last shown result.
pub struct CalculatorApp {
    pub expression: Vec<char>,
    pub result: Vec<char>,
}

/// Whether the trailing numeric run of the buffer already holds a dot.
fn trailing_dot(e: &Vec<char>) -> (r: bool)
    ensures
        r == trailing_run_has_dot(e@),
{
    let mut k: usize = e.len();
    while k > 0
        invariant
            0 <= k <= e.len(),
            run_start(e@, e@.len() as int) == run_start(e@, k as int),
            forall|j: int| k <= j < e@.len() ==> is_digit(#[trigger] e@[j]),
        decreases k,
    {
        let c = e[k - 1];
        if c == '.' {
            proof {
                lemma_run_start_bounds(e@, k - 1);
                assert(run_start(e@, k as int) == run_start(e@, k - 1));
            }
            return true;
        }
        if !('0' <= c && c <= '9') {
            proof {
                assert(run_start(e@, k as int) == k as int);
            }
            return false;
        }
        k = k - 1;
    }
    false
}

impl CalculatorApp {
    /// A calculator with both buffers empty.
    pub fn new() -> (r: CalculatorApp)
        ensures
            r.expression@ == Seq::<char>::empty(),
            r.result@ == Seq::<char>::empty(),
    {
        CalculatorApp { expression: Vec::new(), result: Vec::new() }
    }

    /// The expression buffer as a `String`, for display.
    pub fn expression_text(&self) -> (r: String)
        ensures
            r@ == self.expression@,
    {
        crate::value::string_of(&self.expression)
    }

    /// The result buffer as a `String`, for display.
    pub fn result_text(&self) -> (r: String)
        ensures
            r@ == self.result@,
    {
        crate::value::string_of(&self.result)
    }

    /// Applies one button press: the two buffers change exactly as
    /// `edit_spec` says.
    pub fn handle_input(&mut self, input: ButtonInput)
        ensures
            final(self).expression@ == edit_spec(
                old(self).expression@,
                old(self).result@,
                input,
            ).0,
            final(self).result@ == edit_spec(old(self).expression@, old(self).result@, input).1,
    {
        match input {
            ButtonInput::Clear => {
                self.expression.clear();
                self.result.clear();
            },
            ButtonInput::Digit(d) => {
                self.expression.push(d);
            },
            ButtonInput::Decimal => {
                if !trailing_dot(&self.expression) {
                    self.expression.push('.');
                }
            },
            ButtonInput::Operator(op) => {
                let n = self.expression.len();
                if n > 0 {
                    let last = self.expression[n - 1];
                    if last == '+' || last == '-' || last == '*' || last == '/' {
                        self.expression.pop();
                        proof {
                            assert(self.expression@ =~= old(self).expression@.drop_last());
                        }
                    }
                }
                let g = match op {
                    Op::Add => '+',
                    Op::Sub => '-',
                    Op::Mul => '*',
                    Op::Div => '/',
                };
                self.expression.push(g);
            },
            ButtonInput::ToggleSign => {
                if self.expression.len() > 0 {
                    if self.expression[0] == '-' {
                        self.expression.remove(0);
                        proof {
                            assert(self.expression@ =~= old(self).expression@.skip(1));
                        }
                    } else {
                        self.expression.insert(0, '-');
                        proof {
                            assert(self.expression@ =~= seq!['-'] + old(self).expression@);
                        }
                    }
                }
            },
            ButtonInput::Percent => {
                match evaluate_chars(&self.expression) {
                    Ok(v) => {
                        let mut h: Vec<char> = Vec::new();
                        h.push('1');
                        h.push('0');
                        h.push('0');
                        proof {
                            assert(h@ =~= hundred());
                        }
                        let w1 = crate::value::div(&v, &h);
                        let w2 = crate::value::div(&v, &h);
                        self.expression = w1;
                        self.result = w2;
                    },
                    Err(_) => {},
                }
            },
            ButtonInput::Square => {
                match evaluate_chars(&self.expression) {
                    Ok(v) => {
                        let w1 = crate::value::mul(&v, &v);
                        let w2 = crate::value::mul(&v, &v);
                        self.expression = w1;
                        self.result = w2;
                    },
                    Err(_) => {},
                }
            },
            ButtonInput::Equals => {
                match evaluate_chars(&self.expression) {
                    Ok(v) => {
                        self.result = v;
                    },
                    Err(_) => {
                        self.result = crate::value::chars_of("Error");
                    },
                }
            },
        }
    }
}

impl Default for CalculatorApp {
    /// A calculator with both buffers empty.
    fn default() -> (r: CalculatorApp)
        ensures
            r.expression@ == Seq::<char>::empty(),
            r.result@ == Seq::<char>::empty(),
    {
        CalculatorApp::new()
    }
}

} // verus!
