//! The number model: a value is the canonical decimal text of an IEEE-754
//! double (what standard float formatting prints). The primitive arithmetic
//! on such texts is delegated to `meval` behind trusted wrappers; negation
//! and the zero test are plain text operations and are verified.

use vstd::prelude::*;

verus! {

/// A decimal digit.
pub open spec fn is_digit(c: char) -> bool {
    '0' <= c && c <= '9'
}

/// A number lexeme: only digits and dots, at least one digit, at most one dot.
pub open spec fn lexeme_valid(s: Seq<char>) -> bool {
    &&& s.len() > 0
    &&& (forall|k: int| 0 <= k < s.len() ==> is_digit(s[k]) || s[k] == '.')
    &&& (exists|k: int| 0 <= k < s.len() && is_digit(s[k]))
    &&& (forall|k1: int, k2: int|
        0 <= k1 < s.len() && 0 <= k2 < s.len() && s[k1] == '.' && s[k2] == '.' ==> k1 == k2)
}

/// Names the canonical rendering of the double that a number lexeme denotes:
/// the lexeme parsed as a double and printed back.
pub uninterp spec fn canon_of(s: Seq<char>) -> Seq<char>;

/// Names the canonical rendering of the IEEE-754 sum of the doubles that two
/// canonical texts denote.
pub uninterp spec fn add_of(a: Seq<char>, b: Seq<char>) -> Seq<char>;

/// Names the rendering of the IEEE-754 difference, as `add_of` does the sum.
pub uninterp spec fn sub_of(a: Seq<char>, b: Seq<char>) -> Seq<char>;

/// Names the rendering of the IEEE-754 product, as `add_of` does the sum.
pub uninterp spec fn mul_of(a: Seq<char>, b: Seq<char>) -> Seq<char>;

/// Names the rendering of the IEEE-754 quotient, as `add_of` does the sum.
pub uninterp spec fn div_of(a: Seq<char>, b: Seq<char>) -> Seq<char>;

/// The text of a negated value: a canonical rendering carries its sign as
/// one leading minus character, so negation toggles that character.
pub open spec fn neg_text(s: Seq<char>) -> Seq<char> {
    if s.len() > 0 && s[0] == '-' {
        s.skip(1)
    } else {
        seq!['-'].add(s)
    }
}

/// A canonical text denotes the double zero exactly when it is `0` or `-0`:
/// standard float formatting prints every zero this way and never prints a
/// nonzero double as either.
pub open spec fn is_zero_text(s: Seq<char>) -> bool {
    s == seq!['0'] || s == seq!['-', '0']
}

/// What holds of every text that the trusted operations hand back: where the
/// text (or the text behind a leading minus sign) happens to be a number
/// lexeme, it is already canonical, so parsing and re-rendering it changes
/// nothing. This is the round-trip guarantee of standard float formatting:
/// it prints the shortest decimal text that parses back to the same double.
pub open spec fn rendered(v: Seq<char>) -> bool {
    &&& (lexeme_valid(v) ==> canon_of(v) == v)
    &&& (v.len() > 0 && v[0] == '-' && lexeme_valid(v.skip(1)) ==> canon_of(v.skip(1)) == v.skip(
    1))
}

/// The invariant of every computed value: the text and its negation are both
/// rendered, and the text never starts with two minus signs (a rendering
/// carries at most one sign, and negation strips an existing one).
pub open spec fn good(v: Seq<char>) -> bool {
    &&& rendered(v)
    &&& rendered(neg_text(v))
    &&& !(v.len() >= 2 && v[0] == '-' && v[1] == '-')
}

/// Negation keeps the value invariant: it toggles the one leading sign, so
/// applying it twice gives the original text back.
pub proof fn lemma_neg_good(v: Seq<char>)
    requires
        good(v),
    ensures
        good(neg_text(v)),
        neg_text(neg_text(v)) == v,
{
    if v.len() > 0 && v[0] == '-' {
        let t = v.skip(1);
        assert(neg_text(v) == t);
        if t.len() > 0 && t[0] == '-' {
            assert(v[1] == '-');
        }
        assert(neg_text(t) =~= seq!['-'].add(t));
        assert(neg_text(t) =~= v);
    } else {
        let t = seq!['-'].add(v);
        assert(neg_text(v) == t);
        assert(t[0] == '-');
        assert(neg_text(t) =~= t.skip(1));
        assert(t.skip(1) =~= v);
    }
}

/// Toggles the leading minus sign: the IEEE-754 negation of the value a
/// canonical text denotes.
pub fn neg(v: &Vec<char>) -> (r: Vec<char>)
    ensures
        r@ == neg_text(v@),
{
    let mut r: Vec<char> = Vec::new();
    if v.len() > 0 && v[0] == '-' {
        let mut i: usize = 1;
        while i < v.len()
            invariant
                1 <= i <= v.len(),
                r@ == v@.subrange(1, i as int),
            decreases v.len() - i,
        {
            r.push(v[i]);
            i = i + 1;
        }
        proof {
            assert(r@ =~= v@.skip(1));
        }
    } else {
        r.push('-');
        let mut i: usize = 0;
        while i < v.len()
            invariant
                0 <= i <= v.len(),
                r@ == seq!['-'].add(v@.subrange(0, i as int)),
            decreases v.len() - i,
        {
            r.push(v[i]);
            i = i + 1;
        }
        proof {
            assert(r@ =~= seq!['-'].add(v@));
        }
    }
    r
}

/// Whether a canonical text denotes the double zero.
pub fn is_zero(v: &Vec<char>) -> (r: bool)
    ensures
        r == is_zero_text(v@),
{
    if v.len() == 1 && v[0] == '0' {
        proof {
            assert(v@ =~= seq!['0']);
        }
        true
    } else if v.len() == 2 && v[0] == '-' && v[1] == '0' {
        proof {
            assert(v@ =~= seq!['-', '0']);
        }
        true
    } else {
        proof {
            if v@ == seq!['0'] {
                assert(v@.len() == 1 && v@[0] == '0');
            }
            if v@ == seq!['-', '0'] {
                assert(v@.len() == 2 && v@[0] == '-' && v@[1] == '0');
            }
        }
        false
    }
}

/// Relies on `str::chars`: the characters of the text, in order.
#[verifier::external_body]
pub(crate) fn chars_of(s: &str) -> (r: Vec<char>)
    ensures
        r@ == s@,
{
    s.chars().collect()
}

/// Relies on `FromIterator for String`: the text made of the characters, in
/// order.
#[verifier::external_body]
pub(crate) fn string_of(v: &Vec<char>) -> (r: String)
    ensures
        r@ == v@,
{
    v.iter().collect()
}

/// Relies on `meval::eval_str` (which ends in std float parsing): a number
/// lexeme names one double, rendered back by standard float formatting.
/// meval wants a digit before a decimal point, so a leading dot gets a zero
/// digit in front, which names the same decimal number and so the same
/// double.
#[verifier::external_body]
pub(crate) fn lit_canon(s: &[char]) -> (r: Vec<char>)
    requires
        lexeme_valid(s@),
    ensures
        r@ == canon_of(s@),
        good(r@),
{
    let text: String = s.iter().collect();
    let padded = if text.starts_with('.') {
        format!("0{}", text)
    } else {
        text
    };
    match meval::eval_str(&padded) {
        Ok(v) => format!("{}", v).chars().collect(),
        Err(_) => Vec::new(),
    }
}

/// Relies on `meval::eval_str`: the IEEE-754 sum of the doubles the two
/// texts denote, rendered by standard float formatting. The operands are
/// spliced into one parenthesized expression for meval to evaluate.
#[verifier::external_body]
pub(crate) fn add(a: &Vec<char>, b: &Vec<char>) -> (r: Vec<char>)
    ensures
        r@ == add_of(a@, b@),
        good(r@),
{
    let ea: String = a.iter().collect();
    let eb: String = b.iter().collect();
    match meval::eval_str(format!("({})+({})", ea, eb)) {
        Ok(v) => format!("{}", v).chars().collect(),
        Err(_) => Vec::new(),
    }
}

/// Relies on `meval::eval_str`, as `add` does, for the IEEE-754 difference.
#[verifier::external_body]
pub(crate) fn sub(a: &Vec<char>, b: &Vec<char>) -> (r: Vec<char>)
    ensures
        r@ == sub_of(a@, b@),
        good(r@),
{
    let ea: String = a.iter().collect();
    let eb: String = b.iter().collect();
    match meval::eval_str(format!("({})-({})", ea, eb)) {
        Ok(v) => format!("{}", v).chars().collect(),
        Err(_) => Vec::new(),
    }
}

/// Relies on `meval::eval_str`, as `add` does, for the IEEE-754 product.
#[verifier::external_body]
pub(crate) fn mul(a: &Vec<char>, b: &Vec<char>) -> (r: Vec<char>)
    ensures
        r@ == mul_of(a@, b@),
        good(r@),
{
    let ea: String = a.iter().collect();
    let eb: String = b.iter().collect();
    match meval::eval_str(format!("({})*({})", ea, eb)) {
        Ok(v) => format!("{}", v).chars().collect(),
        Err(_) => Vec::new(),
    }
}

/// Relies on `meval::eval_str`, as `add` does, for the IEEE-754 quotient.
#[verifier::external_body]
pub(crate) fn div(a: &Vec<char>, b: &Vec<char>) -> (r: Vec<char>)
    ensures
        r@ == div_of(a@, b@),
        good(r@),
{
    let ea: String = a.iter().collect();
    let eb: String = b.iter().collect();
    match meval::eval_str(format!("({})/({})", ea, eb)) {
        Ok(v) => format!("{}", v).chars().collect(),
        Err(_) => Vec::new(),
    }
}

} // verus!
