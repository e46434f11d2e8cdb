//! The class of decimal digits: the ten ASCII digits, and beyond ASCII what
//! the `regex` crate's class `\d` holds.

use crate::text::is_digit;
use vstd::prelude::*;

verus! {

/// Whether `text` matches `pattern`, as the `regex` crate reads patterns and
/// searches texts; none where the crate refuses the pattern.
pub uninterp spec fn regex_match(pattern: Seq<char>, text: Seq<char>) -> Option<bool>;

/// Not proved: compiles `pattern` with `regex::Regex::new` and asks
/// `Regex::is_match` whether `text` holds a match. Both are functions of
/// their arguments alone; the answer is what this crate calls
/// [`regex_match`], and it is none where `Regex::new` returns an error.
#[verifier::external_body]
fn pattern_matches(pattern: &str, text: &str) -> (r: Option<bool>)
    ensures
        r == regex_match(pattern@, text@),
{
    match regex::Regex::new(pattern) {
        Ok(re) => Some(re.is_match(text)),
        Err(_) => None,
    }
}

/// `c` is a decimal digit: one of the ten ASCII digits, or a character
/// beyond ASCII that alone matches the pattern `^\d$`.
pub open spec fn is_decimal_digit(c: char) -> bool {
    is_digit(c) || (c as u32 > 0x7F && regex_match("^\\d$"@, seq![c]) == Some(true))
}

/// Whether `c` is a decimal digit.
pub fn decimal_digit(c: char) -> (r: bool)
    ensures
        r == is_decimal_digit(c),
{
    if c >= '0' && c <= '9' {
        return true;
    }
    if c as u32 <= 0x7F {
        return false;
    }
    let mut text = String::new();
    text.push(c);
    assert(text@ =~= seq![c]);
    match pattern_matches("^\\d$", text.as_str()) {
        Some(found) => found,
        None => false,
    }
}

} // verus!
