//! Bringing what a user types into the words that catalog titles use.

use crate::digits::{decimal_digit, is_decimal_digit};
use crate::text::{
    append_chars, chars_of, is_capital, is_text, lowercase, same_text, slice_of,
    string_of, trim, trimmed, uppercase,
};
use vstd::prelude::*;

verus! {

/// What a string that may be absent holds.
pub open spec fn text_of(s: Option<&str>) -> Option<Seq<char>> {
    match s {
        Some(t) => Some(t@),
        None => None,
    }
}

/// The upper-case form of a text that may be absent.
pub open spec fn uppercase_of(s: Option<&str>) -> Option<Seq<char>> {
    match s {
        Some(t) => Some(uppercase(t@)),
        None => None,
    }
}

/// The name by which chart titles call the airport with the given upper-case
/// three-letter code, for the few airports that are known here.
pub open spec fn airport_name(code: Seq<char>) -> Option<Seq<char>> {
    if code == "IAD"@ {
        Some("DULLES"@)
    } else if code == "DCA"@ {
        Some("WASHINGTON"@)
    } else if code == "BWI"@ {
        Some("BALTIMORE"@)
    } else if code == "RIC"@ {
        Some("RICHMOND"@)
    } else if code == "ORF"@ {
        Some("NORFOLK"@)
    } else if code == "RDU"@ {
        Some("RALEIGH"@)
    } else if code == "OAK"@ {
        Some("OAKLAND"@)
    } else {
        None
    }
}

/// The word for a digit from 1 to 9; any other character, a zero or a digit
/// beyond ASCII, stands for itself.
pub open spec fn digit_word(d: char) -> Seq<char> {
    if d == '1' {
        "ONE"@
    } else if d == '2' {
        "TWO"@
    } else if d == '3' {
        "THREE"@
    } else if d == '4' {
        "FOUR"@
    } else if d == '5' {
        "FIVE"@
    } else if d == '6' {
        "SIX"@
    } else if d == '7' {
        "SEVEN"@
    } else if d == '8' {
        "EIGHT"@
    } else if d == '9' {
        "NINE"@
    } else {
        seq![d]
    }
}

/// The text is a procedure code: one capital letter or more, then exactly
/// one decimal digit.
pub open spec fn is_procedure_code(s: Seq<char>) -> bool {
    &&& s.len() >= 2
    &&& is_decimal_digit(s.last())
    &&& forall|i: int| 0 <= i < s.len() - 1 ==> is_capital(#[trigger] s[i])
}

/// The letters of a procedure code as titles write them: the airport's name
/// where the letters are the code of the airport asked about and that airport
/// is known, the letters themselves otherwise.
pub open spec fn procedure_base(letters: Seq<char>, airport: Option<Seq<char>>) -> Seq<char> {
    match airport {
        Some(code) => if letters == code {
            match airport_name(code) {
                Some(name) => name,
                None => letters,
            }
        } else {
            letters
        },
        None => letters,
    }
}

/// A trimmed upper-case chart reference in the words of catalog titles.
/// `airport` is the upper-case code of the airport asked about.
pub open spec fn expanded_name(s: Seq<char>, airport: Option<Seq<char>>) -> Seq<char> {
    if s == "TAXI"@ {
        "AIRPORT DIAGRAM"@
    } else if is_procedure_code(s) {
        procedure_base(s.drop_last(), airport) + seq![' '] + digit_word(s.last())
    } else {
        s
    }
}

/// A text with each hyphen and each space replaced by an underscore.
pub open spec fn underscored(s: Seq<char>) -> Seq<char> {
    s.map_values(
        |c: char|
            if c == '-' || c == ' ' {
                '_'
            } else {
                c
            },
    )
}

/// A text without the one `K` or `k` that it may begin with.
pub open spec fn without_k(s: Seq<char>) -> Seq<char> {
    if s.len() > 0 && (s[0] == 'K' || s[0] == 'k') {
        s.drop_first()
    } else {
        s
    }
}

/// `TAXI` stands for the airport diagram, whatever airport is asked about.
pub proof fn lemma_taxi_is_the_airport_diagram(airport: Option<Seq<char>>)
    ensures
        expanded_name("TAXI"@, airport) == "AIRPORT DIAGRAM"@,
{
}

/// A text that is no alias and no procedure code is its own expansion.
pub proof fn lemma_other_text_is_kept(s: Seq<char>, airport: Option<Seq<char>>)
    requires
        s != "TAXI"@,
        !is_procedure_code(s),
    ensures
        expanded_name(s, airport) == s,
{
}

/// The name by which chart titles call the airport with the code `code`, which
/// is read as it is written: the known codes are capital letters.
pub fn airport_name_of(code: &str) -> (name: Option<&'static str>)
    ensures
        text_of(name) == airport_name(code@),
{
    let c = chars_of(code);
    if is_text(&c, "IAD") {
        Some("DULLES")
    } else if is_text(&c, "DCA") {
        Some("WASHINGTON")
    } else if is_text(&c, "BWI") {
        Some("BALTIMORE")
    } else if is_text(&c, "RIC") {
        Some("RICHMOND")
    } else if is_text(&c, "ORF") {
        Some("NORFOLK")
    } else if is_text(&c, "RDU") {
        Some("RALEIGH")
    } else if is_text(&c, "OAK") {
        Some("OAKLAND")
    } else {
        None
    }
}

/// The name by which chart titles call the airport with the code `code`,
/// whatever the case of its letters.
pub fn airport_name_map(code: &str) -> (name: Option<&'static str>)
    ensures
        text_of(name) == airport_name(uppercase(code@)),
{
    let up = code.to_uppercase();
    airport_name_of(up.as_str())
}

/// The word for the digit `d`.
pub fn word_for_digit(d: char) -> (word: Vec<char>)
    ensures
        word@ == digit_word(d),
{
    if d == '1' {
        chars_of("ONE")
    } else if d == '2' {
        chars_of("TWO")
    } else if d == '3' {
        chars_of("THREE")
    } else if d == '4' {
        chars_of("FOUR")
    } else if d == '5' {
        chars_of("FIVE")
    } else if d == '6' {
        chars_of("SIX")
    } else if d == '7' {
        chars_of("SEVEN")
    } else if d == '8' {
        chars_of("EIGHT")
    } else if d == '9' {
        chars_of("NINE")
    } else {
        let mut w: Vec<char> = Vec::new();
        w.push(d);
        assert(w@ =~= seq![d]);
        w
    }
}

/// Whether `s` is one capital letter or more followed by exactly one digit.
pub fn procedure_code(s: &Vec<char>) -> (r: bool)
    ensures
        r == is_procedure_code(s@),
{
    let n = s.len();
    if n < 2 {
        return false;
    }
    if !decimal_digit(s[n - 1]) {
        return false;
    }
    let mut i: usize = 0;
    while i < n - 1
        invariant
            n == s.len(),
            n >= 2,
            i <= n - 1,
            forall|j: int| 0 <= j < i ==> is_capital(#[trigger] s@[j]),
        decreases n - i,
    {
        let c = s[i];
        if !(c >= 'A' && c <= 'Z') {
            assert(!is_capital(s@[i as int]));
            return false;
        }
        i += 1;
    }
    true
}

/// A trimmed upper-case chart reference in the words of catalog titles: `TAXI`
/// is the airport diagram, and a procedure code such as `CNDEL5` is written out
/// as `CNDEL FIVE`, with the airport's name for its letters where they are the
/// code of the airport asked about. Any other text is its own result.
/// `airport` is the upper-case code of that airport.
pub fn expand_chart_name(s: &str, airport: Option<&str>) -> (r: String)
    ensures
        r@ == expanded_name(s@, text_of(airport)),
{
    let c = chars_of(s);
    if is_text(&c, "TAXI") {
        let r = chars_of("AIRPORT DIAGRAM");
        return string_of(&r);
    }
    if procedure_code(&c) {
        let n = c.len();
        let letters = slice_of(&c, 0, n - 1);
        assert(letters@ =~= c@.drop_last());
        let mut base: Vec<char> = letters;
        if let Some(ap) = airport {
            let code = chars_of(ap);
            if same_text(&base, &code) {
                if let Some(name) = airport_name_of(ap) {
                    base = chars_of(name);
                }
            }
        }
        assert(base@ == procedure_base(c@.drop_last(), text_of(airport)));
        let word = word_for_digit(c[n - 1]);
        base.push(' ');
        append_chars(&mut base, &word);
        assert(base@ =~= procedure_base(c@.drop_last(), text_of(airport)) + seq![' ']
            + digit_word(c@.last()));
        return string_of(&base);
    }
    string_of(&c)
}

/// A chart reference as a user types it, in the words of catalog titles: the
/// text is trimmed and put in upper case, the airport's code is put in upper
/// case, and the rest is [`expand_chart_name`].
pub fn normalize_chart_name(name: &str, airport: Option<&str>) -> (r: String)
    ensures
        r@ == expanded_name(uppercase(trim(name@)), uppercase_of(airport)),
{
    let raw = chars_of(name);
    let t = string_of(&trimmed(&raw));
    let s = t.as_str().to_uppercase();
    match airport {
        Some(ap) => {
            let code = ap.to_uppercase();
            expand_chart_name(s.as_str(), Some(code.as_str()))
        },
        None => expand_chart_name(s.as_str(), None),
    }
}

/// `s` with each hyphen and each space replaced by an underscore.
pub fn underscore_separators(s: &str) -> (r: String)
    ensures
        r@ == underscored(s@),
{
    let c = chars_of(s);
    let mut out: Vec<char> = Vec::new();
    let mut i: usize = 0;
    while i < c.len()
        invariant
            i <= c.len(),
            out@ == underscored(c@.take(i as int)),
        decreases c.len() - i,
    {
        let x = c[i];
        let y = if x == '-' || x == ' ' {
            '_'
        } else {
            x
        };
        out.push(y);
        assert(out@ =~= underscored(c@.take(i + 1)));
        i += 1;
    }
    assert(c@.take(c.len() as int) =~= c@);
    string_of(&out)
}

/// The key under which an alias is looked up: lower case, with underscores
/// for hyphens and spaces.
pub fn normalize_alias(s: &str) -> (r: String)
    ensures
        r@ == underscored(lowercase(s@)),
{
    let low = s.to_lowercase();
    underscore_separators(low.as_str())
}

/// `code` without the one `K` or `k` that it may begin with.
pub fn drop_leading_k(code: &Vec<char>) -> (rest: Vec<char>)
    ensures
        rest@ == without_k(code@),
{
    if code.len() > 0 && (code[0] == 'K' || code[0] == 'k') {
        let rest = slice_of(code, 1, code.len());
        assert(rest@ =~= code@.drop_first());
        rest
    } else {
        let whole = slice_of(code, 0, code.len());
        assert(whole@ =~= code@);
        whole
    }
}

/// `src` trimmed, and without the one `K` or `k` that it may then begin with.
pub fn strip_k_prefix(src: &str) -> (r: String)
    ensures
        r@ == without_k(trim(src@)),
{
    let code = trimmed(&chars_of(src));
    string_of(&drop_leading_k(&code))
}

/// An airport's code as the route service wants it: trimmed, without a
/// leading `K`, in upper case.
pub fn norm_airport_for_routes(src: &str) -> (r: String)
    ensures
        r@ == uppercase(without_k(trim(src@))),
{
    let s = strip_k_prefix(src);
    s.as_str().to_uppercase()
}

} // verus!
