//! The category of a chart, told from a catalog's category code or from the
//! key words in a chart's name.

use crate::text::{contains, has_text, chars_of, is_text, uppercase};
use vstd::prelude::*;

verus! {

/// The functional category of a procedure chart.
#[derive(Clone, Copy, Debug, PartialEq, Eq, Structural)]
pub enum ChartType {
    /// A standard instrument departure.
    Sid,
    /// A standard terminal arrival.
    Star,
    /// An instrument approach procedure.
    Iap,
    /// An airport diagram.
    Apd,
    /// None of the four.
    Unknown,
}

/// The text names a kind of approach or a runway.
pub open spec fn names_approach(text: Seq<char>) -> bool {
    ||| contains(text, "ILS"@)
    ||| contains(text, "LOC"@)
    ||| contains(text, "VOR"@)
    ||| contains(text, "RNAV"@)
    ||| contains(text, "RNP"@)
    ||| contains(text, "GPS"@)
    ||| contains(text, "NDB"@)
    ||| contains(text, "RWY"@)
}

/// The text names a diagram.
pub open spec fn names_diagram(text: Seq<char>) -> bool {
    contains(text, "DIAGRAM"@)
}

/// The text names an arrival.
pub open spec fn names_arrival(text: Seq<char>) -> bool {
    ||| contains(text, "ARRIVAL"@)
    ||| contains(text, "ARR"@)
    ||| contains(text, "STAR"@)
}

/// The text names a departure.
pub open spec fn names_departure(text: Seq<char>) -> bool {
    ||| contains(text, "DEPARTURE"@)
    ||| contains(text, "DEP"@)
    ||| contains(text, "SID"@)
}

/// The category that the key words of an upper-case text stand for. A text may
/// hold key words of several families; approach wins over diagram, diagram over
/// arrival, arrival over departure.
pub open spec fn keyword_type(text: Seq<char>) -> ChartType {
    if names_approach(text) {
        ChartType::Iap
    } else if names_diagram(text) {
        ChartType::Apd
    } else if names_arrival(text) {
        ChartType::Star
    } else if names_departure(text) {
        ChartType::Sid
    } else {
        ChartType::Unknown
    }
}

/// The category that an upper-case category code stands for.
pub open spec fn code_type(code: Seq<char>) -> ChartType {
    if code == "DP"@ {
        ChartType::Sid
    } else if code == "STAR"@ {
        ChartType::Star
    } else if code == "IAP"@ {
        ChartType::Iap
    } else if code == "APD"@ {
        ChartType::Apd
    } else {
        ChartType::Unknown
    }
}

impl ChartType {
    /// The category that the key words of `text` stand for, `text` read as it
    /// is written: key words are capital letters.
    pub fn by_keywords(text: &str) -> (t: ChartType)
        ensures
            t == keyword_type(text@),
    {
        let s = chars_of(text);
        if has_text(&s, "ILS") || has_text(&s, "LOC") || has_text(&s, "VOR") || has_text(&s, "RNAV")
            || has_text(&s, "RNP") || has_text(&s, "GPS") || has_text(&s, "NDB") || has_text(
            &s,
            "RWY",
        ) {
            return ChartType::Iap;
        }
        if has_text(&s, "DIAGRAM") {
            return ChartType::Apd;
        }
        if has_text(&s, "ARRIVAL") || has_text(&s, "ARR") || has_text(&s, "STAR") {
            return ChartType::Star;
        }
        if has_text(&s, "DEPARTURE") || has_text(&s, "DEP") || has_text(&s, "SID") {
            return ChartType::Sid;
        }
        ChartType::Unknown
    }

    /// The category that the code `code` stands for, `code` read as it is
    /// written: the four codes are capital letters.
    pub fn by_code(code: &str) -> (t: ChartType)
        ensures
            t == code_type(code@),
    {
        let s = chars_of(code);
        if is_text(&s, "DP") {
            ChartType::Sid
        } else if is_text(&s, "STAR") {
            ChartType::Star
        } else if is_text(&s, "IAP") {
            ChartType::Iap
        } else if is_text(&s, "APD") {
            ChartType::Apd
        } else {
            ChartType::Unknown
        }
    }

    /// The category that the key words of a chart's name stand for, whatever
    /// the case of its letters.
    pub fn infer(name: &str) -> (t: ChartType)
        ensures
            t == keyword_type(uppercase(name@)),
    {
        let up = name.to_uppercase();
        ChartType::by_keywords(up.as_str())
    }

    /// The category that a catalog's category code stands for, whatever the
    /// case of its letters.
    pub fn from_code(code: &str) -> (t: ChartType)
        ensures
            t == code_type(uppercase(code@)),
    {
        let up = code.to_uppercase();
        ChartType::by_code(up.as_str())
    }
}

} // verus!
