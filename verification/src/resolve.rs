//! From a catalog and what the user typed to the outcome to show: the
//! addresses of a chart's pages, a list of candidates, or nothing.

use crate::catalog::{records, ChartInfo, ChartRecord};
use crate::matching::{candidates, find_chart_by_name, resolved, Candidate, ChartMatch};
use crate::pages::{find_all_chart_pages, pages_in_order};
use crate::query::{query_for, ChartQuery};
use crate::text::{append_chars, chars_of, joined, starts_with, string_of, uppercase};
use crate::tokens::string_texts;
use crate::url::{absolute_pdf_url, absolute_url};
use vstd::prelude::*;
use vstd::string::StringSliceAdditionalSpecFns;

verus! {

/// How a resolution ends.
#[derive(Debug, PartialEq, Eq)]
pub enum Resolution {
    /// One chart matches; its pages lie at these addresses, in reading order.
    Unique { chart: ChartInfo, page_urls: Vec<String> },
    /// Several charts may be meant: these, from the best score down.
    Ambiguous { candidates: Vec<ChartMatch> },
    /// No chart of the catalog comes near.
    NoMatch,
}

/// What a [`Resolution`] holds.
pub enum Outcome {
    Unique { chart: ChartRecord, page_urls: Seq<Seq<char>> },
    Ambiguous { candidates: Seq<Candidate> },
    NoMatch,
}

impl View for Resolution {
    type V = Outcome;

    open spec fn view(&self) -> Outcome {
        match self {
            Resolution::Unique { chart, page_urls } => Outcome::Unique {
                chart: chart@,
                page_urls: string_texts(page_urls@),
            },
            Resolution::Ambiguous { candidates: shown } => Outcome::Ambiguous {
                candidates: candidates(shown@),
            },
            Resolution::NoMatch => Outcome::NoMatch,
        }
    }
}

/// The addresses of the pages of the chart that `chart` belongs to, in
/// reading order, for a service at `base`.
pub open spec fn page_addresses(charts: Seq<ChartRecord>, chart: ChartRecord, base: Seq<char>) -> Seq<
    Seq<char>,
> {
    pages_in_order(charts, chart).map_values(|p: ChartRecord| absolute_url(base, p.pdf_path))
}

/// The outcome for a catalog, an airport's code, the words the user typed,
/// the base address of the chart service and the gap under which the two
/// best candidates count as tied.
pub open spec fn resolution(
    charts: Seq<ChartRecord>,
    airport: Seq<char>,
    words: Seq<Seq<char>>,
    base: Seq<char>,
    gap: nat,
) -> Outcome {
    let found = resolved(charts, query_for(airport, joined(words)), gap);
    match found.0 {
        Some(chart) => Outcome::Unique { chart, page_urls: page_addresses(charts, chart, base) },
        None => if found.1.len() > 0 {
            Outcome::Ambiguous { candidates: found.1 }
        } else {
            Outcome::NoMatch
        },
    }
}

/// An airport's code is worth a second try with a `K` in front: it is three
/// bytes long and does not begin with `K`.
pub open spec fn lacks_k(code: &str) -> bool {
    code.spec_bytes().len() == 3 && !starts_with(code@, seq!['K'])
}

/// The words with one space between each two.
pub fn join_words(words: &[String]) -> (text: String)
    ensures
        text@ == joined(string_texts(words@)),
{
    let ghost all = string_texts(words@);
    let mut text: Vec<char> = Vec::new();
    let mut i: usize = 0;
    assert(all.take(0) =~= Seq::<Seq<char>>::empty());
    while i < words.len()
        invariant
            i <= words.len(),
            all == string_texts(words@),
            text@ == joined(all.take(i as int)),
        decreases words.len() - i,
    {
        let ghost before = text@;
        if i > 0 {
            text.push(' ');
        }
        let word = chars_of(words[i].as_str());
        append_chars(&mut text, &word);
        proof {
            assert(all.take(i + 1).drop_last() =~= all.take(i as int));
            assert(all.take(i + 1).last() == words@[i as int]@);
            if i == 0 {
                assert(text@ =~= word@);
            } else {
                assert(text@ =~= before + seq![' '] + word@);
            }
        }
        i += 1;
    }
    assert(all.take(words.len() as int) =~= all);
    string_of(&text)
}

/// The addresses of the pages of the chart that `chart` belongs to, in
/// reading order, for a service at `base`.
pub fn page_urls(charts: &[ChartInfo], chart: &ChartInfo, base: &str) -> (urls: Vec<String>)
    ensures
        string_texts(urls@) == page_addresses(records(charts@), chart@, base@),
{
    let pages = find_all_chart_pages(charts, chart);
    let mut urls: Vec<String> = Vec::new();
    let mut i: usize = 0;
    while i < pages.len()
        invariant
            i <= pages.len(),
            urls.len() == i,
            forall|k: int| 0 <= k < i ==> urls@[k]@ == absolute_url(base@, pages@[k]@.pdf_path),
        decreases pages.len() - i,
    {
        urls.push(absolute_pdf_url(base, pages[i].pdf_path.as_str()));
        i += 1;
    }
    assert forall|k: int| 0 <= k < urls.len() implies string_texts(urls@)[k] == records(
        pages@,
    ).map_values(|p: ChartRecord| absolute_url(base@, p.pdf_path))[k] by {
        assert(records(pages@)[k] == pages@[k]@);
    }
    assert(string_texts(urls@) =~= records(pages@).map_values(
        |p: ChartRecord| absolute_url(base@, p.pdf_path),
    ));
    urls
}

/// Resolves what the user typed against the catalog of an airport: the
/// words are joined, normalized and matched, and the pages of a chart that
/// matches alone are put together and given their addresses.
pub fn resolve_chart(
    charts: &[ChartInfo],
    airport: &str,
    words: &[String],
    base: &str,
    gap: u32,
) -> (r: Resolution)
    ensures
        r@ == resolution(records(charts@), airport@, string_texts(words@), base@, gap as nat),
{
    let text = join_words(words);
    let query = ChartQuery::new(airport, text.as_str());
    let (found, shown) = find_chart_by_name(charts, &query, gap);
    match found {
        Some(chart) => {
            let urls = page_urls(charts, &chart, base);
            Resolution::Unique { chart, page_urls: urls }
        },
        None => {
            if shown.len() > 0 {
                Resolution::Ambiguous { candidates: shown }
            } else {
                Resolution::NoMatch
            }
        },
    }
}

/// The code to ask the service for when it knew nothing under `airport`:
/// the code in upper case with a `K` in front, for a code of three bytes
/// that does not begin with `K`; none for any other.
pub fn retry_code(airport: &str) -> (code: Option<String>)
    ensures
        match code {
            Some(c) => lacks_k(airport) && c@ == seq!['K'] + uppercase(airport@),
            None => !lacks_k(airport),
        },
{
    if airport.as_bytes().len() != 3 {
        return None;
    }
    let c = chars_of(airport);
    let k = chars_of("K");
    proof {
        reveal_strlit("K");
        assert(k@ =~= seq!['K']);
    }
    if crate::text::matches_at(&c, &k, 0) {
        return None;
    }
    let up = airport.to_uppercase();
    let mut code = k;
    append_chars(&mut code, &chars_of(up.as_str()));
    Some(string_of(&code))
}

} // verus!
