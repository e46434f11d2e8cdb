//! Putting the pages of one chart together: the chart itself and its
//! continuation pages, in reading order.

use crate::catalog::{records, ChartInfo, ChartRecord};
use crate::order::{ascending, lemma_insert_by_key_at, lemma_sort_by_key, sort_by_key};
use crate::text::{
    append_chars, chars_of, find, first_occurrence, matches_at, parse_unsigned, read_unsigned,
    same_text, slice_of, starts_with, string_of, trim, trimmed,
};
use vstd::prelude::*;

verus! {

/// The place of a page whose number cannot be read: behind the numbered ones.
pub const UNNUMBERED_PAGE: usize = 999;

/// The title of the chart that a page belongs to: the page's title up to the
/// first continuation marker, the whole title where it has none.
pub open spec fn base_name(name: Seq<char>) -> Seq<char> {
    match first_occurrence(name, ", CONT."@) {
        Some(at) => name.take(at),
        None => name,
    }
}

/// The place that a page number gives its page: the number that the text
/// denotes, 999 where it denotes none.
pub open spec fn numbered_place(number: Seq<char>) -> usize {
    match parse_unsigned(number) {
        Some(n) => n,
        None => 999,
    }
}

/// The place that the text behind a continuation marker gives its page: that
/// of the number that the trimmed text is.
pub open spec fn page_number(suffix: Seq<char>) -> usize {
    numbered_place(trim(suffix))
}

/// The place of the page titled `name` among the pages of the chart titled
/// `base`: 0 for the chart itself, the number behind the marker for a
/// continuation page, none for a page of another chart.
pub open spec fn page_index(name: Seq<char>, base: Seq<char>) -> Option<usize> {
    if name == base {
        Some(0)
    } else if starts_with(name, base + ", CONT."@) {
        Some(page_number(name.skip((base + ", CONT."@).len() as int)))
    } else {
        None
    }
}

/// A record with its place among the pages of a chart.
#[derive(Debug, PartialEq, Eq)]
pub struct ChartPage {
    pub index: usize,
    pub chart: ChartInfo,
}

/// What a [`ChartPage`] holds.
pub struct PageView {
    pub index: usize,
    pub chart: ChartRecord,
}

impl View for ChartPage {
    type V = PageView;

    open spec fn view(&self) -> PageView {
        PageView { index: self.index, chart: self.chart@ }
    }
}

/// What each of the given pages holds, in their order.
pub open spec fn page_views(pages: Seq<ChartPage>) -> Seq<PageView> {
    pages.map_values(|p: ChartPage| p@)
}

/// The record as a page of the chart titled `base`, if it is one.
pub open spec fn page_of(base: Seq<char>) -> spec_fn(ChartRecord) -> Option<PageView> {
    |r: ChartRecord|
        match page_index(r.chart_name, base) {
            Some(index) => Some(PageView { index, chart: r }),
            None => None,
        }
}

/// The key by which pages are ordered: the lower place comes first.
pub open spec fn page_key() -> spec_fn(PageView) -> int {
    |p: PageView| p.index as int
}

/// The pages of the chart titled `base`, by place; pages of one place stay
/// in the catalog's order.
pub open spec fn pages_by_place(charts: Seq<ChartRecord>, base: Seq<char>) -> Seq<PageView> {
    sort_by_key(charts.filter_map(page_of(base)), page_key())
}

/// The records that are pages of the chart `chart` belongs to, in reading order.
pub open spec fn pages_in_order(charts: Seq<ChartRecord>, chart: ChartRecord) -> Seq<ChartRecord> {
    pages_by_place(charts, base_name(chart.chart_name)).map_values(|p: PageView| p.chart)
}

/// The pages stand in ascending order of place, and they are the pages that
/// the catalog lists for the chart: none is left out, whatever its number,
/// and none is added.
pub proof fn lemma_pages_by_place(charts: Seq<ChartRecord>, base: Seq<char>)
    ensures
        ascending(pages_by_place(charts, base), page_key()),
        pages_by_place(charts, base).len() == charts.filter_map(page_of(base)).len(),
        pages_by_place(charts, base).to_multiset() == charts.filter_map(page_of(base)).to_multiset(),
{
    lemma_sort_by_key(charts.filter_map(page_of(base)), page_key());
}

/// A page whose number is below 999 stands before every page whose number
/// cannot be read.
pub proof fn lemma_unnumbered_pages_come_last(
    charts: Seq<ChartRecord>,
    base: Seq<char>,
    numbered: int,
    unnumbered: int,
)
    requires
        0 <= numbered < pages_by_place(charts, base).len(),
        0 <= unnumbered < pages_by_place(charts, base).len(),
        pages_by_place(charts, base)[numbered].index < 999,
        pages_by_place(charts, base)[unnumbered].index == 999,
    ensures
        numbered < unnumbered,
{
    lemma_pages_by_place(charts, base);
    let pages = pages_by_place(charts, base);
    if unnumbered <= numbered {
        assert((page_key())(pages[unnumbered]) <= (page_key())(pages[numbered]));
    }
}

/// The chart itself has the place 0, and a continuation page whose number
/// cannot be read has the place 999.
pub proof fn lemma_page_index(base: Seq<char>, suffix: Seq<char>)
    ensures
        page_index(base, base) == Some(0usize),
        parse_unsigned(trim(suffix)) is None ==> page_index(base + ", CONT."@ + suffix, base)
            == Some(999usize),
        parse_unsigned(trim(suffix)) matches Some(n) ==> page_index(
            base + ", CONT."@ + suffix,
            base,
        ) == Some(n),
{
    let name = base + ", CONT."@ + suffix;
    let prefix = base + ", CONT."@;
    reveal_strlit(", CONT.");
    assert(name.subrange(0, prefix.len() as int) =~= prefix);
    assert(name.skip(prefix.len() as int) =~= suffix);
    assert(name.len() != base.len());
}

/// The title of the chart that the page titled `name` belongs to.
pub fn base_chart_name(name: &str) -> (base: String)
    ensures
        base@ == base_name(name@),
{
    let c = chars_of(name);
    let marker = chars_of(", CONT.");
    match find(&c, &marker) {
        Some(at) => {
            let head = slice_of(&c, 0, at);
            string_of(&head)
        },
        None => string_of(&c),
    }
}

/// The place that a page number gives its page.
pub fn place_of_number(number: &Vec<char>) -> (place: usize)
    ensures
        place == numbered_place(number@),
{
    match read_unsigned(number) {
        Some(k) => k,
        None => UNNUMBERED_PAGE,
    }
}

/// The place of the page titled `name` among the pages of the chart titled `base`.
pub fn page_index_of(name: &str, base: &str) -> (index: Option<usize>)
    ensures
        index == page_index(name@, base@),
{
    let n = chars_of(name);
    let b = chars_of(base);
    if same_text(&n, &b) {
        return Some(0);
    }
    let mut prefix = slice_of(&b, 0, b.len());
    assert(prefix@ =~= b@);
    let marker = chars_of(", CONT.");
    append_chars(&mut prefix, &marker);
    if matches_at(&n, &prefix, 0) {
        let rest = slice_of(&n, prefix.len(), n.len());
        assert(rest@ =~= n@.skip(prefix.len() as int));
        Some(place_of_number(&trimmed(&rest)))
    } else {
        None
    }
}

/// The pages of the chart titled `base`, by place.
pub fn collect_pages(charts: &[ChartInfo], base: &str) -> (pages: Vec<ChartPage>)
    ensures
        page_views(pages@) == pages_by_place(records(charts@), base@),
        ascending(page_views(pages@), page_key()),
{
    proof {
        lemma_pages_by_place(records(charts@), base@);
    }
    let ghost all = records(charts@);
    let ghost f = page_of(base@);
    let mut pages: Vec<ChartPage> = Vec::new();
    let mut i: usize = 0;
    assert(all.take(0).filter_map(f) =~= Seq::<PageView>::empty());
    assert(page_views(pages@) =~= sort_by_key(all.take(0).filter_map(f), page_key()));
    while i < charts.len()
        invariant
            i <= charts.len(),
            all == records(charts@),
            f == page_of(base@),
            page_views(pages@) == sort_by_key(all.take(i as int).filter_map(f), page_key()),
        decreases charts.len() - i,
    {
        let found = page_index_of(charts[i].chart_name.as_str(), base);
        assert(all[i as int] == charts@[i as int]@);
        let ghost so_far = all.take(i as int).filter_map(f);
        proof {
            all.lemma_filter_map_take_succ(f, i as int);
        }
        match found {
            Some(index) => {
                let page = ChartPage { index, chart: charts[i].clone() };
                let mut at: usize = pages.len();
                while at > 0 && pages[at - 1].index > index
                    invariant
                        at <= pages.len(),
                        forall|k: int| at <= k < pages.len() ==> pages@[k].index > index,
                    decreases at,
                {
                    at -= 1;
                }
                let ghost before = page_views(pages@);
                proof {
                    let next = so_far + seq![page@];
                    assert(next.drop_last() =~= so_far);
                    assert(next.last() == page@);
                    assert forall|k: int| at <= k < before.len() implies (page_key())(before[k])
                        > (page_key())(page@) by {
                        assert(before[k] == pages@[k]@);
                    }
                    if at > 0 {
                        assert(before[at - 1] == pages@[at - 1]@);
                    }
                    lemma_insert_by_key_at(before, page@, page_key(), at as int);
                }
                pages.insert(at, page);
                assert(page_views(pages@) =~= before.insert(at as int, page@));
            },
            None => {
                assert(so_far + Seq::<PageView>::empty() =~= so_far);
            },
        }
        i += 1;
    }
    assert(all.take(charts.len() as int) =~= all);
    pages
}

/// Every page of the chart that `base_chart` belongs to, in reading order:
/// the chart itself, then its continuation pages by their numbers, those
/// without a readable number last.
pub fn find_all_chart_pages(charts: &[ChartInfo], base_chart: &ChartInfo) -> (pages: Vec<ChartInfo>)
    ensures
        records(pages@) == pages_in_order(records(charts@), base_chart@),
{
    let base = base_chart_name(base_chart.chart_name.as_str());
    let placed = collect_pages(charts, base.as_str());
    let mut pages: Vec<ChartInfo> = Vec::new();
    let mut i: usize = 0;
    while i < placed.len()
        invariant
            i <= placed.len(),
            pages.len() == i,
            forall|k: int| 0 <= k < i ==> pages@[k]@ == placed@[k]@.chart,
        decreases placed.len() - i,
    {
        pages.push(placed[i].chart.clone());
        i += 1;
    }
    assert forall|k: int| 0 <= k < pages.len() implies records(pages@)[k] == page_views(
        placed@,
    ).map_values(|p: PageView| p.chart)[k] by {
        assert(page_views(placed@)[k] == placed@[k]@);
    }
    assert(records(pages@) =~= page_views(placed@).map_values(|p: PageView| p.chart));
    pages
}

} // verus!
