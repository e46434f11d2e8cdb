//! What the chart service's reply says of an airport's charts.
//!
//! The service groups its charts by category. Older replies are a plain list
//! of charts, or an object of such lists; they name no category.

use crate::catalog::{records, ChartInfo, ChartRecord};
use crate::json::{
    find_member, first_text_or_empty, key_texts, member, text_member, text_of_member, text_under,
    Json, Member,
};
use crate::text::{
    append_chars, chars_of, is_text, string_of, strip_trailing, uppercase, without_trailing,
};
use vstd::prelude::*;

verus! {

/// The keys under which a grouped reply may give a chart's title.
pub open spec fn grouped_name_keys() -> Seq<Seq<char>> {
    seq!["chart_name"@, "title"@, "name"@, "chartTitle"@, "chart_title"@]
}

/// The keys under which a grouped reply may give a chart's document.
pub open spec fn grouped_path_keys() -> Seq<Seq<char>> {
    seq!["pdf_url"@, "pdf"@, "pdf_path"@, "pdf_name"@, "file"@, "filename"@, "href"@, "link"@]
}

/// The keys under which a plain reply may give a chart's title.
pub open spec fn plain_name_keys() -> Seq<Seq<char>> {
    seq!["chart_name"@, "title"@, "name"@]
}

/// The keys under which a plain reply may give a chart's document.
pub open spec fn plain_path_keys() -> Seq<Seq<char>> {
    seq!["pdf_url"@, "pdf"@, "pdf_path"@, "pdf_name"@, "file"@, "filename"@]
}

/// The keys under which a plain reply may give the FAA identifier.
pub open spec fn plain_faa_keys() -> Seq<Seq<char>> {
    seq!["faa_ident"@, "faa"@, "ident"@]
}

/// The keys under which a plain reply may give the ICAO identifier.
pub open spec fn plain_icao_keys() -> Seq<Seq<char>> {
    seq!["icao_ident"@, "icao"@]
}

/// The category code for a group of the reply: the four known groups and
/// the general one have their codes, any other group its name in upper case.
pub open spec fn group_code(group: Seq<char>) -> Seq<char> {
    if group == "airport_diagram"@ {
        "APD"@
    } else if group == "departure"@ {
        "DP"@
    } else if group == "arrival"@ {
        "STAR"@
    } else if group == "approach"@ {
        "IAP"@
    } else if group == "general"@ {
        "GEN"@
    } else {
        uppercase(group)
    }
}

/// The text that the object holds under `key`, if it holds one there that
/// is not empty; `otherwise` if not.
pub open spec fn own_text_or(members: Seq<Member>, key: Seq<char>, otherwise: Seq<char>) -> Seq<
    char,
> {
    match text_member(members, key) {
        Some(t) => if t.len() > 0 {
            t
        } else {
            otherwise
        },
        None => otherwise,
    }
}

/// The identifier that the reply gives for the airport as a whole under
/// `key`; the empty text where it gives none.
pub open spec fn airport_ident(doc: Seq<Member>, key: Seq<char>) -> Seq<char> {
    match member(doc, "airport_data"@) {
        Some(Json::Object(data)) => match text_member(data@, key) {
            Some(t) => t,
            None => Seq::empty(),
        },
        _ => Seq::empty(),
    }
}

/// The record that one chart of a group of the reply makes.
pub open spec fn grouped_record(
    item: Seq<Member>,
    group: Seq<char>,
    faa: Seq<char>,
    icao: Seq<char>,
) -> ChartRecord {
    ChartRecord {
        chart_name: first_text_or_empty(item, grouped_name_keys()),
        chart_code: group_code(group),
        pdf_path: first_text_or_empty(item, grouped_path_keys()),
        faa_ident: own_text_or(item, "faa_ident"@, faa),
        icao_ident: own_text_or(item, "icao_ident"@, icao),
    }
}

/// The record that one chart of a plain reply makes: it has no category.
pub open spec fn plain_record(item: Seq<Member>) -> ChartRecord {
    ChartRecord {
        chart_name: first_text_or_empty(item, plain_name_keys()),
        chart_code: Seq::empty(),
        pdf_path: first_text_or_empty(item, plain_path_keys()),
        faa_ident: first_text_or_empty(item, plain_faa_keys()),
        icao_ident: first_text_or_empty(item, plain_icao_keys()),
    }
}

/// The record that one chart of a reply makes, for the objects among JSON
/// values: [`grouped_record`] where the reply is grouped, [`plain_record`]
/// where it is not. Other values make none.
pub open spec fn item_record(grouped: bool, group: Seq<char>, faa: Seq<char>, icao: Seq<char>)
    -> spec_fn(Json) -> Option<ChartRecord> {
    |v: Json|
        match v {
            Json::Object(item) => Some(
                if grouped {
                    grouped_record(item@, group, faa, icao)
                } else {
                    plain_record(item@)
                },
            ),
            _ => None,
        }
}

/// The records of an object of lists: member by member in the object's
/// order, and within a member the charts in the order of its list. A member
/// whose value is no list has none. Where the reply is grouped, the key of a
/// member names the group of its charts.
pub open spec fn listed_records(
    members: Seq<Member>,
    grouped: bool,
    faa: Seq<char>,
    icao: Seq<char>,
) -> Seq<ChartRecord>
    decreases members.len(),
{
    if members.len() == 0 {
        Seq::empty()
    } else {
        listed_records(members.drop_last(), grouped, faa, icao) + match members.last().value {
            Json::List(items) => items@.filter_map(
                item_record(grouped, members.last().key@, faa, icao),
            ),
            _ => Seq::empty(),
        }
    }
}

/// The catalog that a reply of the chart service holds.
///
/// An object with an object under `charts` is a grouped reply. Any other
/// object is read as an object of plain lists, a list as one plain list, and
/// any other value holds no chart.
pub open spec fn catalog_of(doc: Json) -> Seq<ChartRecord> {
    match doc {
        Json::Object(top) => match member(top@, "charts"@) {
            Some(Json::Object(groups)) => listed_records(
                groups@,
                true,
                airport_ident(top@, "faa_ident"@),
                airport_ident(top@, "icao_ident"@),
            ),
            _ => listed_records(top@, false, Seq::empty(), Seq::empty()),
        },
        Json::List(items) => items@.filter_map(
            item_record(false, ""@, Seq::empty(), Seq::empty()),
        ),
        _ => Seq::empty(),
    }
}

/// The address to ask for the charts of an airport: the service's base
/// address without slashes at its end, and the airport's code in upper case.
pub open spec fn charts_address(base: Seq<char>, airport: Seq<char>) -> Seq<char> {
    strip_trailing(base, '/') + "/charts?airport="@ + uppercase(airport)
}

/// The category code for the group of the reply named `group`.
pub fn code_of_group(group: &str) -> (code: String)
    ensures
        code@ == group_code(group@),
{
    let g = chars_of(group);
    if is_text(&g, "airport_diagram") {
        string_of(&chars_of("APD"))
    } else if is_text(&g, "departure") {
        string_of(&chars_of("DP"))
    } else if is_text(&g, "arrival") {
        string_of(&chars_of("STAR"))
    } else if is_text(&g, "approach") {
        string_of(&chars_of("IAP"))
    } else if is_text(&g, "general") {
        string_of(&chars_of("GEN"))
    } else {
        group.to_uppercase()
    }
}

/// The text that the object holds under `key`, if it holds one there that
/// is not empty; `otherwise` if not.
pub fn text_or(members: &Vec<Member>, key: &str, otherwise: &String) -> (text: String)
    ensures
        text@ == own_text_or(members@, key@, otherwise@),
{
    match text_of_member(members, key) {
        Some(t) => {
            if t.as_str().is_empty() {
                otherwise.clone()
            } else {
                t.clone()
            }
        },
        None => otherwise.clone(),
    }
}

/// The identifier that the reply gives for the airport as a whole under `key`.
pub fn ident_of_airport(doc: &Vec<Member>, key: &str) -> (ident: String)
    ensures
        ident@ == airport_ident(doc@, key@),
{
    match find_member(doc, "airport_data") {
        Some(Json::Object(data)) => match text_of_member(data, key) {
            Some(t) => t.clone(),
            None => String::new(),
        },
        _ => String::new(),
    }
}

/// The record that one chart of the group `group` makes.
pub fn chart_of_group(item: &Vec<Member>, group: &str, faa: &String, icao: &String) -> (chart:
    ChartInfo)
    ensures
        chart@ == grouped_record(item@, group@, faa@, icao@),
{
    let names = vec!["chart_name", "title", "name", "chartTitle", "chart_title"];
    let paths = vec!["pdf_url", "pdf", "pdf_path", "pdf_name", "file", "filename", "href", "link"];
    assert(key_texts(names@) =~= grouped_name_keys());
    assert(key_texts(paths@) =~= grouped_path_keys());
    ChartInfo {
        chart_name: text_under(item, &names),
        chart_code: code_of_group(group),
        pdf_path: text_under(item, &paths),
        faa_ident: text_or(item, "faa_ident", faa),
        icao_ident: text_or(item, "icao_ident", icao),
    }
}

/// The record that one chart of a plain reply makes.
pub fn chart_of_plain(item: &Vec<Member>) -> (chart: ChartInfo)
    ensures
        chart@ == plain_record(item@),
{
    let names = vec!["chart_name", "title", "name"];
    let paths = vec!["pdf_url", "pdf", "pdf_path", "pdf_name", "file", "filename"];
    let faa = vec!["faa_ident", "faa", "ident"];
    let icao = vec!["icao_ident", "icao"];
    assert(key_texts(names@) =~= plain_name_keys());
    assert(key_texts(paths@) =~= plain_path_keys());
    assert(key_texts(faa@) =~= plain_faa_keys());
    assert(key_texts(icao@) =~= plain_icao_keys());
    ChartInfo {
        chart_name: text_under(item, &names),
        chart_code: String::new(),
        pdf_path: text_under(item, &paths),
        faa_ident: text_under(item, &faa),
        icao_ident: text_under(item, &icao),
    }
}

/// Adds to `out` the records of the charts in one list of a reply.
fn add_charts(
    out: &mut Vec<ChartInfo>,
    items: &Vec<Json>,
    grouped: bool,
    group: &str,
    faa: &String,
    icao: &String,
)
    ensures
        records(final(out)@) == records(old(out)@) + items@.filter_map(
            item_record(grouped, group@, faa@, icao@),
        ),
{
    let ghost f = item_record(grouped, group@, faa@, icao@);
    let ghost start = records(out@);
    let mut i: usize = 0;
    assert(items@.take(0).filter_map(f) =~= Seq::<ChartRecord>::empty());
    assert(start + Seq::<ChartRecord>::empty() =~= start);
    while i < items.len()
        invariant
            i <= items.len(),
            f == item_record(grouped, group@, faa@, icao@),
            records(out@) == start + items@.take(i as int).filter_map(f),
        decreases items.len() - i,
    {
        let ghost before = records(out@);
        proof {
            items@.lemma_filter_map_take_succ(f, i as int);
        }
        match &items[i] {
            Json::Object(item) => {
                let chart = if grouped {
                    chart_of_group(item, group, faa, icao)
                } else {
                    chart_of_plain(item)
                };
                out.push(chart);
                assert(records(out@) =~= before + seq![chart@]);
            },
            _ => {
                assert(before + Seq::<ChartRecord>::empty() =~= before);
            },
        }
        assert(records(out@) =~= start + items@.take(i + 1).filter_map(f));
        i += 1;
    }
    assert(items@.take(items.len() as int) =~= items@);
}

/// The records of an object of lists, grouped or plain.
pub fn charts_of_lists(members: &Vec<Member>, grouped: bool, faa: &String, icao: &String) -> (charts:
    Vec<ChartInfo>)
    ensures
        records(charts@) == listed_records(members@, grouped, faa@, icao@),
{
    let mut charts: Vec<ChartInfo> = Vec::new();
    let mut i: usize = 0;
    assert(records(charts@) =~= listed_records(members@.take(0), grouped, faa@, icao@));
    while i < members.len()
        invariant
            i <= members.len(),
            records(charts@) == listed_records(members@.take(i as int), grouped, faa@, icao@),
        decreases members.len() - i,
    {
        let ghost before = records(charts@);
        proof {
            assert(members@.take(i + 1).drop_last() =~= members@.take(i as int));
            assert(members@.take(i + 1).last() == members@[i as int]);
        }
        match &members[i].value {
            Json::List(items) => {
                add_charts(&mut charts, items, grouped, members[i].key.as_str(), faa, icao);
            },
            _ => {
                assert(before + Seq::<ChartRecord>::empty() =~= before);
            },
        }
        i += 1;
    }
    assert(members@.take(members.len() as int) =~= members@);
    charts
}

/// The catalog that a reply of the chart service holds.
pub fn charts_from_reply(doc: &Json) -> (charts: Vec<ChartInfo>)
    ensures
        records(charts@) == catalog_of(*doc),
{
    let none = String::new();
    match doc {
        Json::Object(top) => {
            match find_member(top, "charts") {
                Some(Json::Object(groups)) => {
                    let faa = ident_of_airport(top, "faa_ident");
                    let icao = ident_of_airport(top, "icao_ident");
                    charts_of_lists(groups, true, &faa, &icao)
                },
                _ => charts_of_lists(top, false, &none, &none),
            }
        },
        Json::List(items) => {
            let mut charts: Vec<ChartInfo> = Vec::new();
            assert(records(charts@) =~= Seq::<ChartRecord>::empty());
            add_charts(&mut charts, items, false, "", &none, &none);
            assert(Seq::<ChartRecord>::empty() + items@.filter_map(
                item_record(false, ""@, Seq::empty(), Seq::empty()),
            ) =~= items@.filter_map(item_record(false, ""@, Seq::empty(), Seq::empty())));
            charts
        },
        _ => {
            let charts: Vec<ChartInfo> = Vec::new();
            assert(records(charts@) =~= Seq::<ChartRecord>::empty());
            charts
        },
    }
}

/// The address to ask for the charts of an airport.
pub fn charts_request_url(base: &str, airport: &str) -> (url: String)
    ensures
        url@ == charts_address(base@, airport@),
{
    let mut url = without_trailing(&chars_of(base), '/');
    append_chars(&mut url, &chars_of("/charts?airport="));
    let code = airport.to_uppercase();
    append_chars(&mut url, &chars_of(code.as_str()));
    string_of(&url)
}

} // verus!
