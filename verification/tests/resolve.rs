use zdc::catalog::ChartInfo;
use zdc::chart_type::ChartType;
use zdc::matching::DEFAULT_AMBIGUITY_GAP;
use zdc::query::ChartQuery;
use zdc::resolve::{join_words, page_urls, resolve_chart, retry_code, Resolution};

const BASE: &str = "https://api-v2.example.com/v2";

fn chart(name: &str, code: &str, path: &str) -> ChartInfo {
    ChartInfo {
        chart_name: name.to_string(),
        chart_code: code.to_string(),
        pdf_path: path.to_string(),
        faa_ident: "IAD".to_string(),
        icao_ident: "KIAD".to_string(),
    }
}

fn words(list: &[&str]) -> Vec<String> {
    list.iter().map(|w| w.to_string()).collect()
}

fn catalog() -> Vec<ChartInfo> {
    vec![
        chart("AIRPORT DIAGRAM", "APD", "/charts/apd.pdf"),
        chart("ILS OR LOC RWY 12, CONT.1", "IAP", "ils12c1.pdf"),
        chart("ILS OR LOC RWY 12", "IAP", "ils12.pdf"),
        chart("ILS OR LOC RWY 01R", "IAP", "https://cdn.example.com/ils01r.pdf"),
        chart("JCOBY FOUR", "DP", "//cdn.example.com/jcoby4.pdf"),
        chart("JCOBY FOUR, CONT.1", "DP", "/charts/jcoby4c1.pdf"),
    ]
}

#[test]
fn a_query_is_normalized_once() {
    let q = ChartQuery::new("iad", " iad5 ");
    assert_eq!(q.airport, "IAD");
    assert_eq!(q.chart_name, "DULLES FIVE");
    assert_eq!(q.chart_type, ChartType::Unknown);
    let q = ChartQuery::new("dca", "taxi");
    assert_eq!(q.chart_name, "AIRPORT DIAGRAM");
    assert_eq!(q.chart_type, ChartType::Apd);
    let q = ChartQuery::new("dca", "ils 12");
    assert_eq!(q.chart_name, "ILS 12");
    assert_eq!(q.chart_type, ChartType::Iap);
    assert_eq!(q.clone(), q);
}

#[test]
fn words_are_joined_with_single_spaces() {
    assert_eq!(join_words(&words(&["ILS", "12"])), "ILS 12");
    assert_eq!(join_words(&words(&["taxi"])), "taxi");
    assert_eq!(join_words(&words(&[])), "");
    assert_eq!(join_words(&words(&["a", "", "b"])), "a  b");
    assert_eq!(join_words(&words(&["", "x"])), " x");
}

#[test]
fn a_unique_match_comes_with_the_addresses_of_its_pages() {
    let charts = catalog();
    let r = resolve_chart(&charts, "IAD", &words(&["jcoby4"]), BASE, DEFAULT_AMBIGUITY_GAP);
    assert_eq!(
        r,
        Resolution::Unique {
            chart: charts[4].clone(),
            page_urls: vec![
                "https://cdn.example.com/jcoby4.pdf".to_string(),
                "https://api-v2.example.com/charts/jcoby4c1.pdf".to_string(),
            ],
        }
    );
}

#[test]
fn the_alias_leads_to_the_diagram() {
    let charts = catalog();
    let r = resolve_chart(&charts, "IAD", &words(&["taxi"]), BASE, DEFAULT_AMBIGUITY_GAP);
    assert_eq!(
        r,
        Resolution::Unique {
            chart: charts[0].clone(),
            page_urls: vec!["https://api-v2.example.com/charts/apd.pdf".to_string()],
        }
    );
}

#[test]
fn words_that_one_title_covers_resolve_to_it() {
    let charts = catalog();
    let r = resolve_chart(&charts, "IAD", &words(&["ils", "12"]), BASE, DEFAULT_AMBIGUITY_GAP);
    assert_eq!(
        r,
        Resolution::Unique {
            chart: charts[2].clone(),
            page_urls: vec![
                "https://api-v2.example.com/v2/ils12.pdf".to_string(),
                "https://api-v2.example.com/v2/ils12c1.pdf".to_string(),
            ],
        }
    );
}

#[test]
fn words_that_two_titles_cover_are_ambiguous() {
    let charts = catalog();
    let r = resolve_chart(&charts, "IAD", &words(&["ils", "loc"]), BASE, DEFAULT_AMBIGUITY_GAP);
    match r {
        Resolution::Ambiguous { candidates } => {
            let names: Vec<&str> = candidates.iter().map(|m| m.chart.chart_name.as_str()).collect();
            assert_eq!(names, vec!["ILS OR LOC RWY 12", "ILS OR LOC RWY 01R"]);
        }
        other => panic!("not ambiguous: {:?}", other),
    }
}

#[test]
fn nothing_near_is_no_match() {
    let charts = catalog();
    let far = words(&["QQQQQQQQQQQQQQQQQQQQQQQQQQQQQQQQQQQQQQQQQQQQ"]);
    assert_eq!(resolve_chart(&charts, "IAD", &far, BASE, DEFAULT_AMBIGUITY_GAP), Resolution::NoMatch);
    assert_eq!(resolve_chart(&[], "IAD", &words(&["taxi"]), BASE, DEFAULT_AMBIGUITY_GAP), Resolution::NoMatch);
}

#[test]
fn page_addresses_follow_the_reading_order() {
    let charts = catalog();
    assert_eq!(
        page_urls(&charts, &charts[1], BASE),
        vec!["https://api-v2.example.com/v2/ils12.pdf", "https://api-v2.example.com/v2/ils12c1.pdf"]
    );
    assert_eq!(page_urls(&charts, &charts[3], BASE), vec!["https://cdn.example.com/ils01r.pdf"]);
    assert_eq!(page_urls(&[], &charts[3], BASE), Vec::<String>::new());
}

#[test]
fn a_code_of_three_bytes_gets_a_k() {
    assert_eq!(retry_code("iad"), Some("KIAD".to_string()));
    assert_eq!(retry_code("DCA"), Some("KDCA".to_string()));
    assert_eq!(retry_code("kci"), Some("KKCI".to_string()));
    assert_eq!(retry_code("é1"), Some("KÉ1".to_string()));
}

#[test]
fn other_codes_get_no_second_try() {
    assert_eq!(retry_code("KCI"), None);
    assert_eq!(retry_code("KIAD"), None);
    assert_eq!(retry_code("IA"), None);
    assert_eq!(retry_code(""), None);
    assert_eq!(retry_code("äöü"), None);
}
