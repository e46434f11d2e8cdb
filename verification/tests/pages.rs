use zdc::catalog::ChartInfo;
use zdc::pages::{
    base_chart_name, collect_pages, find_all_chart_pages, page_index_of, place_of_number,
    UNNUMBERED_PAGE,
};

fn chart(name: &str, path: &str) -> ChartInfo {
    ChartInfo {
        chart_name: name.to_string(),
        chart_code: "IAP".to_string(),
        pdf_path: path.to_string(),
        faa_ident: "IAD".to_string(),
        icao_ident: "KIAD".to_string(),
    }
}

fn names(pages: &[ChartInfo]) -> Vec<String> {
    pages.iter().map(|p| p.chart_name.clone()).collect()
}

#[test]
fn base_and_its_continuation_come_in_that_order() {
    let base = chart("ILS RWY 12", "a.pdf");
    let cont1 = chart("ILS RWY 12, CONT.1", "b.pdf");
    let catalog = vec![base.clone(), cont1.clone()];
    assert_eq!(find_all_chart_pages(&catalog, &base), vec![base.clone(), cont1.clone()]);
    let turned = vec![cont1.clone(), base.clone()];
    assert_eq!(find_all_chart_pages(&turned, &base), vec![base, cont1]);
}

#[test]
fn unreadable_number_sorts_after_the_numbered_pages() {
    let catalog = vec![
        chart("ILS RWY 12, CONT.X", "x.pdf"),
        chart("ILS RWY 12, CONT.2", "2.pdf"),
        chart("ILS RWY 12", "0.pdf"),
        chart("ILS RWY 12, CONT.10", "10.pdf"),
        chart("ILS RWY 12, CONT.1", "1.pdf"),
    ];
    let pages = find_all_chart_pages(&catalog, &catalog[2]);
    assert_eq!(
        names(&pages),
        vec![
            "ILS RWY 12",
            "ILS RWY 12, CONT.1",
            "ILS RWY 12, CONT.2",
            "ILS RWY 12, CONT.10",
            "ILS RWY 12, CONT.X"
        ]
    );
}

#[test]
fn a_continuation_page_leads_to_the_whole_chart() {
    let catalog = vec![
        chart("ILS RWY 12, CONT.1", "1.pdf"),
        chart("ILS RWY 12", "0.pdf"),
        chart("ILS RWY 30", "30.pdf"),
    ];
    let pages = find_all_chart_pages(&catalog, &catalog[0]);
    assert_eq!(names(&pages), vec!["ILS RWY 12", "ILS RWY 12, CONT.1"]);
}

#[test]
fn pages_of_other_charts_stay_out() {
    let catalog = vec![
        chart("ILS RWY 12L", "l.pdf"),
        chart("ILS RWY 12L, CONT.1", "l1.pdf"),
        chart("ILS RWY 12", "0.pdf"),
        chart("ils rwy 12", "small.pdf"),
        chart("ILS RWY 12,CONT.1", "nospace.pdf"),
        chart("ILS RWY 12, CONT.1", "1.pdf"),
    ];
    let pages = find_all_chart_pages(&catalog, &catalog[2]);
    assert_eq!(names(&pages), vec!["ILS RWY 12", "ILS RWY 12, CONT.1"]);
}

#[test]
fn pages_of_one_place_keep_the_order_of_the_catalog() {
    let catalog = vec![
        chart("A, CONT.junk", "first.pdf"),
        chart("A, CONT.999", "second.pdf"),
        chart("A, CONT.", "third.pdf"),
        chart("A", "a0.pdf"),
        chart("A", "a1.pdf"),
    ];
    let pages = find_all_chart_pages(&catalog, &catalog[3]);
    let paths: Vec<String> = pages.iter().map(|p| p.pdf_path.clone()).collect();
    assert_eq!(paths, vec!["a0.pdf", "a1.pdf", "first.pdf", "second.pdf", "third.pdf"]);
}

#[test]
fn a_number_above_999_sorts_behind_the_unnumbered() {
    let catalog = vec![chart("A, CONT.1000", "k.pdf"), chart("A, CONT.?", "q.pdf"), chart("A", "a.pdf")];
    let pages = find_all_chart_pages(&catalog, &catalog[2]);
    assert_eq!(names(&pages), vec!["A", "A, CONT.?", "A, CONT.1000"]);
}

#[test]
fn no_page_in_an_empty_catalog() {
    let base = chart("ILS RWY 12", "a.pdf");
    assert_eq!(find_all_chart_pages(&[], &base), Vec::<ChartInfo>::new());
    let other = vec![chart("VOR RWY 1", "v.pdf")];
    assert_eq!(find_all_chart_pages(&other, &base), Vec::<ChartInfo>::new());
}

#[test]
fn the_base_name_ends_before_the_first_marker() {
    assert_eq!(base_chart_name("ILS RWY 12, CONT.1"), "ILS RWY 12");
    assert_eq!(base_chart_name("ILS RWY 12"), "ILS RWY 12");
    assert_eq!(base_chart_name("A, CONT.1, CONT.2"), "A");
    assert_eq!(base_chart_name(", CONT.3"), "");
    assert_eq!(base_chart_name("A, cont.1"), "A, cont.1");
    assert_eq!(base_chart_name(""), "");
}

#[test]
fn the_place_of_a_page() {
    assert_eq!(UNNUMBERED_PAGE, 999);
    assert_eq!(page_index_of("A", "A"), Some(0));
    assert_eq!(page_index_of("A, CONT.1", "A"), Some(1));
    assert_eq!(page_index_of("A, CONT. 3 ", "A"), Some(3));
    assert_eq!(page_index_of("A, CONT.+4", "A"), Some(4));
    assert_eq!(page_index_of("A, CONT.007", "A"), Some(7));
    assert_eq!(page_index_of("A, CONT.", "A"), Some(999));
    assert_eq!(page_index_of("A, CONT.X", "A"), Some(999));
    assert_eq!(page_index_of("A, CONT.1.5", "A"), Some(999));
    assert_eq!(page_index_of("A, CONT.-1", "A"), Some(999));
    assert_eq!(page_index_of("A, CONT.99999999999999999999999", "A"), Some(999));
    assert_eq!(page_index_of("AB", "A"), None);
    assert_eq!(page_index_of("B, CONT.1", "A"), None);
    assert_eq!(page_index_of("", "A"), None);
    assert_eq!(page_index_of(", CONT.2", ""), Some(2));
}

#[test]
fn collected_pages_carry_their_places() {
    let catalog = vec![chart("A, CONT.2", "2.pdf"), chart("B", "b.pdf"), chart("A", "0.pdf")];
    let pages = collect_pages(&catalog, "A");
    let places: Vec<usize> = pages.iter().map(|p| p.index).collect();
    assert_eq!(places, vec![0, 2]);
    assert_eq!(pages[0].chart, catalog[2]);
    assert_eq!(pages[1].chart, catalog[0]);
}

#[test]
fn the_place_that_a_number_gives() {
    let place = |s: &str| place_of_number(&s.chars().collect());
    assert_eq!(place("1"), 1);
    assert_eq!(place("+12"), 12);
    assert_eq!(place("0"), 0);
    assert_eq!(place(""), 999);
    assert_eq!(place(" 1"), 999);
    assert_eq!(place("X"), 999);
    assert_eq!(place("1000"), 1000);
}
