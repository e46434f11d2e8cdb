use regex::Regex;
use zdc::catalog::ChartInfo;
use zdc::chart_type::ChartType;
use zdc::matching::{
    choose_match, covering_matches, find_chart_by_name, matches_within, rank_matches,
    score_catalog, score_chart, ChartMatch, AFFINITY_BONUS, DEFAULT_AMBIGUITY_GAP, MIN_SCORE,
};
use zdc::query::ChartQuery;

fn chart(name: &str, code: &str) -> ChartInfo {
    ChartInfo {
        chart_name: name.to_string(),
        chart_code: code.to_string(),
        pdf_path: format!("/charts/{}.pdf", name.len()),
        faa_ident: "IAD".to_string(),
        icao_ident: "KIAD".to_string(),
    }
}

fn scored(name: &str, score: u32) -> ChartMatch {
    ChartMatch { chart: chart(name, ""), score }
}

fn query(text: &str, kind: ChartType) -> ChartQuery {
    ChartQuery { airport: "IAD".to_string(), chart_name: text.to_string(), chart_type: kind }
}

fn names(list: &[ChartMatch]) -> Vec<String> {
    list.iter().map(|m| m.chart.chart_name.clone()).collect()
}

fn dulles() -> Vec<ChartInfo> {
    vec![
        chart("AIRPORT DIAGRAM", "APD"),
        chart("ILS OR LOC RWY 01R", "IAP"),
        chart("ILS OR LOC RWY 01L", "IAP"),
        chart("ILS OR LOC RWY 12", "IAP"),
        chart("ILS OR LOC RWY 12, CONT.1", "IAP"),
        chart("ILS RWY 01R (SA CAT I)", "IAP"),
        chart("RNAV (GPS) RWY 12", "IAP"),
        chart("RNAV (RNP) Z RWY 01R", "IAP"),
        chart("CAPITAL ONE", "DP"),
        chart("JCOBY FOUR", "DP"),
        chart("CAVLR SIX", "STAR"),
        chart("GIBBZ FIVE", "STAR"),
        chart("TAKEOFF MINIMUMS", "MIN"),
        chart("Hot Spots", ""),
        chart("DULLES FIVE", ""),
    ]
}

// The same decision taken with floating-point scores, to hold the
// fixed-point one against.
fn with_floats(catalog: &[ChartInfo], q: &ChartQuery, gap: f64) -> (Option<String>, Vec<String>) {
    let text = q.chart_name.to_uppercase();
    let word = Regex::new(r"[A-Z0-9]+").unwrap();
    let asked: Vec<&str> = word.find_iter(&text).map(|m| m.as_str()).collect();
    let mut found: Vec<(f64, String)> = Vec::new();
    for c in catalog {
        if c.chart_name.contains(", CONT.") {
            continue;
        }
        let title = c.chart_name.to_uppercase();
        let mut score = strsim::normalized_levenshtein(&text, &title);
        if q.chart_type != ChartType::Unknown && c.chart_type() == q.chart_type {
            score += 0.15;
        }
        if score > 0.2 {
            found.push((score, c.chart_name.clone()));
        }
    }
    if found.is_empty() {
        return (None, Vec::new());
    }
    found.sort_by(|a, b| b.0.partial_cmp(&a.0).unwrap());
    let all: Vec<String> = found.iter().map(|f| f.1.clone()).collect();
    let best = found[0].clone();
    if (best.0 - 1.0).abs() < f64::EPSILON {
        return (Some(best.1), all);
    }
    if asked.len() > 1 {
        let full: Vec<String> = found
            .iter()
            .filter(|f| {
                let title = f.1.to_uppercase();
                let words: Vec<&str> = word.find_iter(&title).map(|m| m.as_str()).collect();
                asked.iter().all(|a| words.iter().any(|w| w.contains(a)))
            })
            .map(|f| f.1.clone())
            .collect();
        if full.len() == 1 {
            return (Some(full[0].clone()), all);
        } else if !full.is_empty() {
            return (None, full);
        }
    }
    if found.len() > 1 && best.0 - found[1].0 < gap {
        let close = found.iter().filter(|f| f.0 >= best.0 - gap).map(|f| f.1.clone()).collect();
        return (None, close);
    }
    (Some(best.1), all)
}

#[test]
fn the_constants_are_in_millionths() {
    assert_eq!(MIN_SCORE, 200_000);
    assert_eq!(AFFINITY_BONUS, 150_000);
    assert_eq!(DEFAULT_AMBIGUITY_GAP, 150_000);
}

#[test]
fn an_empty_catalog_has_no_match() {
    let q = ChartQuery::new("IAD", "ILS 12");
    assert_eq!(find_chart_by_name(&[], &q, DEFAULT_AMBIGUITY_GAP), (None, Vec::new()));
}

#[test]
fn nothing_near_has_no_match() {
    let catalog = vec![chart("AIRPORT DIAGRAM", "APD"), chart("JCOBY FOUR", "DP")];
    let q = query("XXXXXXXXXXXXXXXXXXXXXXXXXXXXXXXXXXXX", ChartType::Unknown);
    assert_eq!(find_chart_by_name(&catalog, &q, DEFAULT_AMBIGUITY_GAP), (None, Vec::new()));
}

#[test]
fn an_exact_title_is_the_match_with_a_score_of_one() {
    let catalog = dulles();
    let q = ChartQuery::new("IAD", "jcoby four");
    assert_eq!(q.chart_type, ChartType::Unknown);
    let (found, shown) = find_chart_by_name(&catalog, &q, DEFAULT_AMBIGUITY_GAP);
    assert_eq!(found, Some(catalog[9].clone()));
    assert_eq!(shown[0], ChartMatch { chart: catalog[9].clone(), score: 1_000_000 });
}

#[test]
fn an_exact_title_wins_in_any_case_of_letters() {
    let catalog = dulles();
    let q = query("hot spots", ChartType::Unknown);
    let (found, shown) = find_chart_by_name(&catalog, &q, DEFAULT_AMBIGUITY_GAP);
    assert_eq!(found, Some(catalog[13].clone()));
    assert_eq!(shown[0].score, 1_000_000);
}

#[test]
fn the_first_of_two_records_with_one_title_is_the_match() {
    let mut first = chart("JCOBY FOUR", "DP");
    first.pdf_path = "first.pdf".to_string();
    let mut second = chart("jcoby four", "DP");
    second.pdf_path = "second.pdf".to_string();
    let catalog = vec![chart("AIRPORT DIAGRAM", "APD"), first.clone(), second.clone()];
    let q = query("JCOBY FOUR", ChartType::Unknown);
    let (found, shown) = find_chart_by_name(&catalog, &q, DEFAULT_AMBIGUITY_GAP);
    assert_eq!(found, Some(first.clone()));
    assert_eq!(shown[0].chart, first);
    assert_eq!(shown[1].chart, second);
    assert_eq!(shown[1].score, 1_000_000);
}

#[test]
fn an_exact_title_of_the_category_asked_for_scores_above_one() {
    let catalog = vec![chart("ILS RWY 12", "IAP"), chart("ILS RWY 12L", "IAP")];
    let q = ChartQuery::new("IAD", "ILS RWY 12");
    assert_eq!(q.chart_type, ChartType::Iap);
    let (found, shown) = find_chart_by_name(&catalog, &q, DEFAULT_AMBIGUITY_GAP);
    // both titles hold every word asked for, so none is chosen
    assert_eq!(found, None);
    assert_eq!(names(&shown), vec!["ILS RWY 12", "ILS RWY 12L"]);
    assert_eq!(shown[0].score, 1_150_000);
    assert_eq!(shown[1].score, 1_059_090);
}

#[test]
fn the_bonus_can_lift_a_score_to_exactly_one() {
    // 20 characters, 3 of them differ: 17/20 and the bonus
    let catalog = vec![chart("RNAV (GPS) RWY 01LXY", "IAP"), chart("RNAV (GPS) RWY 01RAB", "IAP")];
    let q = query("RNAV (GPS) RWY 01RXY", ChartType::Iap);
    let (found, shown) = find_chart_by_name(&catalog, &q, DEFAULT_AMBIGUITY_GAP);
    assert_eq!(shown[0].score, 1_100_000);
    assert_eq!(shown[1].score, 1_050_000);
    assert_eq!(found, None);
    let near = vec![chart("RNAV (GPS) RWY 01LAB", "IAP"), chart("RNAV (GPS) RWY 01RXYZ", "DP")];
    let q = query("RNAV (GPS) RWY 01ZXY", ChartType::Iap);
    let (found, shown) = find_chart_by_name(&near, &q, DEFAULT_AMBIGUITY_GAP);
    assert_eq!(shown[0].score, 1_000_000);
    assert_eq!(found, Some(near[0].clone()));
    assert_eq!(names(&shown), vec!["RNAV (GPS) RWY 01LAB", "RNAV (GPS) RWY 01RXYZ"]);
}

#[test]
fn continuation_pages_are_no_candidates() {
    let catalog = vec![chart("ILS RWY 12, CONT.1", "IAP"), chart("ILS RWY 12", "IAP")];
    let q = query("ILS RWY 12, CONT.1", ChartType::Unknown);
    let (found, shown) = find_chart_by_name(&catalog, &q, DEFAULT_AMBIGUITY_GAP);
    assert_eq!(found, Some(catalog[1].clone()));
    assert_eq!(names(&shown), vec!["ILS RWY 12"]);
    assert_eq!(score_chart("ILS RWY 12, CONT.1", ChartType::Unknown, &catalog[0]), None);
}

#[test]
fn the_marker_is_looked_for_as_written() {
    let small = chart("ILS RWY 12, cont.1", "IAP");
    let m = score_chart("ILS RWY 12, CONT.1", ChartType::Unknown, &small);
    assert_eq!(m, Some(ChartMatch { chart: small, score: 1_000_000 }));
}

#[test]
fn a_score_of_two_tenths_is_not_enough() {
    // one of five characters stays: exactly two tenths
    assert_eq!(score_chart("AXXXX", ChartType::Unknown, &chart("ABCDE", "DP")), None);
    // with the bonus it is enough
    let m = score_chart("AXXXX", ChartType::Sid, &chart("ABCDE", "DP"));
    assert_eq!(m, Some(ChartMatch { chart: chart("ABCDE", "DP"), score: 350_000 }));
    // two of five stay
    let m = score_chart("ABXXX", ChartType::Unknown, &chart("ABCDE", "DP"));
    assert_eq!(m, Some(ChartMatch { chart: chart("ABCDE", "DP"), score: 400_000 }));
}

#[test]
fn the_bonus_needs_a_category_on_both_sides() {
    let c = chart("ABCDE", "GEN");
    assert_eq!(score_chart("ABCDE", ChartType::Unknown, &c).unwrap().score, 1_000_000);
    assert_eq!(score_chart("ABCDE", ChartType::Sid, &c).unwrap().score, 1_000_000);
    let untyped = chart("ILS RWY 12", "");
    assert_eq!(score_chart("ILS RWY 12", ChartType::Iap, &untyped).unwrap().score, 1_150_000);
    assert_eq!(score_chart("ILS RWY 12", ChartType::Sid, &untyped).unwrap().score, 1_000_000);
}

#[test]
fn the_query_is_taken_as_written_when_scoring_a_record() {
    let c = chart("abcde", "DP");
    assert_eq!(score_chart("ABCDE", ChartType::Unknown, &c).unwrap().score, 1_000_000);
    assert_eq!(score_chart("abcde", ChartType::Unknown, &c), None);
}

#[test]
fn candidates_keep_the_order_of_the_catalog_until_ranked() {
    let catalog = vec![
        chart("ABCDX", "DP"),
        chart("ZZZZZ", "DP"),
        chart("ABCDE", "DP"),
        chart("ABCXX, CONT.2", "DP"),
        chart("ABCXX", "DP"),
        chart("ABCDY", "DP"),
    ];
    let found = score_catalog(&catalog, "ABCDE", ChartType::Unknown);
    assert_eq!(names(&found), vec!["ABCDX", "ABCDE", "ABCXX", "ABCDY"]);
    let ranked = rank_matches(&found);
    assert_eq!(names(&ranked), vec!["ABCDE", "ABCDX", "ABCDY", "ABCXX"]);
    let scores: Vec<u32> = ranked.iter().map(|m| m.score).collect();
    assert_eq!(scores, vec![1_000_000, 800_000, 800_000, 600_000]);
}

#[test]
fn ranking_is_stable() {
    let found = vec![
        scored("a", 500_000),
        scored("b", 700_000),
        scored("c", 500_000),
        scored("d", 700_000),
        scored("e", 900_000),
        scored("f", 500_000),
    ];
    assert_eq!(names(&rank_matches(&found)), vec!["e", "b", "d", "a", "c", "f"]);
    assert_eq!(rank_matches(&Vec::new()), Vec::new());
}

#[test]
fn two_near_scores_are_ambiguous() {
    let found = vec![scored("FIRST", 910_000), scored("SECOND", 800_000)];
    let (chosen, shown) = choose_match(found.clone(), "QUERY", DEFAULT_AMBIGUITY_GAP);
    assert_eq!(chosen, None);
    assert_eq!(shown, found);
}

#[test]
fn the_ambiguous_set_holds_all_within_the_gap_of_the_best() {
    let found = vec![
        scored("FIRST", 910_000),
        scored("SECOND", 800_000),
        scored("THIRD", 760_000),
        scored("FOURTH", 759_999),
        scored("FIFTH", 300_000),
    ];
    let (chosen, shown) = choose_match(found, "QUERY", DEFAULT_AMBIGUITY_GAP);
    assert_eq!(chosen, None);
    assert_eq!(names(&shown), vec!["FIRST", "SECOND", "THIRD"]);
}

#[test]
fn a_second_that_is_the_gap_behind_leaves_the_first_alone() {
    let found = vec![scored("FIRST", 910_000), scored("SECOND", 760_000)];
    let (chosen, shown) = choose_match(found.clone(), "QUERY", DEFAULT_AMBIGUITY_GAP);
    assert_eq!(chosen, Some(found[0].chart.clone()));
    assert_eq!(shown, found);
    let (chosen, shown) = choose_match(found.clone(), "QUERY", 150_001);
    assert_eq!(chosen, None);
    assert_eq!(shown, found);
    let (chosen, _) = choose_match(found.clone(), "QUERY", 0);
    assert_eq!(chosen, Some(found[0].chart.clone()));
}

#[test]
fn a_single_candidate_is_the_match() {
    let found = vec![scored("ONLY", 300_000)];
    let (chosen, shown) = choose_match(found.clone(), "QUERY", DEFAULT_AMBIGUITY_GAP);
    assert_eq!(chosen, Some(found[0].chart.clone()));
    assert_eq!(shown, found);
    assert_eq!(choose_match(Vec::new(), "QUERY", DEFAULT_AMBIGUITY_GAP), (None, Vec::new()));
}

#[test]
fn a_first_score_of_one_is_the_match_whatever_follows() {
    let found = vec![scored("ILS RWY 12", 1_000_000), scored("ILS RWY 12L", 999_999)];
    let (chosen, shown) = choose_match(found.clone(), "ILS 12", DEFAULT_AMBIGUITY_GAP);
    assert_eq!(chosen, Some(found[0].chart.clone()));
    assert_eq!(shown, found);
}

#[test]
fn the_one_title_that_covers_the_words_is_the_match() {
    let found = vec![
        scored("ILS OR LOC RWY 01R", 600_000),
        scored("ILS OR LOC RWY 12", 590_000),
        scored("RNAV (GPS) RWY 12", 580_000),
    ];
    let (chosen, shown) = choose_match(found.clone(), "ILS 12", DEFAULT_AMBIGUITY_GAP);
    assert_eq!(chosen, Some(found[1].chart.clone()));
    assert_eq!(shown, found);
}

#[test]
fn several_titles_that_cover_the_words_are_shown_alone() {
    let found = vec![
        scored("ILS OR LOC RWY 01R", 900_000),
        scored("ILS OR LOC RWY 12", 590_000),
        scored("RNAV (GPS) RWY 12", 580_000),
        scored("ILS RWY 12L (CAT II)", 300_000),
    ];
    let (chosen, shown) = choose_match(found, "ILS 12", DEFAULT_AMBIGUITY_GAP);
    assert_eq!(chosen, None);
    assert_eq!(names(&shown), vec!["ILS OR LOC RWY 12", "ILS RWY 12L (CAT II)"]);
}

#[test]
fn words_decide_nothing_for_a_query_of_one_word() {
    let found = vec![scored("ILS OR LOC RWY 01R", 900_000), scored("ILS OR LOC RWY 12", 590_000)];
    let (chosen, _) = choose_match(found.clone(), "12", DEFAULT_AMBIGUITY_GAP);
    assert_eq!(chosen, Some(found[0].chart.clone()));
}

#[test]
fn words_that_no_title_covers_leave_the_decision_to_the_scores() {
    let found = vec![scored("ILS OR LOC RWY 01R", 900_000), scored("ILS OR LOC RWY 12", 800_000)];
    let (chosen, shown) = choose_match(found.clone(), "VOR 30", DEFAULT_AMBIGUITY_GAP);
    assert_eq!(chosen, None);
    assert_eq!(shown, found);
}

#[test]
fn titles_are_put_in_upper_case_before_their_words_are_read() {
    let found = vec![scored("ils or loc rwy 12", 600_000), scored("ILS OR LOC RWY 01R", 590_000)];
    let asked: Vec<Vec<char>> = vec!["ILS".chars().collect(), "12".chars().collect()];
    assert_eq!(names(&covering_matches(&found, &asked)), vec!["ils or loc rwy 12"]);
    assert_eq!(names(&covering_matches(&found, &Vec::new())), names(&found));
}

#[test]
fn matches_within_a_gap() {
    let found = vec![scored("a", 500_000), scored("b", 349_999), scored("c", 350_000)];
    assert_eq!(names(&matches_within(&found, 500_000, 150_000)), vec!["a", "c"]);
    assert_eq!(names(&matches_within(&found, 500_000, u32::MAX)), vec!["a", "b", "c"]);
    assert_eq!(names(&matches_within(&found, u32::MAX, 0)), Vec::<String>::new());
}

#[test]
fn the_candidates_shown_stand_from_the_best_score_down() {
    let catalog = dulles();
    for text in ["ILS 12", "RNAV", "rwy 01r", "capital", "five", "ILS OR LOC", "diagram"] {
        let q = ChartQuery::new("IAD", text);
        let (found, shown) = find_chart_by_name(&catalog, &q, DEFAULT_AMBIGUITY_GAP);
        for pair in shown.windows(2) {
            assert!(pair[0].score >= pair[1].score, "{}", text);
        }
        for m in &shown {
            assert!(m.score > MIN_SCORE && m.score <= 1_150_000);
            assert!(catalog.contains(&m.chart));
            assert!(!m.chart.chart_name.contains(", CONT."));
        }
        if let Some(c) = found {
            assert!(shown.iter().any(|m| m.chart == c));
        }
    }
}

#[test]
fn the_outcome_is_that_of_floating_point_scores() {
    let catalog = dulles();
    let texts = [
        "taxi", "ILS 12", "ils or loc rwy 12", "jcoby4", "RNAV 12", "GIBBZ5", "ILS", "zzz",
        "rwy 01r", "capital", "diagram", "iad5", "cavlr", "ILS 01", "rnav gps 12", "hot spots",
        "takeoff", "ILS OR LOC RWY 01", "",
    ];
    for text in texts {
        let q = ChartQuery::new("IAD", text);
        let (found, shown) = find_chart_by_name(&catalog, &q, DEFAULT_AMBIGUITY_GAP);
        let (name, list) = with_floats(&catalog, &q, 0.15);
        assert_eq!(found.map(|c| c.chart_name), name, "match for {:?}", text);
        assert_eq!(names(&shown), list, "candidates for {:?}", text);
    }
}
