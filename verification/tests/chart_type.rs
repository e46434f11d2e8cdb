use zdc::catalog::ChartInfo;
use zdc::chart_type::ChartType;

fn chart(name: &str, code: &str) -> ChartInfo {
    ChartInfo {
        chart_name: name.to_string(),
        chart_code: code.to_string(),
        pdf_path: String::new(),
        faa_ident: String::new(),
        icao_ident: String::new(),
    }
}

#[test]
fn codes_stand_for_categories() {
    assert_eq!(ChartType::from_code("DP"), ChartType::Sid);
    assert_eq!(ChartType::from_code("STAR"), ChartType::Star);
    assert_eq!(ChartType::from_code("IAP"), ChartType::Iap);
    assert_eq!(ChartType::from_code("APD"), ChartType::Apd);
    assert_eq!(ChartType::from_code("GEN"), ChartType::Unknown);
    assert_eq!(ChartType::from_code(""), ChartType::Unknown);
    assert_eq!(ChartType::from_code("SID"), ChartType::Unknown);
    assert_eq!(ChartType::from_code(" DP"), ChartType::Unknown);
}

#[test]
fn codes_are_read_in_any_case() {
    assert_eq!(ChartType::from_code("dp"), ChartType::Sid);
    assert_eq!(ChartType::from_code("Star"), ChartType::Star);
    assert_eq!(ChartType::by_code("dp"), ChartType::Unknown);
    assert_eq!(ChartType::by_code("DP"), ChartType::Sid);
}

#[test]
fn each_approach_keyword_is_known() {
    for word in ["ILS", "LOC", "VOR", "RNAV", "RNP", "GPS", "NDB", "RWY"] {
        assert_eq!(ChartType::infer(&format!("x {} y", word)), ChartType::Iap, "{}", word);
    }
}

#[test]
fn each_other_keyword_is_known() {
    assert_eq!(ChartType::infer("AIRPORT DIAGRAM"), ChartType::Apd);
    assert_eq!(ChartType::infer("hot spot diagram"), ChartType::Apd);
    for word in ["ARRIVAL", "ARR", "STAR"] {
        assert_eq!(ChartType::infer(&format!("CAPSS TWO {}", word)), ChartType::Star);
    }
    for word in ["DEPARTURE", "DEP", "SID"] {
        assert_eq!(ChartType::infer(&format!("JCOBY FOUR {}", word)), ChartType::Sid);
    }
    assert_eq!(ChartType::infer("CNDEL FIVE"), ChartType::Unknown);
    assert_eq!(ChartType::infer(""), ChartType::Unknown);
}

#[test]
fn approach_wins_over_diagram_over_arrival_over_departure() {
    assert_eq!(ChartType::infer("ils rwy 12 arrival"), ChartType::Iap);
    assert_eq!(ChartType::infer("DIAGRAM RWY"), ChartType::Iap);
    assert_eq!(ChartType::infer("ARRIVAL DIAGRAM"), ChartType::Apd);
    assert_eq!(ChartType::infer("DEPARTURE DIAGRAM"), ChartType::Apd);
    assert_eq!(ChartType::infer("DEPARTURE ARRIVAL"), ChartType::Star);
    assert_eq!(ChartType::infer("SID STAR"), ChartType::Star);
}

#[test]
fn keywords_are_found_inside_words() {
    assert_eq!(ChartType::infer("STARLING"), ChartType::Star);
    assert_eq!(ChartType::infer("deposit"), ChartType::Sid);
    assert_eq!(ChartType::infer("velocity"), ChartType::Iap);
}

#[test]
fn keywords_as_written_are_capitals() {
    assert_eq!(ChartType::by_keywords("ils rwy 12"), ChartType::Unknown);
    assert_eq!(ChartType::by_keywords("ILS RWY 12"), ChartType::Iap);
}

#[test]
fn a_record_with_a_code_goes_by_its_code() {
    assert_eq!(chart("ILS RWY 12", "DP").chart_type(), ChartType::Sid);
    assert_eq!(chart("ILS RWY 12", "iap").chart_type(), ChartType::Iap);
    assert_eq!(chart("ILS RWY 12", "GEN").chart_type(), ChartType::Unknown);
    assert_eq!(chart("AIRPORT DIAGRAM", "APD").chart_type(), ChartType::Apd);
}

#[test]
fn a_record_without_a_code_goes_by_its_title() {
    assert_eq!(chart("ILS RWY 12", "").chart_type(), ChartType::Iap);
    assert_eq!(chart("Airport Diagram", "").chart_type(), ChartType::Apd);
    assert_eq!(chart("CNDEL FIVE", "").chart_type(), ChartType::Unknown);
}
