use regex::Regex;
use zdc::names::{
    drop_leading_k, procedure_code, airport_name_map, airport_name_of, expand_chart_name, norm_airport_for_routes,
    normalize_alias, normalize_chart_name, strip_k_prefix, underscore_separators,
};

#[test]
fn taxi_is_the_airport_diagram_for_any_airport() {
    assert_eq!(normalize_chart_name("TAXI", Some("IAD")), "AIRPORT DIAGRAM");
    assert_eq!(normalize_chart_name("TAXI", Some("XYZ")), "AIRPORT DIAGRAM");
    assert_eq!(normalize_chart_name("TAXI", Some("")), "AIRPORT DIAGRAM");
    assert_eq!(normalize_chart_name("TAXI", None), "AIRPORT DIAGRAM");
}

#[test]
fn taxi_is_trimmed_and_put_in_upper_case_first() {
    assert_eq!(normalize_chart_name("  taxi\t", Some("dca")), "AIRPORT DIAGRAM");
}

#[test]
fn airport_code_with_digit_becomes_airport_name_and_word() {
    assert_eq!(normalize_chart_name("IAD5", Some("IAD")), "DULLES FIVE");
    assert_eq!(normalize_chart_name("iad5", Some("iad")), "DULLES FIVE");
}

#[test]
fn other_letters_with_digit_keep_their_letters() {
    assert_eq!(normalize_chart_name("CNDEL5", Some("IAD")), "CNDEL FIVE");
    assert_eq!(normalize_chart_name("RNO1", None), "RNO ONE");
}

#[test]
fn every_digit_has_its_word_and_zero_stays() {
    let words = ["0", "ONE", "TWO", "THREE", "FOUR", "FIVE", "SIX", "SEVEN", "EIGHT", "NINE"];
    for (d, word) in words.iter().enumerate() {
        assert_eq!(normalize_chart_name(&format!("ABC{}", d), None), format!("ABC {}", word));
    }
}

#[test]
fn unknown_airport_keeps_its_code() {
    assert_eq!(normalize_chart_name("JFK2", Some("JFK")), "JFK TWO");
}

#[test]
fn text_of_another_shape_is_only_trimmed_and_raised() {
    assert_eq!(normalize_chart_name(" ils rwy 12 ", Some("IAD")), "ILS RWY 12");
    assert_eq!(normalize_chart_name("IAD12", Some("IAD")), "IAD12");
    assert_eq!(normalize_chart_name("5", Some("IAD")), "5");
    assert_eq!(normalize_chart_name("AB 5", Some("IAD")), "AB 5");
    assert_eq!(normalize_chart_name("", Some("IAD")), "");
}

#[test]
fn expansion_reads_its_text_as_written() {
    assert_eq!(expand_chart_name("taxi", None), "taxi");
    assert_eq!(expand_chart_name("iad5", Some("IAD")), "iad5");
    assert_eq!(expand_chart_name("IAD5", Some("iad")), "IAD FIVE");
    assert_eq!(expand_chart_name("BWI9", Some("BWI")), "BALTIMORE NINE");
}

#[test]
fn known_airports_have_names() {
    assert_eq!(airport_name_map("iad"), Some("DULLES"));
    assert_eq!(airport_name_map("DCA"), Some("WASHINGTON"));
    assert_eq!(airport_name_map("bwi"), Some("BALTIMORE"));
    assert_eq!(airport_name_map("RIC"), Some("RICHMOND"));
    assert_eq!(airport_name_map("ORF"), Some("NORFOLK"));
    assert_eq!(airport_name_map("RDU"), Some("RALEIGH"));
    assert_eq!(airport_name_map("OAK"), Some("OAKLAND"));
    assert_eq!(airport_name_map("JFK"), None);
    assert_eq!(airport_name_map(""), None);
    assert_eq!(airport_name_of("iad"), None);
    assert_eq!(airport_name_of("IAD"), Some("DULLES"));
}

#[test]
fn alias_keys_are_lower_case_with_underscores() {
    assert_eq!(normalize_alias("The Fox"), "the_fox");
    assert_eq!(normalize_alias("Green-Dragon"), "green_dragon");
    assert_eq!(normalize_alias("a - b"), "a___b");
    assert_eq!(underscore_separators("A-b c"), "A_b_c");
    assert_eq!(underscore_separators(""), "");
}

#[test]
fn route_codes_lose_one_leading_k() {
    assert_eq!(norm_airport_for_routes(" kiad "), "IAD");
    assert_eq!(norm_airport_for_routes("KKCI"), "KCI");
    assert_eq!(norm_airport_for_routes("dca"), "DCA");
    assert_eq!(norm_airport_for_routes("k"), "");
    assert_eq!(norm_airport_for_routes("  "), "");
    assert_eq!(strip_k_prefix(" Kiad"), "iad");
}

#[test]
fn one_leading_k_is_dropped_from_a_code_as_written() {
    let drop = |s: &str| -> String { drop_leading_k(&s.chars().collect()).iter().collect() };
    assert_eq!(drop("KIAD"), "IAD");
    assert_eq!(drop("kiad"), "iad");
    assert_eq!(drop("KKCI"), "KCI");
    assert_eq!(drop("IAD"), "IAD");
    assert_eq!(drop(" KIAD"), " KIAD");
    assert_eq!(drop(""), "");
}

#[test]
fn a_digit_beyond_ascii_ends_a_procedure_code_too() {
    assert_eq!(normalize_chart_name("ab\u{663}", None), "AB \u{663}");
    assert_eq!(normalize_chart_name("IAD\u{ff15}", Some("iad")), "DULLES \u{ff15}");
    assert_eq!(normalize_chart_name("AB\u{b2}", None), "AB\u{b2}");
    assert_eq!(normalize_chart_name("AB\u{2163}", None), "AB\u{2163}");
}

#[test]
fn procedure_codes_are_what_the_pattern_matches() {
    let pattern = Regex::new(r"^([A-Z]+)(\d)$").unwrap();
    let samples = [
        "", "A", "5", "A5", "CNDEL5", "RNO1", "IAD12", "A5B", "a5", "AB 5", "AB5 ", " AB5", "AB0",
        "AB\u{663}", "AB\u{ff15}", "AB\u{b2}", "AB\u{2163}", "\u{c4}B5", "AB5\n", "A-5", "ABC",
        "AB\u{966}", "5\u{663}", "AB\u{1d7ce}",
    ];
    for s in samples {
        let chars: Vec<char> = s.chars().collect();
        assert_eq!(procedure_code(&chars), pattern.is_match(s), "{:?}", s);
    }
}
