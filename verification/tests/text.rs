use zdc::text::{
    append_chars, begins_with, chars_of, find, has_text, is_text, matches_at, read_unsigned,
    same_text, slice_of, string_of, trimmed, white_space, without_trailing,
};

fn chars(s: &str) -> Vec<char> {
    s.chars().collect()
}

#[test]
fn chars_and_strings_convert_both_ways() {
    for s in ["", "a", "ILS RWY 12", "löwenbräu", "越 x"] {
        assert_eq!(chars_of(s), chars(s));
        assert_eq!(string_of(&chars(s)), s);
    }
}

#[test]
fn slices_and_appends() {
    let v = chars("abcdef");
    assert_eq!(slice_of(&v, 0, 0), chars(""));
    assert_eq!(slice_of(&v, 2, 4), chars("cd"));
    assert_eq!(slice_of(&v, 0, 6), v);
    let mut head = chars("ab");
    append_chars(&mut head, &chars("cd"));
    assert_eq!(head, chars("abcd"));
    append_chars(&mut head, &chars(""));
    assert_eq!(head, chars("abcd"));
}

#[test]
fn trimming_agrees_with_the_standard_library() {
    let samples = [
        "",
        " ",
        "a",
        " a",
        "a ",
        "  a b  ",
        "\t\n x \r\n",
        "\u{a0}x\u{a0}",
        "\u{2003}wide\u{3000}",
        "\u{85}next line\u{85}",
        "\u{200b}zero width stays\u{200b}",
        " \u{1680} ",
    ];
    for s in samples {
        assert_eq!(string_of(&trimmed(&chars(s))), s.trim(), "trimming {:?}", s);
    }
}

#[test]
fn trailing_runs_are_dropped() {
    for s in ["", "/", "///", "a/", "a//", "/a", "a/b/", "https://x/v2//"] {
        assert_eq!(string_of(&without_trailing(&chars(s), '/')), s.trim_end_matches('/'));
    }
}

#[test]
fn finding_agrees_with_the_standard_library() {
    let texts = ["", "a", "abcabc", "ILS RWY 12, CONT.1", ", CONT.", "aaa", "https://x/v1/v2"];
    let needles = ["", "a", "bc", "abc", ", CONT.", "/v1", "/v2", "aa", "zzzzzzzzzzzzzzzzzzzz"];
    for t in texts {
        for n in needles {
            assert_eq!(find(&chars(t), &chars(n)), t.find(n), "{:?} in {:?}", n, t);
            assert_eq!(has_text(&chars(t), n), t.contains(n));
            assert_eq!(begins_with(&chars(t), n), t.starts_with(n));
            assert_eq!(is_text(&chars(t), n), t == n);
            assert_eq!(same_text(&chars(t), &chars(n)), t == n);
        }
    }
}

#[test]
fn finding_counts_characters_not_bytes() {
    assert_eq!(find(&chars("äöü, CONT.1"), &chars(", CONT.")), Some(3));
}

#[test]
fn matching_at_a_position() {
    let t = chars("abcabc");
    assert!(matches_at(&t, &chars("abc"), 0));
    assert!(matches_at(&t, &chars("abc"), 3));
    assert!(!matches_at(&t, &chars("abc"), 1));
    assert!(!matches_at(&t, &chars("abc"), 4));
    assert!(matches_at(&t, &chars(""), 6));
    assert!(!matches_at(&t, &chars(""), 7));
    assert!(!matches_at(&t, &chars("abcabca"), 0));
}

#[test]
fn numbers_are_read_as_the_standard_library_reads_them() {
    let samples = [
        "",
        "+",
        "0",
        "7",
        "007",
        "+5",
        "++5",
        "-1",
        "-0",
        "12a",
        "a12",
        " 1",
        "1 ",
        "1_000",
        "999",
        "4294967295",
        "4294967296",
        "18446744073709551615",
        "18446744073709551616",
        "+18446744073709551615",
        "000000000000000000000000000000000012",
        "99999999999999999999999999",
        "٣",
        "1٣",
    ];
    for s in samples {
        assert_eq!(read_unsigned(&chars(s)), s.parse::<usize>().ok(), "reading {:?}", s);
    }
}

#[test]
fn white_space_is_what_the_standard_library_calls_so() {
    let mut count = 0;
    for n in 0..=0x10FFFFu32 {
        if let Some(c) = char::from_u32(n) {
            assert_eq!(white_space(c), c.is_whitespace(), "U+{:04X}", n);
            if white_space(c) {
                count += 1;
            }
        }
    }
    assert_eq!(count, 25);
}
