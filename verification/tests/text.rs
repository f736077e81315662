use bdengine_desktop::text;

fn chars(s: &str) -> Vec<char> {
    s.chars().collect()
}

fn every_char() -> Vec<char> {
    let mut all: Vec<char> = Vec::new();
    let mut u: u32 = 0;
    while u <= 0x10ffff {
        if let Some(c) = char::from_u32(u) {
            all.push(c);
        }
        u += 1;
    }
    all
}

#[test]
fn white_space_is_that_of_unicode() {
    for c in every_char() {
        assert_eq!(text::char_is_white_space(c), c.is_whitespace(), "{:?}", c);
    }
}

#[test]
fn control_characters_are_those_of_unicode() {
    for c in every_char() {
        assert_eq!(text::char_is_control(c), c.is_control(), "{:?}", c);
    }
}

#[test]
fn lower_case_is_ascii_only() {
    for c in every_char() {
        assert_eq!(text::char_ascii_lower(c), c.to_ascii_lowercase(), "{:?}", c);
    }
    assert_eq!(text::to_ascii_lower("BdEngine ÄÖ 9"), "bdengine ÄÖ 9");
}

#[test]
fn trimming_agrees_with_the_standard_library() {
    for s in [
        "",
        " ",
        "a",
        "  a b  ",
        "\t\r\n x\u{3000}",
        "\u{a0}\u{2003}y z\u{85}",
        "\u{200b}k\u{200b}",
    ] {
        assert_eq!(text::trim(s), s.trim(), "{:?}", s);
        assert_eq!(text::trim(text::trim(s)), text::trim(s));
    }
}

#[test]
fn texts_are_compared_and_joined() {
    assert!(text::same_text("abc", "abc"));
    assert!(!text::same_text("abc", "abd"));
    assert!(!text::same_text("abc", "ab"));
    assert!(text::same_ignoring_ascii_case("BDEngine", "bdENGINE"));
    assert!(!text::same_ignoring_ascii_case("ä", "Ä"));
    assert_eq!(text::concat2("ä", "b"), "äb");
    assert_eq!(text::concat3("a", "", "c"), "ac");
}

#[test]
fn first_occurrence_is_found() {
    let hay = chars("xabcabc");
    assert_eq!(text::find_from(&hay, &chars("abc"), 0), Some(1));
    assert_eq!(text::find_from(&hay, &chars("abc"), 2), Some(4));
    assert_eq!(text::find_from(&hay, &chars("abc"), 5), None);
    assert_eq!(text::find_from(&hay, &chars(""), 7), Some(7));
    assert!(text::text_contains(&hay, "cab"));
    assert!(!text::text_contains(&hay, "cba"));
}

#[test]
fn texts_are_split_into_one_part_more_than_separators() {
    for s in ["", ".", "a", "a.b", ".a..b.", "äö.ü"] {
        let parts: Vec<String> = text::split_chars(&chars(s), '.')
            .into_iter()
            .map(|part| part.into_iter().collect())
            .collect();
        let expected: Vec<String> = s.split('.').map(|part| part.to_string()).collect();
        assert_eq!(parts, expected, "{:?}", s);
    }
}

#[test]
fn numbers_are_written_in_decimal() {
    for n in [0u64, 7, 9, 10, 42, 99, 100, 25565, u64::MAX] {
        assert_eq!(text::decimal_of(n), n.to_string());
    }
    for n in [0i32, 5, -1, -10, i32::MAX, i32::MIN] {
        assert_eq!(text::signed_decimal_of(n), n.to_string());
    }
}

#[test]
fn ports_are_read_like_the_standard_library_reads_them() {
    for s in [
        "", "+", "-", "0", "+0", "-0", "1", "00025565", "65535", "65536", "+65535", "99999999999",
        "12a", " 1", "1 ", "1_0", "٣",
    ] {
        assert_eq!(text::parse_u16(s), s.parse::<u16>().ok(), "{:?}", s);
    }
}

#[test]
fn every_port_is_read_back() {
    for n in 0..=u16::MAX {
        assert_eq!(text::parse_u16(&text::decimal_of(n as u64)), Some(n));
    }
}
