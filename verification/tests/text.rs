use yugioh_deck_builder::text::{
    chars_of, contains_text, has_char, matches_at, parse_number, parse_u32, parse_unsigned,
    push_decimal, string_of, trim_bounds, whitespace,
};

fn chars(s: &str) -> Vec<char> {
    s.chars().collect()
}

#[test]
fn whitespace_is_what_std_calls_whitespace() {
    for n in 0..=0x3100u32 {
        if let Some(c) = char::from_u32(n) {
            assert_eq!(whitespace(c), c.is_whitespace(), "U+{:04X}", n);
        }
    }
    assert!(!whitespace('\u{200B}'));
    assert!(!whitespace('\u{FEFF}'));
    assert!(!whitespace('\u{10FFFF}'));
}

#[test]
fn trim_bounds_agree_with_std_trim() {
    for text in [
        "",
        " ",
        "\n",
        " \t\r\n",
        "4007",
        "4007\n",
        "  4007\r\n",
        "\u{3000}a b\u{00A0}",
        "a",
        " a",
        "a ",
        "  a  b  ",
        "\u{2003}\u{2003}",
    ] {
        let line = chars(text);
        let (start, end) = trim_bounds(&line);
        assert!(start <= end && end <= line.len());
        let trimmed: String = line[start..end].iter().collect();
        assert_eq!(trimmed, text.trim(), "{:?}", text);
    }
}

#[test]
fn trim_bounds_exact() {
    assert_eq!(trim_bounds(&chars("  4007\r\n")), (2, 6));
    assert_eq!(trim_bounds(&chars("x")), (0, 1));
    assert_eq!(trim_bounds(&chars("")), (0, 0));
    assert_eq!(trim_bounds(&chars("   ")), (3, 3));
}

#[test]
fn numbers_are_read_as_std_reads_them() {
    for text in [
        "0",
        "7",
        "007",
        "4007",
        "89631139",
        "4294967295",
        "4294967296",
        "42949672950",
        "99999999999999999999999999",
        "00000000000000000000000042",
        "+5",
        "+",
        "++5",
        "-5",
        "-0",
        "",
        " ",
        "12a",
        "a12",
        "1 2",
        "1_000",
        "0x10",
        "١٢٣",
        "１２",
        "#main",
        " 55144522 ",
        "\t+12\r\n",
        "+ 12",
    ] {
        assert_eq!(parse_u32(&chars(text)), text.trim().parse::<u32>().ok(), "{:?}", text);
    }
}

#[test]
fn numbers_exact() {
    assert_eq!(parse_u32(&chars("4007")), Some(4007));
    assert_eq!(parse_u32(&chars(" 89631139\n")), Some(89631139));
    assert_eq!(parse_u32(&chars("4294967295")), Some(u32::MAX));
    assert_eq!(parse_u32(&chars("4294967296")), None);
    assert_eq!(parse_u32(&chars("+0")), Some(0));
    assert_eq!(parse_u32(&chars("")), None);
    assert_eq!(parse_u32(&chars("!side")), None);
}

#[test]
fn number_inside_a_line() {
    let line = chars("ab+12cd");
    assert_eq!(parse_number(&line, 2, 5), Some(12));
    assert_eq!(parse_number(&line, 3, 5), Some(12));
    assert_eq!(parse_number(&line, 2, 3), None);
    assert_eq!(parse_number(&line, 3, 3), None);
    assert_eq!(parse_number(&line, 2, 6), None);
    assert_eq!(parse_unsigned(&line, 2, 5), None);
    assert_eq!(parse_unsigned(&line, 3, 5), Some(12));
    assert_eq!(parse_unsigned(&line, 4, 5), Some(2));
    assert_eq!(parse_unsigned(&line, 5, 5), None);
}

#[test]
fn decimal_is_written_as_std_writes_it() {
    for n in [0u32, 1, 9, 10, 11, 42, 99, 100, 4007, 89631139, 1000000000, u32::MAX - 1, u32::MAX] {
        let mut s = String::new();
        push_decimal(&mut s, n);
        assert_eq!(s, n.to_string());
        assert_eq!(parse_u32(&chars(&s)), Some(n));
    }
    let mut s = String::from("id ");
    push_decimal(&mut s, 42);
    assert_eq!(s, "id 42");
}

#[test]
fn finds_text_where_std_finds_it() {
    for (hay, needle) in [
        ("#main", "#main"),
        ("#main\n", "#main"),
        ("  #main  ", "#main"),
        ("#mai", "#main"),
        ("#ma#main", "#main"),
        ("##mainn", "#main"),
        ("main", "#main"),
        ("", "#main"),
        ("", ""),
        ("abc", ""),
        ("!side", "!side"),
        ("side!", "!side"),
        ("aaab", "aab"),
        ("aaab", "aba"),
        ("héllo wörld", "wör"),
    ] {
        assert_eq!(contains_text(&chars(hay), &chars(needle)), hay.contains(needle), "{:?} {:?}", hay, needle);
    }
}

#[test]
fn matches_at_a_position() {
    let hay = chars("xx#main");
    let needle = chars("#main");
    assert!(matches_at(&hay, &needle, 2));
    assert!(!matches_at(&hay, &needle, 0));
    assert!(!matches_at(&hay, &needle, 1));
    assert!(matches_at(&hay, &[], 7));
}

#[test]
fn has_char_looks_at_every_place() {
    let s = chars("blue-eyes");
    assert!(has_char(&s, 'b'));
    assert!(has_char(&s, '-'));
    assert!(has_char(&s, 's'));
    assert!(!has_char(&s, 'B'));
    assert!(!has_char(&[], 'b'));
}

#[test]
fn chars_and_strings_convert_back_and_forth() {
    for text in ["", "a", "Blue-Eyes White Dragon", "héllo wörld", "青眼の白龍", "a\nb"] {
        assert_eq!(chars_of(text), chars(text));
        assert_eq!(string_of(&chars(text)), text);
    }
}
