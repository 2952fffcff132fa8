use poly_router::text::{
    clean_path, contains_char, contains_mpe, contains_str, decimal_u8, first_word_of,
    is_float_literal, is_whitespace, parse_i32, parse_u8, parse_usize, same_text, strip, trim,
};

#[test]
fn trim_removes_unicode_whitespace_at_both_ends() {
    assert_eq!(trim("  a b \t\n"), "a b");
    assert_eq!(trim("\u{3000}x\u{00A0}"), "x");
    assert_eq!(trim("   "), "");
    assert_eq!(trim(""), "");
}

#[test]
fn whitespace_follows_the_unicode_property() {
    assert!(is_whitespace(' '));
    assert!(is_whitespace('\u{2028}'));
    assert!(!is_whitespace('x'));
    assert!(!is_whitespace('\u{200B}'));
}

#[test]
fn integers_parse_as_std_does() {
    assert_eq!(parse_i32("-17"), Some(-17));
    assert_eq!(parse_i32("+5"), Some(5));
    assert_eq!(parse_i32("2147483647"), Some(i32::MAX));
    assert_eq!(parse_i32("-2147483648"), Some(i32::MIN));
    assert_eq!(parse_i32("2147483648"), None);
    assert_eq!(parse_i32(""), None);
    assert_eq!(parse_i32("-"), None);
    assert_eq!(parse_i32("1.0"), None);
    assert_eq!(parse_i32(" 1"), None);
    assert_eq!(parse_u8("96"), Some(96));
    assert_eq!(parse_u8("256"), None);
    assert_eq!(parse_u8("-1"), None);
    assert_eq!(parse_usize("12"), Some(12));
    for s in ["0", "7", "-3", "+12", "99999999999", "x", "", "12a"] {
        assert_eq!(parse_i32(s), s.parse::<i32>().ok(), "{}", s);
        assert_eq!(parse_u8(s), s.parse::<u8>().ok(), "{}", s);
    }
}

#[test]
fn float_literals_follow_the_std_grammar() {
    for s in [
        "260.89", "1e3", "1E-3", ".5", "5.", "-0.0", "+2", "inf", "-Infinity", "NaN", "2/1", ".",
        "", "abc", "1.2.3", "+-1", "e5", "1e", "1e+", "0x10", " 1", "1_000",
    ] {
        assert_eq!(is_float_literal(s), s.parse::<f32>().is_ok(), "{}", s);
    }
}

#[test]
fn mpe_is_found_in_any_case() {
    assert!(contains_mpe("Roli MPE Out"));
    assert!(contains_mpe("mPe"));
    assert!(!contains_mpe("Multi-timbral"));
    assert!(!contains_mpe("mp"));
    for s in ["MPE", "Multi-timbral", "Some mpe device", "M P E"] {
        assert_eq!(contains_mpe(s), s.to_lowercase().contains("mpe"), "{}", s);
    }
}

#[test]
fn substring_search() {
    assert!(contains_str("USB MIDI 1", "MIDI"));
    assert!(contains_str("anything", ""));
    assert!(!contains_str("USB", "USB MIDI"));
    assert!(contains_char("3/2", '/'));
    assert!(!contains_char("32", '/'));
}

#[test]
fn first_word_of_a_line() {
    assert_eq!(first_word_of("  100.0 cents"), "100.0");
    assert_eq!(first_word_of("   "), "");
}

#[test]
fn stripping_a_character_from_both_ends() {
    assert_eq!(strip("xxaxbxx", 'x'), "axb");
    assert_eq!(strip("xxx", 'x'), "");
    assert_eq!(strip("abc", 'x'), "abc");
}

#[test]
fn dropped_paths_lose_their_quotes() {
    assert_eq!(clean_path("\"/tmp/a b.scl\""), "/tmp/a b.scl");
    assert_eq!(clean_path("'/x.kbm'"), "/x.kbm");
    assert_eq!(clean_path("  '/x.kbm'  "), "'/x.kbm'");
    assert_eq!(clean_path("\"'/y.scl' \""), "/y.scl'");
    for s in ["\"/tmp/a b.scl\"", "'/x.kbm'", "  '/x.kbm'  ", "\"'/y.scl' \"", ""] {
        assert_eq!(clean_path(s), s.trim_matches('"').trim_matches('\'').trim(), "{}", s);
    }
}

#[test]
fn decimal_text_of_a_byte() {
    assert_eq!(decimal_u8(0), "0");
    assert_eq!(decimal_u8(48), "48");
    assert_eq!(decimal_u8(255), "255");
}

#[test]
fn text_equality() {
    assert!(same_text("file", "file"));
    assert!(!same_text("file", "files"));
    assert!(!same_text("fila", "file"));
    assert!(same_text("", ""));
}
