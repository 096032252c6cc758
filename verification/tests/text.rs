use libhfd::text::chars_of;
use libhfd::text::contains;
use libhfd::text::decimal_string;
use libhfd::text::parse_u64;
use libhfd::text::replace_char_in;
use libhfd::text::replace_text;
use libhfd::text::same_text;
use libhfd::text::split_at_char;
use libhfd::text::string_of;
use libhfd::text::trim;

#[test]
fn characters_round_trip() {
    let v = chars_of("héllo/✓");
    assert_eq!(v, vec!['h', 'é', 'l', 'l', 'o', '/', '✓']);
    assert_eq!(string_of(&v), "héllo/✓");
    assert_eq!(chars_of(""), Vec::<char>::new());
}

#[test]
fn same_text_compares_contents() {
    assert!(same_text("datasets", "datasets"));
    assert!(!same_text("datasets", "dataset"));
    assert!(!same_text("datasets", "datasetz"));
    assert!(same_text("", ""));
}

#[test]
fn decimal_string_writes_numbers() {
    assert_eq!(decimal_string(0), "0");
    assert_eq!(decimal_string(9), "9");
    assert_eq!(decimal_string(10), "10");
    assert_eq!(decimal_string(24_999_999), "24999999");
    assert_eq!(decimal_string(u64::MAX), "18446744073709551615");
}

#[test]
fn replace_char_replaces_every_occurrence() {
    assert_eq!(replace_char_in("a/b/c", '/', "--"), "a--b--c");
    assert_eq!(replace_char_in("/", '/', "%2F"), "%2F");
    assert_eq!(replace_char_in("\"abc\"", '"', ""), "abc");
    assert_eq!(replace_char_in("abc", '/', "--"), "abc");
    assert_eq!(replace_char_in("", '/', "--"), "");
}

#[test]
fn split_keeps_empty_pieces() {
    assert_eq!(split_at_char("a/b/c", '/'), vec!["a", "b", "c"]);
    assert_eq!(split_at_char("", '/'), vec![""]);
    assert_eq!(split_at_char("/", '/'), vec!["", ""]);
    assert_eq!(split_at_char("https://host/x", '/'), vec!["https:", "", "host", "x"]);
    assert_eq!(split_at_char("a//", '/'), vec!["a", "", ""]);
    assert_eq!(split_at_char("abc", '/'), vec!["abc"]);
}

#[test]
fn split_agrees_with_the_standard_library() {
    for s in ["", "/", "a", "a/b", "//a//b//", "bytes 0-0/25000000", "x/y/z/"] {
        let expected: Vec<String> = s.split('/').map(|p| p.to_string()).collect();
        assert_eq!(split_at_char(s, '/'), expected);
    }
}

#[test]
fn trim_removes_white_space_at_both_ends() {
    assert_eq!(trim("  abc \n"), "abc");
    assert_eq!(trim("abc"), "abc");
    assert_eq!(trim(" a b "), "a b");
    assert_eq!(trim(" \t\r\n"), "");
    assert_eq!(trim(""), "");
    assert_eq!(trim("\u{a0}x\u{3000}"), "x");
    assert_eq!(trim("\u{200b}x"), "\u{200b}x");
}

#[test]
fn trim_agrees_with_the_standard_library() {
    for s in ["", " ", "a", " a", "a ", "\u{85}a\u{2028}b\u{2029}", "\u{1680}\u{2000}z\u{200a}\u{202f}\u{205f}", "\u{b}\u{c}q"] {
        assert_eq!(trim(s), s.trim());
    }
}

#[test]
fn contains_finds_a_text_anywhere() {
    assert!(contains("huggingface.co", "face"));
    assert!(contains("face", "face"));
    assert!(contains("xface", "face"));
    assert!(!contains("hf-mirror.com", "face"));
    assert!(!contains("fac", "face"));
    assert!(!contains("fa ce", "face"));
    assert!(contains("abc", ""));
    assert!(contains("", ""));
    assert!(!contains("", "a"));
}

#[test]
fn replace_text_replaces_from_left_to_right() {
    assert_eq!(replace_text("{a}/{b}", "{a}", "x"), "x/{b}");
    assert_eq!(replace_text("aaa", "aa", "b"), "ba");
    assert_eq!(replace_text("abab", "ab", "ab-"), "ab-ab-");
    assert_eq!(replace_text("abc", "d", "x"), "abc");
    assert_eq!(replace_text("abc", "", "x"), "abc");
    assert_eq!(replace_text("", "a", "x"), "");
    assert_eq!(replace_text("xx{f}", "{f}", ""), "xx");
}

#[test]
fn parse_u64_reads_decimal_numbers() {
    assert_eq!(parse_u64("0"), Some(0));
    assert_eq!(parse_u64("25000000"), Some(25_000_000));
    assert_eq!(parse_u64("+5"), Some(5));
    assert_eq!(parse_u64("007"), Some(7));
    assert_eq!(parse_u64("18446744073709551615"), Some(u64::MAX));
}

#[test]
fn parse_u64_rejects_what_is_no_number() {
    assert_eq!(parse_u64(""), None);
    assert_eq!(parse_u64("+"), None);
    assert_eq!(parse_u64("-1"), None);
    assert_eq!(parse_u64("++1"), None);
    assert_eq!(parse_u64("1+"), None);
    assert_eq!(parse_u64(" 1"), None);
    assert_eq!(parse_u64("1 "), None);
    assert_eq!(parse_u64("12a"), None);
    assert_eq!(parse_u64("*"), None);
    assert_eq!(parse_u64("٣"), None);
    assert_eq!(parse_u64("18446744073709551616"), None);
    assert_eq!(parse_u64("99999999999999999999999"), None);
}

#[test]
fn parse_u64_agrees_with_the_standard_library() {
    for s in ["", "0", "+0", "-0", "42", "+42", "4 2", "18446744073709551615", "18446744073709551616", "1e3", "0x10"] {
        assert_eq!(parse_u64(s), s.parse::<u64>().ok());
    }
}

#[test]
fn decimal_string_and_parse_u64_are_inverse() {
    for n in [0u64, 1, 9, 10, 99, 100, 12345, u64::MAX - 1, u64::MAX] {
        assert_eq!(parse_u64(&decimal_string(n)), Some(n));
    }
}
