use flashrom_tester::strutil::{
    all_digits, contains_sub, eq_ignore_case, find_char, find_first, hex_str, lower_eq,
    parse_digits_i64, split_lines, starts_with, str_eq, substring, trim_end_char,
    trim_start_matches, zero_pad,
};

#[test]
fn split_lines_matches_line_semantics() {
    let as_vec = |v: &[&str]| -> Vec<String> { v.iter().map(|s| s.to_string()).collect() };
    assert_eq!(split_lines(""), as_vec(&[]));
    assert_eq!(split_lines("a"), as_vec(&["a"]));
    assert_eq!(split_lines("a\n"), as_vec(&["a"]));
    assert_eq!(split_lines("\n"), as_vec(&[""]));
    assert_eq!(split_lines("a\n\nb"), as_vec(&["a", "", "b"]));
    assert_eq!(split_lines("a\nb\n"), as_vec(&["a", "b"]));
    // CRLF endings are accepted; a carriage return is stripped only before
    // a separator.
    assert_eq!(split_lines("a\r\nb\r\n"), as_vec(&["a", "b"]));
    assert_eq!(split_lines("a\rb"), as_vec(&["a\rb"]));
    assert_eq!(split_lines("a\r"), as_vec(&["a\r"]));
    assert_eq!(split_lines("\r\n"), as_vec(&[""]));
}

#[test]
fn digit_parsing_covers_the_i64_range() {
    assert_eq!(parse_digits_i64("0"), Some(0));
    assert_eq!(parse_digits_i64("007"), Some(7));
    assert_eq!(parse_digits_i64("9223372036854775807"), Some(i64::MAX));
    assert_eq!(parse_digits_i64("9223372036854775808"), None);
    assert_eq!(parse_digits_i64(""), None);
    assert_eq!(parse_digits_i64("12a"), None);
    assert!(all_digits("0123456789"));
    assert!(!all_digits("01x"));
    assert!(all_digits(""));
}

#[test]
fn hex_rendering_is_exact() {
    assert_eq!(hex_str(0, false), "0");
    assert_eq!(hex_str(0x3fff, false), "3fff");
    assert_eq!(hex_str(0xC000, false), "c000");
    assert_eq!(hex_str(0x4D2, true), "4D2");
    assert_eq!(hex_str(u64::MAX, true), "FFFFFFFFFFFFFFFF");
    assert_eq!(zero_pad("4D2", 6), "0004D2");
    assert_eq!(zero_pad("12345678", 6), "12345678");
}

#[test]
fn searching_and_trimming() {
    assert_eq!(find_first("abcabc", "bc"), Some(1));
    assert_eq!(find_first("abcabc", "zz"), None);
    assert!(contains_sub("hello world", "o w"));
    assert!(!contains_sub("hello", "world"));
    assert!(starts_with("vendor=\"x\"", "vendor=\""));
    assert!(!starts_with("ven", "vendor=\""));
    assert_eq!(trim_start_matches("ababcd", "ab"), "cd");
    assert_eq!(trim_start_matches("cd", "ab"), "cd");
    assert_eq!(trim_end_char("name\"\"", '"'), "name");
    assert_eq!(find_char("k=v", '='), Some(1));
    assert_eq!(find_char("kv", '='), None);
    assert_eq!(substring("abcdef", 2, 4), "cd");
}

#[test]
fn case_insensitive_comparisons() {
    assert!(eq_ignore_case("Pretty", "pRetty"));
    assert!(!eq_ignore_case("pretty", "prettY2"));
    assert!(lower_eq("Test Two", "test two"));
    assert!(!lower_eq("Test Two", "Test Two"));
    assert!(str_eq("same", "same"));
    assert!(!str_eq("same", "sam"));
}
