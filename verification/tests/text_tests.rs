use qmerge::text::{
    before_char_str, ends_with, find_str, lines_of, parse_u16, parse_u8, parse_usize, split_str,
    split_whitespace, starts_with, str_eq, strip_prefix, strip_suffix, trim_end_matches,
    trim_end_matches_char, trim_start_matches, trim_start_matches_char, trim_ws, usize_text,
};

#[test]
fn trims_whitespace_and_patterns() {
    assert_eq!(trim_ws("  \tabc \n"), "abc");
    assert_eq!(trim_ws("   "), "");
    assert_eq!(trim_start_matches_char("&&name,", '&'), "name,");
    assert_eq!(trim_end_matches_char("name,,", ','), "name");
    assert_eq!(trim_start_matches("(void*)(void*)12", "(void*)"), "12");
    assert_eq!(trim_end_matches("f_gshared_gshared", "_gshared"), "f");
    assert_eq!(trim_end_matches("abc", ""), "abc");
}

#[test]
fn finds_and_compares() {
    assert_eq!(find_str("a = b = c", "= "), Some(2));
    assert_eq!(find_str("abc", "x"), None);
    assert!(starts_with("void* f", "void*"));
    assert!(!starts_with("vo", "void*"));
    assert!(ends_with("f_inline", "_inline"));
    assert_eq!(strip_prefix("il2cpp:A", "il2cpp:"), Some("A"));
    assert_eq!(strip_suffix("f_inline", "_inline"), Some("f"));
    assert_eq!(strip_suffix("f", "_inline"), None);
    assert_eq!(before_char_str("name/* comment */", '/'), "name");
    assert_eq!(before_char_str("name", '/'), "name");
    assert!(str_eq("abc", "abc"));
    assert!(!str_eq("abc", "abd"));
}

#[test]
fn splits_words_lines_and_pieces() {
    assert_eq!(split_whitespace("  a  b\tc "), vec!["a", "b", "c"]);
    assert_eq!(split_whitespace(""), Vec::<&str>::new());
    assert_eq!(lines_of("a\r\nb\n\nc\n"), vec!["a", "b", "", "c"]);
    assert_eq!(split_str("il2cpp:NS:Cls:M", false, ':'), vec!["il2cpp", "NS", "Cls", "M"]);
    assert_eq!(split_str("a::", false, ':'), vec!["a", "", ""]);
    assert_eq!(split_str("L2B10", true, 'A'), vec!["", "2", "10"]);
    assert_eq!(split_str("", false, ':'), vec![""]);
}

#[test]
fn parses_numbers_like_str_parse() {
    assert_eq!(parse_u16("65535"), Some(65535));
    assert_eq!(parse_u16("65536"), None);
    assert_eq!(parse_u8("+7"), Some(7));
    assert_eq!(parse_u8("+"), None);
    assert_eq!(parse_u8(""), None);
    assert_eq!(parse_u8("1a"), None);
    assert_eq!(parse_usize("0042"), Some(42));
}

#[test]
fn writes_decimals() {
    assert_eq!(usize_text(0), "0");
    assert_eq!(usize_text(7), "7");
    assert_eq!(usize_text(1203), "1203");
    assert_eq!(usize_text(usize::MAX), usize::MAX.to_string());
}
