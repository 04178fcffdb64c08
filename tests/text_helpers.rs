use ferrumena::text::{
    compact_url_for_log, decimal_string, find_text, format_text, is_blank_text, last_dot_index,
    parse_u32, stem_text, trim_text, unescape_quot_text,
};

#[test]
fn parse_u32_reads_plain_and_signed_numbers() {
    assert_eq!(parse_u32("42"), Some(42));
    assert_eq!(parse_u32("+7"), Some(7));
    assert_eq!(parse_u32("0"), Some(0));
    assert_eq!(parse_u32("4294967295"), Some(u32::MAX));
}

#[test]
fn parse_u32_rejects_other_text() {
    assert_eq!(parse_u32(""), None);
    assert_eq!(parse_u32("+"), None);
    assert_eq!(parse_u32("-1"), None);
    assert_eq!(parse_u32("12a"), None);
    assert_eq!(parse_u32(" 12"), None);
    assert_eq!(parse_u32("4294967296"), None);
    assert_eq!(parse_u32("99999999999999999999"), None);
}

#[test]
fn decimal_string_writes_numerals() {
    assert_eq!(decimal_string(0), "0");
    assert_eq!(decimal_string(7), "7");
    assert_eq!(decimal_string(1585080), "1585080");
    assert_eq!(decimal_string(u32::MAX), "4294967295");
}

#[test]
fn trim_text_drops_outer_whitespace() {
    assert_eq!(trim_text("  1585080\n"), "1585080");
    assert_eq!(trim_text("\u{3000}a b\t"), "a b");
    assert_eq!(trim_text("   "), "");
    assert_eq!(trim_text(""), "");
}

#[test]
fn is_blank_text_detects_whitespace_only() {
    assert!(is_blank_text(""));
    assert!(is_blank_text(" \t\n"));
    assert!(!is_blank_text(" x "));
}

#[test]
fn format_text_takes_text_after_last_dot() {
    assert_eq!(format_text("http://x/1.png"), Some("png".to_string()));
    assert_eq!(format_text("a.tar.gz"), Some("gz".to_string()));
    assert_eq!(format_text("ends."), Some("".to_string()));
    assert_eq!(format_text("noext"), None);
    assert_eq!(format_text(""), None);
}

#[test]
fn last_dot_index_finds_last_dot() {
    assert_eq!(last_dot_index("a.b.c"), Some(3));
    assert_eq!(last_dot_index("abc"), None);
}

#[test]
fn stem_text_follows_file_stem_rules() {
    assert_eq!(stem_text("42.png"), "42");
    assert_eq!(stem_text("42"), "42");
    assert_eq!(stem_text(".hidden"), ".hidden");
    assert_eq!(stem_text("a.tar.gz"), "a.tar");
}

#[test]
fn unescape_replaces_quot_entities() {
    assert_eq!(
        unescape_quot_text("{&quot;full&quot;:&quot;u&quot;}"),
        "{\"full\":\"u\"}"
    );
    assert_eq!(unescape_quot_text("&quot"), "&quot");
    assert_eq!(unescape_quot_text("&amp;quot;"), "&amp;quot;");
    assert_eq!(unescape_quot_text(""), "");
}

#[test]
fn find_text_finds_first_occurrence() {
    assert_eq!(find_text("a://b://", "://"), Some(1));
    assert_eq!(find_text("abc", "x"), None);
    assert_eq!(find_text("abc", ""), Some(0));
}

#[test]
fn compact_url_keeps_the_path() {
    assert_eq!(
        compact_url_for_log("https://derpicdn.net/img/2024/1/1/42/full.png"),
        "/img/2024/1/1/42/full.png"
    );
    assert_eq!(compact_url_for_log("https://host"), "/");
    assert_eq!(compact_url_for_log("no-scheme/path"), "no-scheme/path");
}
