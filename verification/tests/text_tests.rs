//! Tests of the text utilities: decimal rendering, number parsing,
//! escaping, blankness, sorting, reserved names, and query building.

use logparser::db::{is_reserved_name, sort_columns};
use logparser::engine::build_where;
use logparser::greet;
use logparser::text::{
    escape_fts_phrase, escape_single_quotes, i64_to_dec, is_blank, parse_u32, u32_to_dec,
    u64_to_dec,
};

#[test]
fn decimal_rendering_is_exact() {
    assert_eq!(u64_to_dec(0), "0");
    assert_eq!(u64_to_dec(7), "7");
    assert_eq!(u64_to_dec(1234567890), "1234567890");
    assert_eq!(u64_to_dec(u64::MAX), "18446744073709551615");
    assert_eq!(u32_to_dec(u32::MAX), "4294967295");
    assert_eq!(i64_to_dec(0), "0");
    assert_eq!(i64_to_dec(-5), "-5");
    assert_eq!(i64_to_dec(i64::MIN), "-9223372036854775808");
    assert_eq!(i64_to_dec(i64::MAX), "9223372036854775807");
}

#[test]
fn parse_u32_accepts_what_std_does() {
    assert_eq!(parse_u32("42"), 42);
    assert_eq!(parse_u32("+7"), 7);
    assert_eq!(parse_u32("0"), 0);
    assert_eq!(parse_u32("4294967295"), u32::MAX);
    assert_eq!(parse_u32("4294967296"), 0);
    assert_eq!(parse_u32(""), 0);
    assert_eq!(parse_u32("+"), 0);
    assert_eq!(parse_u32("abc"), 0);
    assert_eq!(parse_u32("12x"), 0);
    assert_eq!(parse_u32("-3"), 0);
    assert_eq!(parse_u32(" 5"), 0);
}

#[test]
fn quote_escaping_doubles_quotes() {
    assert_eq!(escape_single_quotes("a'b"), "a''b");
    assert_eq!(escape_single_quotes("''"), "''''");
    assert_eq!(escape_single_quotes("plain"), "plain");
    assert_eq!(escape_fts_phrase("a'b\"c"), "a''b\"\"c");
    assert_eq!(escape_fts_phrase("no quotes"), "no quotes");
}

#[test]
fn blankness_is_whitespace_only() {
    assert!(is_blank(""));
    assert!(is_blank(" \t\r\n"));
    assert!(is_blank("\u{00A0}\u{2003}"));
    assert!(!is_blank(" x "));
}

#[test]
fn greeting_embeds_the_name() {
    assert_eq!(greet("world".to_string()), "Hello, world!");
}

#[test]
fn column_sort_is_lexicographic() {
    let cols = vec![
        "zeta".to_string(),
        "alpha".to_string(),
        "Beta".to_string(),
        "alpha".to_string(),
    ];
    let sorted = sort_columns(cols);
    assert_eq!(sorted, vec!["Beta", "alpha", "alpha", "zeta"]);
}

#[test]
fn reserved_names_ignore_ascii_case() {
    assert!(is_reserved_name("id"));
    assert!(is_reserved_name("ID"));
    assert!(is_reserved_name("iD"));
    assert!(is_reserved_name("raw"));
    assert!(is_reserved_name("RAW"));
    assert!(is_reserved_name("Raw"));
    assert!(!is_reserved_name("idx"));
    assert!(!is_reserved_name("id "));
    assert!(!is_reserved_name("r"));
    assert!(!is_reserved_name(""));
}

#[test]
fn where_clauses_are_built_exactly() {
    assert_eq!(build_where("", ""), "");
    assert_eq!(build_where("  ", " \t"), "");
    assert_eq!(build_where("a = 1", ""), "WHERE (a = 1)");
    assert_eq!(
        build_where("", "x"),
        "WHERE id IN (SELECT rowid FROM logs_fts WHERE logs_fts MATCH '\"x\"')"
    );
    assert_eq!(
        build_where("a = 1", "it's"),
        "WHERE id IN (SELECT rowid FROM logs_fts WHERE logs_fts MATCH '\"it''s\"') AND (a = 1)"
    );
    assert_eq!(
        build_where("", "say \"hi\""),
        "WHERE id IN (SELECT rowid FROM logs_fts WHERE logs_fts MATCH '\"say \"\"hi\"\"\"')"
    );
}
