//! Text, measured values and maps by serial number.

use solaredge_exporter::portal::client::truncate;
use solaredge_exporter::reading::Reading;
use solaredge_exporter::serial_map::SerialMap;
use solaredge_exporter::text::{
    decimal, parse_between, replaced, same_ignoring_case, split_pieces, split_words, trimmed,
};

fn reading(v: f64) -> Reading {
    Reading { bits: v.to_bits() }
}

#[test]
fn truncate_keeps_short_strings() {
    assert_eq!(truncate("hello"), "hello");
}

#[test]
fn truncate_respects_char_boundaries() {
    let s = "a".repeat(600);
    let t = truncate(&s);
    assert!(t.len() > 500);
    assert!(t.ends_with('…'));
}

#[test]
fn truncation_counts_bytes_and_cuts_between_characters() {
    assert_eq!(truncate(&"a".repeat(500)), "a".repeat(500));
    assert_eq!(
        truncate(&"a".repeat(501)),
        format!("{}…", "a".repeat(500))
    );
    let wide = "é".repeat(300);
    assert_eq!(truncate(&wide), format!("{}…", "é".repeat(250)));
    let odd = format!("a{}", "é".repeat(300));
    assert_eq!(truncate(&odd), format!("a{}…", "é".repeat(249)));
    let widest = format!("ab{}", "😀".repeat(200));
    assert_eq!(truncate(&widest), format!("ab{}…", "😀".repeat(124)));
}

#[test]
fn words_and_pieces_split_as_expected() {
    assert_eq!(trimmed(" \u{3000}x y\u{a0}"), "x y");
    assert_eq!(split_words("  a\tb \u{2003}c "), vec!["a", "b", "c"]);
    assert_eq!(split_words("   "), Vec::<&str>::new());
    assert_eq!(split_pieces("1::2", ':'), vec!["1", "", "2"]);
    assert_eq!(split_pieces("", ':'), vec![""]);
}

#[test]
fn numbers_are_read_and_written() {
    assert_eq!(parse_between("+7", -128, 127), Some(7));
    assert_eq!(parse_between("-128", -128, 127), Some(-128));
    assert_eq!(parse_between("128", -128, 127), None);
    assert_eq!(parse_between("00012", -128, 127), Some(12));
    assert_eq!(parse_between("", -128, 127), None);
    assert_eq!(parse_between("-", -128, 127), None);
    assert_eq!(parse_between("1 ", -128, 127), None);
    assert_eq!(decimal(0), "0");
    assert_eq!(decimal(u64::MAX), "18446744073709551615");
    assert_eq!(replaced("1,5,2", ',', "."), "1.5.2");
}

#[test]
fn only_ascii_letters_are_compared_without_case() {
    assert!(same_ignoring_case("OptiMizer", "oPTImIZER"));
    assert!(!same_ignoring_case("É", "é"));
    assert!(!same_ignoring_case("ab", "abc"));
}

#[test]
fn readings_compare_as_numbers() {
    let values = [f64::NEG_INFINITY, -2.5, -0.0, 0.0, 1e-310, 3.0, f64::INFINITY, f64::NAN];
    for a in values {
        for b in values {
            assert_eq!(reading(a).lt(&reading(b)), a < b, "{a} {b}");
        }
        assert_eq!(reading(a).at_least_zero(), a >= 0.0, "{a}");
    }
}

#[test]
fn a_map_keeps_one_value_for_each_serial() {
    let mut map: SerialMap<u32> = SerialMap::new();
    assert!(map.is_empty());
    map.insert("B".to_string(), 1);
    map.insert("A".to_string(), 2);
    map.insert("B".to_string(), 3);
    assert_eq!(map.get("B"), Some(&3));
    assert_eq!(map.get("A"), Some(&2));
    assert_eq!(map.get("C"), None);
    assert_eq!(map.entries().len(), 2);
}
