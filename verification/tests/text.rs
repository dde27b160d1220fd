use fand::edits::{kind_matches, list_contains, removal_index, ListRefusal};
use fand::text::{decimal_string, parse_signed, parse_unsigned, str_eq};

#[test]
fn unsigned_parse_matches_str_parse() {
    assert_eq!(parse_unsigned("0", 255), Some(0));
    assert_eq!(parse_unsigned("+12", 255), Some(12));
    assert_eq!(parse_unsigned("255", 255), Some(255));
    assert_eq!(parse_unsigned("256", 255), None);
    assert_eq!(parse_unsigned("", 255), None);
    assert_eq!(parse_unsigned("+", 255), None);
    assert_eq!(parse_unsigned("1 2", 255), None);
    assert_eq!(parse_unsigned("18446744073709551615", u64::MAX), Some(u64::MAX));
    assert_eq!(parse_unsigned("18446744073709551616", u64::MAX), None);
}

#[test]
fn signed_parse_matches_str_parse() {
    let min = 0x8000_0000_0000_0000u64;
    assert_eq!(parse_signed("-0", min, i64::MAX as u64), Some(0));
    assert_eq!(parse_signed("-42", min, i64::MAX as u64), Some(-42));
    assert_eq!(parse_signed("-", min, i64::MAX as u64), None);
    assert_eq!(parse_signed("-+1", min, i64::MAX as u64), None);
    assert_eq!(parse_signed("--1", min, i64::MAX as u64), None);
    assert_eq!(parse_signed("-2147483649", 0x8000_0000, i32::MAX as u64), None);
    assert_eq!(parse_signed("-2147483648", 0x8000_0000, i32::MAX as u64), Some(i32::MIN as i64));
}

#[test]
fn decimal_forms() {
    assert_eq!(decimal_string(0), "0");
    assert_eq!(decimal_string(1_752_800_000), "1752800000");
    assert_eq!(decimal_string(u64::MAX), "18446744073709551615");
    assert!(str_eq("abc", "abc"));
    assert!(!str_eq("abc", "abd"));
}

fn entries(items: &[Option<&str>]) -> Vec<Option<String>> {
    items.iter().map(|i| i.map(|s| s.to_string())).collect()
}

#[test]
fn duplicate_member_is_detected() {
    let list = entries(&[Some("cpu_c"), None, Some("gpu_c")]);
    assert!(list_contains(&list, "gpu_c"));
    assert!(!list_contains(&list, "case"));
}

#[test]
fn removal_takes_the_first_match_and_never_empties_a_mix() {
    assert_eq!(removal_index(&entries(&[Some("a")]), "a"), Err(ListRefusal::LastEntry));
    assert_eq!(removal_index(&entries(&[]), "a"), Err(ListRefusal::LastEntry));
    assert_eq!(removal_index(&entries(&[Some("a"), Some("b"), Some("b")]), "b"), Ok(1));
    assert_eq!(removal_index(&entries(&[Some("a"), None]), "b"), Err(ListRefusal::NotFound));
}

#[test]
fn curve_kind_checks() {
    assert!(kind_matches(&Some("graph".to_string()), "graph"));
    assert!(!kind_matches(&Some("mix".to_string()), "graph"));
    assert!(!kind_matches(&None, "graph"));
}
