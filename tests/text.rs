use gene_annotation::text::{int_to_string, join_strings, nat_to_string, str_eq, str_le};

#[test]
fn decimal_rendering() {
    assert_eq!(nat_to_string(0), "0");
    assert_eq!(nat_to_string(187745450), "187745450");
    assert_eq!(int_to_string(-8), "-8");
    assert_eq!(int_to_string(100), "100");
    assert_eq!(int_to_string(i64::MIN), "-9223372036854775808");
    assert_eq!(nat_to_string(u64::MAX), "18446744073709551615");
}

#[test]
fn joining() {
    let parts = vec!["a".to_string(), "".to_string(), "c".to_string()];
    assert_eq!(join_strings(&parts, ";"), "a;;c");
    assert_eq!(join_strings(&vec![], ";"), "");
    assert_eq!(join_strings(&vec!["x".to_string()], ","), "x");
}

#[test]
fn string_order() {
    assert!(str_le("ABC", "ABD"));
    assert!(str_le("AB", "ABC"));
    assert!(!str_le("ABC", "AB"));
    assert!(str_le("Z", "a"));
    assert!(str_le("same", "same"));
    assert!(str_eq("same", "same"));
    assert!(!str_eq("same", "sane"));
}
