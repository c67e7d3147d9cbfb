use elephantry_benchmark::text::{parse_text_array, push_decimal};

#[test]
fn array_literal_with_quoted_elements() {
    assert_eq!(parse_text_array("{\"a b\",c,\"d\"}"), vec!["a b".to_string(), "c".to_string(), "d".to_string()]);
}

#[test]
fn array_literal_with_one_element() {
    assert_eq!(parse_text_array("{x}"), vec!["x".to_string()]);
}

#[test]
fn empty_array_literal_reads_as_one_empty_element() {
    assert_eq!(parse_text_array("{}"), vec![String::new()]);
    assert_eq!(parse_text_array(""), vec![String::new()]);
}

#[test]
fn array_literal_keeps_empty_elements_between_commas() {
    assert_eq!(parse_text_array("{a,,b}"), vec!["a".to_string(), String::new(), "b".to_string()]);
}

#[test]
fn array_literal_trims_every_brace_and_quote_at_the_ends() {
    assert_eq!(parse_text_array("{{\"\"x\"\"}}"), vec!["x".to_string()]);
    assert_eq!(parse_text_array("{é,ü}"), vec!["é".to_string(), "ü".to_string()]);
}

#[test]
fn decimal_numerals() {
    for (n, text) in [(0u64, "0"), (7, "7"), (10, "10"), (9_999, "9999"), (u64::MAX, "18446744073709551615")] {
        let mut s = String::from("n=");
        push_decimal(&mut s, n);
        assert_eq!(s, format!("n={}", text));
    }
}
