use delivery_core::text::{
    comes_before, copy_opt_text, copy_texts, eq_ignoring_case, push_decimal, push_signed_decimal,
    same_text,
};

fn tx_decimal(n: u64) -> String {
    let mut s = String::new();
    push_decimal(&mut s, n);
    s
}

fn tx_signed(n: i64) -> String {
    let mut s = String::new();
    push_signed_decimal(&mut s, n);
    s
}

#[test]
fn identifiers_are_ordered_as_strings_are() {
    let samples = ["", "a", "aa", "ab", "b", "B", "abc", "ab ", "é", "e", "z", "日本", "0", "10", "9"];
    for a in samples {
        for b in samples {
            assert_eq!(comes_before(a, b), a < b, "{:?} before {:?}", a, b);
        }
    }
}

#[test]
fn same_text_is_equality() {
    let samples = ["", "a", "ab", "ba", "é", "e", "bid_1", "bid_10"];
    for a in samples {
        for b in samples {
            assert_eq!(same_text(a, b), a == b);
        }
    }
}

#[test]
fn case_of_ascii_letters_is_ignored() {
    assert!(eq_ignoring_case("In_Transit", "in_transit"));
    assert!(eq_ignoring_case("ACCEPTED", "accepted"));
    assert!(eq_ignoring_case("", ""));
    assert!(eq_ignoring_case("aZ09_", "Az09_"));
    assert!(!eq_ignoring_case("accepted", "accepte"));
    assert!(!eq_ignoring_case("accepted", "acceptee"));
    assert!(!eq_ignoring_case("@", "`"));
    assert!(!eq_ignoring_case("[", "{"));
    assert!(!eq_ignoring_case("É", "é"));
    assert!(eq_ignoring_case("é", "é"));
}

#[test]
fn decimal_numerals_are_written_without_padding() {
    assert_eq!(tx_decimal(0), "0");
    assert_eq!(tx_decimal(7), "7");
    assert_eq!(tx_decimal(10), "10");
    assert_eq!(tx_decimal(25000), "25000");
    assert_eq!(tx_decimal(1_234_567_890), "1234567890");
    assert_eq!(tx_decimal(u64::MAX), u64::MAX.to_string());
}

#[test]
fn signed_numerals_carry_their_sign() {
    assert_eq!(tx_signed(0), "0");
    assert_eq!(tx_signed(42), "42");
    assert_eq!(tx_signed(-1), "-1");
    assert_eq!(tx_signed(-604800), "-604800");
    assert_eq!(tx_signed(i64::MAX), i64::MAX.to_string());
    assert_eq!(tx_signed(i64::MIN), i64::MIN.to_string());
}

#[test]
fn numerals_are_appended_to_what_is_there() {
    let mut s = "bid_".to_string();
    push_decimal(&mut s, 12);
    push_signed_decimal(&mut s, -3);
    assert_eq!(s, "bid_12-3");
}

#[test]
fn copies_keep_their_contents() {
    assert_eq!(copy_opt_text(&None), None);
    assert_eq!(copy_opt_text(&Some("x".to_string())), Some("x".to_string()));
    let texts = vec!["a".to_string(), "".to_string(), "c".to_string()];
    assert_eq!(copy_texts(&texts), texts);
    assert_eq!(copy_texts(&Vec::new()), Vec::<String>::new());
}
