use kanban_desktop::text::{decimal, is_plain_name};

#[test]
fn numbers_are_written_in_decimal() {
    assert_eq!(decimal(0), "0");
    assert_eq!(decimal(10), "10");
    assert_eq!(decimal(9_876_543_210), "9876543210");
    assert_eq!(decimal(u128::MAX), u128::MAX.to_string());
}

#[test]
fn a_plain_name_has_no_separator_and_no_double_dot() {
    assert!(is_plain_name(""));
    assert!(is_plain_name("state_2024-01-02.json"));
    assert!(is_plain_name("."));
    assert!(is_plain_name(".a."));
    assert!(!is_plain_name(".."));
    assert!(!is_plain_name("a..b"));
    assert!(!is_plain_name("../x"));
    assert!(!is_plain_name("a/b"));
    assert!(!is_plain_name("a\\b"));
    assert!(!is_plain_name("..."));
}
