use zermelo::text::{decimal_string, join, two_digit_string};

fn strings(words: &[&str]) -> Vec<String> {
    words.iter().map(|w| w.to_string()).collect()
}

#[test]
fn decimal_of_zero() {
    assert_eq!(decimal_string(0), "0");
}

#[test]
fn decimal_of_positive_numbers() {
    assert_eq!(decimal_string(7), "7");
    assert_eq!(decimal_string(10), "10");
    assert_eq!(decimal_string(1609459200), "1609459200");
    assert_eq!(decimal_string(i64::MAX), "9223372036854775807");
}

#[test]
fn decimal_of_negative_numbers() {
    assert_eq!(decimal_string(-1), "-1");
    assert_eq!(decimal_string(-86400), "-86400");
    assert_eq!(decimal_string(i64::MIN), "-9223372036854775808");
}

#[test]
fn decimal_agrees_with_std() {
    let samples: [i64; 8] = [0, 9, 10, 99, 100, -100, 1234567890123, -987654321];
    for n in samples {
        assert_eq!(decimal_string(n), n.to_string());
    }
}

#[test]
fn two_digits_are_zero_padded() {
    assert_eq!(two_digit_string(0), "00");
    assert_eq!(two_digit_string(5), "05");
    assert_eq!(two_digit_string(10), "10");
    assert_eq!(two_digit_string(59), "59");
    assert_eq!(two_digit_string(99), "99");
}

#[test]
fn join_of_nothing_is_empty() {
    assert_eq!(join(&Vec::new(), ", "), "");
}

#[test]
fn join_of_one_has_no_separator() {
    assert_eq!(join(&strings(&["wis"]), ", "), "wis");
}

#[test]
fn join_puts_separator_between_neighbours() {
    assert_eq!(join(&strings(&["wis", "nat", "schk"]), ", "), "wis, nat, schk");
}

#[test]
fn join_keeps_empty_pieces() {
    assert_eq!(join(&strings(&["", "a", ""]), ", "), ", a, ");
}

#[test]
fn join_agrees_with_std() {
    let parts = strings(&["a", "b, c", "", "d"]);
    assert_eq!(join(&parts, ", "), parts.join(", "));
    assert_eq!(join(&parts, ""), parts.join(""));
}
