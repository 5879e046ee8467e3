use reading_stats::digits::group_digits;

fn grouped(s: &str) -> Option<String> {
    group_digits(s)
}

#[test]
fn four_digits_stay_as_they_are() {
    assert_eq!(grouped("1234"), Some("1234".to_string()));
    assert_eq!(grouped("0"), Some("0".to_string()));
    assert_eq!(grouped("999"), Some("999".to_string()));
}

#[test]
fn five_digits_get_one_separator() {
    assert_eq!(grouped("12345"), Some("12\u{202F}345".to_string()));
}

#[test]
fn seven_digits_get_two_separators() {
    assert_eq!(grouped("1234567"), Some("1\u{202F}234\u{202F}567".to_string()));
}

#[test]
fn six_digits_have_no_leading_separator() {
    assert_eq!(grouped("123456"), Some("123\u{202F}456".to_string()));
    assert_eq!(grouped("1000000000"), Some("1\u{202F}000\u{202F}000\u{202F}000".to_string()));
}

#[test]
fn non_numbers_are_refused() {
    assert_eq!(grouped(""), None);
    assert_eq!(grouped("12a45"), None);
    assert_eq!(grouped("-12345"), None);
    assert_eq!(grouped("1.5"), None);
}
