use mydocker::text::{
    chars_of, concat2, find_char_from, join_strings, parse_usize, push_decimal, split_at_first,
    str_eq, usize_to_decimal,
};

#[test]
fn str_eq_compares_characters() {
    assert!(str_eq("", ""));
    assert!(str_eq("abc", "abc"));
    assert!(!str_eq("abc", "abd"));
    assert!(!str_eq("abc", "ab"));
    assert!(!str_eq("Bearer", "bearer"));
}

#[test]
fn chars_of_counts_characters_not_bytes() {
    assert_eq!(chars_of(""), Vec::<char>::new());
    assert_eq!(chars_of("a\u{e9}\u{4e16}"), vec!['a', '\u{e9}', '\u{4e16}']);
}

#[test]
fn concat2_puts_the_second_behind_the_first() {
    assert_eq!(concat2("ab", "cd"), "abcd");
    assert_eq!(concat2("", "x"), "x");
    assert_eq!(concat2("x", ""), "x");
}

#[test]
fn find_char_from_gives_the_first_position_or_the_length() {
    let s = chars_of("a:b:c");
    assert_eq!(find_char_from(&s, ':', 0), 1);
    assert_eq!(find_char_from(&s, ':', 1), 1);
    assert_eq!(find_char_from(&s, ':', 2), 3);
    assert_eq!(find_char_from(&s, ':', 4), 5);
    assert_eq!(find_char_from(&s, ':', 5), 5);
    assert_eq!(find_char_from(&s, '/', 0), 5);
}

#[test]
fn split_at_first_splits_once() {
    assert_eq!(split_at_first("a:b:c", ':'), Some(("a".to_string(), "b:c".to_string())));
    assert_eq!(split_at_first(":", ':'), Some((String::new(), String::new())));
    assert_eq!(split_at_first("abc:", ':'), Some(("abc".to_string(), String::new())));
    assert_eq!(split_at_first("abc", ':'), None);
    assert_eq!(split_at_first("", ':'), None);
    assert_eq!(
        split_at_first("\u{e9}/\u{4e16}", '/'),
        Some(("\u{e9}".to_string(), "\u{4e16}".to_string()))
    );
}

#[test]
fn join_strings_puts_the_separator_between_neighbours() {
    let none: Vec<String> = vec![];
    assert_eq!(join_strings(&none, ":"), "");
    assert_eq!(join_strings(&vec!["a".to_string()], ":"), "a");
    assert_eq!(
        join_strings(&vec!["a".to_string(), "b".to_string(), "c".to_string()], ":"),
        "a:b:c"
    );
    assert_eq!(join_strings(&vec![String::new(), String::new()], "&"), "&");
}

#[test]
fn decimal_digits_of_numbers() {
    assert_eq!(usize_to_decimal(0), "0");
    assert_eq!(usize_to_decimal(7), "7");
    assert_eq!(usize_to_decimal(10), "10");
    assert_eq!(usize_to_decimal(4096), "4096");
    assert_eq!(usize_to_decimal(usize::MAX), usize::MAX.to_string());
    let mut out = String::from("layer.");
    push_decimal(&mut out, 12);
    assert_eq!(out, "layer.12");
}

#[test]
fn parse_usize_reads_what_the_standard_library_reads() {
    let max = usize::MAX.to_string();
    let over = format!("{}0", max);
    let plus_max = format!("+{}", max);
    let cases = [
        "", "0", "7", "007", "+7", "+", "-7", "++7", " 7", "7 ", "7a", "a", "12345", "1_000",
        "\u{661}", "0x10", "+0", "18446744073709551616", "99999999999999999999999",
        max.as_str(), over.as_str(), plus_max.as_str(),
    ];
    for text in cases {
        assert_eq!(parse_usize(text), text.parse::<usize>().ok(), "{:?}", text);
    }
    assert_eq!(parse_usize("4096"), Some(4096));
    assert_eq!(parse_usize(""), None);
}

#[test]
fn digits_of_a_number_read_back_as_the_number() {
    for n in [0usize, 1, 9, 10, 99, 100, 65535, 4294967295, usize::MAX] {
        assert_eq!(parse_usize(usize_to_decimal(n).as_str()), Some(n));
    }
}
