use textutils::text::decimal::{
    decimal_width, parse_unsigned, push_decimal, push_padded_decimal,
};
use textutils::text::strings::chars_of;

#[test]
fn characters_come_out_in_order() {
    assert_eq!(chars_of(""), Vec::<char>::new());
    assert_eq!(chars_of("aü日"), vec!['a', 'ü', '日']);
}

#[test]
fn unsigned_numerals_are_read_like_the_standard_parser_reads_them() {
    for text in [
        "0", "7", "42", "007", "+5", "+", "", "-1", "1-", "12a", "a12", " 3", "+-3", "++3",
        "18446744073709551615", "18446744073709551616", "4294967295", "4294967296", "٣",
        "99999999999999999999999",
    ] {
        assert_eq!(parse_unsigned(text), text.parse::<usize>().ok(), "text {text:?}");
    }
}

#[test]
fn numerals_are_written_like_the_standard_formatter_writes_them() {
    for n in [0usize, 1, 9, 10, 11, 99, 100, 101, 12345, 1_000_000, usize::MAX - 1, usize::MAX] {
        let mut s = String::new();
        push_decimal(&mut s, n);
        assert_eq!(s, n.to_string());
        assert_eq!(decimal_width(n), n.to_string().len());
    }
}

#[test]
fn numerals_are_appended_to_what_is_there() {
    let mut s = String::from("n=");
    push_decimal(&mut s, 305);
    assert_eq!(s, "n=305");
}

#[test]
fn padding_goes_to_the_left_and_never_cuts() {
    for n in [0usize, 7, 42, 123456, 1234567, usize::MAX] {
        for width in [0usize, 1, 2, 6, 7, 8, 25] {
            let mut s = String::from("|");
            push_padded_decimal(&mut s, n, width);
            assert_eq!(s, format!("|{:>width$}", n, width = width));
        }
    }
    let mut s = String::new();
    push_padded_decimal(&mut s, 42, 6);
    assert_eq!(s, "    42");
}

#[test]
fn written_numerals_read_back_as_the_same_number() {
    for n in [0usize, 5, 10, 999, 1000, usize::MAX] {
        let mut s = String::new();
        push_decimal(&mut s, n);
        assert_eq!(parse_unsigned(&s), Some(n));
    }
}
