use textutils::headr::policy::{
    valid_byte_number, valid_line_number, ExtractionPolicy, HeadKind, InvalidCount, Sign,
};

fn parts(policy: &ExtractionPolicy) -> (HeadKind, usize, Sign) {
    (policy.unit(), policy.magnitude(), policy.sign())
}

#[test]
fn default_policy_is_ten_lines_from_the_front() {
    let policy = ExtractionPolicy::default();
    assert_eq!(parts(&policy), (HeadKind::Lines, 10, Sign::Positive));
}

#[test]
fn plain_count_is_from_the_front() {
    let policy = ExtractionPolicy::parse(HeadKind::Bytes, "5").unwrap();
    assert_eq!(parts(&policy), (HeadKind::Bytes, 5, Sign::Positive));
}

#[test]
fn minus_marks_a_count_from_the_end() {
    let policy = ExtractionPolicy::parse(HeadKind::Lines, "-2").unwrap();
    assert_eq!(parts(&policy), (HeadKind::Lines, 2, Sign::Negative));
}

#[test]
fn zero_has_the_zero_sign_whatever_the_mark() {
    let plain = ExtractionPolicy::parse(HeadKind::Lines, "0").unwrap();
    let marked = ExtractionPolicy::parse(HeadKind::Lines, "-0").unwrap();
    let padded = ExtractionPolicy::parse(HeadKind::Bytes, "-000").unwrap();
    assert_eq!(parts(&plain), (HeadKind::Lines, 0, Sign::Zero));
    assert_eq!(parts(&marked), (HeadKind::Lines, 0, Sign::Zero));
    assert_eq!(parts(&padded), (HeadKind::Bytes, 0, Sign::Zero));
    assert_eq!(plain, marked);
}

#[test]
fn new_derives_the_sign_from_the_magnitude() {
    assert_eq!(ExtractionPolicy::new(HeadKind::Bytes, 0, true).sign(), Sign::Zero);
    assert_eq!(ExtractionPolicy::new(HeadKind::Bytes, 0, false).sign(), Sign::Zero);
    assert_eq!(ExtractionPolicy::new(HeadKind::Bytes, 3, true).sign(), Sign::Negative);
    assert_eq!(ExtractionPolicy::new(HeadKind::Lines, 3, false).sign(), Sign::Positive);
}

#[test]
fn leading_zeros_and_plus_are_read_as_the_standard_parser_reads_them() {
    for token in ["007", "+7", "-7", "-+7", "0", "+0", "18446744073709551615"] {
        let digits = token.strip_prefix('-').unwrap_or(token);
        let expected = digits.parse::<usize>().ok();
        let got = ExtractionPolicy::parse(HeadKind::Lines, token).ok().map(|p| p.magnitude());
        assert_eq!(got, expected, "token {token:?}");
    }
    assert_eq!(ExtractionPolicy::parse(HeadKind::Lines, "007").unwrap().magnitude(), 7);
    assert_eq!(ExtractionPolicy::parse(HeadKind::Lines, "-+7").unwrap().sign(), Sign::Negative);
}

#[test]
fn malformed_counts_are_rejected_and_quoted() {
    for token in ["", "-", "+", "--1", "+-1", "1x", "x", " 1", "1 ", "1.5", "٣", "-٣", "++1"] {
        let expected = InvalidCount { unit: HeadKind::Lines, token: token.to_string() };
        assert_eq!(ExtractionPolicy::parse(HeadKind::Lines, token), Err(expected));
        let digits = token.strip_prefix('-').unwrap_or(token);
        assert!(digits.parse::<usize>().is_err(), "token {token:?}");
    }
}

#[test]
fn counts_beyond_the_machine_word_are_rejected() {
    let largest = usize::MAX.to_string();
    assert_eq!(
        ExtractionPolicy::parse(HeadKind::Bytes, &largest).unwrap().magnitude(),
        usize::MAX
    );
    assert_eq!(
        ExtractionPolicy::parse(HeadKind::Bytes, &format!("-{largest}")).unwrap().sign(),
        Sign::Negative
    );
    let too_large = format!("{largest}0");
    assert!(ExtractionPolicy::parse(HeadKind::Bytes, &too_large).is_err());
    let one_more = "18446744073709551616";
    if usize::MAX as u128 == u64::MAX as u128 {
        assert!(ExtractionPolicy::parse(HeadKind::Bytes, one_more).is_err());
    }
    assert!(ExtractionPolicy::parse(HeadKind::Bytes, "99999999999999999999999999").is_err());
}

#[test]
fn invalid_count_message_names_unit_and_token() {
    let bytes = InvalidCount { unit: HeadKind::Bytes, token: "1x".to_string() };
    let lines = InvalidCount { unit: HeadKind::Lines, token: "-".to_string() };
    assert_eq!(bytes.message(), "illegal byte count -- 1x");
    assert_eq!(lines.message(), "illegal line count -- -");
}

#[test]
fn byte_validator_accepts_counts_and_rejects_the_rest() {
    assert_eq!(valid_byte_number("12"), Ok(()));
    assert_eq!(valid_byte_number("-12"), Ok(()));
    assert_eq!(valid_byte_number("0"), Ok(()));
    assert_eq!(valid_byte_number("twelve"), Err("illegal byte count -- twelve".to_string()));
    assert_eq!(valid_byte_number(""), Err("illegal byte count -- ".to_string()));
}

#[test]
fn line_validator_accepts_counts_and_rejects_the_rest() {
    assert_eq!(valid_line_number("10"), Ok(()));
    assert_eq!(valid_line_number("-3"), Ok(()));
    assert_eq!(valid_line_number("3.0"), Err("illegal line count -- 3.0".to_string()));
    assert_eq!(valid_line_number("-"), Err("illegal line count -- -".to_string()));
}
