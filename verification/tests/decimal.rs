use prime_check::decimal::parse_u64;

#[test]
fn reads_plain_numbers() {
    assert_eq!(parse_u64("0"), Some(0));
    assert_eq!(parse_u64("7"), Some(7));
    assert_eq!(parse_u64("17"), Some(17));
    assert_eq!(parse_u64("18"), Some(18));
    assert_eq!(parse_u64("4294967291"), Some(4294967291));
    assert_eq!(parse_u64("1234567890123456789"), Some(1234567890123456789));
}

#[test]
fn accepts_a_leading_plus_sign() {
    assert_eq!(parse_u64("+5"), Some(5));
    assert_eq!(parse_u64("+0"), Some(0));
    assert_eq!(parse_u64("+18446744073709551615"), Some(u64::MAX));
}

#[test]
fn leading_zeros_do_not_count() {
    assert_eq!(parse_u64("007"), Some(7));
    assert_eq!(parse_u64("0000000000000000000000000000000000000001"), Some(1));
    assert_eq!(parse_u64("00018446744073709551615"), Some(u64::MAX));
}

#[test]
fn reads_up_to_the_largest_value() {
    assert_eq!(parse_u64("18446744073709551615"), Some(u64::MAX));
    assert_eq!(parse_u64("18446744073709551614"), Some(u64::MAX - 1));
}

#[test]
fn rejects_values_that_do_not_fit() {
    assert_eq!(parse_u64("18446744073709551616"), None);
    assert_eq!(parse_u64("18446744073709551620"), None);
    assert_eq!(parse_u64("99999999999999999999"), None);
    assert_eq!(parse_u64("100000000000000000000000000000"), None);
}

#[test]
fn rejects_the_empty_text_and_a_lone_sign() {
    assert_eq!(parse_u64(""), None);
    assert_eq!(parse_u64("+"), None);
    assert_eq!(parse_u64("-"), None);
}

#[test]
fn rejects_everything_that_is_not_a_digit() {
    assert_eq!(parse_u64("abc"), None);
    assert_eq!(parse_u64("-5"), None);
    assert_eq!(parse_u64("-0"), None);
    assert_eq!(parse_u64("++1"), None);
    assert_eq!(parse_u64("1+"), None);
    assert_eq!(parse_u64(" 5"), None);
    assert_eq!(parse_u64("5 "), None);
    assert_eq!(parse_u64("1_000"), None);
    assert_eq!(parse_u64("1,000"), None);
    assert_eq!(parse_u64("1.0"), None);
    assert_eq!(parse_u64("1e3"), None);
    assert_eq!(parse_u64("0x10"), None);
    assert_eq!(parse_u64("12a"), None);
    assert_eq!(parse_u64("/"), None);
    assert_eq!(parse_u64(":"), None);
}

#[test]
fn rejects_characters_outside_ascii() {
    assert_eq!(parse_u64("\u{663}"), None);
    assert_eq!(parse_u64("1\u{663}"), None);
    assert_eq!(parse_u64("+\u{ff11}"), None);
    assert_eq!(parse_u64("\u{e9}"), None);
    assert_eq!(parse_u64("12\u{a0}"), None);
}

#[test]
fn reads_what_the_standard_library_reads() {
    let samples: Vec<&str> = vec![
        "", "+", "-", "0", "+0", "-0", "17", "+17", "-17", "++17", "017", " 17", "17 ", "1 7",
        "abc", "1_7", "18446744073709551615", "18446744073709551616", "+18446744073709551615",
        "184467440737095516150", "000000000000000000000000018446744073709551615", "\u{663}",
        "1\u{663}", "+\u{e9}", "9", "/", ":", "\t9", "9\n",
    ];
    for text in samples {
        assert_eq!(parse_u64(text), text.parse::<u64>().ok(), "at {:?}", text);
    }
}

#[test]
fn reads_back_every_printed_number() {
    let mut n: u64 = 0;
    while n < 3_000 {
        assert_eq!(parse_u64(&format!("{}", n)), Some(n));
        assert_eq!(parse_u64(&format!("+{}", n)), Some(n));
        n += 1;
    }
    let mut high: u64 = u64::MAX;
    while high > u64::MAX - 100 {
        assert_eq!(parse_u64(&format!("{}", high)), Some(high));
        high -= 1;
    }
}
