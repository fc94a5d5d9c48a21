use footical::money::{format_pence, parse_pounds_to_pence};

#[test]
fn formats_whole_pounds() {
    assert_eq!(format_pence(500), "£5.00");
    assert_eq!(format_pence(1000), "£10.00");
}

#[test]
fn formats_part_pounds() {
    assert_eq!(format_pence(50), "£0.50");
    assert_eq!(format_pence(1050), "£10.50");
    assert_eq!(format_pence(5), "£0.05");
}

#[test]
fn formats_zero_and_credit() {
    assert_eq!(format_pence(0), "£0.00");
    assert_eq!(format_pence(-250), "-£2.50");
}

#[test]
fn parses_plain_and_decimal_amounts() {
    assert_eq!(parse_pounds_to_pence("5"), Some(500));
    assert_eq!(parse_pounds_to_pence("5.50"), Some(550));
    assert_eq!(parse_pounds_to_pence("0.50"), Some(50));
    assert_eq!(parse_pounds_to_pence("10.05"), Some(1005));
}

#[test]
fn tolerates_currency_symbol_and_spacing() {
    assert_eq!(parse_pounds_to_pence(" £5.50 "), Some(550));
    assert_eq!(parse_pounds_to_pence("£10"), Some(1000));
}

#[test]
fn treats_single_decimal_as_tenths() {
    assert_eq!(parse_pounds_to_pence("5.5"), Some(550));
}

#[test]
fn rejects_nonsense() {
    assert_eq!(parse_pounds_to_pence("abc"), None);
    assert_eq!(parse_pounds_to_pence("5.555"), None);
    assert_eq!(parse_pounds_to_pence("-5"), None);
    assert_eq!(parse_pounds_to_pence(""), None);
    assert_eq!(parse_pounds_to_pence("."), None);
    assert_eq!(parse_pounds_to_pence("£"), None);
}

#[test]
fn formats_extreme_amounts() {
    assert_eq!(format_pence(i64::MIN), "-£92233720368547758.08");
    assert_eq!(format_pence(i64::MAX), "£92233720368547758.07");
    assert_eq!(format_pence(-1), "-£0.01");
}

#[test]
fn format_then_parse_gives_the_amount_back() {
    for pence in [0i64, 1, 5, 99, 100, 1050, 123456, i64::MAX] {
        assert_eq!(parse_pounds_to_pence(&format_pence(pence)), Some(pence));
    }
}

#[test]
fn parses_signs_and_repeated_pound_signs_as_std_does() {
    assert_eq!(parse_pounds_to_pence("+5"), Some(500));
    assert_eq!(parse_pounds_to_pence("££5"), Some(500));
    assert_eq!(parse_pounds_to_pence(".5"), Some(50));
    assert_eq!(parse_pounds_to_pence("5."), Some(500));
    assert_eq!(parse_pounds_to_pence("1.+5"), Some(105));
    assert_eq!(parse_pounds_to_pence("1.-5"), None);
    assert_eq!(parse_pounds_to_pence("5.é"), None);
    assert_eq!(parse_pounds_to_pence("\u{3000}7\u{a0}"), Some(700));
    assert_eq!(parse_pounds_to_pence("92233720368547758.07"), Some(i64::MAX));
    assert_eq!(parse_pounds_to_pence("92233720368547758.08"), None);
    assert_eq!(parse_pounds_to_pence("99999999999999999999"), None);
    assert_eq!(parse_pounds_to_pence("1.2.3"), None);
}
