use homebuyer_sim::format::{decimal_string, format_currency_full_rounded, format_number_rounded};

#[test]
fn decimal_text_of_counts() {
    assert_eq!(decimal_string(0), "0");
    assert_eq!(decimal_string(7), "7");
    assert_eq!(decimal_string(10000), "10000");
    assert_eq!(decimal_string(u64::MAX), "18446744073709551615");
}

#[test]
fn number_grouped_in_thousands() {
    assert_eq!(format_number_rounded(0), "0");
    assert_eq!(format_number_rounded(999), "999");
    assert_eq!(format_number_rounded(1000), "1,000");
    assert_eq!(format_number_rounded(1234567), "1,234,567");
    assert_eq!(format_number_rounded(100000), "100,000");
    assert_eq!(format_number_rounded(1000001), "1,000,001");
}

#[test]
fn number_grouping_uses_the_magnitude() {
    assert_eq!(format_number_rounded(-1234567), "1,234,567");
    assert_eq!(format_number_rounded(i64::MAX), "9,223,372,036,854,775,807");
    assert_eq!(format_number_rounded(-i64::MAX), "9,223,372,036,854,775,807");
}

#[test]
fn grouping_removes_to_plain_digits() {
    for n in [0i64, 5, 999, 1000, 65536, 1234567, 987654321012] {
        let grouped = format_number_rounded(n);
        assert_eq!(grouped.replace(',', ""), decimal_string(n as u64));
    }
}

#[test]
fn currency_full_text() {
    assert_eq!(format_currency_full_rounded(false, 925000), "$925,000");
    assert_eq!(format_currency_full_rounded(true, 185000), "-$185,000");
    assert_eq!(format_currency_full_rounded(false, 0), "$0");
    assert_eq!(format_currency_full_rounded(true, 0), "-$0");
    assert_eq!(format_currency_full_rounded(false, 1000000), "$1,000,000");
}
