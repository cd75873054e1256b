//! How amounts, changes and ages are written.
use cloudbridge::amount::Amount;
use cloudbridge::calendar::Timestamp;
use cloudbridge::ui::fmt;

fn amount(value: f64, currency: &str) -> String {
    fmt::amount(Amount { bits: value.to_bits() }, currency)
}

fn change_pct(pct: f64) -> String {
    fmt::change_pct(Amount { bits: pct.to_bits() })
}

#[test]
fn small_amounts_keep_two_decimals() {
    assert_eq!(amount(51.5, "USD"), "$51.50");
    assert_eq!(amount(0.99, "USD"), "$0.99");
    assert_eq!(amount(42.75, "CNY"), "¥42.75");
}

#[test]
fn large_amounts_group_thousands_and_round_to_whole_units() {
    assert_eq!(amount(51080.4, "USD"), "$51,080");
    assert_eq!(amount(1_234_567.89, "USD"), "$1,234,568");
    assert_eq!(amount(100.0, "USD"), "$100");
}

#[test]
fn a_negative_amount_keeps_its_sign_ahead_of_the_symbol() {
    assert_eq!(amount(-12.5, "USD"), "-$12.50");
    assert_eq!(amount(-51080.0, "USD"), "-$51,080");
}

#[test]
fn sub_cent_amounts_are_dust_not_invented_roundings() {
    assert_eq!(amount(0.007, "USD"), "<$0.01");
    assert_eq!(amount(-0.007, "USD"), "-<$0.01");
    // Half a cent is round-off, not an amount at all.
    assert_eq!(amount(0.004, "USD"), "$0");
    assert_eq!(amount(0.0, "USD"), "$0");
}

#[test]
fn yen_has_no_minor_unit() {
    assert_eq!(amount(500.6, "JPY"), "¥501");
    assert_eq!(amount(49.0, "JPY"), "¥49");
}

#[test]
fn a_currency_with_no_known_symbol_is_named_instead() {
    assert_eq!(amount(12.5, "BTC"), "BTC 12.50");
}

#[test]
fn a_change_percentage_carries_its_sign() {
    assert_eq!(change_pct(12.5), "+12.5%");
    assert_eq!(change_pct(-3.26), "-3.3%");
}

/// Every print agrees with the standard library's, over a spread of values.
#[test]
fn prints_agree_with_the_standard_library() {
    let mut values: Vec<f64> = vec![
        0.0, -0.0, 0.05, 0.15, 0.25, 0.35, 0.45, 1.005, 2.675, 0.125, 0.375, 99.995, 12.345,
        1e15, 1e22, 123456789.125, 1e300, f64::MAX, f64::MIN_POSITIVE, 4.9e-324, f64::INFINITY,
        f64::NEG_INFINITY, f64::NAN, 4503599627370496.0, 4503599627370495.5, 9007199254740993.0,
    ];
    let mut seed: u64 = 0x9E37_79B9_7F4A_7C15;
    for _ in 0..4000 {
        seed = seed.wrapping_mul(6364136223846793005).wrapping_add(1442695040888963407);
        values.push((seed >> 20) as f64 / 1e6);
        values.push(-((seed >> 40) as f64) / 1e3);
        values.push(f64::from_bits(seed));
    }
    for value in values {
        let amount = Amount { bits: value.to_bits() };
        assert_eq!(fmt::two_decimals(amount), format!("{:.2}", value));
        assert_eq!(fmt::change_pct(amount), format!("{:+.1}%", value));
        assert_eq!(fmt::share_pct(amount), format!("{:.1}%", value));
        assert_eq!(fmt::whole_change_pct(amount), format!("{:+.0}%", value));
    }
}

#[test]
fn whole_units_agree_with_rounding_and_casting() {
    for value in [
        100.5, 101.5, 999.5, 1234.5, -1234.5, 1e18, 9.3e18, -9.3e18, 1e300, -1e300,
    ] {
        let cast = (value as f64).round() as i64;
        let digits: String = cast
            .unsigned_abs()
            .to_string()
            .chars()
            .rev()
            .collect::<Vec<char>>()
            .chunks(3)
            .map(|group| group.iter().collect::<String>())
            .collect::<Vec<String>>()
            .join(",")
            .chars()
            .rev()
            .collect();
        let sign = if cast < 0 { "-" } else { "" };
        assert_eq!(amount(value, "USD"), format!("{sign}${digits}"));
    }
}

fn minutes_before(now: Timestamp, minutes: i64) -> Timestamp {
    Timestamp { seconds: now.seconds - 60 * minutes, nanos: now.nanos }
}

#[test]
fn ages_read_in_their_largest_unit() {
    let now = Timestamp { seconds: 1_788_220_800, nanos: 500 };
    assert_eq!(fmt::relative_time(minutes_before(now, 0), now), "just now");
    let minutes = fmt::relative_time(minutes_before(now, 5), now);
    assert!(minutes.contains('5'), "{minutes}");
    let hours = fmt::relative_time(minutes_before(now, 180), now);
    assert!(hours.contains('3'), "{hours}");
    let days = fmt::relative_time(minutes_before(now, 2 * 1440), now);
    assert!(days.contains('2'), "{days}");
}
