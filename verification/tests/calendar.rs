//! Days, months and instants.
use chrono::{DateTime, Datelike, TimeZone, Utc};
use cloudbridge::amount::Amount;
use cloudbridge::calendar::{BillingPeriod, Date, Timestamp, MAX_SECONDS, MIN_SECONDS};
use cloudbridge::memory::{day_of, period_label_of};
use cloudbridge::ui::data::range::Range;
use cloudbridge::ui::data::series::{
    daily_map, days_with_data, monthly_series, series_days, trailing_year_periods, usage_on,
    year_since,
};

fn at(year: i32, month: u32, day: u32, hour: u32) -> Timestamp {
    let at: DateTime<Utc> = Utc.with_ymd_and_hms(year, month, day, hour, 0, 0).unwrap();
    Timestamp { seconds: at.timestamp(), nanos: 0 }
}

fn day(year: i32, month: u32, day: u32) -> Date {
    Date { year, month, day }
}

fn amount(value: f64) -> Amount {
    Amount { bits: value.to_bits() }
}

#[test]
fn an_instant_falls_on_its_day() {
    assert_eq!(at(2026, 9, 30, 23).date(), day(2026, 9, 30));
    assert_eq!(Timestamp { seconds: -1, nanos: 999_999_999 }.date(), day(1969, 12, 31));
    assert_eq!(Timestamp { seconds: MIN_SECONDS, nanos: 0 }.date().year, -262143);
    assert_eq!(Timestamp { seconds: MAX_SECONDS, nanos: 0 }.date(), day(262142, 12, 31));
}

#[test]
fn a_day_begins_at_midnight() {
    assert_eq!(day(1970, 1, 1).midnight(), Timestamp { seconds: 0, nanos: 0 });
    assert_eq!(day(1970, 1, 2).midnight().seconds, 86_400);
    assert_eq!(day(2026, 2, 28).midnight(), at(2026, 2, 28, 0));
}

#[test]
fn days_are_counted_over_leap_years() {
    assert_eq!(day(2024, 2, 28).plus_days(1), day(2024, 2, 29));
    assert_eq!(day(2023, 2, 28).plus_days(1), day(2023, 3, 1));
    assert_eq!(day(2000, 2, 28).plus_days(2), day(2000, 3, 1));
    assert_eq!(day(1900, 2, 28).plus_days(1), day(1900, 3, 1));
    assert_eq!(day(2026, 1, 1).plus_days(-1), day(2025, 12, 31));
}

#[test]
fn labels_name_the_day_and_the_month() {
    let date = day(2026, 3, 7);
    assert_eq!(date.label(), "2026-03-07");
    assert_eq!(date.month_label(), "2026-03");
    assert_eq!(date.short_label(), "Mar 07");
    assert_eq!(date.month_caption(), "March 2026");
    assert_eq!(day_of(at(2026, 3, 7, 13)), "2026-03-07");
    assert_eq!(period_label_of(at(2026, 3, 7, 13)), "2026-03");
}

#[test]
fn labels_are_what_the_calendar_prints() {
    for offset in (0..4000).step_by(37) {
        let date = day(2019, 6, 1).plus_days(offset);
        let printed = chrono::NaiveDate::from_ymd_opt(date.year, date.month, date.day).unwrap();
        assert_eq!(date.label(), printed.format("%Y-%m-%d").to_string());
        assert_eq!(date.midnight().seconds, printed.and_hms_opt(0, 0, 0).unwrap().and_utc().timestamp());
        assert_eq!(printed.num_days_from_ce() - 719_163, (date.midnight().seconds / 86_400) as i32);
    }
}

#[test]
fn later_days_have_larger_labels() {
    let days = [day(2025, 12, 31), day(2026, 1, 1), day(2026, 1, 2), day(2026, 2, 1)];
    for pair in days.windows(2) {
        assert!(pair[0].earlier_than(pair[1]));
        assert!(pair[0].label() < pair[1].label());
    }
}

#[test]
fn a_day_is_read_back_from_its_label() {
    let date = day(2026, 9, 2);
    assert_eq!(Date::parse(&date.label()), Some(date));
    assert_eq!(Date::parse("2026-02-30"), None);
    assert_eq!(Date::parse("September"), None);
    assert_eq!(Date::parse(""), None);
}

#[test]
fn instants_are_ordered_by_time() {
    let early = Timestamp { seconds: 5, nanos: 1 };
    let late = Timestamp { seconds: 5, nanos: 2 };
    assert!(early.earlier_than(late) && !late.earlier_than(early) && !late.earlier_than(late));
    assert!(early.time_rank() < late.time_rank());
    assert_eq!(early.max(late), late);
    assert_eq!(late.minus_days(1), Timestamp { seconds: 5 - 86_400, nanos: 2 });
    assert_eq!(late.plus_hours(2), Timestamp { seconds: 7_205, nanos: 2 });
}

#[test]
fn a_period_is_a_month() {
    let period = BillingPeriod::containing(at(2026, 1, 31, 23));
    assert_eq!(period, BillingPeriod { year: 2026, month: 1 });
    assert_eq!(period.label(), "2026-01");
    assert_eq!(period.start(), day(2026, 1, 1));
    assert_eq!(period.previous(), BillingPeriod { year: 2025, month: 12 });
    assert_eq!(period.months_back(0), period);
    assert_eq!(period.months_back(13), BillingPeriod { year: 2024, month: 12 });
}

#[test]
fn a_window_ends_where_the_next_begins() {
    let now = at(2026, 9, 15, 12);
    for range in Range::all() {
        let ((since, until), (prior_since, prior_until)) = range.windows(now);
        assert_eq!(prior_until, since, "{}", range.label());
        assert!(prior_since.earlier_than(prior_until));
        assert_eq!(until, now);
    }
    let ((since, _), (prior, _)) = Range::Days30.windows(now);
    assert_eq!(since.date(), day(2026, 8, 17));
    assert_eq!(prior.date(), day(2026, 7, 18));
    let ((since, _), (prior, _)) = Range::Months12.windows(now);
    assert_eq!((since.date(), prior.date()), (day(2025, 10, 1), day(2024, 10, 1)));
    let ((since, _), (prior, _)) = Range::Mtd.windows(now);
    assert_eq!((since.date(), prior.date()), (day(2026, 9, 1), day(2026, 8, 1)));
}

#[test]
fn a_later_row_of_a_day_replaces_an_earlier() {
    let rows = vec![
        ("2026-09-02".to_string(), amount(1.0)),
        ("not a day".to_string(), amount(9.0)),
        ("2026-09-01".to_string(), amount(2.0)),
        ("2026-09-02".to_string(), amount(3.0)),
    ];
    let by_day = daily_map(&rows);
    assert_eq!(by_day.len(), 2);
    assert_eq!(usage_on(&by_day, day(2026, 9, 1)), Some(amount(2.0)));
    assert_eq!(usage_on(&by_day, day(2026, 9, 2)), Some(amount(3.0)));
    assert_eq!(usage_on(&by_day, day(2026, 9, 3)), None);
    let window = series_days(at(2026, 9, 2, 5), at(2026, 9, 4, 1));
    assert_eq!(window, vec![day(2026, 9, 2), day(2026, 9, 3), day(2026, 9, 4)]);
    assert_eq!(days_with_data(&by_day, &window), vec![day(2026, 9, 2)]);
}

#[test]
fn a_year_is_twelve_months_to_now() {
    let periods = trailing_year_periods(at(2026, 3, 7, 0));
    assert_eq!(periods.len(), 12);
    assert_eq!(periods[0].label(), "2025-04");
    assert_eq!(periods[11].label(), "2026-03");
    assert_eq!(year_since(&periods), at(2025, 4, 1, 0));
    let chart = monthly_series(&vec![("2025-05".to_string(), amount(4.0))], &periods);
    assert_eq!(chart.actual.len(), 12);
    assert_eq!(chart.actual[1].amount, amount(4.0));
    assert_eq!(chart.actual[2].amount, amount(0.0));
    assert!(chart.baseline.is_empty());
}
