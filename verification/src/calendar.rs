//! Instants, days and billing months.
//!
//! An instant is the seconds and nanoseconds since the Unix epoch, UTC. What
//! the calendar says of one (its day, the text of that day) is `chrono`'s to
//! compute, and comes from a few functions below whose contracts state it.
use chrono::Datelike;
use vstd::prelude::*;

use crate::{order, text};

verus! {

/// The first second of the calendar, at the start of the year -262143.
pub const MIN_SECONDS: i64 = -8_334_601_228_800;

/// The last second of the calendar, at the end of the year 262142.
pub const MAX_SECONDS: i64 = 8_210_266_876_799;

pub const SECONDS_PER_DAY: i64 = 86_400;

/// An instant: seconds since 1970-01-01T00:00:00Z, and the nanoseconds past
/// that second.
#[derive(Clone, Copy, PartialEq, Eq, Structural, Debug)]
pub struct Timestamp {
    pub seconds: i64,
    pub nanos: u32,
}

impl Timestamp {
    /// Within the calendar, and with a fraction below a second.
    pub open spec fn valid(self) -> bool {
        MIN_SECONDS <= self.seconds <= MAX_SECONDS && self.nanos < 1_000_000_000
    }

    /// Nanoseconds since the epoch.
    pub open spec fn nanoseconds(self) -> int {
        self.seconds * 1_000_000_000 + self.nanos
    }

    /// `self` is earlier than `other`.
    pub open spec fn before(self, other: Timestamp) -> bool {
        self.seconds < other.seconds || (self.seconds == other.seconds && self.nanos < other.nanos)
    }

    /// An earlier instant has fewer nanoseconds behind it.
    pub proof fn before_is_earlier(self, other: Timestamp)
        requires
            self.valid(),
            other.valid(),
        ensures
            self.before(other) <==> self.nanoseconds() < other.nanoseconds(),
            self == other <==> self.nanoseconds() == other.nanoseconds(),
    {
    }

    pub fn earlier_than(self, other: Timestamp) -> (res: bool)
        ensures
            res == self.before(other),
    {
        self.seconds < other.seconds || (self.seconds == other.seconds && self.nanos < other.nanos)
    }

    /// The place of an instant among all instants.
    pub open spec fn rank(self) -> int {
        self.seconds * 0x1_0000_0000 + self.nanos
    }

    /// Ranks order instants by time.
    pub proof fn rank_orders_instants(self, other: Timestamp)
        ensures
            self.before(other) <==> self.rank() < other.rank(),
            self == other <==> self.rank() == other.rank(),
    {
    }

    pub fn time_rank(self) -> (res: i128)
        ensures
            res == self.rank(),
    {
        self.seconds as i128 * 0x1_0000_0000 + self.nanos as i128
    }

    /// The later of two instants.
    pub open spec fn later_of(self, other: Timestamp) -> Timestamp {
        if self.before(other) {
            other
        } else {
            self
        }
    }

    pub fn max(self, other: Timestamp) -> (res: Timestamp)
        ensures
            res == self.later_of(other),
    {
        if self.earlier_than(other) {
            other
        } else {
            self
        }
    }

    /// The number of the instant's day, 0 for 1970-01-01.
    pub open spec fn day(self) -> int {
        self.seconds as int / SECONDS_PER_DAY as int
    }
}

// ==================== Days ====================

pub open spec fn is_leap(year: int) -> bool {
    year % 4 == 0 && (year % 100 != 0 || year % 400 == 0)
}

pub open spec fn days_in_month(year: int, month: int) -> int {
    if month == 2 {
        if is_leap(year) {
            29
        } else {
            28
        }
    } else if month == 4 || month == 6 || month == 9 || month == 11 {
        30
    } else {
        31
    }
}

/// Days of `year` before the first of `month`.
pub open spec fn days_before_month(year: int, month: int) -> int
    decreases month,
{
    if month <= 1 {
        0
    } else {
        days_before_month(year, month - 1) + days_in_month(year, month - 1)
    }
}

/// Days from 0001-01-01 to the first day of `year`.
pub open spec fn days_before_year(year: int) -> int {
    365 * (year - 1) + (year - 1) / 4 - (year - 1) / 100 + (year - 1) / 400
}

/// A day of the proleptic Gregorian calendar.
#[derive(Clone, Copy, PartialEq, Eq, Structural, Debug)]
pub struct Date {
    pub year: i32,
    pub month: u32,
    pub day: u32,
}

impl Date {
    pub open spec fn valid(self) -> bool {
        &&& -262143 <= self.year <= 262142
        &&& 1 <= self.month <= 12
        &&& 1 <= self.day <= days_in_month(self.year as int, self.month as int)
    }

    /// The number of the day, 0 for 1970-01-01.
    pub open spec fn number(self) -> int {
        days_before_year(self.year as int) + days_before_month(self.year as int, self.month as int)
            + self.day - 719_163
    }

    /// `self` comes before `other` in the calendar.
    pub open spec fn before(self, other: Date) -> bool {
        ||| self.year < other.year
        ||| self.year == other.year && self.month < other.month
        ||| self.year == other.year && self.month == other.month && self.day < other.day
    }

    pub fn earlier_than(self, other: Date) -> (res: bool)
        ensures
            res == self.before(other),
    {
        self.year < other.year || (self.year == other.year && self.month < other.month) || (
        self.year == other.year && self.month == other.month && self.day < other.day)
    }
}

proof fn lemma_months(year: int, a: int, b: int)
    requires
        1 <= a < b <= 13,
    ensures
        days_before_month(year, a) + days_in_month(year, a) <= days_before_month(year, b),
        0 <= days_before_month(year, a),
        days_before_month(year, 13) == days_in_year(year),
    decreases b,
{
    reveal_with_fuel(days_before_month, 14);
}

spec fn days_in_year(year: int) -> int {
    if is_leap(year) {
        366
    } else {
        365
    }
}

proof fn lemma_next_year(a: int)
    ensures
        days_before_year(a + 1) == days_before_year(a) + days_in_year(a),
{
    assert(a / 4 == (a - 1) / 4 + (if a % 4 == 0 {
        1int
    } else {
        0
    }));
    assert(a / 100 == (a - 1) / 100 + (if a % 100 == 0 {
        1int
    } else {
        0
    }));
    assert(a / 400 == (a - 1) / 400 + (if a % 400 == 0 {
        1int
    } else {
        0
    }));
    assert(a % 400 == 0 ==> a % 100 == 0);
    assert(a % 100 == 0 ==> a % 4 == 0);
}

proof fn lemma_years(a: int, b: int)
    requires
        a < b,
    ensures
        days_before_year(a) + days_in_year(a) <= days_before_year(b),
    decreases b - a,
{
    lemma_next_year(b - 1);
    if a < b - 1 {
        lemma_years(a, b - 1);
    }
}

/// Days are numbered in calendar order, and no two valid days share a number.
pub proof fn day_numbers_follow_the_calendar(a: Date, b: Date)
    requires
        a.valid(),
        b.valid(),
    ensures
        a.before(b) <==> a.number() < b.number(),
        a == b <==> a.number() == b.number(),
{
    lemma_days_before(a, b);
    lemma_days_before(b, a);
}

proof fn lemma_days_before(a: Date, b: Date)
    requires
        a.valid(),
        b.valid(),
    ensures
        a.before(b) ==> a.number() < b.number(),
{
    if a.before(b) {
        if a.year < b.year {
            lemma_years(a.year as int, b.year as int);
            lemma_months(a.year as int, a.month as int, 13);
            if b.month > 1 {
                lemma_months(b.year as int, 1, b.month as int);
            }
            assert(days_before_month(b.year as int, b.month as int) >= 0);
        } else if a.month < b.month {
            lemma_months(a.year as int, a.month as int, b.month as int);
        }
    }
}

/// The day an instant falls on: `DateTime::from_timestamp` followed by
/// `date_naive`, read field by field. The day is valid, and its number is that
/// of the instant's second, counted in whole days since the epoch.
#[verifier::external_body]
fn chrono_day(seconds: i64) -> (res: (i32, u32, u32))
    requires
        MIN_SECONDS <= seconds <= MAX_SECONDS,
    ensures
        (Date { year: res.0, month: res.1, day: res.2 }).valid(),
        (Date { year: res.0, month: res.1, day: res.2 }).number() == seconds as int
            / SECONDS_PER_DAY as int,
{
    let day = chrono::DateTime::from_timestamp(seconds, 0).unwrap().date_naive();
    (day.year(), day.month(), day.day())
}

/// Midnight of a day in seconds: `NaiveDate::from_ymd_opt`, `and_hms_opt` at
/// zero, `and_utc` and `timestamp`. A day that the calendar has begins a whole
/// number of days from the epoch.
#[verifier::external_body]
fn chrono_midnight(year: i32, month: u32, day: u32) -> (res: i64)
    requires
        (Date { year, month, day }).valid(),
    ensures
        res == (Date { year, month, day }).number() * SECONDS_PER_DAY,
{
    let date = chrono::NaiveDate::from_ymd_opt(year, month, day).unwrap();
    date.and_hms_opt(0, 0, 0).unwrap().and_utc().timestamp()
}

/// The day that has a number.
pub open spec fn civil(number: int) -> Date {
    choose|date: Date| #[trigger] date.valid() && date.number() == number
}

/// A valid day is the only one with its number.
pub proof fn lemma_civil(date: Date)
    requires
        date.valid(),
    ensures
        civil(date.number()) == date,
{
    day_numbers_follow_the_calendar(civil(date.number()), date);
}

/// The day after a day.
spec fn next_day(date: Date) -> Date {
    if date.day < days_in_month(date.year as int, date.month as int) {
        Date { day: (date.day + 1) as u32, ..date }
    } else if date.month < 12 {
        Date { month: (date.month + 1) as u32, day: 1, ..date }
    } else {
        Date { year: (date.year + 1) as i32, month: 1, day: 1 }
    }
}

proof fn lemma_next_day(date: Date)
    requires
        date.valid(),
        date != (Date { year: 262142, month: 12, day: 31 }),
    ensures
        next_day(date).valid(),
        next_day(date).number() == date.number() + 1,
{
    if date.month == 12 {
        lemma_next_year(date.year as int);
        lemma_months(date.year as int, 12, 13);
        reveal_with_fuel(days_before_month, 14);
    }
}

proof fn lemma_some_day(number: int) -> (date: Date)
    requires
        MIN_SECONDS <= number * SECONDS_PER_DAY <= MAX_SECONDS,
    ensures
        date.valid(),
        date.number() == number,
    decreases number - MIN_SECONDS,
{
    let first = Date { year: -262143i32, month: 1, day: 1 };
    if number * SECONDS_PER_DAY == MIN_SECONDS {
        first
    } else {
        let before = lemma_some_day(number - 1);
        let last = Date { year: 262142, month: 12, day: 31 };
        reveal_with_fuel(days_before_month, 13);
        assert(last.number() * SECONDS_PER_DAY + SECONDS_PER_DAY - 1 == MAX_SECONDS);
        lemma_next_day(before);
        next_day(before)
    }
}

/// Every number that the calendar reaches is that of a day.
pub proof fn lemma_civil_of(number: int)
    requires
        MIN_SECONDS <= number * SECONDS_PER_DAY <= MAX_SECONDS,
    ensures
        civil(number).valid(),
        civil(number).number() == number,
{
    let date = lemma_some_day(number);
    lemma_civil(date);
}

/// Every instant of the calendar falls on a day.
pub proof fn lemma_day_exists(at: Timestamp)
    requires
        at.valid(),
    ensures
        at.on().valid(),
        at.on().number() == at.day(),
{
    let date = lemma_some_day(at.day());
    lemma_civil(date);
}

impl Timestamp {
    /// The day the instant falls on, UTC.
    pub open spec fn on(self) -> Date {
        civil(self.day())
    }

    /// The day the instant falls on, UTC.
    pub fn date(self) -> (res: Date)
        requires
            self.valid(),
        ensures
            res.valid(),
            res.number() == self.day(),
            res == self.on(),
    {
        let (year, month, day) = chrono_day(self.seconds);
        proof {
            lemma_civil(Date { year, month, day });
        }
        Date { year, month, day }
    }
}

impl Date {
    /// The instant the day begins at, UTC.
    pub fn midnight(self) -> (res: Timestamp)
        requires
            self.valid(),
        ensures
            res.valid(),
            res.nanos == 0,
            res.seconds == self.number() * SECONDS_PER_DAY,
            res.day() == self.number(),
    {
        let seconds: i64 = chrono_midnight(self.year, self.month, self.day);
        proof {
            lemma_number_range(self);
        }
        Timestamp { seconds, nanos: 0 }
    }

    /// The day `days` after this one, before it where `days` is negative.
    pub fn plus_days(self, days: i64) -> (res: Date)
        requires
            self.valid(),
            MIN_SECONDS <= (self.number() + days) * SECONDS_PER_DAY <= MAX_SECONDS,
        ensures
            res.valid(),
            res.number() == self.number() + days,
    {
        let midnight = self.midnight();
        proof {
            lemma_number_range(self);
        }
        let (year, month, day) = chrono_day(midnight.seconds + days * SECONDS_PER_DAY);
        Date { year, month, day }
    }
}

/// Every valid day lies within the calendar.
pub proof fn lemma_number_range(date: Date)
    requires
        date.valid(),
    ensures
        MIN_SECONDS <= date.number() * SECONDS_PER_DAY,
        date.number() * SECONDS_PER_DAY + SECONDS_PER_DAY - 1 <= MAX_SECONDS,
{
    let first = Date { year: -262143i32, month: 1, day: 1 };
    let last = Date { year: 262142, month: 12, day: 31 };
    reveal_with_fuel(days_before_month, 13);
    assert(first.number() * SECONDS_PER_DAY == MIN_SECONDS);
    assert(last.number() * SECONDS_PER_DAY + SECONDS_PER_DAY - 1 == MAX_SECONDS);
    day_numbers_follow_the_calendar(first, date);
    day_numbers_follow_the_calendar(date, last);
}

// ==================== The text of a day ====================

/// A year as `%Y` writes it: four digits, and a sign before a year outside
/// 0 to 9999.
pub open spec fn year_text(year: int) -> Seq<char> {
    if 0 <= year <= 9999 {
        text::padded(year as nat, 4)
    } else if year < 0 {
        seq!['-'] + text::padded((-year) as nat, 4)
    } else {
        seq!['+'] + text::padded(year as nat, 4)
    }
}

pub open spec fn month_name(month: int) -> Seq<char> {
    if month == 1 {
        "January"@
    } else if month == 2 {
        "February"@
    } else if month == 3 {
        "March"@
    } else if month == 4 {
        "April"@
    } else if month == 5 {
        "May"@
    } else if month == 6 {
        "June"@
    } else if month == 7 {
        "July"@
    } else if month == 8 {
        "August"@
    } else if month == 9 {
        "September"@
    } else if month == 10 {
        "October"@
    } else if month == 11 {
        "November"@
    } else {
        "December"@
    }
}

pub open spec fn short_month_name(month: int) -> Seq<char> {
    month_name(month).take(3)
}

/// `YYYY-MM-DD`.
pub open spec fn day_label(date: Date) -> Seq<char> {
    year_text(date.year as int) + "-"@ + text::padded(date.month as nat, 2) + "-"@ + text::padded(
        date.day as nat,
        2,
    )
}

/// `YYYY-MM`.
pub open spec fn month_label(year: int, month: int) -> Seq<char> {
    year_text(year) + "-"@ + text::padded(month as nat, 2)
}

/// What each pattern makes of a day.
pub open spec fn formatted(date: Date, pattern: Seq<char>) -> Seq<char> {
    if pattern == "%Y-%m-%d"@ {
        day_label(date)
    } else if pattern == "%Y-%m"@ {
        month_label(date.year as int, date.month as int)
    } else if pattern == "%B %Y"@ {
        month_name(date.month as int) + " "@ + year_text(date.year as int)
    } else {
        short_month_name(date.month as int) + " "@ + text::padded(date.day as nat, 2)
    }
}

/// A day as text: `NaiveDate::format` with one of four patterns. The contract
/// states what each of them writes: the year in four digits with a sign outside
/// 0 to 9999, month and day in two, and English month names, whole or by their
/// first three letters.
#[verifier::external_body]
fn chrono_format(year: i32, month: u32, day: u32, pattern: &str) -> (res: String)
    requires
        (Date { year, month, day }).valid(),
        pattern@ == "%Y-%m-%d"@ || pattern@ == "%Y-%m"@ || pattern@ == "%B %Y"@ || pattern@
            == "%b %d"@,
    ensures
        res@ == formatted(Date { year, month, day }, pattern@),
{
    let date = chrono::NaiveDate::from_ymd_opt(year, month, day).unwrap();
    date.format(pattern).to_string()
}

/// The day that `NaiveDate::parse_from_str` reads from text under the pattern
/// `%Y-%m-%d`, as year, month and day.
pub uninterp spec fn parsed_day(text: Seq<char>) -> Option<(int, int, int)>;

/// Read a day: `NaiveDate::parse_from_str` with the pattern `%Y-%m-%d`. What it
/// reads is a day of the calendar, and the label of a day in the years 0 to
/// 9999 is read as that day; which other texts it takes is not stated.
#[verifier::external_body]
fn chrono_parse_day(text: &str) -> (res: Option<(i32, u32, u32)>)
    ensures
        parsed_day(text@) == (match res {
            Some(day) => Some((day.0 as int, day.1 as int, day.2 as int)),
            None => None,
        }),
        match res {
            Some(day) => (Date { year: day.0, month: day.1, day: day.2 }).valid(),
            None => true,
        },
        forall|date: Date|
            date.valid() && 0 <= date.year <= 9999 && text@ == #[trigger] day_label(date)
                ==> res == Some((date.year, date.month, date.day)),
{
    let day = chrono::NaiveDate::parse_from_str(text, "%Y-%m-%d").ok()?;
    Some((day.year(), day.month(), day.day()))
}

impl Date {
    /// The day as `YYYY-MM-DD`.
    pub fn label(self) -> (res: String)
        requires
            self.valid(),
        ensures
            res@ == day_label(self),
    {
        proof {
            lemma_patterns_differ();
        }
        chrono_format(self.year, self.month, self.day, "%Y-%m-%d")
    }

    /// The day's month as `YYYY-MM`.
    pub fn month_label(self) -> (res: String)
        requires
            self.valid(),
        ensures
            res@ == month_label(self.year as int, self.month as int),
    {
        proof {
            lemma_patterns_differ();
        }
        chrono_format(self.year, self.month, self.day, "%Y-%m")
    }

    /// The day's month by name, with its year.
    pub fn month_caption(self) -> (res: String)
        requires
            self.valid(),
        ensures
            res@ == month_name(self.month as int) + " "@ + year_text(self.year as int),
    {
        proof {
            lemma_patterns_differ();
        }
        chrono_format(self.year, self.month, self.day, "%B %Y")
    }

    /// The day by its short month name and its number.
    pub fn short_label(self) -> (res: String)
        requires
            self.valid(),
        ensures
            res@ == short_month_name(self.month as int) + " "@ + text::padded(self.day as nat, 2),
    {
        proof {
            lemma_patterns_differ();
        }
        chrono_format(self.year, self.month, self.day, "%b %d")
    }

    /// The day a `YYYY-MM-DD` label names, or `None` for other text.
    pub fn parse(text: &str) -> (res: Option<Date>)
        ensures
            parsed_day(text@) == (match res {
                Some(date) => Some((date.year as int, date.month as int, date.day as int)),
                None => None,
            }),
            res is Some ==> res->0.valid(),
            forall|date: Date|
                date.valid() && 0 <= date.year <= 9999 && text@ == #[trigger] day_label(date)
                    ==> res == Some(date),
    {
        match chrono_parse_day(text) {
            Some((year, month, day)) => Some(Date { year, month, day }),
            None => None,
        }
    }
}

proof fn lemma_patterns_differ()
    ensures
        "%Y-%m-%d"@ != "%Y-%m"@,
        "%Y-%m-%d"@ != "%B %Y"@,
        "%Y-%m-%d"@ != "%b %d"@,
        "%Y-%m"@ != "%B %Y"@,
        "%Y-%m"@ != "%b %d"@,
        "%B %Y"@ != "%b %d"@,
{
    reveal_strlit("%Y-%m-%d");
    reveal_strlit("%Y-%m");
    reveal_strlit("%B %Y");
    reveal_strlit("%b %d");
    assert("%Y-%m-%d"@.len() == 8);
    assert("%Y-%m"@.len() == 5);
    assert("%B %Y"@.len() == 5);
    assert("%b %d"@.len() == 5);
    assert("%Y-%m"@[1] == 'Y');
    assert("%B %Y"@[1] == 'B');
    assert("%b %d"@[1] == 'b');
}


impl Timestamp {
    /// The instant `days` days earlier.
    pub fn minus_days(self, days: i64) -> (res: Timestamp)
        requires
            self.valid(),
            0 <= days,
            self.seconds - days * SECONDS_PER_DAY >= MIN_SECONDS,
        ensures
            res.valid(),
            res.seconds == self.seconds - days * SECONDS_PER_DAY,
            res.nanos == self.nanos,
            res.day() == self.day() - days,
    {
        proof {
            assert(days * SECONDS_PER_DAY <= MAX_SECONDS - MIN_SECONDS);
            assert((self.seconds - days * SECONDS_PER_DAY) / (SECONDS_PER_DAY as int)
                == self.seconds as int / (SECONDS_PER_DAY as int) - days) by (nonlinear_arith)
                requires
                    SECONDS_PER_DAY == 86400,
            ;
        }
        Timestamp { seconds: self.seconds - days * SECONDS_PER_DAY, nanos: self.nanos }
    }

    /// The instant `hours` hours later, or earlier where `hours` is negative.
    pub fn plus_hours(self, hours: i64) -> (res: Timestamp)
        requires
            self.valid(),
            MIN_SECONDS <= self.seconds + hours * 3600 <= MAX_SECONDS,
        ensures
            res.valid(),
            res.seconds == self.seconds + hours * 3600,
            res.nanos == self.nanos,
    {
        Timestamp { seconds: self.seconds + hours * 3600, nanos: self.nanos }
    }
}

// ==================== Billing months ====================

/// A calendar month, the period that charges are billed in.
#[derive(Clone, Copy, PartialEq, Eq, Structural, Debug)]
pub struct BillingPeriod {
    pub year: i32,
    pub month: u32,
}

/// The month an instant falls in.
pub open spec fn period_of(at: Timestamp) -> BillingPeriod {
    BillingPeriod { year: at.on().year, month: at.on().month }
}

impl BillingPeriod {
    pub open spec fn valid(self) -> bool {
        -262143 <= self.year <= 262142 && 1 <= self.month <= 12
    }

    /// The number of the month, counted through the years.
    pub open spec fn index(self) -> int {
        self.year * 12 + self.month - 1
    }

    /// The period's label.
    pub open spec fn text(self) -> Seq<char> {
        month_label(self.year as int, self.month as int)
    }

    /// The first day of the period.
    pub open spec fn first_day(self) -> Date {
        Date { year: self.year, month: self.month, day: 1 }
    }

    /// `date` lies in the period.
    pub open spec fn holds(self, date: Date) -> bool {
        date.year == self.year && date.month == self.month
    }

    /// The period an instant falls in.
    pub fn containing(at: Timestamp) -> (res: BillingPeriod)
        requires
            at.valid(),
        ensures
            res.valid(),
            res.first_day().valid(),
            res == period_of(at),
            res.holds(at.on()),
            res.first_day().number() <= at.day(),
    {
        let date = at.date();
        let res = BillingPeriod { year: date.year, month: date.month };
        proof {
            if res.first_day() != date {
                day_numbers_follow_the_calendar(res.first_day(), date);
            }
        }
        res
    }

    /// `YYYY-MM`, the label the ledger stores the period under.
    pub fn label(self) -> (res: String)
        requires
            self.valid(),
        ensures
            res@ == self.text(),
    {
        self.start().month_label()
    }

    /// The first day of the period.
    pub fn start(self) -> (res: Date)
        requires
            self.valid(),
        ensures
            res.valid(),
            res == self.first_day(),
    {
        Date { year: self.year, month: self.month, day: 1 }
    }

    /// The month with a number.
    pub open spec fn at(index: int) -> BillingPeriod {
        BillingPeriod { year: (index / 12) as i32, month: (index % 12 + 1) as u32 }
    }

    /// A month is the one with its number.
    pub proof fn lemma_at(self)
        requires
            self.valid(),
        ensures
            BillingPeriod::at(self.index()) == self,
    {
    }

    /// The month before.
    pub fn previous(self) -> (res: BillingPeriod)
        requires
            self.valid(),
            self.index() > -262143 * 12,
        ensures
            res.valid(),
            res.index() == self.index() - 1,
            res == BillingPeriod::at(self.index() - 1),
    {
        let res = if self.month == 1 {
            BillingPeriod { year: self.year - 1, month: 12 }
        } else {
            BillingPeriod { year: self.year, month: self.month - 1 }
        };
        proof {
            res.lemma_at();
        }
        res
    }

    /// The month `count` months before.
    pub fn months_back(self, count: u32) -> (res: BillingPeriod)
        requires
            self.valid(),
            self.index() - count >= -262143 * 12,
        ensures
            res.valid(),
            res.index() == self.index() - count,
            res == BillingPeriod::at(self.index() - count),
    {
        let mut period = self;
        let mut i: u32 = 0;
        while i < count
            invariant
                i <= count,
                period.valid(),
                period.index() == self.index() - i,
                self.index() - count >= -262143 * 12,
            decreases count - i,
        {
            period = period.previous();
            i = i + 1;
        }
        proof {
            period.lemma_at();
        }
        period
    }
}

// ==================== Labels order like the days they name ====================

proof fn lemma_two_digits(n: nat)
    requires
        n < 100,
    ensures
        text::padded(n, 2) == seq![text::digit(n / 10), text::digit(n % 10)],
{
    reveal_with_fuel(text::decimal, 3);
    reveal_with_fuel(text::zeros, 3);
    assert(text::padded(n, 2) =~= seq![text::digit(n / 10), text::digit(n % 10)]);
}

proof fn lemma_four_digits(n: nat)
    requires
        n < 10_000,
    ensures
        text::padded(n, 4) == seq![
            text::digit(n / 1000),
            text::digit(n / 100 % 10),
            text::digit(n / 10 % 10),
            text::digit(n % 10),
        ],
{
    reveal_with_fuel(text::decimal, 5);
    reveal_with_fuel(text::zeros, 5);
    assert(text::padded(n, 4) =~= seq![
        text::digit(n / 1000),
        text::digit(n / 100 % 10),
        text::digit(n / 10 % 10),
        text::digit(n % 10),
    ]);
}

/// The characters of a day label in the years 0 to 9999.
spec fn label_chars(date: Date) -> Seq<char> {
    let y = date.year as nat;
    let m = date.month as nat;
    let d = date.day as nat;
    seq![
        text::digit(y / 1000),
        text::digit(y / 100 % 10),
        text::digit(y / 10 % 10),
        text::digit(y % 10),
        '-',
        text::digit(m / 10),
        text::digit(m % 10),
        '-',
        text::digit(d / 10),
        text::digit(d % 10),
    ]
}

proof fn lemma_label_chars(date: Date)
    requires
        date.valid(),
        0 <= date.year <= 9999,
    ensures
        day_label(date) == label_chars(date),
        vstd::utf8::is_ascii_chars(day_label(date)),
{
    lemma_two_digits(date.month as nat);
    lemma_two_digits(date.day as nat);
    lemma_four_digits(date.year as nat);
    reveal_strlit("-");
    assert("-"@ =~= seq!['-']);
    assert(day_label(date) =~= label_chars(date));
}

proof fn lemma_label_lt(a: Date, b: Date)
    requires
        a.valid(),
        b.valid(),
        0 <= a.year <= 9999,
        0 <= b.year <= 9999,
        a.before(b),
    ensures
        order::text_lt(day_label(a), day_label(b)),
{
    lemma_label_chars(a);
    lemma_label_chars(b);
    vstd::utf8::is_ascii_chars_encode_utf8(day_label(a));
    vstd::utf8::is_ascii_chars_encode_utf8(day_label(b));
    let x = vstd::utf8::encode_utf8(day_label(a));
    let y = vstd::utf8::encode_utf8(day_label(b));
    lemma_label_bytes(a, x);
    lemma_label_bytes(b, y);
    lemma_digits_decide(a.year as int, b.year as int);
    lemma_last_digit_decides(a.month as int, b.month as int);
    lemma_last_digit_decides(a.day as int, b.day as int);
    lemma_first_difference(x, y);
}

/// Of two ten-byte labels with the same separators, the one that is smaller at
/// the first differing digit is the smaller.
proof fn lemma_first_difference(x: Seq<u8>, y: Seq<u8>)
    requires
        x.len() == 10,
        y.len() == 10,
        x[4] == y[4],
        x[7] == y[7],
        if x[0] != y[0] {
            x[0] < y[0]
        } else if x[1] != y[1] {
            x[1] < y[1]
        } else if x[2] != y[2] {
            x[2] < y[2]
        } else if x[3] != y[3] {
            x[3] < y[3]
        } else if x[5] != y[5] {
            x[5] < y[5]
        } else if x[6] != y[6] {
            x[6] < y[6]
        } else if x[8] != y[8] {
            x[8] < y[8]
        } else {
            x[9] < y[9]
        },
    ensures
        order::bytes_lt(x, y),
{
    let k: int = if x[0] != y[0] {
        0
    } else if x[1] != y[1] {
        1
    } else if x[2] != y[2] {
        2
    } else if x[3] != y[3] {
        3
    } else if x[5] != y[5] {
        5
    } else if x[6] != y[6] {
        6
    } else if x[8] != y[8] {
        8
    } else {
        9
    };
    assert(order::splits_at(x, y, k));
}

proof fn lemma_digit_byte(d: nat)
    requires
        d < 10,
    ensures
        text::digit(d) as u8 == 48 + d,
{
}

/// The bytes of a day label, digit by digit.
proof fn lemma_label_bytes(date: Date, bytes: Seq<u8>)
    requires
        date.valid(),
        0 <= date.year <= 9999,
        bytes.len() == day_label(date).len(),
        forall|i: int| 0 <= i < bytes.len() ==> #[trigger] bytes[i] == day_label(date)[i] as u8,
    ensures
        bytes.len() == 10,
        bytes[0] == 48 + date.year / 1000,
        bytes[1] == 48 + date.year / 100 % 10,
        bytes[2] == 48 + date.year / 10 % 10,
        bytes[3] == 48 + date.year % 10,
        bytes[4] == 45,
        bytes[5] == 48 + date.month / 10,
        bytes[6] == 48 + date.month % 10,
        bytes[7] == 45,
        bytes[8] == 48 + date.day / 10,
        bytes[9] == 48 + date.day % 10,
{
    lemma_label_chars(date);
    let y = date.year as nat;
    let m = date.month as nat;
    let d = date.day as nat;
    lemma_digit_byte(y / 1000);
    lemma_digit_byte(y / 100 % 10);
    lemma_digit_byte(y / 10 % 10);
    lemma_digit_byte(y % 10);
    lemma_digit_byte(m / 10);
    lemma_digit_byte(m % 10);
    lemma_digit_byte(d / 10);
    lemma_digit_byte(d % 10);
}

proof fn lemma_digits_decide(a: int, b: int)
    requires
        0 <= a <= 9999,
        0 <= b <= 9999,
    ensures
        a / 1000 == b / 1000 && a / 100 % 10 == b / 100 % 10 && a / 10 % 10 == b / 10 % 10 && a % 10
            == b % 10 ==> a == b,
        a < b ==> {
            if a / 1000 != b / 1000 {
                a / 1000 < b / 1000
            } else if a / 100 % 10 != b / 100 % 10 {
                a / 100 % 10 < b / 100 % 10
            } else if a / 10 % 10 != b / 10 % 10 {
                a / 10 % 10 < b / 10 % 10
            } else {
                a % 10 < b % 10
            }
        },
{
    assert(a / 10 / 10 == a / 100 && b / 10 / 10 == b / 100);
    assert(a / 100 / 10 == a / 1000 && b / 100 / 10 == b / 1000);
    lemma_last_digit_decides(a, b);
    lemma_last_digit_decides(a / 10, b / 10);
    lemma_last_digit_decides(a / 100, b / 100);
}

proof fn lemma_last_digit_decides(a: int, b: int)
    ensures
        a / 10 == b / 10 && a % 10 == b % 10 ==> a == b,
        a < b ==> a / 10 < b / 10 || (a / 10 == b / 10 && a % 10 < b % 10),
{
}

/// In the years 0 to 9999 the labels of days order as the days do, so a list
/// in label order is a list from the oldest day to the newest.
pub proof fn day_labels_order_by_date(a: Date, b: Date)
    requires
        a.valid(),
        b.valid(),
        0 <= a.year <= 9999,
        0 <= b.year <= 9999,
    ensures
        order::text_lt(day_label(a), day_label(b)) <==> a.number() < b.number(),
        day_label(a) == day_label(b) <==> a == b,
{
    day_numbers_follow_the_calendar(a, b);
    day_numbers_follow_the_calendar(b, a);
    if a.before(b) {
        lemma_label_lt(a, b);
        order::lemma_bytes_lt_asymmetric(
            vstd::utf8::encode_utf8(day_label(a)),
            vstd::utf8::encode_utf8(day_label(b)),
        );
    } else if b.before(a) {
        lemma_label_lt(b, a);
        order::lemma_bytes_lt_asymmetric(
            vstd::utf8::encode_utf8(day_label(b)),
            vstd::utf8::encode_utf8(day_label(a)),
        );
    } else {
        assert(a == b);
        if order::text_lt(day_label(a), day_label(b)) {
            order::lemma_bytes_lt_asymmetric(
                vstd::utf8::encode_utf8(day_label(a)),
                vstd::utf8::encode_utf8(day_label(b)),
            );
        }
    }
}

/// In the years 0 to 9999 the label of a day is ten bytes long, begins with the
/// label of its own month and of no other, and ends in the two digits of the day.
pub proof fn a_day_label_tells_month_and_day(date: Date, year: int, month: int)
    requires
        date.valid(),
        0 <= date.year <= 9999,
        0 <= year <= 9999,
        1 <= month <= 12,
    ensures
        text::begins_with(day_label(date), month_label(year, month)) <==> date.year == year
            && date.month == month,
        vstd::utf8::encode_utf8(day_label(date)).len() == 10,
        vstd::utf8::encode_utf8(day_label(date))[8] == 48 + date.day / 10,
        vstd::utf8::encode_utf8(day_label(date))[9] == 48 + date.day % 10,
{
    let other = Date { year: year as i32, month: month as u32, day: 1 };
    lemma_label_chars(date);
    lemma_label_chars(other);
    vstd::utf8::is_ascii_chars_encode_utf8(day_label(date));
    vstd::utf8::is_ascii_chars_encode_utf8(day_label(other));
    let x = vstd::utf8::encode_utf8(day_label(date));
    let y = vstd::utf8::encode_utf8(day_label(other));
    lemma_label_bytes(date, x);
    lemma_label_bytes(other, y);
    lemma_two_digits(month as nat);
    lemma_four_digits(year as nat);
    reveal_strlit("-");
    assert("-"@ =~= seq!['-']);
    let prefix = month_label(year, month);
    assert(prefix.len() == 7);
    assert(day_label(other).take(7) =~= prefix);
    assert(day_label(date).len() == 10);
    let head = day_label(date).take(7);
    if head == prefix {
        assert forall|i: int| 0 <= i < 7 implies x[i] == y[i] by {
            assert(head[i] == prefix[i]);
            assert(day_label(date)[i] == head[i]);
            assert(day_label(other)[i] == day_label(other).take(7)[i]);
            assert(x[i] == day_label(date)[i] as u8);
            assert(y[i] == day_label(other)[i] as u8);
        }
        assert(x[0] == y[0] && x[1] == y[1] && x[2] == y[2] && x[3] == y[3] && x[5] == y[5]
            && x[6] == y[6]);
        lemma_digits_decide(date.year as int, year);
        lemma_last_digit_decides(date.month as int, month);
    }
    if date.year == year && date.month == month {
        assert(head =~= prefix);
    }
}

/// A month has as many days as its calendar says: the first day of the next month
/// is that many days after its own.
pub proof fn a_month_has_its_days(year: int, month: int)
    requires
        -262143 <= year <= 262142,
        1 <= month <= 12,
    ensures
        ({
            let first = Date { year: year as i32, month: month as u32, day: 1 };
            let next = if month < 12 {
                Date { year: year as i32, month: (month + 1) as u32, day: 1 }
            } else {
                Date { year: (year + 1) as i32, month: 1, day: 1 }
            };
            next.number() == first.number() + days_in_month(year, month)
        }),
        days_in_month(year, month) == (if month == 2 && year % 4 == 0 && (year % 100 != 0 || year
            % 400 == 0) {
            29
        } else if month == 2 {
            28
        } else if month == 4 || month == 6 || month == 9 || month == 11 {
            30
        } else {
            31int
        }),
{
    reveal_with_fuel(days_before_month, 14);
    lemma_next_year(year);
    lemma_months(year, 1, 13);
}

} // verus!
