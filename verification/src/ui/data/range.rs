//! The range a page looks at.
use vstd::prelude::*;

use crate::calendar;
use crate::calendar::{BillingPeriod, Timestamp, SECONDS_PER_DAY};
use crate::text;

verus! {

/// A half-open charge-time window `[since, until)`.
pub type Window = (Timestamp, Timestamp);

/// The month to date, the rolling last 30 days, or the last 12 calendar months.
#[derive(Clone, Copy, PartialEq, Eq, Structural, Debug)]
pub enum Range {
    Mtd,
    Days30,
    Months12,
}

/// The instant a day begins at.
pub open spec fn midnight_of(day: int) -> Timestamp {
    Timestamp { seconds: (day * SECONDS_PER_DAY) as i64, nanos: 0 }
}

/// The instant a month begins at.
pub open spec fn month_start(period: BillingPeriod) -> Timestamp {
    midnight_of(period.first_day().number())
}

impl Range {
    pub open spec fn short(self) -> Seq<char> {
        match self {
            Range::Mtd => "MTD"@,
            Range::Days30 => "30d"@,
            Range::Months12 => "12m"@,
        }
    }

    pub fn label(self) -> (res: &'static str)
        ensures
            res@ == self.short(),
    {
        match self {
            Range::Mtd => "MTD",
            Range::Days30 => "30d",
            Range::Months12 => "12m",
        }
    }

    pub fn id(self) -> (res: &'static str)
        ensures
            res@ == (match self {
                Range::Mtd => "range-mtd"@,
                Range::Days30 => "range-30d"@,
                Range::Months12 => "range-12m"@,
            }),
    {
        match self {
            Range::Mtd => "range-mtd",
            Range::Days30 => "range-30d",
            Range::Months12 => "range-12m",
        }
    }

    /// Every range, in the order the control shows them.
    pub fn all() -> (res: Vec<Range>)
        ensures
            res@ == seq![Range::Mtd, Range::Days30, Range::Months12],
    {
        let mut res: Vec<Range> = Vec::new();
        res.push(Range::Mtd);
        res.push(Range::Days30);
        res.push(Range::Months12);
        proof {
            assert(res@ =~= seq![Range::Mtd, Range::Days30, Range::Months12]);
        }
        res
    }

    /// The calendar reaches as far back as the range looks.
    pub open spec fn reaches(self, now: Timestamp) -> bool {
        &&& now.valid()
        &&& match self {
            Range::Mtd => calendar::period_of(now).index() > -262143 * 12,
            Range::Days30 => (now.day() - 59) * SECONDS_PER_DAY >= calendar::MIN_SECONDS,
            Range::Months12 => calendar::period_of(now).index() - 23 >= -262143 * 12,
        }
    }

    /// The window the range covers, up to now.
    pub open spec fn window(self, now: Timestamp) -> Window {
        (
            match self {
                Range::Mtd => month_start(calendar::period_of(now)),
                Range::Days30 => midnight_of(now.day() - 29),
                Range::Months12 => month_start(
                    BillingPeriod::at(calendar::period_of(now).index() - 11),
                ),
            },
            now,
        )
    }

    /// The window right before, that changes compare against.
    pub open spec fn prior_window(self, now: Timestamp) -> Window {
        (
            match self {
                Range::Mtd => month_start(
                    BillingPeriod::at(calendar::period_of(now).index() - 1),
                ),
                Range::Days30 => midnight_of(now.day() - 59),
                Range::Months12 => month_start(
                    BillingPeriod::at(calendar::period_of(now).index() - 23),
                ),
            },
            self.window(now).0,
        )
    }

    /// The window `[since, until)` the range covers, and the window right before
    /// it that change percents compare against. The rolling ranges align to
    /// calendar boundaries so that a chart's day and month buckets fill the
    /// window exactly.
    pub fn windows(self, now: Timestamp) -> (res: (Window, Window))
        requires
            self.reaches(now),
        ensures
            res.0 == self.window(now),
            res.1 == self.prior_window(now),
            res.0.0.valid(),
            res.1.0.valid(),
    {
        let current = BillingPeriod::containing(now);
        match self {
            Range::Mtd => {
                let since = current.start().midnight();
                let prior = current.previous().start().midnight();
                ((since, now), (prior, since))
            },
            Range::Days30 => {
                // Today plus the 29 before it: 30 day buckets, ending now.
                let today = now.date();
                let since = today.plus_days(-29).midnight();
                let prior = Timestamp {
                    seconds: since.seconds - 30 * SECONDS_PER_DAY,
                    nanos: since.nanos,
                };
                ((since, now), (prior, since))
            },
            Range::Months12 => {
                let first = current.months_back(11);
                let prior_first = first.months_back(12);
                let since = first.start().midnight();
                let prior = prior_first.start().midnight();
                ((since, now), (prior, since))
            },
        }
    }

    /// How many days or months the mean of a rolling range spreads its usage over.
    pub fn mean_spread(self) -> (res: u32)
        requires
            self != Range::Mtd,
        ensures
            res == (if self == Range::Months12 {
                12u32
            } else {
                30u32
            }),
    {
        match self {
            Range::Months12 => 12,
            _ => 30,
        }
    }

    /// What a page's header says of the range.
    pub open spec fn caption(self, now: Timestamp) -> Seq<char> {
        match self {
            Range::Mtd => calendar::month_name(now.on().month as int) + " "@
                + calendar::year_text(now.on().year as int) + ", month to date"@,
            Range::Days30 => "Last 30 days"@,
            Range::Months12 => "Last 12 months"@,
        }
    }

    /// The header caption's range part, such as "September 2026, month to
    /// date".
    pub fn header_caption(self, now: Timestamp) -> (res: String)
        requires
            now.valid(),
        ensures
            res@ == self.caption(now),
    {
        match self {
            Range::Mtd => text::concat2(&now.date().month_caption(), ", month to date"),
            Range::Days30 => "Last 30 days".to_owned(),
            Range::Months12 => "Last 12 months".to_owned(),
        }
    }
}

/// A range's two windows lie end to end: the one before ends where the range
/// begins, and it does begin earlier.
pub proof fn windows_are_adjacent(range: Range, now: Timestamp)
    requires
        range.reaches(now),
    ensures
        range.prior_window(now).1 == range.window(now).0,
        range.prior_window(now).0.before(range.prior_window(now).1),
        !range.window(now).1.before(range.window(now).0),
{
    let current = calendar::period_of(now);
    lemma_today(now);
    match range {
        Range::Mtd => {
            let prior = BillingPeriod::at(current.index() - 1);
            lemma_month_start(current);
            lemma_month_start(prior);
            calendar::day_numbers_follow_the_calendar(prior.first_day(), current.first_day());
        },
        Range::Days30 => {
            lemma_midnight(now.day() - 29, now);
            lemma_midnight(now.day() - 59, now);
        },
        Range::Months12 => {
            let first = BillingPeriod::at(current.index() - 11);
            let prior = BillingPeriod::at(current.index() - 23);
            lemma_month_start(first);
            lemma_month_start(prior);
            calendar::day_numbers_follow_the_calendar(prior.first_day(), first.first_day());
            calendar::day_numbers_follow_the_calendar(first.first_day(), current.first_day());
            lemma_month_start(current);
        },
    }
}

proof fn lemma_midnight(day: int, now: Timestamp)
    requires
        now.valid(),
        day <= now.day(),
        day * SECONDS_PER_DAY >= calendar::MIN_SECONDS,
    ensures
        midnight_of(day).seconds == day * SECONDS_PER_DAY,
{
}

proof fn lemma_month_start(period: BillingPeriod)
    requires
        period.valid(),
    ensures
        month_start(period).seconds == period.first_day().number() * SECONDS_PER_DAY,
{
    calendar::lemma_number_range(period.first_day());
}

proof fn lemma_today(now: Timestamp)
    requires
        now.valid(),
    ensures
        now.on().valid(),
        now.on().number() == now.day(),
        calendar::period_of(now).valid(),
        calendar::period_of(now).first_day().number() <= now.day(),
{
    calendar::lemma_day_exists(now);
    let today = now.on();
    let first = calendar::period_of(now).first_day();
    if first != today {
        calendar::day_numbers_follow_the_calendar(first, today);
    }
}

} // verus!
