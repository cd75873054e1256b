//! The series behind the charts: days and months of usage.
use vstd::prelude::*;

use super::change;
use super::change::find_last;
use crate::amount::Amount;
use crate::calendar;
use crate::calendar::{BillingPeriod, Date, Timestamp};
use crate::list;

verus! {

/// One point of a chart.
#[derive(Debug)]
pub struct ChartPoint {
    /// `YYYY-MM-DD` for a day, `YYYY-MM` for a month.
    pub label: String,
    /// Gross usage in the reporting currency.
    pub amount: Amount,
}

impl Clone for ChartPoint {
    fn clone(&self) -> (res: Self)
        ensures
            res == *self,
    {
        ChartPoint {
            label: self.label.clone(),
            amount: self.amount,
        }
    }
}

/// A chart: usage, and the trailing mean it is read against. A chart without a
/// baseline leaves it empty.
#[derive(Debug)]
pub struct SpendChart {
    pub actual: Vec<ChartPoint>,
    /// The mean of the days before each point.
    pub baseline: Vec<ChartPoint>,
}

// ==================== Usage by day ====================

/// The day a label names.
pub open spec fn day_named(label: Seq<char>) -> Option<Date> {
    match calendar::parsed_day(label) {
        Some((year, month, day)) => Some(
            Date { year: year as i32, month: month as u32, day: day as u32 },
        ),
        None => None,
    }
}

/// Being a day's amount.
pub open spec fn on_day(date: Date) -> spec_fn((Date, Amount)) -> bool {
    |row: (Date, Amount)| row.0 == date
}

/// Rows by day: a row whose label names no day is dropped, and a later row of a
/// day replaces an earlier one.
pub open spec fn days_of(rows: Seq<(String, Amount)>) -> Seq<(Date, Amount)>
    decreases rows.len(),
{
    if rows.len() == 0 {
        Seq::empty()
    } else {
        let before = days_of(rows.drop_last());
        match day_named(rows.last().0@) {
            Some(date) => list::upserted(before, on_day(date), (date, rows.last().1)),
            None => before,
        }
    }
}

/// What a day used, if anything is known of it.
pub open spec fn amount_on(days: Seq<(Date, Amount)>, date: Date) -> Option<Amount> {
    match list::first_index(days, on_day(date)) {
        Some(i) => Some(days[i].1),
        None => None,
    }
}

/// Something is known of a day just where the label of some row names it.
pub proof fn a_day_is_known_where_a_row_names_it(rows: Seq<(String, Amount)>, date: Date)
    ensures
        amount_on(days_of(rows), date) is Some <==> exists|r: int|
            0 <= r < rows.len() && day_named((#[trigger] rows[r]).0@) == Some(date),
    decreases rows.len(),
{
    list::first_index_is_first(days_of(rows), on_day(date));
    if rows.len() > 0 {
        let fewer = rows.drop_last();
        let before = days_of(fewer);
        let after = days_of(rows);
        let last = rows.len() - 1;
        a_day_is_known_where_a_row_names_it(fewer, date);
        list::first_index_is_first(before, on_day(date));
        if exists|r: int| 0 <= r < fewer.len() && day_named((#[trigger] fewer[r]).0@) == Some(date) {
            let r = choose|r: int|
                0 <= r < fewer.len() && day_named((#[trigger] fewer[r]).0@) == Some(date);
            assert(day_named(rows[r].0@) == Some(date));
        }
        if exists|r: int| 0 <= r < rows.len() && day_named((#[trigger] rows[r]).0@) == Some(date) {
            let r = choose|r: int|
                0 <= r < rows.len() && day_named((#[trigger] rows[r]).0@) == Some(date);
            if r < last {
                assert(day_named(fewer[r].0@) == Some(date));
            }
        }
        match day_named(rows[last].0@) {
            Some(named) => {
                list::first_index_is_first(before, on_day(named));
                match list::first_index(before, on_day(named)) {
                    Some(at) => {
                        if named == date {
                            assert(on_day(date)(after[at]));
                        } else {
                            assert(!on_day(date)(before[at]));
                            assert(!on_day(date)(after[at]));
                            match list::first_index(before, on_day(date)) {
                                Some(k) => {
                                    assert(after[k] == before[k]);
                                },
                                None => {
                                    assert forall|k: int| 0 <= k < after.len() implies !on_day(
                                        date,
                                    )(#[trigger] after[k]) by {
                                        if k != at {
                                            assert(!on_day(date)(before[k]));
                                        }
                                    }
                                },
                            }
                        }
                    },
                    None => {
                        if named == date {
                            assert(on_day(date)(after[before.len() as int]));
                        } else {
                            assert(!on_day(date)(after[before.len() as int]));
                            match list::first_index(before, on_day(date)) {
                                Some(k) => {
                                    assert(after[k] == before[k]);
                                },
                                None => {
                                    assert forall|k: int| 0 <= k < after.len() implies !on_day(
                                        date,
                                    )(#[trigger] after[k]) by {
                                        if k < before.len() {
                                            assert(!on_day(date)(before[k]));
                                        }
                                    }
                                },
                            }
                        }
                    },
                }
            },
            None => {},
        }
    }
}

/// Rows keyed by the day their label names. A row that names none is dropped
/// rather than failing the chart.
pub fn daily_map(rows: &Vec<(String, Amount)>) -> (res: Vec<(Date, Amount)>)
    ensures
        res@ == days_of(rows@),
        forall|i: int| 0 <= i < res@.len() ==> (#[trigger] res@[i]).0.valid(),
{
    let mut days: Vec<(Date, Amount)> = Vec::new();
    let mut i: usize = 0;
    while i < rows.len()
        invariant
            i <= rows.len(),
            days@ == days_of(rows@.take(i as int)),
            forall|k: int| 0 <= k < days@.len() ==> (#[trigger] days@[k]).0.valid(),
        decreases rows.len() - i,
    {
        proof {
            assert(rows@.take(i + 1).drop_last() =~= rows@.take(i as int));
            assert(rows@.take(i + 1).last() == rows@[i as int]);
        }
        if let Some(date) = Date::parse(&rows[i].0) {
            let ghost before = days@;
            let accepts = |row: &(Date, Amount)| -> (b: bool)
                ensures
                    b == (row.0 == date)
            { row.0 == date };
            list::upsert(&mut days, (date, rows[i].1), accepts, Ghost(on_day(date)));
            proof {
                assert(day_named(rows@[i as int].0@) == Some(date));
                list::first_index_is_first(before, on_day(date));
            }
        }
        i = i + 1;
    }
    proof {
        assert(rows@.take(i as int) =~= rows@);
    }
    days
}

/// A day is listed once, with what the last row that names it says, and a day
/// that no row names is not listed.
pub proof fn a_later_row_replaces_an_earlier(rows: Seq<(String, Amount)>, date: Date)
    ensures
        match amount_on(days_of(rows), date) {
            Some(amount) => exists|i: int|
                {
                    &&& 0 <= i < rows.len()
                    &&& day_named((#[trigger] rows[i]).0@) == Some(date)
                    &&& rows[i].1 == amount
                    &&& forall|j: int|
                        i < j < rows.len() ==> day_named((#[trigger] rows[j]).0@) != Some(date)
                },
            None => forall|i: int|
                0 <= i < rows.len() ==> day_named((#[trigger] rows[i]).0@) != Some(date),
        },
    decreases rows.len(),
{
    if rows.len() > 0 {
        let rest = rows.drop_last();
        a_later_row_replaces_an_earlier(rest, date);
        let before = days_of(rest);
        let after = days_of(rows);
        list::first_index_is_first(before, on_day(date));
        list::first_index_is_first(after, on_day(date));
        let last = rows.len() - 1;
        match day_named(rows.last().0@) {
            Some(day) => {
                list::first_index_is_first(before, on_day(day));
                if day == date {
                    match list::first_index(before, on_day(date)) {
                        Some(i) => {
                            assert(after[i] == (date, rows.last().1));
                            let k = list::first_index(after, on_day(date))->0;
                            if k < i {
                                assert(after[k] == before[k]);
                            }
                            assert(!(i < k)) by {
                                if i < k {
                                    assert(!on_day(date)(after[i]));
                                }
                            }
                        },
                        None => {
                            let k = list::first_index(after, on_day(date))->0;
                            assert(on_day(date)(after[before.len() as int]));
                            if k < before.len() {
                                assert(after[k] == before[k]);
                            }
                        },
                    }
                    assert(amount_on(after, date) == Some(rows.last().1));
                    assert(rows[last].1 == rows.last().1);
                } else {
                    lemma_other_day(before, after, day, date, rows.last().1);
                    lemma_rest(rows, date);
                }
            },
            None => {
                lemma_rest(rows, date);
            },
        }
    }
}

/// Replacing one day leaves another as it is.
proof fn lemma_other_day(
    before: Seq<(Date, Amount)>,
    after: Seq<(Date, Amount)>,
    day: Date,
    date: Date,
    amount: Amount,
)
    requires
        day != date,
        after == list::upserted(before, on_day(day), (day, amount)),
    ensures
        amount_on(after, date) == amount_on(before, date),
{
    list::first_index_is_first(before, on_day(day));
    list::first_index_is_first(before, on_day(date));
    list::first_index_is_first(after, on_day(date));
    match list::first_index(after, on_day(date)) {
        Some(k) => {
            assert(after[k].0 == date);
            assert(k < before.len() && before[k] == after[k]) by {
                match list::first_index(before, on_day(day)) {
                    Some(i) => {
                        assert(after[i].0 == day);
                    },
                    None => {
                        assert(after[before.len() as int].0 == day);
                    },
                }
            }
            let m = list::first_index(before, on_day(date));
            assert(on_day(date)(before[k]));
            assert(m is Some);
            if m->0 < k {
                assert(before[m->0].0 == date);
                assert(after[m->0] == before[m->0]);
                assert(!on_day(date)(after[m->0]));
            }
            if k < m->0 {
                assert(!on_day(date)(before[k]));
            }
        },
        None => {
            match list::first_index(before, on_day(date)) {
                Some(m) => {
                    assert(before[m].0 == date);
                    assert(after[m] == before[m]);
                    assert(!on_day(date)(after[m]));
                },
                None => {},
            }
        },
    }
}

/// What holds of all rows but the last holds of all where the last names
/// another day.
proof fn lemma_rest(rows: Seq<(String, Amount)>, date: Date)
    requires
        rows.len() > 0,
        day_named(rows.last().0@) != Some(date),
        amount_on(days_of(rows), date) == amount_on(days_of(rows.drop_last()), date),
        match amount_on(days_of(rows.drop_last()), date) {
            Some(amount) => exists|i: int|
                {
                    &&& 0 <= i < rows.drop_last().len()
                    &&& day_named((#[trigger] rows.drop_last()[i]).0@) == Some(date)
                    &&& rows.drop_last()[i].1 == amount
                    &&& forall|j: int|
                        i < j < rows.drop_last().len() ==> day_named(
                            (#[trigger] rows.drop_last()[j]).0@,
                        ) != Some(date)
                },
            None => forall|i: int|
                0 <= i < rows.drop_last().len() ==> day_named(
                    (#[trigger] rows.drop_last()[i]).0@,
                ) != Some(date),
        },
    ensures
        match amount_on(days_of(rows), date) {
            Some(amount) => exists|i: int|
                {
                    &&& 0 <= i < rows.len()
                    &&& day_named((#[trigger] rows[i]).0@) == Some(date)
                    &&& rows[i].1 == amount
                    &&& forall|j: int|
                        i < j < rows.len() ==> day_named((#[trigger] rows[j]).0@) != Some(date)
                },
            None => forall|i: int|
                0 <= i < rows.len() ==> day_named((#[trigger] rows[i]).0@) != Some(date),
        },
{
    let rest = rows.drop_last();
    match amount_on(days_of(rows), date) {
        Some(amount) => {
            let i = choose|i: int|
                {
                    &&& 0 <= i < rest.len()
                    &&& day_named((#[trigger] rest[i]).0@) == Some(date)
                    &&& rest[i].1 == amount
                    &&& forall|j: int|
                        i < j < rest.len() ==> day_named((#[trigger] rest[j]).0@) != Some(date)
                };
            assert(rows[i] == rest[i]);
            assert forall|j: int| i < j < rows.len() implies day_named((#[trigger] rows[j]).0@)
                != Some(date) by {
                if j < rest.len() {
                    assert(rest[j] == rows[j]);
                }
            }
        },
        None => {
            assert forall|i: int| 0 <= i < rows.len() implies day_named((#[trigger] rows[i]).0@)
                != Some(date) by {
                if i < rest.len() {
                    assert(rest[i] == rows[i]);
                }
            }
        },
    }
}

/// What a day used, if anything is known of it.
pub fn usage_on(days: &Vec<(Date, Amount)>, date: Date) -> (res: Option<Amount>)
    ensures
        res == amount_on(days@, date),
{
    let accepts = |row: &(Date, Amount)| -> (b: bool)
        ensures
            b == (row.0 == date)
    { row.0 == date };
    match list::position(days, accepts, Ghost(on_day(date))) {
        Some(i) => Some(days[i].1),
        None => None,
    }
}

// ==================== Days of a window ====================

/// How many days a series has that runs from the day of one instant to that of
/// another, both included.
pub open spec fn day_count(since: Timestamp, until: Timestamp) -> nat {
    if since.day() <= until.day() {
        (until.day() - since.day() + 1) as nat
    } else {
        0
    }
}

/// The days from the day of one instant to that of another, both included.
pub fn series_days(since: Timestamp, until: Timestamp) -> (res: Vec<Date>)
    requires
        since.valid(),
        until.valid(),
    ensures
        res@.len() == day_count(since, until),
        forall|i: int|
            #![trigger res@[i]]
            0 <= i < res@.len() ==> res@[i].valid() && res@[i] == calendar::civil(
                since.day() + i,
            ),
{
    let first = since.date();
    let last = until.date();
    let mut days: Vec<Date> = Vec::new();
    let mut offset: i64 = 0;
    let mut day = first;
    let mut more: bool = !last.earlier_than(first);
    proof {
        calendar::lemma_number_range(first);
        calendar::lemma_number_range(last);
        lemma_later(first, last);
    }
    while more
        invariant
            0 <= offset <= 200_000_000,
            first.valid(),
            last.valid(),
            first.number() == since.day(),
            last.number() == until.day(),
            calendar::MIN_SECONDS <= first.number() * calendar::SECONDS_PER_DAY,
            last.number() * calendar::SECONDS_PER_DAY <= calendar::MAX_SECONDS,
            days@.len() == offset,
            more ==> day.valid() && day.number() == first.number() + offset && day.number()
                <= last.number(),
            !more ==> first.number() + offset > last.number() && (first.number() <= last.number()
                ==> first.number() + offset == last.number() + 1) && (first.number()
                > last.number() ==> offset == 0),
            forall|i: int|
                #![trigger days@[i]]
                0 <= i < days@.len() ==> days@[i].valid() && days@[i].number() == first.number() + i,
        decreases (if more { last.number() - first.number() - offset + 1 } else { 0 }),
    {
        days.push(day);
        proof {
            calendar::lemma_number_range(day);
            lemma_later(day, last);
        }
        offset = offset + 1;
        if day.earlier_than(last) {
            day = first.plus_days(offset);
        } else {
            more = false;
        }
    }
    proof {
        assert forall|i: int|
            #![trigger days@[i]]
            0 <= i < days@.len() implies days@[i].valid() && days@[i] == calendar::civil(
            since.day() + i,
        ) by {
            calendar::lemma_civil(days@[i]);
        }
    }
    days
}

/// Days compare as their numbers do.
proof fn lemma_later(a: Date, b: Date)
    requires
        a.valid(),
        b.valid(),
    ensures
        a.before(b) <==> a.number() < b.number(),
        b.before(a) <==> b.number() < a.number(),
{
    calendar::day_numbers_follow_the_calendar(a, b);
    calendar::day_numbers_follow_the_calendar(b, a);
}

/// The point of a day: what it used, nothing where nothing is known of it.
pub open spec fn is_day_point(point: ChartPoint, day: Date, days: Seq<(Date, Amount)>) -> bool {
    &&& point.label@ == calendar::day_label(day)
    &&& point.amount == (match amount_on(days, day) {
        Some(amount) => amount,
        None => Amount { bits: 0 },
    })
}

/// A point of the baseline.
pub open spec fn is_mean_point(point: ChartPoint, day: Date, mean: Amount) -> bool {
    point.label@ == calendar::day_label(day) && point.amount == mean
}

/// A daily series from the day of `since` to that of `until`: one point per day,
/// zero where nothing is known of it. `means` holds the trailing mean before
/// each day, for a chart with a baseline.
pub fn daily_series(
    by_day: &Vec<(Date, Amount)>,
    since: Timestamp,
    until: Timestamp,
    means: Option<&Vec<Amount>>,
) -> (res: SpendChart)
    requires
        since.valid(),
        until.valid(),
        means is Some ==> means->0@.len() == day_count(since, until),
    ensures
        res.actual@.len() == day_count(since, until),
        forall|i: int|
            #![trigger res.actual@[i]]
            0 <= i < res.actual@.len() ==> is_day_point(
                res.actual@[i],
                calendar::civil(since.day() + i),
                by_day@,
            ),
        means is None ==> res.baseline@.len() == 0,
        means is Some ==> {
            &&& res.baseline@.len() == res.actual@.len()
            &&& forall|i: int|
                #![trigger res.baseline@[i]]
                0 <= i < res.baseline@.len() ==> is_mean_point(
                    res.baseline@[i],
                    calendar::civil(since.day() + i),
                    means->0@[i],
                )
        },
{
    let days = series_days(since, until);
    let mut actual: Vec<ChartPoint> = Vec::new();
    let mut i: usize = 0;
    while i < days.len()
        invariant
            i <= days.len(),
            actual@.len() == i,
            forall|k: int|
                #![trigger days@[k]]
                0 <= k < days@.len() ==> days@[k].valid() && days@[k] == calendar::civil(since.day() + k),
            forall|k: int|
                #![trigger actual@[k]]
                0 <= k < i ==> is_day_point(actual@[k], days@[k], by_day@),
        decreases days.len() - i,
    {
        let amount = match usage_on(by_day, days[i]) {
            Some(amount) => amount,
            None => Amount::zero(),
        };
        actual.push(ChartPoint { label: days[i].label(), amount });
        i = i + 1;
    }
    let baseline = match means {
        Some(means) => baseline_of(&days, means),
        None => Vec::new(),
    };
    SpendChart { actual, baseline }
}

fn baseline_of(days: &Vec<Date>, means: &Vec<Amount>) -> (res: Vec<ChartPoint>)
    requires
        days@.len() == means@.len(),
        forall|k: int| 0 <= k < days@.len() ==> (#[trigger] days@[k]).valid(),
    ensures
        res@.len() == days@.len(),
        forall|k: int|
            #![trigger res@[k]]
            0 <= k < res@.len() ==> is_mean_point(res@[k], days@[k], means@[k]),
{
    let mut baseline: Vec<ChartPoint> = Vec::new();
    let mut i: usize = 0;
    while i < days.len()
        invariant
            i <= days.len(),
            days@.len() == means@.len(),
            forall|k: int| 0 <= k < days@.len() ==> (#[trigger] days@[k]).valid(),
            baseline@.len() == i,
            forall|k: int|
                #![trigger baseline@[k]]
                0 <= k < i ==> is_mean_point(baseline@[k], days@[k], means@[k]),
        decreases days.len() - i,
    {
        baseline.push(ChartPoint { label: days[i].label(), amount: means[i] });
        i = i + 1;
    }
    baseline
}

// ==================== Days with data ====================

/// Being a day of which something is known.
pub open spec fn known(days: Seq<(Date, Amount)>) -> spec_fn(Date) -> bool {
    |day: Date| amount_on(days, day) is Some
}

/// The days of a window of which something is known, in order.
pub fn days_with_data(by_day: &Vec<(Date, Amount)>, window: &Vec<Date>) -> (res: Vec<Date>)
    ensures
        res@ == window@.filter(known(by_day@)),
        forall|k: int|
            0 <= k < res@.len() ==> window@.contains(#[trigger] res@[k]) && amount_on(
                by_day@,
                res@[k],
            ) is Some,
{
    let mut res: Vec<Date> = Vec::new();
    let mut i: usize = 0;
    proof {
        reveal(Seq::filter);
        assert(window@.take(0).filter(known(by_day@)) =~= Seq::empty());
    }
    while i < window.len()
        invariant
            i <= window.len(),
            res@ == window@.take(i as int).filter(known(by_day@)),
        decreases window.len() - i,
    {
        proof {
            reveal(Seq::filter);
            assert(window@.take(i + 1).drop_last() =~= window@.take(i as int));
            assert(window@.take(i + 1).last() == window@[i as int]);
        }
        if usage_on(by_day, window[i]).is_some() {
            res.push(window[i]);
        }
        i = i + 1;
    }
    proof {
        assert(window@.take(i as int) =~= window@);
        assert forall|k: int| 0 <= k < res@.len() implies window@.contains(#[trigger] res@[k])
            && amount_on(by_day@, res@[k]) is Some by {
            window@.lemma_filter_pred(known(by_day@), k);
            window@.lemma_filter_contains_rev(known(by_day@), res@[k]);
        }
    }
    res
}

/// A chart with a point for each of `days`, against the mean before it.
pub fn known_series(by_day: &Vec<(Date, Amount)>, days: &Vec<Date>, means: &Vec<Amount>) -> (res:
    SpendChart)
    requires
        days@.len() == means@.len(),
        forall|k: int| 0 <= k < days@.len() ==> (#[trigger] days@[k]).valid(),
    ensures
        res.actual@.len() == days@.len(),
        res.baseline@.len() == days@.len(),
        forall|k: int|
            #![trigger res.actual@[k]]
            0 <= k < days@.len() ==> is_day_point(res.actual@[k], days@[k], by_day@),
        forall|k: int|
            #![trigger res.baseline@[k]]
            0 <= k < days@.len() ==> is_mean_point(res.baseline@[k], days@[k], means@[k]),
{
    let mut actual: Vec<ChartPoint> = Vec::new();
    let mut i: usize = 0;
    while i < days.len()
        invariant
            i <= days.len(),
            actual@.len() == i,
            forall|k: int| 0 <= k < days@.len() ==> (#[trigger] days@[k]).valid(),
            forall|k: int|
                #![trigger actual@[k]]
                0 <= k < i ==> is_day_point(actual@[k], days@[k], by_day@),
        decreases days.len() - i,
    {
        let amount = match usage_on(by_day, days[i]) {
            Some(amount) => amount,
            None => Amount::zero(),
        };
        actual.push(ChartPoint { label: days[i].label(), amount });
        i = i + 1;
    }
    SpendChart { actual, baseline: baseline_of(days, means) }
}

// ==================== Months ====================

/// A year of months can be looked back on.
pub open spec fn year_reaches(now: Timestamp) -> bool {
    now.valid() && calendar::period_of(now).index() - 11 >= -262143 * 12
}

/// The last twelve months, the one of `now` included, oldest first.
pub fn trailing_year_periods(now: Timestamp) -> (res: Vec<BillingPeriod>)
    requires
        year_reaches(now),
    ensures
        res@.len() == 12,
        forall|i: int|
            #![trigger res@[i]]
            0 <= i < 12 ==> res@[i].valid() && res@[i] == BillingPeriod::at(
                calendar::period_of(now).index() - 11 + i,
            ),
{
    let current = BillingPeriod::containing(now);
    let mut periods: Vec<BillingPeriod> = Vec::new();
    let mut i: u32 = 0;
    while i < 12
        invariant
            i <= 12,
            current.valid(),
            current == calendar::period_of(now),
            current.index() - 11 >= -262143 * 12,
            periods@.len() == i,
            forall|k: int|
                #![trigger periods@[k]]
                0 <= k < i ==> periods@[k].valid() && periods@[k] == BillingPeriod::at(
                    current.index() - 11 + k,
                ),
        decreases 12 - i,
    {
        periods.push(current.months_back(11 - i));
        i = i + 1;
    }
    periods
}

/// The instant the oldest of the months begins at.
pub fn year_since(periods: &Vec<BillingPeriod>) -> (res: Timestamp)
    requires
        periods@.len() > 0,
        periods@[0].valid(),
    ensures
        res.valid(),
        res.nanos == 0,
        res.seconds == periods@[0].first_day().number() * calendar::SECONDS_PER_DAY,
{
    periods[0].start().midnight()
}

/// The point of a month: what it used, nothing where nothing is known of it.
pub open spec fn is_month_point(
    point: ChartPoint,
    period: BillingPeriod,
    totals: Seq<(String, Amount)>,
) -> bool {
    &&& point.label@ == period.text()
    &&& point.amount == (match change::last_amount(totals, period.text()) {
        Some(amount) => amount,
        None => Amount { bits: 0 },
    })
}

/// A monthly series: one point per month, zero where nothing is known of it, and
/// no baseline.
pub fn monthly_series(by_period: &Vec<(String, Amount)>, periods: &Vec<BillingPeriod>) -> (res:
    SpendChart)
    requires
        forall|k: int| 0 <= k < periods@.len() ==> (#[trigger] periods@[k]).valid(),
    ensures
        res.actual@.len() == periods@.len(),
        forall|k: int|
            #![trigger res.actual@[k]]
            0 <= k < periods@.len() ==> is_month_point(res.actual@[k], periods@[k], by_period@),
        res.baseline@.len() == 0,
{
    let mut actual: Vec<ChartPoint> = Vec::new();
    let mut i: usize = 0;
    while i < periods.len()
        invariant
            i <= periods.len(),
            actual@.len() == i,
            forall|k: int| 0 <= k < periods@.len() ==> (#[trigger] periods@[k]).valid(),
            forall|k: int|
                #![trigger actual@[k]]
                0 <= k < i ==> is_month_point(actual@[k], periods@[k], by_period@),
        decreases periods.len() - i,
    {
        let label = periods[i].label();
        let amount = match find_last(by_period, &label) {
            Some(amount) => amount,
            None => Amount::zero(),
        };
        actual.push(ChartPoint { label, amount });
        i = i + 1;
    }
    SpendChart { actual, baseline: Vec::new() }
}

} // verus!
