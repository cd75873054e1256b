//! The overview page put together: headline numbers, labels and cards.
use vstd::prelude::*;

use super::attribution;
use super::attribution::{unallocated_amount, usage_share};
use super::change::MonthOverMonth;
use super::overview;
use super::overview::{change_pct, MoverRow};
use super::quality::DataQualityRow;
use super::range::Range;
use super::series::SpendChart;
use crate::alerts::{AlertView, Severity};
use crate::amount::Amount;
use crate::calendar::Timestamp;
use crate::text;
use crate::text::starts_with;

verus! {

/// The tag that maps a charge to a business line. A charge without it counts as
/// unallocated everywhere.
pub const BUSINESS_LINE_TAG: &'static str = "business_line";

// ==================== Headline numbers ====================

/// The headline numbers of the page, all for the window of the range. The spend
/// is net; everything that is trended or ranked is gross usage.
#[derive(Debug)]
pub struct OverviewStats {
    /// Window spend, net of credits.
    pub spend: Amount,
    /// Window gross usage.
    pub usage: Amount,
    /// Window credits, negative.
    pub credits: Amount,
    /// Percent change of usage against the comparison window, `None` on a base
    /// under a cent.
    pub change_pct: Option<Amount>,
    /// Share of usage that reaches no business line, in percent.
    pub unallocated_pct: Amount,
    /// Usage that reaches no business line.
    pub unallocated_amount: Amount,
    pub open_alerts: usize,
    /// Of the open alerts, how many are critical.
    pub critical_alerts: usize,
    /// Of the open alerts, how many are warnings.
    pub warning_alerts: usize,
}

/// What was added up for the headline numbers.
#[derive(Clone, Copy, Debug)]
pub struct OverviewFigures {
    pub spend: Amount,
    pub usage: Amount,
    pub credits: Amount,
    /// Gross usage of the comparison window.
    pub prior_usage: Amount,
    /// The change of usage in percent of the comparison window's.
    pub change: Amount,
    /// What reaches no business line, in percent of usage.
    pub unallocated: Amount,
}

/// Being as bad as that.
pub open spec fn has_severity(severity: Severity) -> spec_fn(AlertView) -> bool {
    |alert: AlertView| alert.severity == severity
}

/// How many alerts are as bad as that.
pub fn count_severity(alerts: &Vec<AlertView>, severity: Severity) -> (res: usize)
    ensures
        res == alerts@.filter(has_severity(severity)).len(),
        res <= alerts@.len(),
{
    let mut count: usize = 0;
    let mut i: usize = 0;
    proof {
        reveal(Seq::filter);
        assert(alerts@.take(0).filter(has_severity(severity)) =~= Seq::empty());
    }
    while i < alerts.len()
        invariant
            i <= alerts.len(),
            count <= i,
            count == alerts@.take(i as int).filter(has_severity(severity)).len(),
        decreases alerts.len() - i,
    {
        proof {
            reveal(Seq::filter);
            assert(alerts@.take(i + 1).drop_last() =~= alerts@.take(i as int));
            assert(alerts@.take(i + 1).last() == alerts@[i as int]);
        }
        if alerts[i].severity == severity {
            count = count + 1;
        }
        i = i + 1;
    }
    proof {
        assert(alerts@.take(i as int) =~= alerts@);
    }
    count
}

/// Open alerts for the alerts card: all, the critical, the warnings.
pub fn alert_counts(open: &Vec<AlertView>) -> (res: (usize, usize, usize))
    ensures
        res.0 == open@.len(),
        res.1 == open@.filter(has_severity(Severity::Critical)).len(),
        res.2 == open@.filter(has_severity(Severity::Warning)).len(),
{
    (
        open.len(),
        count_severity(open, Severity::Critical),
        count_severity(open, Severity::Warning),
    )
}

/// What a breakdown by business line leaves without one: its share of `usage` in
/// percent, and the amount.
pub fn unallocated(breakdown: &Vec<(String, Amount)>, usage: Amount, pct: Amount) -> (res: (
    Amount,
    Amount,
))
    ensures
        res.0 == attribution::share_of(usage, pct),
        res.1 == attribution::unallocated_in(breakdown@),
{
    (usage_share(usage, pct), unallocated_amount(breakdown))
}

/// The headline numbers from what was added up, the breakdown by business line
/// and the open alerts.
pub fn overview_stats(
    figures: OverviewFigures,
    breakdown: &Vec<(String, Amount)>,
    open: &Vec<AlertView>,
) -> (res: OverviewStats)
    ensures
        res.spend == figures.spend,
        res.usage == figures.usage,
        res.credits == figures.credits,
        res.change_pct == overview::change_from(figures.prior_usage, figures.change),
        res.unallocated_pct == attribution::share_of(figures.usage, figures.unallocated),
        res.unallocated_amount == attribution::unallocated_in(breakdown@),
        res.open_alerts == open@.len(),
        res.critical_alerts == open@.filter(has_severity(Severity::Critical)).len(),
        res.warning_alerts == open@.filter(has_severity(Severity::Warning)).len(),
{
    let (unallocated_pct, unallocated_amount) = unallocated(
        breakdown,
        figures.usage,
        figures.unallocated,
    );
    let (open_alerts, critical_alerts, warning_alerts) = alert_counts(open);
    OverviewStats {
        spend: figures.spend,
        usage: figures.usage,
        credits: figures.credits,
        change_pct: change_pct(figures.prior_usage, figures.change),
        unallocated_pct,
        unallocated_amount,
        open_alerts,
        critical_alerts,
        warning_alerts,
    }
}

// ==================== The same days of the month before ====================

pub open spec fn is_digit(byte: u8) -> bool {
    48 <= byte <= 57
}

/// The number that the ninth and tenth byte of a label are: two digits, or a
/// plus sign and a digit.
pub open spec fn day_digits(label: Seq<char>) -> Option<int> {
    let bytes = vstd::utf8::encode_utf8(label);
    if bytes.len() < 10 || !is_digit(bytes[9]) {
        None
    } else if is_digit(bytes[8]) {
        Some(10 * (bytes[8] - 48) + (bytes[9] - 48))
    } else if bytes[8] == 43 {
        Some(bytes[9] - 48)
    } else {
        None
    }
}

/// Being a day of a month up to its `today`th.
pub open spec fn up_to_today(month: Seq<char>, today: int) -> spec_fn((String, Amount)) -> bool {
    |row: (String, Amount)|
        text::begins_with(row.0@, month) && day_digits(row.0@) is Some && day_digits(row.0@)->0
            <= today
}

/// What the days of a month up to its `today`th used.
pub open spec fn same_days(
    rows: Seq<(String, Amount)>,
    month: Seq<char>,
    today: int,
) -> Seq<Amount> {
    rows.filter(up_to_today(month, today)).map_values(|row: (String, Amount)| row.1)
}

fn day_number(label: &str) -> (res: Option<u32>)
    ensures
        match day_digits(label@) {
            Some(day) => res is Some && res->0 == day,
            None => res is None,
        },
{
    let bytes = label.as_bytes();
    if bytes.len() < 10 {
        return None;
    }
    let tens: u8 = bytes[8];
    let ones: u8 = bytes[9];
    if ones < 48 || ones > 57 {
        return None;
    }
    let unit: u32 = (ones - 48) as u32;
    if 48 <= tens && tens <= 57 {
        let ten: u32 = (tens - 48) as u32;
        Some(10 * ten + unit)
    } else if tens == 43 {
        Some(unit)
    } else {
        None
    }
}

/// What a month used up to the day of the month it is now, from usage by day. A
/// month that has fewer days just runs out of them.
pub fn same_day_usage(rows: &Vec<(String, Amount)>, month: &str, today: u32) -> (res: Vec<Amount>)
    ensures
        res@ == same_days(rows@, month@, today as int),
{
    let mut res: Vec<Amount> = Vec::new();
    let mut i: usize = 0;
    proof {
        reveal(Seq::filter);
        assert(same_days(rows@.take(0), month@, today as int) =~= res@);
    }
    while i < rows.len()
        invariant
            i <= rows.len(),
            res@ == same_days(rows@.take(i as int), month@, today as int),
        decreases rows.len() - i,
    {
        proof {
            reveal(Seq::filter);
            assert(rows@.take(i + 1).drop_last() =~= rows@.take(i as int));
            assert(rows@.take(i + 1).last() == rows@[i as int]);
        }
        let counts: bool = if starts_with(&rows[i].0, month) {
            match day_number(&rows[i].0) {
                Some(day) => day <= today,
                None => false,
            }
        } else {
            false
        };
        if counts {
            res.push(rows[i].1);
        }
        i = i + 1;
        proof {
            assert(res@ =~= same_days(rows@.take(i as int), month@, today as int));
        }
    }
    proof {
        assert(rows@.take(i as int) =~= rows@);
    }
    res
}

// ==================== The page ====================

/// One row of the "Where it went" breakdown.
#[derive(Debug)]
pub struct BusinessLineRow {
    pub name: String,
    /// Window gross usage.
    pub amount: Amount,
}

impl Clone for BusinessLineRow {
    fn clone(&self) -> (res: Self)
        ensures
            res == *self,
    {
        BusinessLineRow {
            name: self.name.clone(),
            amount: self.amount,
        }
    }
}

/// The band around the month-end forecast.
#[derive(Clone, Copy, PartialEq, Eq, Structural, Debug)]
pub struct ForecastBand {
    pub pessimistic: Amount,
    pub optimistic: Amount,
}

/// The rows of a breakdown by business line.
pub open spec fn lines_of(breakdown: Seq<(String, Amount)>) -> Seq<BusinessLineRow> {
    breakdown.map_values(|row: (String, Amount)| BusinessLineRow { name: row.0, amount: row.1 })
}

/// The rows of a breakdown by business line.
pub fn business_lines(breakdown: &Vec<(String, Amount)>) -> (res: Vec<BusinessLineRow>)
    ensures
        res@ == lines_of(breakdown@),
{
    let mut rows: Vec<BusinessLineRow> = Vec::new();
    let mut i: usize = 0;
    while i < breakdown.len()
        invariant
            i <= breakdown.len(),
            rows@.len() == i,
            forall|k: int|
                0 <= k < i ==> #[trigger] rows@[k] == (BusinessLineRow {
                    name: breakdown@[k].0,
                    amount: breakdown@[k].1,
                }),
        decreases breakdown.len() - i,
    {
        rows.push(BusinessLineRow { name: breakdown[i].0.clone(), amount: breakdown[i].1 });
        i = i + 1;
    }
    proof {
        assert(rows@ =~= lines_of(breakdown@));
    }
    rows
}

/// What a page is made of, before it is labelled.
#[derive(Debug)]
pub struct OverviewParts {
    pub currency: String,
    pub stats: OverviewStats,
    /// The month-end forecast, or the mean usage of the window.
    pub card2_value: Amount,
    pub forecast_band: Option<ForecastBand>,
    pub chart_benchmark: Option<Amount>,
    pub data_quality: Vec<DataQualityRow>,
    pub chart: SpendChart,
    pub business_lines: Vec<BusinessLineRow>,
    pub movers: Vec<MoverRow>,
    pub month_over_month: Option<MonthOverMonth>,
}

/// Everything the page shows, labels included: the page renders, this decides
/// what a range is called.
#[derive(Debug)]
pub struct OverviewData {
    pub currency: String,
    pub range: Range,
    pub stats: OverviewStats,
    /// The label above the net number.
    pub spend_label: &'static str,
    /// The text behind the change percentage.
    pub change_caption: &'static str,
    /// The second card: the month-end forecast, or the mean usage of the window.
    pub card2_label: &'static str,
    pub card2_value: Amount,
    pub card2_caption: &'static str,
    /// The band around the forecast; a mean has none.
    pub forecast_band: Option<ForecastBand>,
    /// The typical-day line of the month's chart.
    pub chart_benchmark: Option<Amount>,
    /// Findings of the current period, worst first.
    pub data_quality: Vec<DataQualityRow>,
    /// The header caption of the range.
    pub window_caption: String,
    pub movers_delta_header: &'static str,
    pub movers_title: &'static str,
    pub movers_amount_header: &'static str,
    pub chart_title: &'static str,
    pub chart_caption: &'static str,
    pub chart: SpendChart,
    pub business_lines: Vec<BusinessLineRow>,
    pub movers: Vec<MoverRow>,
    /// The comparison with the month before; only a calendar month has one.
    pub month_over_month: Option<MonthOverMonth>,
}

/// What a range calls the parts of the page.
pub ghost struct RangeLabels {
    pub spend_label: Seq<char>,
    pub change_caption: Seq<char>,
    pub card2_label: Seq<char>,
    pub card2_caption: Seq<char>,
    pub movers_delta_header: Seq<char>,
    pub movers_amount_header: Seq<char>,
    pub chart_title: Seq<char>,
    pub chart_caption: Seq<char>,
}

/// What each range calls the parts of the page.
pub open spec fn labels_of(range: Range) -> RangeLabels {
    match range {
        Range::Mtd => RangeLabels {
            spend_label: "MONTH TO DATE"@,
            change_caption: "vs same day last month"@,
            card2_label: "MONTH-END FORECAST"@,
            card2_caption: "MTD plus the daily run rate for the rest of the month"@,
            movers_delta_header: "VS LAST MONTH"@,
            movers_amount_header: "MTD"@,
            chart_title: "Daily spend, all sources"@,
            chart_caption: "Actual against the 7-day trailing mean."@,
        },
        Range::Days30 => RangeLabels {
            spend_label: "LAST 30 DAYS"@,
            change_caption: "vs prior 30 days"@,
            card2_label: "DAILY AVERAGE"@,
            card2_caption: "Mean daily usage over the last 30 days"@,
            movers_delta_header: "VS PRIOR 30D"@,
            movers_amount_header: "30D"@,
            chart_title: "Daily spend, all sources"@,
            chart_caption: "Actual against the 7-day trailing mean."@,
        },
        Range::Months12 => RangeLabels {
            spend_label: "LAST 12 MONTHS"@,
            change_caption: "vs prior 12 months"@,
            card2_label: "MONTHLY AVERAGE"@,
            card2_caption: "Mean monthly usage over the last 12 months"@,
            movers_delta_header: "VS PRIOR 12M"@,
            movers_amount_header: "12M"@,
            chart_title: "Monthly spend, all sources"@,
            chart_caption: "One point per month of gross usage."@,
        },
    }
}

impl OverviewData {
    /// What the page calls its parts.
    pub open spec fn labels(self) -> RangeLabels {
        RangeLabels {
            spend_label: self.spend_label@,
            change_caption: self.change_caption@,
            card2_label: self.card2_label@,
            card2_caption: self.card2_caption@,
            movers_delta_header: self.movers_delta_header@,
            movers_amount_header: self.movers_amount_header@,
            chart_title: self.chart_title@,
            chart_caption: self.chart_caption@,
        }
    }
}

/// The text behind a change percentage.
pub fn change_caption(range: Range) -> (res: &'static str)
    ensures
        res@ == labels_of(range).change_caption,
{
    match range {
        Range::Mtd => "vs same day last month",
        Range::Days30 => "vs prior 30 days",
        Range::Months12 => "vs prior 12 months",
    }
}

/// The page of a range. Only the month to date has a forecast band, a benchmark
/// and a month to compare with; the other ranges carry none of them.
pub fn load_overview(range: Range, now: Timestamp, parts: OverviewParts) -> (res: OverviewData)
    requires
        now.valid(),
    ensures
        res.currency == parts.currency,
        res.range == range,
        res.stats == parts.stats,
        res.labels() == labels_of(range),
        res.movers_title@ == "Biggest movers"@,
        res.window_caption@ == range.caption(now),
        res.card2_value == parts.card2_value,
        res.data_quality == parts.data_quality,
        res.chart == parts.chart,
        res.business_lines == parts.business_lines,
        res.movers == parts.movers,
        range == Range::Mtd ==> {
            &&& res.forecast_band == parts.forecast_band
            &&& res.chart_benchmark == parts.chart_benchmark
            &&& res.month_over_month == parts.month_over_month
        },
        range != Range::Mtd ==> {
            &&& res.forecast_band is None
            &&& res.chart_benchmark is None
            &&& res.month_over_month is None
        },
{
    let window_caption = range.header_caption(now);
    let (spend_label, card2_label, card2_caption) = match range {
        Range::Mtd => (
            "MONTH TO DATE",
            "MONTH-END FORECAST",
            "MTD plus the daily run rate for the rest of the month",
        ),
        Range::Days30 => (
            "LAST 30 DAYS",
            "DAILY AVERAGE",
            "Mean daily usage over the last 30 days",
        ),
        Range::Months12 => (
            "LAST 12 MONTHS",
            "MONTHLY AVERAGE",
            "Mean monthly usage over the last 12 months",
        ),
    };
    let (movers_delta_header, movers_amount_header) = match range {
        Range::Mtd => ("VS LAST MONTH", "MTD"),
        Range::Days30 => ("VS PRIOR 30D", "30D"),
        Range::Months12 => ("VS PRIOR 12M", "12M"),
    };
    let (chart_title, chart_caption) = match range {
        Range::Months12 => (
            "Monthly spend, all sources",
            "One point per month of gross usage.",
        ),
        _ => ("Daily spend, all sources", "Actual against the 7-day trailing mean."),
    };
    let (forecast_band, chart_benchmark, month_over_month) = match range {
        Range::Mtd => (parts.forecast_band, parts.chart_benchmark, parts.month_over_month),
        _ => (None, None, None),
    };
    OverviewData {
        currency: parts.currency,
        range,
        stats: parts.stats,
        spend_label,
        change_caption: change_caption(range),
        card2_label,
        card2_value: parts.card2_value,
        card2_caption,
        forecast_band,
        chart_benchmark,
        data_quality: parts.data_quality,
        window_caption,
        movers_delta_header,
        movers_title: "Biggest movers",
        movers_amount_header,
        chart_title,
        chart_caption,
        chart: parts.chart,
        business_lines: parts.business_lines,
        movers: parts.movers,
        month_over_month,
    }
}

} // verus!
