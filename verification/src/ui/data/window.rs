//! The overview of a rolling range, in steps like those of the month: what it
//! asks of the ledger, what follows once the amounts are added up, what is asked
//! of each mover, and the page.
use vstd::prelude::*;

use super::attribution;
use super::overview;
use super::overview::{drives_between, prior_amounts, Mover, MoverRow};
use super::page;
use super::page::{
    business_lines, load_overview, overview_stats, OverviewData, OverviewFigures, OverviewParts,
    BUSINESS_LINE_TAG,
};
use super::points;
use super::quality::DataQualityRow;
use super::range::Range;
use super::series;
use super::series::{
    daily_map, daily_series, monthly_series, series_days, trailing_year_periods, SpendChart,
};
use crate::alerts::{AlertView, Severity};
use crate::amount::Amount;
use crate::calendar;
use crate::calendar::{BillingPeriod, Date, Timestamp};
use crate::ledger::buckets;
use crate::ledger::buckets::{Grouping, ServiceTerms};
use crate::ledger::compare;
use crate::ledger::compare::QualityCounts;
use crate::ledger::laws;
use crate::ledger::query;
use crate::ledger::ranked;
use crate::ledger::ranked::{copy_totals, rank_services, rank_totals};
use crate::ledger::scope;
use crate::memory;
use crate::memory::NormalizedRow;

verus! {

// ==================== What the page asks ====================

/// What the page asks of the ledger, each total as the amounts it adds up.
pub struct WindowReads {
    /// The window's net spend, its usage and its credits.
    pub spend: Vec<Amount>,
    pub usage: Vec<Amount>,
    pub credits: Vec<Amount>,
    /// The usage of the window before.
    pub prior: Vec<Amount>,
    /// Usage by business line.
    pub lines: Vec<(String, Vec<Amount>)>,
    /// Usage by service, in the window and in the one before.
    pub services: Vec<ServiceTerms>,
    pub services_before: Vec<ServiceTerms>,
    /// Usage by day from a week before the window, or by month.
    pub series: Vec<(String, Vec<Amount>)>,
    /// What the findings of the current month are decided from, whatever the
    /// window is.
    pub quality: QualityCounts,
}

/// A range that rolls: its window ends now, wherever a month does.
pub open spec fn rolls(range: Range) -> bool {
    range != Range::Mtd
}

/// What is charged within a window.
pub open spec fn charged_in(window: (Timestamp, Timestamp)) -> scope::Selection {
    scope::everything().within(window.0, window.1)
}

/// `reads` is what the page asks of the rows.
pub open spec fn asks_of_window(
    reads: WindowReads,
    all: Seq<NormalizedRow>,
    range: Range,
    now: Timestamp,
) -> bool {
    let window = range.window(now);
    let prior = range.prior_window(now);
    let rows = scope::rows_in(all, charged_in(window));
    &&& reads.spend@ == scope::base_amounts(rows)
    &&& reads.usage@ == scope::base_amounts(scope::usage_rows(rows))
    &&& reads.credits@ == scope::base_amounts(scope::credit_rows(rows))
    &&& reads.prior@ == scope::base_amounts(
        scope::usage_rows(scope::rows_in(all, charged_in(prior))),
    )
    &&& buckets::named_by(
        reads.lines@,
        scope::rows_in(all, charged_in(window).usage()),
        Grouping::Tag(BUSINESS_LINE_TAG),
    )
    &&& buckets::services_by(reads.services@, scope::rows_in(all, charged_in(window).usage()))
    &&& buckets::services_by(reads.services_before@, scope::rows_in(all, charged_in(prior).usage()))
    &&& if range == Range::Months12 {
        buckets::named_by(
            reads.series@,
            scope::rows_in(all, scope::everything().from(window.0).usage()),
            Grouping::Period,
        )
    } else {
        buckets::named_by(
            reads.series@,
            scope::rows_in(all, scope::everything().from(week_before(window.0)).usage()),
            Grouping::Day,
        )
    }
    &&& compare::counts_quality(
        reads.quality,
        all,
        calendar::period_of(now).text(),
        BUSINESS_LINE_TAG@,
    )
}

/// The instant a week earlier.
pub open spec fn week_before(at: Timestamp) -> Timestamp {
    Timestamp { seconds: (at.seconds - 7 * calendar::SECONDS_PER_DAY) as i64, nanos: at.nanos }
}

/// Ask the ledger for the page. The days reach a week before the window, so that
/// the means of its first week are measured too.
pub fn window_reads(all: &Vec<NormalizedRow>, range: Range, now: Timestamp) -> (res: WindowReads)
    requires
        memory::rows_dated(all@),
        all@.len() <= i64::MAX,
        rolls(range),
        range.reaches(now),
    ensures
        asks_of_window(res, all@, range, now),
{
    let ((since, until), (prior_since, prior_until)) = range.windows(now);
    let spend = query::total_between(all, since, until);
    let (usage, credits) = query::usage_and_credits_between(all, since, until);
    let (prior, _) = query::usage_and_credits_between(all, prior_since, prior_until);
    let lines = query::tag_usage_breakdown_between(all, since, until, BUSINESS_LINE_TAG);
    let services = query::provider_service_usage_between(all, since, until);
    let services_before = query::provider_service_usage_between(all, prior_since, prior_until);
    let series = match range {
        Range::Months12 => query::monthly_usage(all, since),
        _ => query::daily_usage_all(all, since.minus_days(7)),
    };
    let month = BillingPeriod::containing(now).label();
    let quality = query::data_quality_issues(all, &month, BUSINESS_LINE_TAG);
    WindowReads {
        spend,
        usage,
        credits,
        prior,
        lines,
        services,
        services_before,
        series,
        quality,
    }
}

// ==================== What follows from the totals ====================

/// What the page asked for, added up.
#[derive(Debug)]
pub struct WindowTotals {
    pub spend: Amount,
    pub usage: Amount,
    pub credits: Amount,
    pub prior: Amount,
    pub lines: Vec<(String, Amount)>,
    pub services: Vec<(String, String, Amount)>,
    pub services_before: Vec<(String, String, Amount)>,
    pub series: Vec<(String, Amount)>,
}

/// The totals in the order the page shows them, and what a percentage or a mean
/// is still to be worked out of.
#[derive(Debug)]
pub struct WindowRanked {
    pub spend: Amount,
    pub usage: Amount,
    pub credits: Amount,
    pub prior: Amount,
    pub lines: Vec<(String, Amount)>,
    pub services: Vec<(String, String, Amount)>,
    pub services_before: Vec<(String, String, Amount)>,
    /// What each service used in the window before, in the order of `services`.
    pub priors: Vec<Amount>,
    pub series: Vec<(String, Amount)>,
    pub by_day: Vec<(Date, Amount)>,
    /// The days of a daily chart, a mean to be worked out for each.
    pub days: Vec<Date>,
}

/// `ranked` is what follows from the totals.
pub open spec fn ranks_window(
    ranked: WindowRanked,
    totals: WindowTotals,
    range: Range,
    now: Timestamp,
) -> bool {
    let since = range.window(now).0;
    &&& ranked.spend == totals.spend
    &&& ranked.usage == totals.usage
    &&& ranked.credits == totals.credits
    &&& ranked.prior == totals.prior
    &&& ranked.lines@ == ranked::positive_first(totals.lines@, ranked::named_amounts(totals.lines@))
    &&& ranked.services@ == ranked::positive_first(
        totals.services@,
        ranked::service_amounts(totals.services@),
    )
    &&& ranked.services_before@ == ranked::positive_first(
        totals.services_before@,
        ranked::service_amounts(totals.services_before@),
    )
    &&& ranked.priors@ == Seq::new(
        ranked.services@.len(),
        |i: int|
            overview::prior_amount(
                ranked.services_before@,
                ranked.services@[i].0@,
                ranked.services@[i].1@,
            ),
    )
    &&& ranked.series == totals.series
    &&& if range == Range::Months12 {
        ranked.by_day@.len() == 0 && ranked.days@.len() == 0
    } else {
        &&& ranked.by_day@ == series::days_of(totals.series@)
        &&& ranked.days@ == Seq::new(
            series::day_count(since, now),
            |i: int| calendar::civil(since.day() + i),
        )
    }
}

/// Rank the totals.
pub fn rank_window(totals: WindowTotals, range: Range, now: Timestamp) -> (res: WindowRanked)
    requires
        rolls(range),
        range.reaches(now),
    ensures
        ranks_window(res, totals, range, now),
{
    let ((since, _), _) = range.windows(now);
    let lines = rank_totals(totals.lines);
    let services = rank_services(totals.services);
    let services_before = rank_services(totals.services_before);
    let priors = prior_amounts(&services, &services_before);
    let (by_day, days) = match range {
        Range::Months12 => (Vec::new(), Vec::new()),
        _ => (daily_map(&totals.series), series_days(since, now)),
    };
    proof {
        assert(priors@ =~= Seq::new(
            services@.len(),
            |i: int|
                overview::prior_amount(services_before@, services@[i].0@, services@[i].1@),
        ));
        if range != Range::Months12 {
            assert(days@ =~= Seq::new(
                series::day_count(since, now),
                |i: int| calendar::civil(since.day() + i),
            ));
        }
    }
    WindowRanked {
        spend: totals.spend,
        usage: totals.usage,
        credits: totals.credits,
        prior: totals.prior,
        lines,
        services,
        services_before,
        priors,
        series: totals.series,
        by_day,
        days,
    }
}

// ==================== What each mover drives ====================

/// Ask the ledger what business lines each mover's usage goes to.
pub fn mover_lines(
    all: &Vec<NormalizedRow>,
    movers: &Vec<Mover>,
    range: Range,
    now: Timestamp,
) -> (res: Vec<Vec<(String, Vec<Amount>)>>)
    requires
        memory::rows_dated(all@),
        range.reaches(now),
    ensures
        res@.len() == movers@.len(),
        forall|i: int|
            #![trigger res@[i]]
            0 <= i < movers@.len() ==> buckets::named_by(
                res@[i]@,
                scope::rows_in(
                    all@,
                    scope::of_service(movers@[i].provider@, movers@[i].service@).within(
                        range.window(now).0,
                        now,
                    ).usage(),
                ),
                Grouping::Tag(BUSINESS_LINE_TAG),
            ),
{
    let ((since, until), _) = range.windows(now);
    let mut res: Vec<Vec<(String, Vec<Amount>)>> = Vec::new();
    let mut i: usize = 0;
    while i < movers.len()
        invariant
            i <= movers.len(),
            memory::rows_dated(all@),
            since == range.window(now).0,
            until == now,
            res@.len() == i,
            forall|k: int|
                #![trigger res@[k]]
                0 <= k < i ==> buckets::named_by(
                    res@[k]@,
                    scope::rows_in(
                        all@,
                        scope::of_service(movers@[k].provider@, movers@[k].service@).within(
                            range.window(now).0,
                            now,
                        ).usage(),
                    ),
                    Grouping::Tag(BUSINESS_LINE_TAG),
                ),
        decreases movers.len() - i,
    {
        let lines = query::service_tag_usage_breakdown_between(
            all,
            since,
            until,
            &movers[i].provider,
            &movers[i].service,
            BUSINESS_LINE_TAG,
        );
        res.push(lines);
        i = i + 1;
    }
    res
}

/// The row of a mover, with the line most of its usage goes to.
pub open spec fn tells_mover(row: MoverRow, mover: Mover, lines: Seq<(String, Amount)>) -> bool {
    &&& row.provider == mover.provider
    &&& row.service == mover.service
    &&& row.amount == mover.amount
    &&& row.change_pct == mover.change_pct
    &&& row.drives@ == overview::line_of_breakdown(
        ranked::positive_first(lines, ranked::named_amounts(lines)),
    )
}

/// The rows of the movers, from the totals of what each one's usage goes to.
pub fn driven_rows(movers: &Vec<Mover>, lines: &Vec<Vec<(String, Amount)>>) -> (res: Vec<MoverRow>)
    requires
        lines@.len() == movers@.len(),
    ensures
        res@.len() == movers@.len(),
        forall|i: int|
            #![trigger res@[i]]
            0 <= i < movers@.len() ==> tells_mover(res@[i], movers@[i], lines@[i]@),
{
    let mut res: Vec<MoverRow> = Vec::new();
    let mut i: usize = 0;
    while i < movers.len()
        invariant
            i <= movers.len(),
            lines@.len() == movers@.len(),
            res@.len() == i,
            forall|k: int|
                #![trigger res@[k]]
                0 <= k < i ==> tells_mover(res@[k], movers@[k], lines@[k]@),
        decreases movers.len() - i,
    {
        let drives = drives_between(&rank_totals(copy_totals(&lines[i])));
        res.push(
            MoverRow {
                provider: movers[i].provider.clone(),
                service: movers[i].service.clone(),
                amount: movers[i].amount,
                change_pct: movers[i].change_pct,
                drives,
            },
        );
        i = i + 1;
    }
    res
}

// ==================== The page ====================

/// What only arithmetic adds to the ranked totals.
#[derive(Debug)]
pub struct WindowFigures {
    /// The change of usage against the window before, in percent.
    pub change: Amount,
    /// What reaches no business line, in percent of usage.
    pub unallocated: Amount,
    /// The mean usage of a day or of a month.
    pub mean: Amount,
    /// The trailing mean before every day of a daily chart.
    pub means: Vec<Amount>,
}

/// `chart` is the chart of the window.
pub open spec fn charts_window(
    chart: SpendChart,
    ranked: WindowRanked,
    means: Seq<Amount>,
    range: Range,
    now: Timestamp,
) -> bool {
    if range == Range::Months12 {
        &&& chart.actual@.len() == 12
        &&& forall|k: int|
            #![trigger chart.actual@[k]]
            0 <= k < 12 ==> series::is_month_point(
                chart.actual@[k],
                BillingPeriod::at(calendar::period_of(now).index() - 11 + k),
                ranked.series@,
            )
        &&& chart.baseline@.len() == 0
    } else {
        &&& chart.actual@.len() == ranked.days@.len()
        &&& chart.baseline@.len() == ranked.days@.len()
        &&& forall|k: int|
            #![trigger chart.actual@[k]]
            0 <= k < ranked.days@.len() ==> series::is_day_point(
                chart.actual@[k],
                ranked.days@[k],
                ranked.by_day@,
            )
        &&& forall|k: int|
            #![trigger chart.baseline@[k]]
            0 <= k < ranked.days@.len() ==> series::is_mean_point(
                chart.baseline@[k],
                ranked.days@[k],
                means[k],
            )
    }
}

/// `page` shows the window's totals, the change against the window before, the
/// mean, the chart and where the usage went.
pub open spec fn shows_window(
    page: OverviewData,
    ranked: WindowRanked,
    figures: WindowFigures,
    range: Range,
    now: Timestamp,
) -> bool {
    &&& page.stats.spend == ranked.spend
    &&& page.stats.usage == ranked.usage
    &&& page.stats.credits == ranked.credits
    &&& page.stats.change_pct == overview::change_from(ranked.prior, figures.change)
    &&& page.card2_value == figures.mean
    &&& charts_window(page.chart, ranked, figures.means@, range, now)
    &&& page.business_lines@ == page::lines_of(ranked.lines@)
}

/// The page of a rolling range.
pub fn load_overview_window(
    ranked: &WindowRanked,
    figures: WindowFigures,
    currency: String,
    movers: Vec<MoverRow>,
    data_quality: Vec<DataQualityRow>,
    open: &Vec<AlertView>,
    range: Range,
    now: Timestamp,
) -> (res: OverviewData)
    requires
        rolls(range),
        range.reaches(now),
        figures.means@.len() == ranked.days@.len(),
        range == Range::Days30 ==> ranked.days@ == Seq::new(
            series::day_count(range.window(now).0, now),
            |i: int| calendar::civil(range.window(now).0.day() + i),
        ),
    ensures
        res.currency == currency,
        res.range == range,
        res.labels() == page::labels_of(range),
        res.window_caption@ == range.caption(now),
        shows_window(res, *ranked, figures, range, now),
        res.stats.unallocated_pct == attribution::share_of(ranked.usage, figures.unallocated),
        res.stats.unallocated_amount == attribution::unallocated_in(ranked.lines@),
        res.stats.open_alerts == open@.len(),
        res.stats.critical_alerts == open@.filter(page::has_severity(Severity::Critical)).len(),
        res.stats.warning_alerts == open@.filter(page::has_severity(Severity::Warning)).len(),
        res.forecast_band is None,
        res.chart_benchmark is None,
        res.month_over_month is None,
        res.data_quality == data_quality,
        res.movers == movers,
{
    let ((since, _), _) = range.windows(now);
    let stats = overview_stats(
        OverviewFigures {
            spend: ranked.spend,
            usage: ranked.usage,
            credits: ranked.credits,
            prior_usage: ranked.prior,
            change: figures.change,
            unallocated: figures.unallocated,
        },
        &ranked.lines,
        open,
    );
    let chart = match range {
        Range::Months12 => {
            let periods = trailing_year_periods(now);
            monthly_series(&ranked.series, &periods)
        },
        _ => daily_series(&ranked.by_day, since, now, Some(&figures.means)),
    };
    let parts = OverviewParts {
        currency,
        stats,
        card2_value: figures.mean,
        forecast_band: None,
        chart_benchmark: None,
        data_quality,
        chart,
        business_lines: business_lines(&ranked.lines),
        movers,
        month_over_month: None,
    };
    load_overview(range, now, parts)
}

// ==================== From the ledger to the page ====================

/// What the page asked for, added up by `sum`.
pub open spec fn sums_window(
    totals: WindowTotals,
    reads: WindowReads,
    sum: spec_fn(Seq<Amount>) -> Amount,
) -> bool {
    &&& totals.spend == sum(reads.spend@)
    &&& totals.usage == sum(reads.usage@)
    &&& totals.credits == sum(reads.credits@)
    &&& totals.prior == sum(reads.prior@)
    &&& laws::names_summed(reads.lines@, totals.lines@, sum)
    &&& laws::names_summed(reads.series@, totals.series@, sum)
}

/// The usage that the chart of a window is drawn from.
pub open spec fn charted_since(all: Seq<NormalizedRow>, range: Range, now: Timestamp) -> Seq<
    NormalizedRow,
> {
    let since = range.window(now).0;
    scope::rows_in(
        all,
        scope::everything().from(
            if range == Range::Months12 {
                since
            } else {
                week_before(since)
            },
        ).usage(),
    )
}

/// The page of a rolling range shows what the ledger holds of its window. Spend,
/// usage and credits are the sums of the rows charged within the window; the
/// change is told just where the window before used at least a cent; each
/// business line is the sum of its usage rows. The chart has a point for each of
/// the last 30 days, its baseline under the same labels, or for each of the last 12
/// months; a point's amount is the sum of the usage rows of its day or month, and
/// nothing where there are none.
pub proof fn the_window_page_shows_the_ledger(
    page: OverviewData,
    ranked: WindowRanked,
    totals: WindowTotals,
    reads: WindowReads,
    figures: WindowFigures,
    all: Seq<NormalizedRow>,
    range: Range,
    now: Timestamp,
    sum: spec_fn(Seq<Amount>) -> Amount,
)
    requires
        rolls(range),
        range.reaches(now),
        asks_of_window(reads, all, range, now),
        sums_window(totals, reads, sum),
        ranks_window(ranked, totals, range, now),
        shows_window(page, ranked, figures, range, now),
    ensures
        ({
            let rows = scope::rows_in(all, charged_in(range.window(now)));
            let before = scope::rows_in(all, charged_in(range.prior_window(now)));
            let prior = sum(scope::base_amounts(scope::usage_rows(before)));
            &&& page.stats.spend == sum(scope::base_amounts(rows))
            &&& page.stats.usage == sum(scope::base_amounts(scope::usage_rows(rows)))
            &&& page.stats.credits == sum(scope::base_amounts(scope::credit_rows(rows)))
            &&& page.stats.change_pct == overview::change_from(prior, figures.change)
        }),
        forall|i: int|
            #![trigger page.business_lines@[i]]
            0 <= i < page.business_lines@.len() ==> {
                let line = page.business_lines@[i];
                let used = scope::rows_in(all, charged_in(range.window(now)).usage());
                &&& line.amount.is_positive()
                &&& line.amount == sum(
                    scope::base_amounts(
                        buckets::bucket_rows(
                            used,
                            buckets::keyed(Grouping::Tag(BUSINESS_LINE_TAG)),
                            buckets::key1(line.name@),
                        ),
                    ),
                )
            },
        range == Range::Months12 ==> {
            &&& page.chart.actual@.len() == 12
            &&& page.chart.baseline@.len() == 0
            &&& forall|k: int|
                #![trigger page.chart.actual@[k]]
                0 <= k < 12 ==> {
                    let month = BillingPeriod::at(
                        calendar::period_of(now).index() - 11 + k,
                    ).text();
                    let point = page.chart.actual@[k];
                    &&& point.label@ == month
                    &&& point.amount == points::sum_or_nothing(
                        points::rows_of_month(charted_since(all, range, now), month),
                        sum,
                    )
                }
        },
        range == Range::Days30 ==> {
            &&& page.chart.actual@.len() == 30
            &&& page.chart.baseline@.len() == 30
            &&& forall|k: int|
                #![trigger page.chart.actual@[k]]
                0 <= k < 30 ==> {
                    let day = calendar::civil(now.day() - 29 + k);
                    let point = page.chart.actual@[k];
                    let used = charted_since(all, range, now);
                    &&& point.label@ == calendar::day_label(day)
                    &&& page.chart.baseline@[k].label@ == calendar::day_label(day)
                    &&& points::labels_read_back(used, day) ==> point.amount
                        == points::sum_or_nothing(points::rows_of_day(used, day), sum)
                }
        },
{
    let used = charted_since(all, range, now);
    assert forall|i: int|
        #![trigger page.business_lines@[i]]
        0 <= i < page.business_lines@.len() implies {
        let line = page.business_lines@[i];
        let used = scope::rows_in(all, charged_in(range.window(now)).usage());
        &&& line.amount.is_positive()
        &&& line.amount == sum(
            scope::base_amounts(
                buckets::bucket_rows(
                    used,
                    buckets::keyed(Grouping::Tag(BUSINESS_LINE_TAG)),
                    buckets::key1(line.name@),
                ),
            ),
        )
    } by {
        laws::a_ranked_total_is_its_rows(
            reads.lines@,
            totals.lines@,
            scope::rows_in(all, charged_in(range.window(now)).usage()),
            Grouping::Tag(BUSINESS_LINE_TAG),
            sum,
            i,
        );
    }
    if range == Range::Months12 {
        assert forall|k: int|
            #![trigger page.chart.actual@[k]]
            0 <= k < 12 implies {
            let month = BillingPeriod::at(calendar::period_of(now).index() - 11 + k).text();
            let point = page.chart.actual@[k];
            &&& point.label@ == month
            &&& point.amount == points::sum_or_nothing(points::rows_of_month(used, month), sum)
        } by {
            let month = BillingPeriod::at(calendar::period_of(now).index() - 11 + k).text();
            points::a_months_amount_is_its_rows(reads.series@, totals.series@, used, sum, month);
        }
    } else {
        let since = range.window(now).0;
        assert(since.day() == now.day() - 29);
        assert forall|k: int|
            #![trigger page.chart.actual@[k]]
            0 <= k < 30 implies {
            let day = calendar::civil(now.day() - 29 + k);
            let point = page.chart.actual@[k];
            &&& point.label@ == calendar::day_label(day)
            &&& page.chart.baseline@[k].label@ == calendar::day_label(day)
            &&& points::labels_read_back(used, day) ==> point.amount == points::sum_or_nothing(
                points::rows_of_day(used, day),
                sum,
            )
        } by {
            let day = calendar::civil(now.day() - 29 + k);
            assert(ranked.days@[k] == day);
            assert(series::is_mean_point(page.chart.baseline@[k], day, figures.means@[k]));
            if points::labels_read_back(used, day) {
                points::a_days_amount_is_its_rows(reads.series@, totals.series@, used, sum, day);
            }
        }
    }
}

} // verus!
