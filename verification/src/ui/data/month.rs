//! The overview of the month to date, in three steps: what it asks of the
//! ledger, what follows once the amounts are added up, and the page once their
//! percentages and means are known.
use vstd::prelude::*;

use super::attribution;
use super::change::MonthOverMonth;
use super::overview;
use super::overview::{drives_by_service, mover_rows, movers, prior_amounts, Drive};
use super::page;
use super::page::{
    business_lines, load_overview, overview_stats, same_day_usage, ForecastBand, OverviewData,
    OverviewFigures, OverviewParts, BUSINESS_LINE_TAG,
};
use super::points;
use super::quality;
use super::quality::{benchmark_value, DataQualityRow};
use super::range::Range;
use super::series;
use super::series::{daily_map, days_with_data, known_series, series_days};
use crate::alerts::{AlertView, Severity};
use crate::amount::Amount;
use crate::calendar;
use crate::calendar::{BillingPeriod, Date, Timestamp};
use crate::ledger::buckets;
use crate::ledger::buckets::{Grouping, ServiceTagTerms, ServiceTerms};
use crate::ledger::compare;
use crate::ledger::compare::{QualityCounts, RunRate, TwoSided};
use crate::ledger::laws;
use crate::ledger::query;
use crate::ledger::ranked;
use crate::ledger::ranked::{rank_services, rank_totals, tag_usage_breakdown_by_service};
use crate::ledger::scope;
use crate::memory;
use crate::memory::NormalizedRow;
use crate::model::{BreakdownDim, ServiceTagUsage};
use crate::order;

verus! {

// ==================== What the page asks ====================

/// What the page asks of the ledger, each total as the amounts it adds up.
pub struct MonthReads {
    /// The label of the month, and of the one before.
    pub period: String,
    pub previous: String,
    /// The month's net spend, its usage and its credits.
    pub spend: Vec<Amount>,
    pub usage: Vec<Amount>,
    pub credits: Vec<Amount>,
    /// Usage by day, from before the month that it is compared with.
    pub daily: Vec<(String, Vec<Amount>)>,
    /// The month's usage by business line.
    pub lines: Vec<(String, Vec<Amount>)>,
    /// What the forecast and its band are measured from.
    pub run_rate: RunRate,
    pub bands: Vec<(String, Vec<Amount>)>,
    /// Usage by service, this month and the one before.
    pub services: Vec<ServiceTerms>,
    pub services_before: Vec<ServiceTerms>,
    /// The month's usage by service and business line.
    pub tags: Vec<ServiceTagTerms>,
    /// Both months by service.
    pub compared: (Vec<(String, Vec<Amount>)>, Vec<(String, Vec<Amount>)>),
    /// What the change between them is explained by.
    pub changed: (Vec<TwoSided>, Vec<TwoSided>),
    /// What the findings of the month are decided from.
    pub quality: QualityCounts,
}

/// The calendar reaches as far back as the page looks.
pub open spec fn month_reaches(now: Timestamp) -> bool {
    &&& Range::Mtd.reaches(now)
    &&& now.seconds - (now.on().day + 31) * calendar::SECONDS_PER_DAY >= calendar::MIN_SECONDS
}

/// The label of the month an instant falls in.
pub open spec fn this_month(now: Timestamp) -> Seq<char> {
    calendar::period_of(now).text()
}

/// The label of the month before.
pub open spec fn last_month(now: Timestamp) -> Seq<char> {
    BillingPeriod::at(calendar::period_of(now).index() - 1).text()
}

/// As many days before `now` as the month has had, and a whole month more.
pub open spec fn lookback(now: Timestamp) -> Timestamp {
    Timestamp {
        seconds: (now.seconds - (now.on().day + 31) * calendar::SECONDS_PER_DAY) as i64,
        nanos: now.nanos,
    }
}

/// `reads` is what the page asks of the rows.
pub open spec fn asks_of_month(
    reads: MonthReads,
    all: Seq<NormalizedRow>,
    now: Timestamp,
) -> bool {
    let month = scope::rows_in(all, scope::of_period(this_month(now)));
    let used = scope::rows_in(all, scope::of_period(this_month(now)).usage());
    let used_before = scope::rows_in(all, scope::of_period(last_month(now)).usage());
    &&& reads.period@ == this_month(now)
    &&& reads.previous@ == last_month(now)
    &&& reads.spend@ == scope::base_amounts(month)
    &&& reads.usage@ == scope::base_amounts(scope::usage_rows(month))
    &&& reads.credits@ == scope::base_amounts(scope::credit_rows(month))
    &&& buckets::named_by(
        reads.daily@,
        scope::rows_in(all, scope::everything().from(lookback(now)).usage()),
        Grouping::Day,
    )
    &&& buckets::named_by(reads.lines@, used, Grouping::Tag(BUSINESS_LINE_TAG))
    &&& compare::run_rate_of(reads.run_rate, month, now)
    &&& buckets::named_by(
        reads.bands@,
        scope::rows_in(
            all,
            (scope::Selection { until: Some(now), ..scope::of_period(this_month(now)) }),
        ),
        Grouping::Day,
    )
    &&& buckets::services_by(reads.services@, used)
    &&& buckets::services_by(reads.services_before@, used_before)
    &&& buckets::service_tags_by(reads.tags@, used, BUSINESS_LINE_TAG)
    &&& buckets::named_by(
        reads.compared.0@,
        all.filter(compare::billed_in(this_month(now))),
        Grouping::Dim(BreakdownDim::Service),
    )
    &&& buckets::named_by(
        reads.compared.1@,
        all.filter(compare::billed_before(this_month(now), last_month(now))),
        Grouping::Dim(BreakdownDim::Service),
    )
    &&& compare::two_sided(
        reads.changed.0@,
        all,
        this_month(now),
        last_month(now),
        Grouping::Category,
    )
    &&& compare::two_sided(
        reads.changed.1@,
        all,
        this_month(now),
        last_month(now),
        Grouping::Dim(BreakdownDim::Service),
    )
    &&& compare::counts_quality(reads.quality, all, this_month(now), BUSINESS_LINE_TAG@)
}

/// Ask the ledger for the page.
pub fn month_reads(all: &Vec<NormalizedRow>, now: Timestamp) -> (res: MonthReads)
    requires
        memory::rows_dated(all@),
        all@.len() <= i64::MAX,
        month_reaches(now),
    ensures
        asks_of_month(res, all@, now),
{
    let current = BillingPeriod::containing(now);
    let period = current.label();
    let previous = current.previous().label();
    let today: u32 = now.date().day;
    let days: i64 = today as i64 + 31;
    let since = now.minus_days(days);
    let spend = query::total_for_period(all, &period);
    let (usage, credits) = query::usage_and_credits(all, &period);
    let daily = query::daily_usage_all(all, since);
    let lines = query::tag_usage_breakdown(all, &period, BUSINESS_LINE_TAG);
    let run_rate = query::forecast_for_period(all, &period, now);
    let bands = query::forecast_bands_for_period(all, &period, now);
    let services = query::provider_service_usage(all, &period);
    let services_before = query::provider_service_usage(all, &previous);
    let tags = query::tag_usage_terms_by_service(all, &period, BUSINESS_LINE_TAG);
    let compared = query::period_over_period(all, &period, &previous);
    let changed = query::cost_change_decomposition(all, &period, &previous);
    let quality = query::data_quality_issues(all, &period, BUSINESS_LINE_TAG);
    MonthReads {
        period,
        previous,
        spend,
        usage,
        credits,
        daily,
        lines,
        run_rate,
        bands,
        services,
        services_before,
        tags,
        compared,
        changed,
        quality,
    }
}

// ==================== What follows from the totals ====================

/// What the page asked for, added up.
#[derive(Debug)]
pub struct MonthTotals {
    pub spend: Amount,
    pub usage: Amount,
    pub credits: Amount,
    pub daily: Vec<(String, Amount)>,
    pub lines: Vec<(String, Amount)>,
    pub services: Vec<(String, String, Amount)>,
    pub services_before: Vec<(String, String, Amount)>,
    pub tags: Vec<ServiceTagUsage>,
}

/// The totals in the order the page shows them, and what is still to be worked
/// out: a sum of what the month before used, a percentage for every service and
/// a trailing mean for every day.
#[derive(Debug)]
pub struct MonthRanked {
    pub spend: Amount,
    pub usage: Amount,
    pub credits: Amount,
    /// What the month before used up to the same day, to be added up.
    pub prior: Vec<Amount>,
    pub lines: Vec<(String, Amount)>,
    pub services: Vec<(String, String, Amount)>,
    pub services_before: Vec<(String, String, Amount)>,
    /// What each service used in the month before, in the order of `services`.
    pub priors: Vec<Amount>,
    /// The business line that each service drives.
    pub drives: Vec<Drive>,
    pub by_day: Vec<(Date, Amount)>,
    /// The days of the month that something is known of.
    pub days: Vec<Date>,
}

/// `days` are the days of the month up to `now` that something is known of.
pub open spec fn known_days(days: Seq<Date>, by_day: Seq<(Date, Amount)>, now: Timestamp) -> bool {
    let first = calendar::period_of(now).first_day().number();
    days == Seq::new(
        (now.day() - first + 1) as nat,
        |i: int| calendar::civil(first + i),
    ).filter(series::known(by_day))
}

/// `ranked` is what follows from the totals.
pub open spec fn ranks_month(ranked: MonthRanked, totals: MonthTotals, now: Timestamp) -> bool {
    &&& ranked.spend == totals.spend
    &&& ranked.usage == totals.usage
    &&& ranked.credits == totals.credits
    &&& ranked.prior@ == page::same_days(totals.daily@, last_month(now), now.on().day as int)
    &&& ranked.lines@ == ranked::positive_first(totals.lines@, ranked::named_amounts(totals.lines@))
    &&& ranked.services@ == ranked::positive_first(
        totals.services@,
        ranked::service_amounts(totals.services@),
    )
    &&& ranked.services_before@ == ranked::positive_first(
        totals.services_before@,
        ranked::service_amounts(totals.services_before@),
    )
    &&& ranked.priors@ == Seq::new(
        ranked.services@.len(),
        |i: int|
            overview::prior_amount(
                ranked.services_before@,
                ranked.services@[i].0@,
                ranked.services@[i].1@,
            ),
    )
    &&& forall|provider: Seq<char>, service: Seq<char>|
        #![trigger overview::listed_line(ranked.drives@, provider, service)]
        overview::listed_line(ranked.drives@, provider, service) == overview::driven_line(
            ranked::positive_first(totals.tags@, ranked::tag_usage_amounts(totals.tags@)),
            provider,
            service,
        )
    &&& ranked.by_day@ == series::days_of(totals.daily@)
    &&& known_days(ranked.days@, ranked.by_day@, now)
}

/// Rank the totals.
pub fn rank_month(totals: MonthTotals, now: Timestamp) -> (res: MonthRanked)
    requires
        month_reaches(now),
    ensures
        ranks_month(res, totals, now),
        forall|k: int| 0 <= k < res.days@.len() ==> (#[trigger] res.days@[k]).valid(),
{
    let current = BillingPeriod::containing(now);
    let previous = current.previous().label();
    let today: u32 = now.date().day;
    let prior = same_day_usage(&totals.daily, &previous, today);
    let by_day = daily_map(&totals.daily);
    let first = current.start().midnight();
    let window = series_days(first, now);
    let days = days_with_data(&by_day, &window);
    let lines = rank_totals(totals.lines);
    let services = rank_services(totals.services);
    let services_before = rank_services(totals.services_before);
    let priors = prior_amounts(&services, &services_before);
    let tags = tag_usage_breakdown_by_service(totals.tags);
    let drives = drives_by_service(&tags);
    proof {
        let start = calendar::period_of(now).first_day().number();
        assert(window@ =~= Seq::new(
            (now.day() - start + 1) as nat,
            |i: int| calendar::civil(start + i),
        ));
        assert(priors@ =~= Seq::new(
            services@.len(),
            |i: int|
                overview::prior_amount(services_before@, services@[i].0@, services@[i].1@),
        ));
        assert forall|k: int| 0 <= k < days@.len() implies (#[trigger] days@[k]).valid() by {
            let j = choose|j: int| 0 <= j < window@.len() && window@[j] == days@[k];
            assert(window@[j].valid());
        }
    }
    MonthRanked {
        spend: totals.spend,
        usage: totals.usage,
        credits: totals.credits,
        prior,
        lines,
        services,
        services_before,
        priors,
        drives,
        by_day,
        days,
    }
}

// ==================== The page ====================

/// What only arithmetic adds to the ranked totals.
#[derive(Debug)]
pub struct MonthFigures {
    /// What the month before used up to the same day.
    pub prior: Amount,
    /// The change of usage against it, in percent.
    pub change: Amount,
    /// What reaches no business line, in percent of usage.
    pub unallocated: Amount,
    /// The change of every service, in percent.
    pub pcts: Vec<Amount>,
    /// The trailing mean before every day.
    pub means: Vec<Amount>,
    pub forecast: Amount,
    pub band: Option<ForecastBand>,
    /// The typical day of each of the last days.
    pub typical: Vec<(String, Amount)>,
}

/// `page` shows the month's totals, the change against the month before, and a
/// point of the chart and of its baseline for every day.
pub open spec fn shows_month(page: OverviewData, ranked: MonthRanked, figures: MonthFigures) -> bool {
    &&& page.stats.spend == ranked.spend
    &&& page.stats.usage == ranked.usage
    &&& page.stats.credits == ranked.credits
    &&& page.stats.change_pct == overview::change_from(figures.prior, figures.change)
    &&& page.chart.actual@.len() == ranked.days@.len()
    &&& page.chart.baseline@.len() == ranked.days@.len()
    &&& forall|k: int|
        #![trigger page.chart.actual@[k]]
        0 <= k < ranked.days@.len() ==> series::is_day_point(
            page.chart.actual@[k],
            ranked.days@[k],
            ranked.by_day@,
        )
    &&& forall|k: int|
        #![trigger page.chart.baseline@[k]]
        0 <= k < ranked.days@.len() ==> series::is_mean_point(
            page.chart.baseline@[k],
            ranked.days@[k],
            figures.means@[k],
        )
}

/// The page of the month to date.
pub fn load_overview_mtd(
    ranked: &MonthRanked,
    figures: MonthFigures,
    currency: String,
    comparison: MonthOverMonth,
    data_quality: Vec<DataQualityRow>,
    open: &Vec<AlertView>,
    now: Timestamp,
) -> (res: OverviewData)
    requires
        now.valid(),
        figures.pcts@.len() == ranked.services@.len(),
        figures.means@.len() == ranked.days@.len(),
        forall|k: int| 0 <= k < ranked.days@.len() ==> (#[trigger] ranked.days@[k]).valid(),
    ensures
        res.currency == currency,
        res.range == Range::Mtd,
        res.labels() == page::labels_of(Range::Mtd),
        res.window_caption@ == Range::Mtd.caption(now),
        shows_month(res, *ranked, figures),
        res.stats.unallocated_pct == attribution::share_of(ranked.usage, figures.unallocated),
        res.stats.unallocated_amount == attribution::unallocated_in(ranked.lines@),
        res.stats.open_alerts == open@.len(),
        res.stats.critical_alerts == open@.filter(page::has_severity(Severity::Critical)).len(),
        res.stats.warning_alerts == open@.filter(page::has_severity(Severity::Warning)).len(),
        res.card2_value == figures.forecast,
        res.forecast_band == figures.band,
        res.chart_benchmark == quality::flat_value(figures.typical@),
        res.data_quality == data_quality,
        res.business_lines@ == page::lines_of(ranked.lines@),
        ({
            let all = overview::movers_of(
                ranked.services@,
                ranked.services_before@,
                figures.pcts@,
            );
            overview::tells_movers(
                res.movers@,
                ranked::first(order::arranged(all, order::ranking(overview::mover_ranks(all))), 5),
                ranked.drives@,
            )
        }),
        res.month_over_month == Some(comparison),
{
    let stats = overview_stats(
        OverviewFigures {
            spend: ranked.spend,
            usage: ranked.usage,
            credits: ranked.credits,
            prior_usage: figures.prior,
            change: figures.change,
            unallocated: figures.unallocated,
        },
        &ranked.lines,
        open,
    );
    let chart = known_series(&ranked.by_day, &ranked.days, &figures.means);
    let moved = movers(&ranked.services, &ranked.services_before, &figures.pcts);
    let parts = OverviewParts {
        currency,
        stats,
        card2_value: figures.forecast,
        forecast_band: figures.band,
        chart_benchmark: benchmark_value(&figures.typical),
        data_quality,
        chart,
        business_lines: business_lines(&ranked.lines),
        movers: mover_rows(&moved, &ranked.drives),
        month_over_month: Some(comparison),
    };
    load_overview(Range::Mtd, now, parts)
}

// ==================== From the ledger to the page ====================

/// What the page asked for, added up by `sum`.
pub open spec fn sums_month(
    totals: MonthTotals,
    reads: MonthReads,
    sum: spec_fn(Seq<Amount>) -> Amount,
) -> bool {
    &&& totals.spend == sum(reads.spend@)
    &&& totals.usage == sum(reads.usage@)
    &&& totals.credits == sum(reads.credits@)
    &&& laws::names_summed(reads.daily@, totals.daily@, sum)
}

/// The usage that the chart is drawn from.
pub open spec fn charted_rows(all: Seq<NormalizedRow>, now: Timestamp) -> Seq<NormalizedRow> {
    scope::rows_in(all, scope::everything().from(lookback(now)).usage())
}

/// A row of the usage is of a day, by the label it is grouped under.
pub open spec fn used_on(used: Seq<NormalizedRow>, day: Date) -> bool {
    exists|r: int|
        0 <= r < used.len() && series::day_named(buckets::row_day(#[trigger] used[r])) == Some(day)
}

/// The page of the month shows what the ledger holds of it. Spend, usage and
/// credits are the sums of the month's rows; the change is told just where the
/// month before used at least a cent up to the same day; and the chart has a point
/// for each day of the month up to now that some usage row is of and for no
/// other, oldest first, its amount the sum of the day's rows and its baseline
/// under the same labels.
pub proof fn the_month_page_shows_the_ledger(
    page: OverviewData,
    ranked: MonthRanked,
    totals: MonthTotals,
    reads: MonthReads,
    figures: MonthFigures,
    all: Seq<NormalizedRow>,
    now: Timestamp,
    sum: spec_fn(Seq<Amount>) -> Amount,
    day: Date,
)
    requires
        asks_of_month(reads, all, now),
        sums_month(totals, reads, sum),
        ranks_month(ranked, totals, now),
        figures.prior == sum(ranked.prior@),
        shows_month(page, ranked, figures),
        now.valid(),
        day.valid(),
    ensures
        ({
            let month = scope::rows_in(all, scope::of_period(this_month(now)));
            &&& page.stats.spend == sum(scope::base_amounts(month))
            &&& page.stats.usage == sum(scope::base_amounts(scope::usage_rows(month)))
            &&& page.stats.credits == sum(scope::base_amounts(scope::credit_rows(month)))
        }),
        ({
            let prior = sum(
                page::same_days(totals.daily@, last_month(now), now.on().day as int),
            );
            page.stats.change_pct == overview::change_from(prior, figures.change)
        }),
        page.chart.actual@.len() == page.chart.baseline@.len(),
        forall|k: int|
            #![trigger page.chart.actual@[k]]
            0 <= k < page.chart.actual@.len() ==> page.chart.actual@[k].label@
                == page.chart.baseline@[k].label@ && page.chart.actual@[k].label@
                == calendar::day_label(ranked.days@[k]),
        forall|k: int, l: int|
            #![trigger ranked.days@[k], ranked.days@[l]]
            0 <= k < l < ranked.days@.len() ==> ranked.days@[k].before(ranked.days@[l]),
        ranked.days@.contains(day) <==> calendar::period_of(now).first_day().number()
            <= day.number() <= now.day() && used_on(charted_rows(all, now), day),
        points::labels_read_back(charted_rows(all, now), day) ==> forall|k: int|
            #![trigger page.chart.actual@[k]]
            0 <= k < ranked.days@.len() && ranked.days@[k] == day ==> page.chart.actual@[k].amount
                == sum(scope::base_amounts(points::rows_of_day(charted_rows(all, now), day))),
{
    let first = calendar::period_of(now).first_day().number();
    let window = Seq::new(
        (now.day() - first + 1) as nat,
        |i: int| calendar::civil(first + i),
    );
    let known = series::known(ranked.by_day@);
    let days = ranked.days@;
    calendar::lemma_day_exists(now);
    calendar::lemma_number_range(calendar::period_of(now).first_day());
    assert forall|i: int| 0 <= i < window.len() implies (#[trigger] window[i]).valid()
        && window[i].number() == first + i by {
        calendar::lemma_civil_of(first + i);
    }
    lemma_window_filtered(window, known, first);
    assert forall|k: int, l: int|
        #![trigger days[k], days[l]]
        0 <= k < l < days.len() implies days[k].before(days[l]) by {
        calendar::day_numbers_follow_the_calendar(days[k], days[l]);
    }
    assert forall|k: int|
        #![trigger page.chart.actual@[k]]
        0 <= k < page.chart.actual@.len() implies page.chart.actual@[k].label@
        == page.chart.baseline@[k].label@ && page.chart.actual@[k].label@ == calendar::day_label(
        days[k],
    ) by {
        assert(series::is_mean_point(page.chart.baseline@[k], days[k], figures.means@[k]));
    }

    // A day is charted just where it lies in the window and a row names it.
    calendar::lemma_civil(day);
    series::a_day_is_known_where_a_row_names_it(totals.daily@, day);
    lemma_named_by_rows(reads.daily@, totals.daily@, charted_rows(all, now), sum, day);
    if days.contains(day) {
        window.lemma_filter_contains_rev(known, day);
        let k = choose|k: int| 0 <= k < days.len() && days[k] == day;
        window.lemma_filter_pred(known, k);
        assert(first <= days[k].number());
    }
    if first <= day.number() <= now.day() && used_on(charted_rows(all, now), day) {
        let i = day.number() - first;
        assert(window[i] == day);
        window.lemma_filter_contains(known, i);
    }
    if points::labels_read_back(charted_rows(all, now), day) {
        points::a_days_amount_is_its_rows(
            reads.daily@,
            totals.daily@,
            charted_rows(all, now),
            sum,
            day,
        );
        assert forall|k: int|
            #![trigger page.chart.actual@[k]]
            0 <= k < days.len() && days[k] == day implies page.chart.actual@[k].amount == sum(
            scope::base_amounts(points::rows_of_day(charted_rows(all, now), day)),
        ) by {
            window.lemma_filter_pred(known, k);
            assert(series::is_day_point(page.chart.actual@[k], days[k], ranked.by_day@));
        }
    }
}

/// The labels of usage by day name a day just where a row of the usage is of it.
proof fn lemma_named_by_rows(
    daily: Seq<(String, Vec<Amount>)>,
    totals: Seq<(String, Amount)>,
    used: Seq<NormalizedRow>,
    sum: spec_fn(Seq<Amount>) -> Amount,
    day: Date,
)
    requires
        buckets::named_by(daily, used, Grouping::Day),
        laws::names_summed(daily, totals, sum),
    ensures
        used_on(used, day) <==> exists|q: int|
            0 <= q < totals.len() && series::day_named((#[trigger] totals[q]).0@) == Some(day),
{
    let key_of = buckets::keyed(Grouping::Day);
    let keys = buckets::named_keys(daily);
    if used_on(used, day) {
        let r = choose|r: int|
            0 <= r < used.len() && series::day_named(buckets::row_day(#[trigger] used[r])) == Some(
                day,
            );
        assert(keys.contains(key_of(used[r])));
        let q = choose|q: int| 0 <= q < keys.len() && keys[q] == key_of(used[r]);
        assert(keys[q][0] == key_of(used[r])[0]);
        assert(totals[q].0@ == buckets::row_day(used[r]));
    }
    if exists|q: int|
        0 <= q < totals.len() && series::day_named((#[trigger] totals[q]).0@) == Some(day) {
        let q = choose|q: int|
            0 <= q < totals.len() && series::day_named((#[trigger] totals[q]).0@) == Some(day);
        let held = buckets::bucket_rows(used, key_of, keys[q]);
        assert(held.len() > 0);
        used.lemma_filter_pred(buckets::has_key(key_of, keys[q]), 0);
        assert(held.contains(held[0]));
        used.lemma_filter_contains_rev(buckets::has_key(key_of, keys[q]), held[0]);
        let r = choose|r: int| 0 <= r < used.len() && used[r] == held[0];
        assert(key_of(used[r])[0] == keys[q][0]);
        assert(series::day_named(buckets::row_day(used[r])) == Some(day));
    }
}

/// The days of a window that are kept are days of the window, in its order.
proof fn lemma_window_filtered(window: Seq<Date>, keep: spec_fn(Date) -> bool, first: int)
    requires
        forall|i: int|
            0 <= i < window.len() ==> (#[trigger] window[i]).valid() && window[i].number() == first
                + i,
    ensures
        forall|k: int|
            0 <= k < window.filter(keep).len() ==> (#[trigger] window.filter(keep)[k]).valid()
                && first <= window.filter(keep)[k].number() < first + window.len(),
        forall|k: int, l: int|
            #![trigger window.filter(keep)[k], window.filter(keep)[l]]
            0 <= k < l < window.filter(keep).len() ==> window.filter(keep)[k].number()
                < window.filter(keep)[l].number(),
    decreases window.len(),
{
    reveal(Seq::filter);
    if window.len() > 0 {
        let fewer = window.drop_last();
        let before = fewer.filter(keep);
        let after = window.filter(keep);
        assert forall|i: int| 0 <= i < fewer.len() implies (#[trigger] fewer[i]).valid()
            && fewer[i].number() == first + i by {
            assert(fewer[i] == window[i]);
        }
        lemma_window_filtered(fewer, keep, first);
        let last = window.len() - 1;
        assert(window[last].number() == first + last);
        assert forall|k: int| 0 <= k < after.len() implies (#[trigger] after[k]).valid() && first
            <= after[k].number() < first + window.len() by {
            if k < before.len() {
                assert(before[k].number() < first + fewer.len());
            }
        }
        assert forall|k: int, l: int|
            #![trigger after[k], after[l]]
            0 <= k < l < after.len() implies after[k].number() < after[l].number() by {
            if l < before.len() {
                assert(before[k].number() < before[l].number());
            } else {
                assert(before[k].number() < first + fewer.len());
            }
        }
    }
}

} // verus!
