//! The account detail page: one account's trend and its services.
use vstd::prelude::*;

use super::attribution;
use super::attribution::{provider_name, usage_share};
use super::month;
use super::overview;
use super::overview::change_pct;
use super::page;
use super::page::{change_caption, same_day_usage, BUSINESS_LINE_TAG};
use super::points;
use super::range::Range;
use super::series;
use super::series::{daily_map, daily_series, monthly_series, trailing_year_periods, SpendChart};
use crate::amount::Amount;
use crate::calendar;
use crate::calendar::{BillingPeriod, Timestamp};
use crate::cloud;
use crate::db;
use crate::error::Error;
use crate::ingest::period_key;
use crate::ledger::buckets;
use crate::ledger::buckets::Grouping;
use crate::ledger::compare;
use crate::ledger::compare::QualityCounts;
use crate::ledger::laws;
use crate::ledger::query;
use crate::ledger::ranked;
use crate::ledger::ranked::rank_totals;
use crate::ledger::scope;
use crate::list;
use crate::memory;
use crate::memory::{NormalizedRow, Store};
use crate::model::{BreakdownDim, CloudAccount, Reporting};
use crate::text::{concat2, same_text};

verus! {

/// One row of the service table.
#[derive(Debug)]
pub struct ServiceRow {
    pub name: String,
    /// Window gross usage in the reporting currency.
    pub amount: Amount,
    /// Share of the window's usage, from 0 to 1.
    pub share: Amount,
    /// Change against the comparison window; `None` on a base under a cent.
    pub change_pct: Option<Amount>,
}

impl Clone for ServiceRow {
    fn clone(&self) -> (res: Self)
        ensures
            res == *self,
    {
        ServiceRow {
            name: self.name.clone(),
            amount: self.amount,
            share: self.share,
            change_pct: self.change_pct,
        }
    }
}

/// Everything the page shows. All of it is gross usage but the spend, which is
/// net.
#[derive(Debug)]
pub struct AccountDetailData {
    pub account_name: String,
    /// The source's display name.
    pub provider: String,
    /// A source that reports a balance only has no usage from its API.
    pub is_snapshot: bool,
    pub currency: String,
    pub range: Range,
    pub window_caption: String,
    pub usage: Amount,
    pub credits: Amount,
    /// Net charged: usage and credits together.
    pub spend: Amount,
    pub change_pct: Option<Amount>,
    pub change_caption: &'static str,
    /// No baseline: one account's trailing mean is noisier than it informs.
    pub chart: SpendChart,
    pub services: Vec<ServiceRow>,
}

/// The account with an id, or an error that names the id.
pub fn detail_account(store: &Store, account_id: &str) -> (res: Result<CloudAccount, Error>)
    ensures
        match list::first_index(
            store.accounts@.filter(db::source_known()),
            db::account_id(account_id@),
        ) {
            Some(i) => res == Ok::<CloudAccount, Error>(
                store.accounts@.filter(db::source_known())[i],
            ),
            None => res is Err && res->Err_0.message@ == "No account "@ + account_id@,
        },
{
    let accounts = match db::get_all_accounts(store) {
        Ok(accounts) => accounts,
        Err(e) => {
            return Err(e);
        },
    };
    let accepts = |account: &CloudAccount| -> (b: bool)
        ensures
            b == db::account_id(account_id@)(*account)
    { same_text(&account.id, account_id) };
    match list::position(&accounts, accepts, Ghost(db::account_id(account_id@))) {
        Some(i) => Ok(accounts[i].clone()),
        None => Err(Error::of(concat2("No account ", account_id))),
    }
}

/// Being the total of a name.
pub open spec fn total_of(name: Seq<char>) -> spec_fn((String, Amount)) -> bool {
    |total: (String, Amount)| total.0@ == name
}

/// What a service used before, nothing where it is not listed.
pub open spec fn prior_named(previous: Seq<(String, Amount)>, name: Seq<char>) -> Amount {
    match list::first_index(previous, total_of(name)) {
        Some(i) => previous[i].1,
        None => Amount { bits: 0 },
    }
}

/// What each service of the window used before, in the order of `current`.
pub fn prior_services(current: &Vec<(String, Amount)>, previous: &Vec<(String, Amount)>) -> (res:
    Vec<Amount>)
    ensures
        res@.len() == current@.len(),
        forall|i: int|
            0 <= i < res@.len() ==> #[trigger] res@[i] == prior_named(previous@, current@[i].0@),
{
    let mut res: Vec<Amount> = Vec::new();
    let mut i: usize = 0;
    while i < current.len()
        invariant
            i <= current.len(),
            res@.len() == i,
            forall|k: int|
                0 <= k < i ==> #[trigger] res@[k] == prior_named(previous@, current@[k].0@),
        decreases current.len() - i,
    {
        let name = &current[i].0;
        let accepts = |total: &(String, Amount)| -> (b: bool)
            ensures
                b == (total.0@ == name@)
        { same_text(&total.0, name) };
        let prior = match list::position(previous, accepts, Ghost(total_of(name@))) {
            Some(k) => previous[k].1,
            None => Amount::zero(),
        };
        res.push(prior);
        i = i + 1;
    }
    res
}

/// The row of a service.
pub open spec fn row_of(
    service: (String, Amount),
    prior: Amount,
    usage: Amount,
    share: Amount,
    pct: Amount,
) -> ServiceRow {
    ServiceRow {
        name: service.0,
        amount: service.1,
        share: attribution::share_of(usage, share),
        change_pct: overview::change_from(prior, pct),
    }
}

/// The rows of the services. `shares` holds what each is of the usage, `pcts`
/// its change in percent of what it used before; they are read only where there
/// is usage, and on a base of at least a cent.
pub fn service_rows(
    current: &Vec<(String, Amount)>,
    previous: &Vec<(String, Amount)>,
    usage: Amount,
    shares: &Vec<Amount>,
    pcts: &Vec<Amount>,
) -> (res: Vec<ServiceRow>)
    requires
        shares@.len() == current@.len(),
        pcts@.len() == current@.len(),
    ensures
        res@ == Seq::new(
            current@.len(),
            |i: int|
                row_of(
                    current@[i],
                    prior_named(previous@, current@[i].0@),
                    usage,
                    shares@[i],
                    pcts@[i],
                ),
        ),
{
    let priors = prior_services(current, previous);
    let mut rows: Vec<ServiceRow> = Vec::new();
    let mut i: usize = 0;
    while i < current.len()
        invariant
            i <= current.len(),
            shares@.len() == current@.len(),
            pcts@.len() == current@.len(),
            priors@.len() == current@.len(),
            rows@.len() == i,
            forall|k: int|
                0 <= k < i ==> #[trigger] rows@[k] == row_of(
                    current@[k],
                    priors@[k],
                    usage,
                    shares@[k],
                    pcts@[k],
                ),
        decreases current.len() - i,
    {
        rows.push(
            ServiceRow {
                name: current[i].0.clone(),
                amount: current[i].1,
                share: usage_share(usage, shares[i]),
                change_pct: change_pct(priors[i], pcts[i]),
            },
        );
        i = i + 1;
    }
    proof {
        assert(rows@ =~= Seq::new(
            current@.len(),
            |i: int|
                row_of(
                    current@[i],
                    prior_named(previous@, current@[i].0@),
                    usage,
                    shares@[i],
                    pcts@[i],
                ),
        ));
    }
    rows
}

// ==================== What the page asks ====================

/// What the page asks of the ledger, each total as the amounts it adds up.
pub struct DetailReads {
    /// The window's usage and credits.
    pub usage: Vec<Amount>,
    pub credits: Vec<Amount>,
    /// The usage of the window before.
    pub prior: Vec<Amount>,
    /// Usage by day, from before the month that a month is compared with.
    pub before: Vec<(String, Vec<Amount>)>,
    /// Usage by service, in the window and in the one before.
    pub services: Vec<(String, Vec<Amount>)>,
    pub services_before: Vec<(String, Vec<Amount>)>,
    /// Usage by day from the start of the window, or by month.
    pub series: Vec<(String, Vec<Amount>)>,
    /// The current month by region and by category.
    pub regions: Vec<(String, Vec<Amount>)>,
    pub categories: Vec<(String, Vec<Amount>)>,
    /// What the findings of the current month are decided from.
    pub quality: QualityCounts,
}

/// The calendar reaches as far back as the page looks.
pub open spec fn detail_reaches(range: Range, now: Timestamp) -> bool {
    range.reaches(now) && (range == Range::Mtd ==> month::month_reaches(now))
}

/// What an account is charged within a window.
pub open spec fn charged_to(account: CloudAccount, window: (Timestamp, Timestamp)) -> scope::Selection {
    scope::of_account(account.source_id.id@, account.id@).within(window.0, window.1)
}

/// What an account used since an instant.
pub open spec fn used_since(account: CloudAccount, since: Timestamp) -> scope::Selection {
    scope::of_account(account.source_id.id@, account.id@).from(since).usage()
}

/// What an account is charged in the month an instant falls in.
pub open spec fn charged_this_month(account: CloudAccount, now: Timestamp) -> scope::Selection {
    scope::of_account(account.source_id.id@, account.id@).in_period(month::this_month(now))
}

/// `reads` is what the page asks of the rows.
pub open spec fn asks_of_account(
    reads: DetailReads,
    all: Seq<NormalizedRow>,
    account: CloudAccount,
    range: Range,
    now: Timestamp,
) -> bool {
    let window = range.window(now);
    let prior = range.prior_window(now);
    let rows = scope::rows_in(all, charged_to(account, window));
    let month = scope::rows_in(all, charged_this_month(account, now));
    &&& reads.usage@ == scope::base_amounts(scope::usage_rows(rows))
    &&& reads.credits@ == scope::base_amounts(scope::credit_rows(rows))
    &&& if range == Range::Mtd {
        &&& reads.prior@.len() == 0
        &&& buckets::named_by(
            reads.before@,
            scope::rows_in(all, used_since(account, month::lookback(now))),
            Grouping::Day,
        )
    } else {
        &&& reads.prior@ == scope::base_amounts(
            scope::usage_rows(scope::rows_in(all, charged_to(account, prior))),
        )
        &&& reads.before@.len() == 0
    }
    &&& buckets::named_by(
        reads.services@,
        scope::rows_in(all, charged_to(account, window).usage()),
        Grouping::Dim(BreakdownDim::Service),
    )
    &&& buckets::named_by(
        reads.services_before@,
        scope::rows_in(all, charged_to(account, prior).usage()),
        Grouping::Dim(BreakdownDim::Service),
    )
    &&& buckets::named_by(
        reads.series@,
        scope::rows_in(all, used_since(account, window.0)),
        if range == Range::Months12 {
            Grouping::Period
        } else {
            Grouping::Day
        },
    )
    &&& buckets::named_by(reads.regions@, month, Grouping::Dim(BreakdownDim::Region))
    &&& buckets::named_by(reads.categories@, month, Grouping::Dim(BreakdownDim::ServiceCategory))
    &&& compare::counts_quality(reads.quality, all, month::this_month(now), BUSINESS_LINE_TAG@)
}

/// Ask the ledger for the page. A month is compared with the same days of the
/// one before, for a part of a month would always fall short of a whole one; a
/// rolling range is compared with the window before it.
pub fn detail_reads(
    all: &Vec<NormalizedRow>,
    account: &CloudAccount,
    range: Range,
    now: Timestamp,
) -> (res: DetailReads)
    requires
        memory::rows_dated(all@),
        all@.len() <= i64::MAX,
        detail_reaches(range, now),
    ensures
        asks_of_account(res, all@, *account, range, now),
{
    let provider = account.source_id.as_str();
    let id = account.id.as_str();
    let ((since, until), (prior_since, prior_until)) = range.windows(now);
    let (usage, credits) = query::usage_and_credits_of_between(all, provider, id, since, until);
    let (prior, before) = match range {
        Range::Mtd => {
            let today: u32 = now.date().day;
            let days: i64 = today as i64 + 31;
            (Vec::new(), query::daily_usage_of(all, provider, id, now.minus_days(days)))
        },
        _ => {
            let (prior, _) = query::usage_and_credits_of_between(
                all,
                provider,
                id,
                prior_since,
                prior_until,
            );
            (prior, Vec::new())
        },
    };
    let services = query::service_usage_of_between(all, provider, id, since, until);
    let services_before = query::service_usage_of_between(
        all,
        provider,
        id,
        prior_since,
        prior_until,
    );
    let series = match range {
        Range::Months12 => query::monthly_usage_of(all, provider, id, since),
        _ => query::daily_usage_of(all, provider, id, since),
    };
    let period = BillingPeriod::containing(now);
    let key = period_key(account, &period);
    let regions = query::breakdown_by(all, &key, BreakdownDim::Region);
    let categories = query::breakdown_by(all, &key, BreakdownDim::ServiceCategory);
    let quality = query::data_quality_issues(all, &key.billing_period, BUSINESS_LINE_TAG);
    DetailReads {
        usage,
        credits,
        prior,
        before,
        services,
        services_before,
        series,
        regions,
        categories,
        quality,
    }
}

// ==================== What follows from the totals ====================

/// What the page asked for, added up. What the window before used is still to be
/// added up, for a month takes it from its days.
#[derive(Debug)]
pub struct DetailTotals {
    pub usage: Amount,
    pub credits: Amount,
    pub prior: Vec<Amount>,
    pub before: Vec<(String, Amount)>,
    pub services: Vec<(String, Amount)>,
    pub services_before: Vec<(String, Amount)>,
    pub series: Vec<(String, Amount)>,
}

/// The totals in the order the page shows them, and what a percentage is still to
/// be worked out of.
#[derive(Debug)]
pub struct DetailRanked {
    pub usage: Amount,
    pub credits: Amount,
    /// What the usage is compared with, to be added up.
    pub prior: Vec<Amount>,
    pub services: Vec<(String, Amount)>,
    pub services_before: Vec<(String, Amount)>,
    /// What each service used before, in the order of `services`.
    pub priors: Vec<Amount>,
    pub series: Vec<(String, Amount)>,
}

/// `ranked` is what follows from the totals.
pub open spec fn ranks_account(
    ranked: DetailRanked,
    totals: DetailTotals,
    range: Range,
    now: Timestamp,
) -> bool {
    &&& ranked.usage == totals.usage
    &&& ranked.credits == totals.credits
    &&& ranked.prior@ == (if range == Range::Mtd {
        page::same_days(totals.before@, month::last_month(now), now.on().day as int)
    } else {
        totals.prior@
    })
    &&& ranked.services@ == ranked::positive_first(
        totals.services@,
        ranked::named_amounts(totals.services@),
    )
    &&& ranked.services_before@ == ranked::positive_first(
        totals.services_before@,
        ranked::named_amounts(totals.services_before@),
    )
    &&& ranked.priors@ == Seq::new(
        ranked.services@.len(),
        |i: int| prior_named(ranked.services_before@, ranked.services@[i].0@),
    )
    &&& ranked.series == totals.series
}

/// Rank the totals.
pub fn rank_detail(totals: DetailTotals, range: Range, now: Timestamp) -> (res: DetailRanked)
    requires
        detail_reaches(range, now),
    ensures
        ranks_account(res, totals, range, now),
{
    let prior = match range {
        Range::Mtd => {
            let previous = BillingPeriod::containing(now).previous().label();
            same_day_usage(&totals.before, &previous, now.date().day)
        },
        _ => totals.prior,
    };
    let services = rank_totals(totals.services);
    let services_before = rank_totals(totals.services_before);
    let priors = prior_services(&services, &services_before);
    proof {
        assert(priors@ =~= Seq::new(
            services@.len(),
            |i: int| prior_named(services_before@, services@[i].0@),
        ));
    }
    DetailRanked {
        usage: totals.usage,
        credits: totals.credits,
        prior,
        services,
        services_before,
        priors,
        series: totals.series,
    }
}

// ==================== The page ====================

/// What only arithmetic adds to the ranked totals.
#[derive(Debug)]
pub struct DetailFigures {
    /// Usage and credits together.
    pub spend: Amount,
    /// Usage to compare with: the same days of the month before, or the window
    /// before.
    pub prior: Amount,
    /// The change of usage in percent of that.
    pub change: Amount,
    /// What each service is of the usage, out of one.
    pub shares: Vec<Amount>,
    /// The change of each service, in percent.
    pub pcts: Vec<Amount>,
}

/// `chart` is the chart of the window; it has no baseline.
pub open spec fn charts_account(
    chart: SpendChart,
    totals: Seq<(String, Amount)>,
    range: Range,
    now: Timestamp,
) -> bool {
    let since = range.window(now).0;
    &&& chart.baseline@.len() == 0
    &&& if range == Range::Months12 {
        &&& chart.actual@.len() == 12
        &&& forall|k: int|
            #![trigger chart.actual@[k]]
            0 <= k < 12 ==> series::is_month_point(
                chart.actual@[k],
                BillingPeriod::at(calendar::period_of(now).index() - 11 + k),
                totals,
            )
    } else {
        &&& chart.actual@.len() == series::day_count(since, now)
        &&& forall|k: int|
            #![trigger chart.actual@[k]]
            0 <= k < chart.actual@.len() ==> series::is_day_point(
                chart.actual@[k],
                calendar::civil(since.day() + k),
                series::days_of(totals),
            )
    }
}

/// `page` shows the account's totals, the change against what they are compared
/// with, the chart and the services.
pub open spec fn shows_account(
    page: AccountDetailData,
    ranked: DetailRanked,
    figures: DetailFigures,
    range: Range,
    now: Timestamp,
) -> bool {
    &&& page.usage == ranked.usage
    &&& page.credits == ranked.credits
    &&& page.spend == figures.spend
    &&& page.change_pct == overview::change_from(figures.prior, figures.change)
    &&& charts_account(page.chart, ranked.series@, range, now)
    &&& page.services@ == Seq::new(
        ranked.services@.len(),
        |i: int|
            row_of(
                ranked.services@[i],
                prior_named(ranked.services_before@, ranked.services@[i].0@),
                ranked.usage,
                figures.shares@[i],
                figures.pcts@[i],
            ),
    )
}

/// The page of an account.
pub fn load_account_detail(
    account: &CloudAccount,
    ranked: &DetailRanked,
    figures: DetailFigures,
    currency: String,
    range: Range,
    now: Timestamp,
) -> (res: AccountDetailData)
    requires
        range.reaches(now),
        figures.shares@.len() == ranked.services@.len(),
        figures.pcts@.len() == ranked.services@.len(),
    ensures
        res.account_name@ == account.name@,
        res.provider@ == attribution::provider_label(account.source_id.id@),
        res.is_snapshot == (match cloud::source_of(account.source_id.id@) {
            Some(source) => source.reporting == Reporting::Snapshot,
            None => false,
        }),
        res.currency == currency,
        res.range == range,
        res.window_caption@ == range.caption(now),
        res.change_caption@ == page::labels_of(range).change_caption,
        shows_account(res, *ranked, figures, range, now),
{
    let ((since, _), _) = range.windows(now);
    let is_snapshot = match account.descriptor() {
        Some(descriptor) => descriptor.is_snapshot(),
        None => false,
    };
    let chart = match range {
        Range::Months12 => {
            let periods = trailing_year_periods(now);
            monthly_series(&ranked.series, &periods)
        },
        _ => daily_series(&daily_map(&ranked.series), since, now, None),
    };
    let services = service_rows(
        &ranked.services,
        &ranked.services_before,
        ranked.usage,
        &figures.shares,
        &figures.pcts,
    );
    AccountDetailData {
        account_name: account.name.clone(),
        provider: provider_name(account.source_id.as_str()),
        is_snapshot,
        currency,
        range,
        window_caption: range.header_caption(now),
        usage: ranked.usage,
        credits: ranked.credits,
        spend: figures.spend,
        change_pct: change_pct(figures.prior, figures.change),
        change_caption: change_caption(range),
        chart,
        services,
    }
}

// ==================== From the ledger to the page ====================

/// What the page asked for, added up by `sum`.
pub open spec fn sums_account(
    totals: DetailTotals,
    reads: DetailReads,
    sum: spec_fn(Seq<Amount>) -> Amount,
) -> bool {
    &&& totals.usage == sum(reads.usage@)
    &&& totals.credits == sum(reads.credits@)
    &&& totals.prior@ == reads.prior@
    &&& laws::names_summed(reads.before@, totals.before@, sum)
    &&& laws::names_summed(reads.services@, totals.services@, sum)
    &&& laws::names_summed(reads.services_before@, totals.services_before@, sum)
    &&& laws::names_summed(reads.series@, totals.series@, sum)
}

/// What a total is compared with: the same days of the month before, or the
/// window before.
pub open spec fn compared_with(
    totals: DetailTotals,
    all: Seq<NormalizedRow>,
    account: CloudAccount,
    range: Range,
    now: Timestamp,
) -> Seq<Amount> {
    if range == Range::Mtd {
        page::same_days(totals.before@, month::last_month(now), now.on().day as int)
    } else {
        scope::base_amounts(
            scope::usage_rows(scope::rows_in(all, charged_to(account, range.prior_window(now)))),
        )
    }
}

/// The page of an account shows what the ledger holds of it. Usage and credits
/// are the sums of the account's rows charged within the window; the change is
/// told just where what they are compared with comes to at least a cent; each
/// service is the sum of its usage rows. The chart has a point for each day of the
/// window up to now, or for each of the last 12 months; a point's amount is the
/// sum of the account's usage rows of its day or month, and nothing where there
/// are none.
pub proof fn the_account_page_shows_the_ledger(
    page: AccountDetailData,
    ranked: DetailRanked,
    totals: DetailTotals,
    reads: DetailReads,
    figures: DetailFigures,
    all: Seq<NormalizedRow>,
    account: CloudAccount,
    range: Range,
    now: Timestamp,
    sum: spec_fn(Seq<Amount>) -> Amount,
)
    requires
        detail_reaches(range, now),
        asks_of_account(reads, all, account, range, now),
        sums_account(totals, reads, sum),
        ranks_account(ranked, totals, range, now),
        figures.prior == sum(ranked.prior@),
        shows_account(page, ranked, figures, range, now),
    ensures
        ({
            let rows = scope::rows_in(all, charged_to(account, range.window(now)));
            let prior = sum(compared_with(totals, all, account, range, now));
            &&& page.usage == sum(scope::base_amounts(scope::usage_rows(rows)))
            &&& page.credits == sum(scope::base_amounts(scope::credit_rows(rows)))
            &&& page.change_pct == overview::change_from(prior, figures.change)
        }),
        forall|i: int|
            #![trigger page.services@[i]]
            0 <= i < page.services@.len() ==> {
                let row = page.services@[i];
                let used = scope::rows_in(all, charged_to(account, range.window(now)).usage());
                &&& row.amount.is_positive()
                &&& row.amount == sum(
                    scope::base_amounts(
                        buckets::bucket_rows(
                            used,
                            buckets::keyed(Grouping::Dim(BreakdownDim::Service)),
                            buckets::key1(row.name@),
                        ),
                    ),
                )
            },
        page.chart.baseline@.len() == 0,
        range == Range::Months12 ==> {
            &&& page.chart.actual@.len() == 12
            &&& forall|k: int|
                #![trigger page.chart.actual@[k]]
                0 <= k < 12 ==> {
                    let month = BillingPeriod::at(
                        calendar::period_of(now).index() - 11 + k,
                    ).text();
                    let used = scope::rows_in(all, used_since(account, range.window(now).0));
                    let point = page.chart.actual@[k];
                    &&& point.label@ == month
                    &&& point.amount == points::sum_or_nothing(
                        points::rows_of_month(used, month),
                        sum,
                    )
                }
        },
        range != Range::Months12 ==> {
            let since = range.window(now).0;
            &&& page.chart.actual@.len() == series::day_count(since, now)
            &&& forall|k: int|
                #![trigger page.chart.actual@[k]]
                0 <= k < page.chart.actual@.len() ==> {
                    let day = calendar::civil(since.day() + k);
                    let used = scope::rows_in(all, used_since(account, since));
                    let point = page.chart.actual@[k];
                    &&& point.label@ == calendar::day_label(day)
                    &&& points::labels_read_back(used, day) ==> point.amount
                        == points::sum_or_nothing(points::rows_of_day(used, day), sum)
                }
        },
{
    let since = range.window(now).0;
    let used = scope::rows_in(all, used_since(account, since));
    assert forall|i: int|
        #![trigger page.services@[i]]
        0 <= i < page.services@.len() implies {
        let row = page.services@[i];
        let used = scope::rows_in(all, charged_to(account, range.window(now)).usage());
        &&& row.amount.is_positive()
        &&& row.amount == sum(
            scope::base_amounts(
                buckets::bucket_rows(
                    used,
                    buckets::keyed(Grouping::Dim(BreakdownDim::Service)),
                    buckets::key1(row.name@),
                ),
            ),
        )
    } by {
        laws::a_ranked_total_is_its_rows(
            reads.services@,
            totals.services@,
            scope::rows_in(all, charged_to(account, range.window(now)).usage()),
            Grouping::Dim(BreakdownDim::Service),
            sum,
            i,
        );
    }
    if range == Range::Months12 {
        assert forall|k: int|
            #![trigger page.chart.actual@[k]]
            0 <= k < 12 implies {
            let month = BillingPeriod::at(calendar::period_of(now).index() - 11 + k).text();
            let point = page.chart.actual@[k];
            &&& point.label@ == month
            &&& point.amount == points::sum_or_nothing(points::rows_of_month(used, month), sum)
        } by {
            let month = BillingPeriod::at(calendar::period_of(now).index() - 11 + k).text();
            points::a_months_amount_is_its_rows(reads.series@, totals.series@, used, sum, month);
        }
    } else {
        assert forall|k: int|
            #![trigger page.chart.actual@[k]]
            0 <= k < page.chart.actual@.len() implies {
            let day = calendar::civil(since.day() + k);
            let point = page.chart.actual@[k];
            &&& point.label@ == calendar::day_label(day)
            &&& points::labels_read_back(used, day) ==> point.amount == points::sum_or_nothing(
                points::rows_of_day(used, day),
                sum,
            )
        } by {
            let day = calendar::civil(since.day() + k);
            if points::labels_read_back(used, day) {
                points::a_days_amount_is_its_rows(reads.series@, totals.series@, used, sum, day);
            }
        }
    }
}

} // verus!
