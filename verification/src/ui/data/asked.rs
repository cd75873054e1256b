//! What each page asks of the ledger, in terms of the rows' own columns.
use vstd::prelude::*;

use super::attribution;
use super::attribution::AttributionReads;
use super::detail;
use super::detail::DetailReads;
use super::month;
use super::month::MonthReads;
use super::range::Range;
use super::shown;
use super::window;
use super::window::WindowReads;
use crate::calendar;
use crate::calendar::{BillingPeriod, Timestamp};
use crate::ledger::compare;
use crate::ledger::grouping;
use crate::ledger::laws;
use crate::ledger::measured;
use crate::ledger::ranked;
use crate::ledger::reach;
use crate::ledger::scope;
use crate::memory::NormalizedRow;
use crate::model::{ChargeCategory, CloudAccount};
use crate::ui::attribution as drill;
use crate::ui::attribution::DrillReads;

verus! {

// ==================== Rows ====================

/// Being billed in a month.
pub open spec fn billed_in(month: Seq<char>) -> spec_fn(NormalizedRow) -> bool {
    |row: NormalizedRow| row.billing_period@ == month
}

/// Being usage that is billed in a month.
pub open spec fn used_in(month: Seq<char>) -> spec_fn(NormalizedRow) -> bool {
    |row: NormalizedRow|
        row.billing_period@ == month && row.charge_category == ChargeCategory::Usage
}

/// Being a credit or an adjustment that is billed in a month.
pub open spec fn credited_in(month: Seq<char>) -> spec_fn(NormalizedRow) -> bool {
    |row: NormalizedRow|
        row.billing_period@ == month && (row.charge_category == ChargeCategory::Credit
            || row.charge_category == ChargeCategory::Adjustment)
}

/// Being usage from an instant on.
pub open spec fn used_from(since: Timestamp) -> spec_fn(NormalizedRow) -> bool {
    |row: NormalizedRow|
        reach::starts_from(row, since) && row.charge_category == ChargeCategory::Usage
}

/// Starting in a window.
pub open spec fn charged_within(
    since: Timestamp,
    until: Timestamp,
) -> spec_fn(NormalizedRow) -> bool {
    |row: NormalizedRow| reach::starts_within(row, since, until)
}

/// Being usage that starts in a window.
pub open spec fn used_within(since: Timestamp, until: Timestamp) -> spec_fn(NormalizedRow) -> bool {
    |row: NormalizedRow|
        reach::starts_within(row, since, until) && row.charge_category == ChargeCategory::Usage
}

/// Being a credit or an adjustment that starts in a window.
pub open spec fn credited_within(
    since: Timestamp,
    until: Timestamp,
) -> spec_fn(NormalizedRow) -> bool {
    |row: NormalizedRow|
        reach::starts_within(row, since, until) && (row.charge_category == ChargeCategory::Credit
            || row.charge_category == ChargeCategory::Adjustment)
}

/// Being a charge of an account.
pub open spec fn is_of(account: CloudAccount, row: NormalizedRow) -> bool {
    row.provider@ == account.source_id.id@ && row.account_id@ == account.id@
}

/// Being usage of an account that starts in a window.
pub open spec fn used_by(
    account: CloudAccount,
    since: Timestamp,
    until: Timestamp,
) -> spec_fn(NormalizedRow) -> bool {
    |row: NormalizedRow|
        is_of(account, row) && reach::starts_within(row, since, until) && row.charge_category
            == ChargeCategory::Usage
}

/// Being a credit or an adjustment of an account that starts in a window.
pub open spec fn credited_to(
    account: CloudAccount,
    since: Timestamp,
    until: Timestamp,
) -> spec_fn(NormalizedRow) -> bool {
    |row: NormalizedRow|
        is_of(account, row) && reach::starts_within(row, since, until) && (row.charge_category
            == ChargeCategory::Credit || row.charge_category == ChargeCategory::Adjustment)
}

/// Being usage of an account from an instant on.
pub open spec fn used_by_from(
    account: CloudAccount,
    since: Timestamp,
) -> spec_fn(NormalizedRow) -> bool {
    |row: NormalizedRow|
        is_of(account, row) && reach::starts_from(row, since) && row.charge_category
            == ChargeCategory::Usage
}

/// Being billed to an account in a month.
pub open spec fn billed_to(account: CloudAccount, month: Seq<char>) -> spec_fn(NormalizedRow) -> bool {
    |row: NormalizedRow| is_of(account, row) && row.billing_period@ == month
}

/// The value for the business line.
pub open spec fn line_of() -> spec_fn(NormalizedRow) -> Seq<char> {
    |row: NormalizedRow| grouping::tag_text(row, "business_line"@)
}

/// The day a charge starts on.
pub open spec fn day_of() -> spec_fn(NormalizedRow) -> Seq<char> {
    |row: NormalizedRow|
        calendar::day_label(calendar::civil(row.charge_period_start.seconds as int / 86_400))
}

/// The service a charge is counted under.
pub open spec fn service_of() -> spec_fn(NormalizedRow) -> Seq<char> {
    |row: NormalizedRow| grouping::or_other(row.service_name)
}

/// The region a charge is counted under.
pub open spec fn region_of() -> spec_fn(NormalizedRow) -> Seq<char> {
    |row: NormalizedRow| grouping::or_other(row.region_id)
}

/// The service category a charge is counted under.
pub open spec fn category_of() -> spec_fn(NormalizedRow) -> Seq<char> {
    |row: NormalizedRow| grouping::or_other(row.service_category)
}

/// The period a charge is billed in.
pub open spec fn period_of() -> spec_fn(NormalizedRow) -> Seq<char> {
    |row: NormalizedRow| row.billing_period@
}

/// The month an instant falls in.
pub open spec fn month_of(now: Timestamp) -> Seq<char> {
    calendar::month_label(
        calendar::civil(now.seconds as int / 86_400).year as int,
        calendar::civil(now.seconds as int / 86_400).month as int,
    )
}

/// The month before the one an instant falls in.
pub open spec fn month_before(now: Timestamp) -> Seq<char> {
    let today = calendar::civil(now.seconds as int / 86_400);
    if today.month > 1 {
        calendar::month_label(today.year as int, today.month - 1)
    } else {
        calendar::month_label(today.year - 1, 12)
    }
}

proof fn lemma_months(now: Timestamp)
    requires
        now.valid(),
        calendar::period_of(now).index() > -262143 * 12,
    ensures
        month::this_month(now) == month_of(now),
        month::last_month(now) == month_before(now),
{
    calendar::lemma_day_exists(now);
    let today = now.on();
    let index = calendar::period_of(now).index() - 1;
    assert(index == today.year * 12 + today.month - 2);
    assert(BillingPeriod::at(index).year == index / 12);
    assert(BillingPeriod::at(index).month == index % 12 + 1);
}

proof fn lemma_rows(
    all: Seq<NormalizedRow>,
    chosen: scope::Selection,
    test: spec_fn(NormalizedRow) -> bool,
)
    requires
        forall|row: NormalizedRow| #[trigger] scope::in_scope(chosen, row) == test(row),
    ensures
        scope::rows_in(all, chosen) == all.filter(test),
{
    assert forall|row: NormalizedRow| #[trigger] scope::scoped(chosen)(row) == test(row) by {
        assert(scope::in_scope(chosen, row) == test(row));
    }
    assert(scope::scoped(chosen) =~= test);
}

/// What is asked of the rows of a scope: everything, the usage and the credits.
proof fn lemma_parts(
    all: Seq<NormalizedRow>,
    chosen: scope::Selection,
    every: spec_fn(NormalizedRow) -> bool,
    usage: spec_fn(NormalizedRow) -> bool,
    credits: spec_fn(NormalizedRow) -> bool,
)
    requires
        forall|row: NormalizedRow| #[trigger] scope::in_scope(chosen, row) == every(row),
        forall|row: NormalizedRow| #[trigger]
            usage(row) == (every(row) && row.charge_category == ChargeCategory::Usage),
        forall|row: NormalizedRow| #[trigger]
            credits(row) == (every(row) && (row.charge_category == ChargeCategory::Credit
                || row.charge_category == ChargeCategory::Adjustment)),
    ensures
        scope::rows_in(all, chosen) == all.filter(every),
        scope::usage_rows(scope::rows_in(all, chosen)) == all.filter(usage),
        scope::credit_rows(scope::rows_in(all, chosen)) == all.filter(credits),
        scope::base_amounts(scope::rows_in(all, chosen)) == reach::billed_amounts(
            all.filter(every),
        ),
        scope::base_amounts(scope::usage_rows(scope::rows_in(all, chosen)))
            == reach::billed_amounts(all.filter(usage)),
        scope::base_amounts(scope::credit_rows(scope::rows_in(all, chosen)))
            == reach::billed_amounts(all.filter(credits)),
{
    lemma_rows(all, chosen, every);
    laws::filters_combine(all, every, |row: NormalizedRow| scope::is_usage(row), usage);
    laws::filters_combine(all, every, |row: NormalizedRow| scope::is_credit(row), credits);
    reach::a_total_adds_up_billed_amounts(all.filter(every));
    reach::a_total_adds_up_billed_amounts(all.filter(usage));
    reach::a_total_adds_up_billed_amounts(all.filter(credits));
}

proof fn lemma_columns()
    ensures
        line_of() == (|row: NormalizedRow| grouping::tag_text(row, "business_line"@)),
        service_of() == (|row: NormalizedRow|
            match row.service_name {
                Some(name) => name@,
                None => "Other"@,
            }),
        region_of() == (|row: NormalizedRow|
            match row.region_id {
                Some(name) => name@,
                None => "Other"@,
            }),
        category_of() == (|row: NormalizedRow|
            match row.service_category {
                Some(name) => name@,
                None => "Other"@,
            }),
{
    assert(service_of() =~= (|row: NormalizedRow|
        match row.service_name {
            Some(name) => name@,
            None => "Other"@,
        }));
    assert(region_of() =~= (|row: NormalizedRow|
        match row.region_id {
            Some(name) => name@,
            None => "Other"@,
        }));
    assert(category_of() =~= (|row: NormalizedRow|
        match row.service_category {
            Some(name) => name@,
            None => "Other"@,
        }));
}

// ==================== The month ====================

/// What the month page asks: what the month was billed, used and was credited; its
/// usage by business line, by service, and by both; the usage of the month before
/// by service; and usage by day from a month and the days of this one back.
pub proof fn the_month_page_asks_of_its_month(
    reads: MonthReads,
    all: Seq<NormalizedRow>,
    now: Timestamp,
)
    requires
        month::asks_of_month(reads, all, now),
        month::month_reaches(now),
    ensures
        reads.period@ == month_of(now),
        reads.previous@ == month_before(now),
        reads.spend@ == reach::billed_amounts(all.filter(billed_in(month_of(now)))),
        reads.usage@ == reach::billed_amounts(all.filter(used_in(month_of(now)))),
        reads.credits@ == reach::billed_amounts(all.filter(credited_in(month_of(now)))),
        grouping::splits_by(
            reads.daily@,
            all.filter(used_from(month::lookback(now))),
            day_of(),
        ),
        grouping::splits_by(reads.lines@, all.filter(used_in(month_of(now))), line_of()),
        grouping::splits_by_service(reads.services@, all.filter(used_in(month_of(now)))),
        grouping::splits_by_service(
            reads.services_before@,
            all.filter(used_in(month_before(now))),
        ),
        grouping::splits_by_service_and_tag(
            reads.tags@,
            all.filter(used_in(month_of(now))),
            "business_line"@,
        ),
{
    lemma_months(now);
    lemma_columns();
    let this = month_of(now);
    let before = month_before(now);
    let of_this = scope::of_period(this);
    lemma_parts(all, of_this, billed_in(this), used_in(this), credited_in(this));
    lemma_rows(all, of_this.usage(), used_in(this));
    lemma_rows(all, scope::of_period(before).usage(), used_in(before));
    let since = month::lookback(now);
    lemma_rows(all, scope::everything().from(since).usage(), used_from(since));
    grouping::a_breakdown_by_day(reads.daily@, all.filter(used_from(since)));
    assert(day_of() =~= (|row: NormalizedRow|
        calendar::day_label(calendar::civil(row.charge_period_start.seconds as int / 86_400))));
    let used = all.filter(used_in(this));
    grouping::a_breakdown_by_tag(reads.lines@, used, super::page::BUSINESS_LINE_TAG);
    assert(line_of() =~= (|row: NormalizedRow| grouping::tag_text(
        row,
        super::page::BUSINESS_LINE_TAG@,
    )));
    grouping::a_breakdown_by_provider_and_service(reads.services@, used);
    grouping::a_breakdown_by_provider_and_service(
        reads.services_before@,
        all.filter(used_in(before)),
    );
    grouping::a_breakdown_by_service_and_tag(reads.tags@, used, super::page::BUSINESS_LINE_TAG);
}

/// The daily usage that the month page asks for reaches back to before the first
/// day of the month before.
pub proof fn the_month_page_looks_back_a_whole_month(now: Timestamp)
    requires
        month::month_reaches(now),
    ensures
        ({
            let today = calendar::civil(now.seconds as int / 86_400);
            month::lookback(now).seconds < (if today.month > 1 {
                shown::first_second(today.year as int, today.month - 1)
            } else {
                shown::first_second(today.year - 1, 12)
            })
        }),
{
    calendar::lemma_day_exists(now);
    let today = now.on();
    let index = calendar::period_of(now).index();
    assert(index == today.year * 12 + today.month - 1);
    calendar::lemma_civil(today);
    if today.month > 1 {
        calendar::a_month_has_its_days(today.year as int, today.month - 1);
    } else {
        calendar::a_month_has_its_days(today.year - 1, 12);
    }
    let first = calendar::period_of(now).first_day();
    assert(first.number() == today.number() - today.day + 1);
    assert(now.seconds < (today.number() + 1) * 86_400);
}

/// What the month page compares and forecasts from: both months by service, the
/// change between them by charge category and by service, the charges so far, and
/// the counts behind the findings.
pub proof fn the_month_page_compares_its_months(
    reads: MonthReads,
    all: Seq<NormalizedRow>,
    now: Timestamp,
)
    requires
        month::asks_of_month(reads, all, now),
        month::month_reaches(now),
        month_of(now) != month_before(now),
    ensures
        grouping::splits_by(
            reads.compared.0@,
            all.filter(billed_in(month_of(now))),
            service_of(),
        ),
        grouping::splits_by(
            reads.compared.1@,
            all.filter(billed_in(month_before(now))),
            service_of(),
        ),
        grouping::compares_by(
            reads.changed.1@,
            all,
            month_of(now),
            month_before(now),
            service_of(),
        ),
        grouping::compares_by(
            reads.changed.0@,
            all,
            month_of(now),
            month_before(now),
            |row: NormalizedRow|
                match row.charge_category {
                    ChargeCategory::Usage => "Usage"@,
                    ChargeCategory::Credit => "Credit"@,
                    ChargeCategory::Adjustment => "Adjustment"@,
                    ChargeCategory::Purchase => "Purchase"@,
                    ChargeCategory::Tax => "Tax"@,
                },
        ),
        reads.run_rate.month_to_date@ == reach::billed_amounts(
            all.filter(billed_in(month_of(now))).filter(measured::started_by(now)),
        ),
        compare::counts_quality(reads.quality, all, month_of(now), "business_line"@),
{
    lemma_months(now);
    lemma_columns();
    let this = month_of(now);
    let before = month_before(now);
    lemma_rows(all, scope::of_period(this), billed_in(this));
    assert(compare::billed_in(this) =~= billed_in(this));
    assert(compare::billed_before(this, before) =~= billed_in(before));
    grouping::a_breakdown_by_service(reads.compared.0@, all.filter(billed_in(this)));
    grouping::a_breakdown_by_service(reads.compared.1@, all.filter(billed_in(before)));
    grouping::a_change_is_split_by_category_and_service(
        reads.changed.0@,
        reads.changed.1@,
        all,
        this,
        before,
    );
    measured::a_run_rate_counts_what_started(
        reads.run_rate,
        all.filter(billed_in(this)),
        now,
    );
}

// ==================== The window ====================

/// What the window page asks: what the window was billed, used and was credited;
/// the usage of the window before; and usage by business line and by service.
pub proof fn the_window_page_asks_of_its_window(
    reads: WindowReads,
    all: Seq<NormalizedRow>,
    range: Range,
    now: Timestamp,
)
    requires
        window::asks_of_window(reads, all, range, now),
    ensures
        ({
            let (since, until) = range.window(now);
            let (before, end) = range.prior_window(now);
            &&& reads.spend@ == reach::billed_amounts(all.filter(charged_within(since, until)))
            &&& reads.usage@ == reach::billed_amounts(all.filter(used_within(since, until)))
            &&& reads.credits@ == reach::billed_amounts(all.filter(credited_within(since, until)))
            &&& reads.prior@ == reach::billed_amounts(all.filter(used_within(before, end)))
            &&& grouping::splits_by(
                reads.lines@,
                all.filter(used_within(since, until)),
                line_of(),
            )
            &&& grouping::splits_by_service(reads.services@, all.filter(used_within(since, until)))
            &&& grouping::splits_by_service(
                reads.services_before@,
                all.filter(used_within(before, end)),
            )
            &&& range == Range::Months12 ==> grouping::splits_by(
                reads.series@,
                all.filter(used_from(since)),
                period_of(),
            )
            &&& range != Range::Months12 ==> grouping::splits_by(
                reads.series@,
                all.filter(
                    used_from(
                        (Timestamp {
                            seconds: (since.seconds - 7 * 86_400) as i64,
                            nanos: since.nanos,
                        }),
                    ),
                ),
                day_of(),
            )
            &&& compare::counts_quality(reads.quality, all, month_of(now), "business_line"@)
        }),
{
    lemma_columns();
    let (since, until) = range.window(now);
    let (before, end) = range.prior_window(now);
    let chosen = window::charged_in(range.window(now));
    let prior = window::charged_in(range.prior_window(now));
    lemma_parts(
        all,
        chosen,
        charged_within(since, until),
        used_within(since, until),
        credited_within(since, until),
    );
    lemma_parts(
        all,
        prior,
        charged_within(before, end),
        used_within(before, end),
        credited_within(before, end),
    );
    lemma_rows(all, chosen.usage(), used_within(since, until));
    lemma_rows(all, prior.usage(), used_within(before, end));
    let used = all.filter(used_within(since, until));
    grouping::a_breakdown_by_tag(reads.lines@, used, super::page::BUSINESS_LINE_TAG);
    assert(line_of() =~= (|row: NormalizedRow| grouping::tag_text(
        row,
        super::page::BUSINESS_LINE_TAG@,
    )));
    grouping::a_breakdown_by_provider_and_service(reads.services@, used);
    grouping::a_breakdown_by_provider_and_service(
        reads.services_before@,
        all.filter(used_within(before, end)),
    );
    if range == Range::Months12 {
        lemma_rows(all, scope::everything().from(since).usage(), used_from(since));
        grouping::a_breakdown_by_period(reads.series@, all.filter(used_from(since)));
        assert(period_of() =~= (|row: NormalizedRow| row.billing_period@));
    } else {
        let week = window::week_before(since);
        lemma_rows(all, scope::everything().from(week).usage(), used_from(week));
        grouping::a_breakdown_by_day(reads.series@, all.filter(used_from(week)));
        assert(day_of() =~= (|row: NormalizedRow|
            calendar::day_label(calendar::civil(row.charge_period_start.seconds as int / 86_400))));
    }
}

// ==================== One account ====================

/// What the page of an account asks: what the account used and was credited in the
/// window, its usage of the window before, its usage by service in both, its usage
/// over time, and its current month by region and by service category.
pub proof fn the_account_page_asks_of_its_account(
    reads: DetailReads,
    all: Seq<NormalizedRow>,
    account: CloudAccount,
    range: Range,
    now: Timestamp,
)
    requires
        detail::asks_of_account(reads, all, account, range, now),
    ensures
        ({
            let (since, until) = range.window(now);
            let (before, end) = range.prior_window(now);
            let used = all.filter(used_by(account, since, until));
            &&& reads.usage@ == reach::billed_amounts(used)
            &&& reads.credits@ == reach::billed_amounts(
                all.filter(credited_to(account, since, until)),
            )
            &&& range != Range::Mtd ==> reads.prior@ == reach::billed_amounts(
                all.filter(used_by(account, before, end)),
            )
            &&& range == Range::Mtd ==> grouping::splits_by(
                reads.before@,
                all.filter(used_by_from(account, month::lookback(now))),
                day_of(),
            )
            &&& grouping::splits_by(reads.services@, used, service_of())
            &&& grouping::splits_by(
                reads.services_before@,
                all.filter(used_by(account, before, end)),
                service_of(),
            )
            &&& range == Range::Months12 ==> grouping::splits_by(
                reads.series@,
                all.filter(used_by_from(account, since)),
                period_of(),
            )
            &&& range != Range::Months12 ==> grouping::splits_by(
                reads.series@,
                all.filter(used_by_from(account, since)),
                day_of(),
            )
            &&& grouping::splits_by(
                reads.regions@,
                all.filter(billed_to(account, month_of(now))),
                region_of(),
            )
            &&& grouping::splits_by(
                reads.categories@,
                all.filter(billed_to(account, month_of(now))),
                category_of(),
            )
            &&& compare::counts_quality(reads.quality, all, month_of(now), "business_line"@)
        }),
{
    lemma_columns();
    let (since, until) = range.window(now);
    let (before, end) = range.prior_window(now);
    let chosen = detail::charged_to(account, range.window(now));
    let prior = detail::charged_to(account, range.prior_window(now));
    let every = |row: NormalizedRow| is_of(account, row) && reach::starts_within(row, since, until);
    let every_before = |row: NormalizedRow|
        is_of(account, row) && reach::starts_within(row, before, end);
    lemma_parts(
        all,
        chosen,
        every,
        used_by(account, since, until),
        credited_to(account, since, until),
    );
    lemma_parts(
        all,
        prior,
        every_before,
        used_by(account, before, end),
        credited_to(account, before, end),
    );
    lemma_rows(all, chosen.usage(), used_by(account, since, until));
    lemma_rows(all, prior.usage(), used_by(account, before, end));
    lemma_rows(all, detail::used_since(account, since), used_by_from(account, since));
    let month = month_of(now);
    lemma_rows(all, detail::charged_this_month(account, now), billed_to(account, month));
    assert(day_of() =~= (|row: NormalizedRow|
        calendar::day_label(calendar::civil(row.charge_period_start.seconds as int / 86_400))));
    if range == Range::Mtd {
        let back = month::lookback(now);
        lemma_rows(all, detail::used_since(account, back), used_by_from(account, back));
        grouping::a_breakdown_by_day(reads.before@, all.filter(used_by_from(account, back)));
    }
    grouping::a_breakdown_by_service(
        reads.services@,
        all.filter(used_by(account, since, until)),
    );
    grouping::a_breakdown_by_service(
        reads.services_before@,
        all.filter(used_by(account, before, end)),
    );
    if range == Range::Months12 {
        grouping::a_breakdown_by_period(reads.series@, all.filter(used_by_from(account, since)));
        assert(period_of() =~= (|row: NormalizedRow| row.billing_period@));
    } else {
        grouping::a_breakdown_by_day(reads.series@, all.filter(used_by_from(account, since)));
    }
    grouping::a_breakdown_by_region(reads.regions@, all.filter(billed_to(account, month)));
    grouping::a_breakdown_by_service_category(
        reads.categories@,
        all.filter(billed_to(account, month)),
    );
}

// ==================== Attribution ====================

/// Being the month's usage of a service that has no business line.
pub open spec fn untagged_of(
    month: Seq<char>,
    provider: Seq<char>,
    service: Option<Seq<char>>,
) -> spec_fn(NormalizedRow) -> bool {
    |row: NormalizedRow|
        {
            &&& row.billing_period@ == month
            &&& row.charge_category == ChargeCategory::Usage
            &&& measured::lacks_tag(row, "business_line"@)
            &&& row.provider@ == provider
            &&& row.service_name is Some <==> service is Some
            &&& row.service_name is Some ==> row.service_name->0@ == service->0
        }
}

/// What the attribution page asks: the month's usage, by service, by business line,
/// and by both, and the month's usage that has no business line.
pub proof fn the_attribution_page_asks_of_the_months_usage(
    reads: AttributionReads,
    all: Seq<NormalizedRow>,
    now: Timestamp,
)
    requires
        attribution::asks_of_lines(reads, all, now),
    ensures
        ({
            let used = all.filter(used_in(month_of(now)));
            &&& reads.usage@ == reach::billed_amounts(used)
            &&& grouping::splits_by_service(reads.services@, used)
            &&& grouping::splits_by_service_and_tag(reads.tags@, used, "business_line"@)
            &&& grouping::splits_by(reads.lines@, used, line_of())
        }),
        all.filter(ranked::untagged_usage(month_of(now), "business_line"@)) == all.filter(
            |row: NormalizedRow|
                row.billing_period@ == month_of(now) && row.charge_category == ChargeCategory::Usage
                    && measured::lacks_tag(row, "business_line"@),
        ),
        forall|b: int|
            #![trigger reads.untagged@[b]]
            0 <= b < reads.untagged@.len() ==> reads.untagged@[b].terms@ == reach::billed_amounts(
                all.filter(
                    untagged_of(
                        month_of(now),
                        reads.untagged@[b].provider@,
                        crate::order::part_view(reads.untagged@[b].service),
                    ),
                ),
            ),
{
    lemma_columns();
    let month = month_of(now);
    lemma_parts(
        all,
        scope::of_period(month),
        billed_in(month),
        used_in(month),
        credited_in(month),
    );
    lemma_rows(all, scope::of_period(month).usage(), used_in(month));
    let used = all.filter(used_in(month));
    grouping::a_breakdown_by_provider_and_service(reads.services@, used);
    grouping::a_breakdown_by_service_and_tag(reads.tags@, used, super::page::BUSINESS_LINE_TAG);
    grouping::a_breakdown_by_tag(reads.lines@, used, super::page::BUSINESS_LINE_TAG);
    assert(line_of() =~= (|row: NormalizedRow| grouping::tag_text(
        row,
        super::page::BUSINESS_LINE_TAG@,
    )));
    measured::untagged_usage_lacks_the_tag(all, month, "business_line"@);
    let untagged = all.filter(ranked::untagged_usage(month, "business_line"@));
    let lacking = |row: NormalizedRow|
        row.billing_period@ == month && row.charge_category == ChargeCategory::Usage
            && measured::lacks_tag(row, "business_line"@);
    assert(untagged == all.filter(lacking));
    grouping::a_breakdown_by_named_service(reads.untagged@, untagged);
    assert forall|b: int| #![trigger reads.untagged@[b]] 0 <= b < reads.untagged@.len() implies
        reads.untagged@[b].terms@ == reach::billed_amounts(
        all.filter(
            untagged_of(
                month,
                reads.untagged@[b].provider@,
                crate::order::part_view(reads.untagged@[b].service),
            ),
        ),
    ) by {
        let provider = reads.untagged@[b].provider@;
        let service = crate::order::part_view(reads.untagged@[b].service);
        let named = |row: NormalizedRow|
            row.provider@ == reads.untagged@[b].provider@ && crate::order::part_view(
                row.service_name,
            ) == crate::order::part_view(reads.untagged@[b].service);
        let test = untagged_of(month, provider, service);
        assert(reads.untagged@[b].terms@ == scope::base_amounts(untagged.filter(named)));
        laws::filters_combine(all, lacking, named, test);
        reach::a_total_adds_up_billed_amounts(all.filter(test));
    }
}

/// What the drill-down asks of an account: its bill of the month and that of the
/// month before, each by service, by region and by service category, and the
/// month's charges by resource.
pub proof fn the_drilldown_asks_of_an_accounts_bills(
    reads: DrillReads,
    all: Seq<NormalizedRow>,
    account: CloudAccount,
    now: Timestamp,
)
    requires
        drill::asks_of_bill(reads, all, account, now),
        now.valid(),
        calendar::period_of(now).index() > -262143 * 12,
    ensures
        ({
            let billed = all.filter(billed_to(account, month_of(now)));
            let before = all.filter(billed_to(account, month_before(now)));
            &&& grouping::splits_by(reads.by_service@, billed, service_of())
            &&& grouping::splits_by(reads.by_region@, billed, region_of())
            &&& grouping::splits_by(reads.by_category@, billed, category_of())
            &&& grouping::splits_by(reads.prev_by_service@, before, service_of())
            &&& grouping::splits_by(reads.prev_by_region@, before, region_of())
            &&& grouping::splits_by(reads.prev_by_category@, before, category_of())
            &&& forall|b: int|
                #![trigger reads.resources@[b]]
                0 <= b < reads.resources@.len() ==> {
                    let own = billed.filter(is_resource(reads.resources@[b].resource_id@));
                    &&& own.len() > 0
                    &&& reads.resources@[b].terms@ == reach::billed_amounts(own)
                    &&& reads.resources@[b].resource_name == own[0].resource_name
                    &&& reads.resources@[b].service@ == service_of()(own[0])
                }
        }),
{
    lemma_columns();
    lemma_months(now);
    let owner = scope::of_account(account.source_id.id@, account.id@);
    let billed = all.filter(billed_to(account, month_of(now)));
    let before = all.filter(billed_to(account, month_before(now)));
    lemma_rows(all, owner.in_period(month_of(now)), billed_to(account, month_of(now)));
    lemma_rows(all, owner.in_period(month_before(now)), billed_to(account, month_before(now)));
    grouping::a_breakdown_by_service(reads.by_service@, billed);
    grouping::a_breakdown_by_region(reads.by_region@, billed);
    grouping::a_breakdown_by_service_category(reads.by_category@, billed);
    grouping::a_breakdown_by_service(reads.prev_by_service@, before);
    grouping::a_breakdown_by_region(reads.prev_by_region@, before);
    grouping::a_breakdown_by_service_category(reads.prev_by_category@, before);
    grouping::a_breakdown_by_resource(reads.resources@, billed);
    assert forall|b: int| #![trigger reads.resources@[b]] 0 <= b < reads.resources@.len() implies {
        let own = billed.filter(is_resource(reads.resources@[b].resource_id@));
        &&& own.len() > 0
        &&& reads.resources@[b].terms@ == reach::billed_amounts(own)
        &&& reads.resources@[b].resource_name == own[0].resource_name
        &&& reads.resources@[b].service@ == service_of()(own[0])
    } by {
        let id = reads.resources@[b].resource_id@;
        assert(is_resource(id) =~= (|row: NormalizedRow|
            row.resource_id is Some && row.resource_id->0@ == reads.resources@[b].resource_id@));
        let own = billed.filter(is_resource(id));
        reach::a_total_adds_up_billed_amounts(own);
        assert(own.len() > 0);
        assert(reads.resources@[b].resource_name == own[0].resource_name);
        assert(reads.resources@[b].terms@ == scope::base_amounts(own));
        assert(reads.resources@[b].service@ == grouping::or_other(own[0].service_name));
    }
}

/// Being a charge of a resource.
pub open spec fn is_resource(id: Seq<char>) -> spec_fn(NormalizedRow) -> bool {
    |row: NormalizedRow| row.resource_id is Some && row.resource_id->0@ == id
}

} // verus!
