//! Reading the ledger.
//!
//! Every read is a fold over the converted rows: a scope selects rows, a bucket
//! groups them, a ranking orders the buckets. A read that totals hands out the
//! amounts that go into each total, in ledger order; once they are added up, a
//! ranking read takes the totals and drops and orders them.
//!
//! Two properties hold throughout. A charge that no rate covers has no
//! converted amount and adds nothing to a total. And a ranking leaves out a
//! bucket that nets to nothing rather than listing it as a zero row.
use vstd::prelude::*;

pub use super::compare::{
    account_forecast, cost_change_decomposition, data_quality_issues, forecast_bands_for_period,
    forecast_for_period, period_over_period, rank_regionless, trailing_daily_average,
};
pub use super::history::{
    api_fetches_this_month, balance_observations, channel_of, last_ingest, last_ingests,
    latest_balance,
};
pub use super::ranked::{
    rank_services, rank_totals, resource_terms, tag_usage_breakdown_by_service, top_resources,
    unconverted_charges, untagged_detail, untagged_usage_by_service,
    untagged_usage_terms_by_service,
};

use super::buckets;
use super::buckets::{
    totals_by_name, totals_by_provider_service, totals_by_provider_service_tag,
    totals_by_service_day, Grouping, ServiceDayTerms, ServiceTagTerms, ServiceTerms,
};
use super::scope;
use super::scope::{net_total, selected, usage_and_credits_of_rows, Scope};
use crate::amount::Amount;
use crate::calendar::Timestamp;
use crate::error::Error;
use crate::memory;
use crate::memory::NormalizedRow;
use crate::model::{BreakdownDim, PeriodKey};

verus! {

// ==================== Period and per-account totals ====================

/// The amounts that one billing period's total adds up.
pub fn period_total(all: &Vec<NormalizedRow>, key: &PeriodKey) -> (res: Vec<Amount>)
    ensures
        res@ == scope::base_amounts(scope::rows_in(all@, scope::of_key(*key))),
{
    let scope = key_scope(key);
    net_total(&selected(all, &scope))
}

fn key_scope<'a>(key: &'a PeriodKey) -> (res: Scope<'a>)
    ensures
        res@ == scope::of_key(*key),
{
    Scope {
        provider: Some(key.provider.as_str()),
        account_id: Some(key.account_id.as_str()),
        billing_period: Some(key.billing_period.as_str()),
        service: None,
        since: None,
        until: None,
        usage_only: false,
    }
}

/// The amounts that a billing period's total across every account adds up.
pub fn total_for_period(all: &Vec<NormalizedRow>, billing_period: &str) -> (res: Vec<Amount>)
    ensures
        res@ == scope::base_amounts(scope::rows_in(all@, scope::of_period(billing_period@))),
{
    let scope = Scope { billing_period: Some(billing_period), ..Scope::unfiltered() };
    net_total(&selected(all, &scope))
}

/// Charges of one period grouped by service.
pub fn service_breakdown(all: &Vec<NormalizedRow>, key: &PeriodKey) -> (res: Vec<
    (String, Vec<Amount>),
>)
    requires
        memory::rows_dated(all@),
    ensures
        buckets::named_by(res@, scope::rows_in(all@, scope::of_key(*key)), Grouping::Dim(BreakdownDim::Service)),
{
    breakdown_by(all, key, BreakdownDim::Service)
}

/// Charges of one period grouped by `dim`.
pub fn breakdown_by(all: &Vec<NormalizedRow>, key: &PeriodKey, dim: BreakdownDim) -> (res: Vec<
    (String, Vec<Amount>),
>)
    requires
        memory::rows_dated(all@),
    ensures
        buckets::named_by(res@, scope::rows_in(all@, scope::of_key(*key)), Grouping::Dim(dim)),
{
    let scope = key_scope(key);
    totals_by_name(&selected(all, &scope), Grouping::Dim(dim))
}

/// Charges of one period grouped by provider and service.
pub fn provider_service_totals(all: &Vec<NormalizedRow>, billing_period: &str) -> (res: Vec<
    ServiceTerms,
>)
    requires
        memory::rows_dated(all@),
    ensures
        buckets::services_by(res@, scope::rows_in(all@, scope::of_period(billing_period@))),
{
    let scope = Scope { billing_period: Some(billing_period), ..Scope::unfiltered() };
    totals_by_provider_service(&selected(all, &scope))
}

// ==================== Daily and monthly series ====================

/// Daily charges of an account since an instant, oldest first.
pub fn daily_totals(
    all: &Vec<NormalizedRow>,
    provider: &str,
    account_id: &str,
    since: Timestamp,
) -> (res: Vec<(String, Vec<Amount>)>)
    requires
        memory::rows_dated(all@),
    ensures
        buckets::named_by(
            res@,
            scope::rows_in(all@, scope::of_account(provider@, account_id@).from(since)),
            Grouping::Day,
        ),
{
    let scope = Scope {
        provider: Some(provider),
        account_id: Some(account_id),
        since: Some(since),
        ..Scope::unfiltered()
    };
    totals_by_name(&selected(all, &scope), Grouping::Day)
}

/// Daily charges across every provider and account since an instant, oldest
/// first.
pub fn daily_totals_all(all: &Vec<NormalizedRow>, since: Timestamp) -> (res: Vec<
    (String, Vec<Amount>),
>)
    requires
        memory::rows_dated(all@),
    ensures
        buckets::named_by(res@, scope::rows_in(all@, scope::everything().from(since)), Grouping::Day),
{
    let scope = Scope { since: Some(since), ..Scope::unfiltered() };
    totals_by_name(&selected(all, &scope), Grouping::Day)
}

/// Daily usage of an account since an instant, oldest first.
pub fn daily_usage_of(
    all: &Vec<NormalizedRow>,
    provider: &str,
    account_id: &str,
    since: Timestamp,
) -> (res: Vec<(String, Vec<Amount>)>)
    requires
        memory::rows_dated(all@),
    ensures
        buckets::named_by(
            res@,
            scope::rows_in(all@, scope::of_account(provider@, account_id@).from(since).usage()),
            Grouping::Day,
        ),
{
    let scope = Scope {
        provider: Some(provider),
        account_id: Some(account_id),
        since: Some(since),
        usage_only: true,
        ..Scope::unfiltered()
    };
    totals_by_name(&selected(all, &scope), Grouping::Day)
}

/// Daily usage across every provider and account since an instant, oldest
/// first: a credit landing on one day does not dip the series below what was
/// consumed.
pub fn daily_usage_all(all: &Vec<NormalizedRow>, since: Timestamp) -> (res: Vec<
    (String, Vec<Amount>),
>)
    requires
        memory::rows_dated(all@),
    ensures
        buckets::named_by(res@, scope::rows_in(all@, scope::everything().from(since).usage()), Grouping::Day),
{
    let scope = Scope { since: Some(since), usage_only: true, ..Scope::unfiltered() };
    totals_by_name(&selected(all, &scope), Grouping::Day)
}

/// Daily charges per provider and service since an instant, oldest first.
pub fn daily_totals_by_service(all: &Vec<NormalizedRow>, since: Timestamp) -> (res: Vec<
    ServiceDayTerms,
>)
    requires
        memory::rows_dated(all@),
    ensures
        buckets::service_days_by(res@, scope::rows_in(all@, scope::everything().from(since))),
{
    service_daily_totals(all, None, since)
}

/// [`daily_totals_by_service`] for a single account.
pub fn daily_totals_for_account(
    all: &Vec<NormalizedRow>,
    account_id: &str,
    since: Timestamp,
) -> (res: Vec<ServiceDayTerms>)
    requires
        memory::rows_dated(all@),
    ensures
        buckets::service_days_by(
            res@,
            scope::rows_in(
                all@,
                (scope::Selection { account_id: Some(account_id@), ..scope::everything() }).from(since),
            ),
        ),
{
    service_daily_totals(all, Some(account_id), since)
}

/// Grouped by day, provider and service: ordered by day, and within a day by
/// provider and service.
fn service_daily_totals(
    all: &Vec<NormalizedRow>,
    account_id: Option<&str>,
    since: Timestamp,
) -> (res: Vec<ServiceDayTerms>)
    requires
        memory::rows_dated(all@),
    ensures
        buckets::service_days_by(
            res@,
            scope::rows_in(
                all@,
                (scope::Selection { account_id: scope::text_view(account_id), ..scope::everything() }).from(since),
            ),
        ),
{
    let scope = Scope { account_id, since: Some(since), ..Scope::unfiltered() };
    totals_by_service_day(&selected(all, &scope))
}

/// Usage per billing period since an instant, ordered by period label.
///
/// Grouped by the billing period rather than by the month of the charge, so the
/// buckets are the months that everything else reasons about.
pub fn monthly_usage(all: &Vec<NormalizedRow>, since: Timestamp) -> (res: Vec<
    (String, Vec<Amount>),
>)
    requires
        memory::rows_dated(all@),
    ensures
        buckets::named_by(res@, scope::rows_in(all@, scope::everything().from(since).usage()), Grouping::Period),
{
    let scope = Scope { since: Some(since), usage_only: true, ..Scope::unfiltered() };
    totals_by_name(&selected(all, &scope), Grouping::Period)
}

/// [`monthly_usage`] for a single account.
pub fn monthly_usage_of(
    all: &Vec<NormalizedRow>,
    provider: &str,
    account_id: &str,
    since: Timestamp,
) -> (res: Vec<(String, Vec<Amount>)>)
    requires
        memory::rows_dated(all@),
    ensures
        buckets::named_by(
            res@,
            scope::rows_in(all@, scope::of_account(provider@, account_id@).from(since).usage()),
            Grouping::Period,
        ),
{
    let scope = Scope {
        provider: Some(provider),
        account_id: Some(account_id),
        since: Some(since),
        usage_only: true,
        ..Scope::unfiltered()
    };
    totals_by_name(&selected(all, &scope), Grouping::Period)
}

// ==================== Windows ====================

/// The amounts that the net total of a charge-time window `[since, until)` adds
/// up, across every account and charge category.
pub fn total_between(all: &Vec<NormalizedRow>, since: Timestamp, until: Timestamp) -> (res: Vec<
    Amount,
>)
    ensures
        res@ == scope::base_amounts(scope::rows_in(all@, scope::everything().within(since, until))),
{
    let scope = Scope { since: Some(since), until: Some(until), ..Scope::unfiltered() };
    net_total(&selected(all, &scope))
}

/// Gross usage and credits of one period.
pub fn usage_and_credits(all: &Vec<NormalizedRow>, billing_period: &str) -> (res: (
    Vec<Amount>,
    Vec<Amount>,
))
    ensures
        res.0@ == scope::base_amounts(scope::usage_rows(scope::rows_in(all@, scope::of_period(billing_period@)))),
        res.1@ == scope::base_amounts(scope::credit_rows(scope::rows_in(all@, scope::of_period(billing_period@)))),
{
    let scope = Scope { billing_period: Some(billing_period), ..Scope::unfiltered() };
    usage_and_credits_of_rows(&selected(all, &scope))
}

/// [`usage_and_credits`] over a charge-time window `[since, until)`.
pub fn usage_and_credits_between(
    all: &Vec<NormalizedRow>,
    since: Timestamp,
    until: Timestamp,
) -> (res: (Vec<Amount>, Vec<Amount>))
    ensures
        res.0@ == scope::base_amounts(scope::usage_rows(scope::rows_in(all@, scope::everything().within(since, until)))),
        res.1@ == scope::base_amounts(scope::credit_rows(scope::rows_in(all@, scope::everything().within(since, until)))),
{
    let scope = Scope { since: Some(since), until: Some(until), ..Scope::unfiltered() };
    usage_and_credits_of_rows(&selected(all, &scope))
}

/// [`usage_and_credits_between`] for a single account.
pub fn usage_and_credits_of_between(
    all: &Vec<NormalizedRow>,
    provider: &str,
    account_id: &str,
    since: Timestamp,
    until: Timestamp,
) -> (res: (Vec<Amount>, Vec<Amount>))
    ensures
        res.0@ == scope::base_amounts(
            scope::usage_rows(scope::rows_in(all@, scope::of_account(provider@, account_id@).within(since, until))),
        ),
        res.1@ == scope::base_amounts(
            scope::credit_rows(scope::rows_in(all@, scope::of_account(provider@, account_id@).within(since, until))),
        ),
{
    let scope = Scope {
        provider: Some(provider),
        account_id: Some(account_id),
        since: Some(since),
        until: Some(until),
        ..Scope::unfiltered()
    };
    usage_and_credits_of_rows(&selected(all, &scope))
}

/// Usage of one period grouped by provider and service, so that rankings
/// reflect what was consumed rather than what credits happened to offset.
pub fn provider_service_usage(all: &Vec<NormalizedRow>, billing_period: &str) -> (res: Vec<
    ServiceTerms,
>)
    requires
        memory::rows_dated(all@),
    ensures
        buckets::services_by(res@, scope::rows_in(all@, scope::of_period(billing_period@).usage())),
{
    let scope = Scope {
        billing_period: Some(billing_period),
        usage_only: true,
        ..Scope::unfiltered()
    };
    totals_by_provider_service(&selected(all, &scope))
}

/// [`provider_service_usage`] over a charge-time window `[since, until)`.
pub fn provider_service_usage_between(
    all: &Vec<NormalizedRow>,
    since: Timestamp,
    until: Timestamp,
) -> (res: Vec<ServiceTerms>)
    requires
        memory::rows_dated(all@),
    ensures
        buckets::services_by(res@, scope::rows_in(all@, scope::everything().within(since, until).usage())),
{
    let scope = Scope {
        since: Some(since),
        until: Some(until),
        usage_only: true,
        ..Scope::unfiltered()
    };
    totals_by_provider_service(&selected(all, &scope))
}

/// [`provider_service_usage_between`] narrowed to a single account, so the
/// provider drops out of the grouping.
pub fn service_usage_of_between(
    all: &Vec<NormalizedRow>,
    provider: &str,
    account_id: &str,
    since: Timestamp,
    until: Timestamp,
) -> (res: Vec<(String, Vec<Amount>)>)
    requires
        memory::rows_dated(all@),
    ensures
        buckets::named_by(
            res@,
            scope::rows_in(all@, scope::of_account(provider@, account_id@).within(since, until).usage()),
            Grouping::Dim(BreakdownDim::Service),
        ),
{
    let scope = Scope {
        provider: Some(provider),
        account_id: Some(account_id),
        since: Some(since),
        until: Some(until),
        usage_only: true,
        ..Scope::unfiltered()
    };
    totals_by_name(&selected(all, &scope), Grouping::Dim(BreakdownDim::Service))
}

// ==================== Tag breakdowns ====================

/// Charges of one period grouped by one tag's value. A charge without a value
/// for the tag counts toward `Unallocated`.
pub fn tag_breakdown(all: &Vec<NormalizedRow>, billing_period: &str, tag_key: &str) -> (res: Vec<
    (String, Vec<Amount>),
>)
    requires
        memory::rows_dated(all@),
    ensures
        buckets::named_by(res@, scope::rows_in(all@, scope::of_period(billing_period@)), Grouping::Tag(tag_key)),
{
    tag_totals(all, billing_period, tag_key, None, None, false)
}

/// [`tag_breakdown`] narrowed to one provider and service.
pub fn service_tag_breakdown(
    all: &Vec<NormalizedRow>,
    billing_period: &str,
    provider: &str,
    service: &str,
    tag_key: &str,
) -> (res: Vec<(String, Vec<Amount>)>)
    requires
        memory::rows_dated(all@),
    ensures
        buckets::named_by(
            res@,
            scope::rows_in(all@, scope::of_service(provider@, service@).in_period(billing_period@)),
            Grouping::Tag(tag_key),
        ),
{
    tag_totals(all, billing_period, tag_key, Some(provider), Some(service), false)
}

/// Usage of one period grouped by one tag's value, so that a credit does not
/// shrink the bucket it would have offset.
pub fn tag_usage_breakdown(
    all: &Vec<NormalizedRow>,
    billing_period: &str,
    tag_key: &str,
) -> (res: Vec<(String, Vec<Amount>)>)
    requires
        memory::rows_dated(all@),
    ensures
        buckets::named_by(res@, scope::rows_in(all@, scope::of_period(billing_period@).usage()), Grouping::Tag(tag_key)),
{
    tag_totals(all, billing_period, tag_key, None, None, true)
}

/// [`tag_usage_breakdown`] narrowed to one provider and service.
pub fn service_tag_usage_breakdown(
    all: &Vec<NormalizedRow>,
    billing_period: &str,
    provider: &str,
    service: &str,
    tag_key: &str,
) -> (res: Vec<(String, Vec<Amount>)>)
    requires
        memory::rows_dated(all@),
    ensures
        buckets::named_by(
            res@,
            scope::rows_in(all@, scope::of_service(provider@, service@).in_period(billing_period@).usage()),
            Grouping::Tag(tag_key),
        ),
{
    tag_totals(all, billing_period, tag_key, Some(provider), Some(service), true)
}

/// [`tag_usage_breakdown`] over a charge-time window `[since, until)`.
pub fn tag_usage_breakdown_between(
    all: &Vec<NormalizedRow>,
    since: Timestamp,
    until: Timestamp,
    tag_key: &str,
) -> (res: Vec<(String, Vec<Amount>)>)
    requires
        memory::rows_dated(all@),
    ensures
        buckets::named_by(
            res@,
            scope::rows_in(all@, scope::everything().within(since, until).usage()),
            Grouping::Tag(tag_key),
        ),
{
    tag_usage_between(all, since, until, tag_key, None, None)
}

/// [`tag_usage_breakdown_between`] narrowed to one provider and service.
pub fn service_tag_usage_breakdown_between(
    all: &Vec<NormalizedRow>,
    since: Timestamp,
    until: Timestamp,
    provider: &str,
    service: &str,
    tag_key: &str,
) -> (res: Vec<(String, Vec<Amount>)>)
    requires
        memory::rows_dated(all@),
    ensures
        buckets::named_by(
            res@,
            scope::rows_in(all@, scope::of_service(provider@, service@).within(since, until).usage()),
            Grouping::Tag(tag_key),
        ),
{
    tag_usage_between(all, since, until, tag_key, Some(provider), Some(service))
}

fn tag_usage_between(
    all: &Vec<NormalizedRow>,
    since: Timestamp,
    until: Timestamp,
    tag_key: &str,
    provider: Option<&str>,
    service: Option<&str>,
) -> (res: Vec<(String, Vec<Amount>)>)
    requires
        memory::rows_dated(all@),
    ensures
        buckets::named_by(
            res@,
            scope::rows_in(
                all@,
                (scope::Selection {
                    provider: scope::text_view(provider),
                    service: scope::text_view(service),
                    ..scope::everything()
                }).within(since, until).usage(),
            ),
            Grouping::Tag(tag_key),
        ),
{
    let scope = Scope {
        provider,
        service,
        since: Some(since),
        until: Some(until),
        usage_only: true,
        ..Scope::unfiltered()
    };
    totals_by_name(&selected(all, &scope), Grouping::Tag(tag_key))
}

fn tag_totals(
    all: &Vec<NormalizedRow>,
    billing_period: &str,
    tag_key: &str,
    provider: Option<&str>,
    service: Option<&str>,
    usage_only: bool,
) -> (res: Vec<(String, Vec<Amount>)>)
    requires
        memory::rows_dated(all@),
    ensures
        buckets::named_by(
            res@,
            scope::rows_in(
                all@,
                (scope::Selection {
                    provider: scope::text_view(provider),
                    service: scope::text_view(service),
                    billing_period: Some(billing_period@),
                    usage_only,
                    ..scope::everything()
                }),
            ),
            Grouping::Tag(tag_key),
        ),
{
    let scope = Scope {
        provider,
        service,
        billing_period: Some(billing_period),
        usage_only,
        ..Scope::unfiltered()
    };
    totals_by_name(&selected(all, &scope), Grouping::Tag(tag_key))
}

/// Usage of one period grouped by provider, service and tag value in a single
/// pass.
pub fn tag_usage_terms_by_service(
    all: &Vec<NormalizedRow>,
    billing_period: &str,
    tag_key: &str,
) -> (res: Vec<ServiceTagTerms>)
    requires
        memory::rows_dated(all@),
    ensures
        buckets::service_tags_by(res@, scope::rows_in(all@, scope::of_period(billing_period@).usage()), tag_key),
{
    let scope = Scope {
        billing_period: Some(billing_period),
        usage_only: true,
        ..Scope::unfiltered()
    };
    totals_by_provider_service_tag(&selected(all, &scope), tag_key)
}


// ==================== Ad-hoc queries ====================

/// What an ad-hoc query answers.
#[derive(Debug)]
pub struct AdhocResult {
    pub columns: Vec<String>,
    pub numeric: Vec<bool>,
    pub rows: Vec<Vec<Option<String>>>,
    pub truncated: bool,
    pub elapsed_ms: u64,
}

/// The query page's console. There is no engine to run a statement, and the
/// error says so rather than reporting an empty result as an answer.
pub fn run_adhoc(_sql: &str) -> (res: Result<AdhocResult, Error>)
    ensures
        res is Err,
        res->Err_0.message@
            == "The web demo has no SQL engine: the ledger is held in memory and read by the app, not queried"@,
{
    Err(
        Error::new(
            "The web demo has no SQL engine: the ledger is held in memory and read by the app, not queried",
        ),
    )
}

} // verus!
