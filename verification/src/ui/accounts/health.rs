//! The card of data health: what the ledger found wrong with the current period,
//! and how much of its usage carries no business line.
use vstd::prelude::*;

use crate::amount::Amount;
use crate::calendar;
use crate::calendar::{BillingPeriod, Timestamp};
use crate::db;
use crate::error::Error;
use crate::ingest;
use crate::ledger::buckets;
use crate::ledger::buckets::UntaggedServiceTerms;
use crate::ledger::compare;
use crate::ledger::compare::QualityCounts;
use crate::ledger::query;
use crate::ledger::ranked;
use crate::ledger::ranked::untagged_usage_by_service;
use crate::ledger::scope;
use crate::memory;
use crate::memory::{NormalizedRow, Store};
use crate::model;
use crate::model::{DataQualityIssue, DataQualityKind, IssueSeverity, UntaggedServiceUsage};
use crate::order;
use crate::text;
use crate::text::{concat2, concat3};
use crate::ui::account_detail::severity_rank;
use crate::ui::data::attribution;
use crate::ui::data::attribution::usage_share;
use crate::ui::data::page::BUSINESS_LINE_TAG;
use crate::ui::data::quality;
use crate::ui::fmt;

verus! {

/// What the checks found in one period.
#[derive(Debug)]
pub struct PeriodFindings {
    pub period: String,
    pub issues: Vec<DataQualityIssue>,
    /// The period's usage.
    pub usage: Amount,
    /// The largest untagged services, largest first.
    pub services: Vec<UntaggedServiceUsage>,
}

/// The usage that carries no business line.
#[derive(Debug)]
pub struct UntaggedSummary {
    pub severity: IssueSeverity,
    pub amount: Amount,
    /// The share of the period's usage, out of one.
    pub share: Amount,
    /// The largest services behind it, largest first.
    pub top_services: Vec<(String, Amount)>,
}

/// Everything the card shows.
#[derive(Debug)]
pub struct AccountsHealth {
    /// The findings but untagged usage, worst first.
    pub issues: Vec<DataQualityIssue>,
    pub untagged: Option<UntaggedSummary>,
    /// The keys that dismiss all that is shown.
    pub dismiss_keys: Vec<String>,
}

/// The findings of every period, with the sums that are still to be made.
#[derive(Debug)]
pub struct HealthParts {
    pub issues: Vec<DataQualityIssue>,
    pub dismiss_keys: Vec<String>,
    /// The worst severity of untagged usage.
    pub untagged_severity: IssueSeverity,
    /// The addends of the untagged usage.
    pub untagged_terms: Vec<Amount>,
    /// The addends of the usage it is a share of.
    pub usage_terms: Vec<Amount>,
    pub top_services: Vec<(String, Amount)>,
}

// ==================== Periods ====================

/// What the checks of a period ask of the ledger.
pub struct PeriodReads {
    /// What the findings are decided from.
    pub quality: QualityCounts,
    pub usage: Vec<Amount>,
    /// Untagged usage by service.
    pub untagged: Vec<UntaggedServiceTerms>,
}

/// Ask the ledger about a period.
pub fn period_reads(all: &Vec<NormalizedRow>, period: &str) -> (res: PeriodReads)
    requires
        memory::rows_dated(all@),
        all@.len() <= i64::MAX,
    ensures
        compare::counts_quality(res.quality, all@, period@, BUSINESS_LINE_TAG@),
        res.usage@ == scope::base_amounts(
            scope::usage_rows(scope::rows_in(all@, scope::of_period(period@))),
        ),
        buckets::untagged_services_by(
            res.untagged@,
            all@.filter(ranked::untagged_usage(period@, BUSINESS_LINE_TAG@)),
        ),
{
    let quality = query::data_quality_issues(all, period, BUSINESS_LINE_TAG);
    let (usage, _) = query::usage_and_credits(all, period);
    let untagged = query::untagged_usage_terms_by_service(all, period, BUSINESS_LINE_TAG);
    PeriodReads { quality, usage, untagged }
}

/// What the checks found in a period, from the totals of its untagged services:
/// the three largest stay.
pub fn period_findings(
    period: String,
    issues: Vec<DataQualityIssue>,
    usage: Amount,
    untagged: Vec<UntaggedServiceUsage>,
) -> (res: PeriodFindings)
    ensures
        res.period == period,
        res.issues == issues,
        res.usage == usage,
        res.services@ == ranked::first(
            ranked::positive_first(untagged@, ranked::untagged_service_amounts(untagged@)),
            3,
        ),
{
    PeriodFindings { period, issues, usage, services: untagged_usage_by_service(untagged, 3) }
}

/// The periods that are checked: the current one, if there is an account.
pub fn health_periods(store: &Store, now: Timestamp) -> (res: Result<Vec<String>, Error>)
    requires
        now.valid(),
    ensures
        res is Ok,
        if store.accounts@.filter(db::source_known()).len() == 0 {
            res->Ok_0@.len() == 0
        } else {
            res->Ok_0@.len() == 1 && res->Ok_0@[0]@ == calendar::period_of(now).text()
        },
{
    let period = BillingPeriod::containing(now);
    let accounts = match db::get_all_accounts(store) {
        Ok(accounts) => accounts,
        Err(e) => {
            return Err(e);
        },
    };
    let mut periods: Vec<String> = Vec::new();
    let mut i: usize = 0;
    while i < accounts.len()
        invariant
            i <= accounts.len(),
            period.valid(),
            i == 0 ==> periods@.len() == 0,
            i > 0 ==> periods@.len() == 1 && periods@[0]@ == period.text(),
        decreases accounts.len() - i,
    {
        let label = ingest::period_key(&accounts[i], &period).billing_period;
        if !order::is_listed(&periods, &label) {
            proof {
                if i > 0 {
                    assert(periods@[0]@ == label@);
                }
            }
            periods.push(label);
        }
        i = i + 1;
    }
    Ok(periods)
}

// ==================== Findings ====================

/// Being about untagged usage.
pub open spec fn about_untagged() -> spec_fn(DataQualityIssue) -> bool {
    |issue: DataQualityIssue| issue.kind == DataQualityKind::UntaggedUsage
}

/// Being about anything else.
pub open spec fn about_others() -> spec_fn(DataQualityIssue) -> bool {
    |issue: DataQualityIssue| issue.kind != DataQualityKind::UntaggedUsage
}

/// The findings of one period that were not dismissed.
pub open spec fn open_in(findings: PeriodFindings, dismissed: Seq<String>) -> Seq<DataQualityIssue> {
    quality::open_issues(findings.issues@, findings.period@, dismissed)
}

/// The open findings of all periods that `test` accepts, period by period.
pub open spec fn open_findings(
    findings: Seq<PeriodFindings>,
    dismissed: Seq<String>,
    test: spec_fn(DataQualityIssue) -> bool,
) -> Seq<DataQualityIssue>
    decreases findings.len(),
{
    if findings.len() == 0 {
        Seq::empty()
    } else {
        open_findings(findings.drop_last(), dismissed, test) + open_in(
            findings.last(),
            dismissed,
        ).filter(test)
    }
}

/// The dismissal keys of findings of one period.
pub open spec fn keys_in(issues: Seq<DataQualityIssue>, period: Seq<char>) -> Seq<Seq<char>> {
    issues.map_values(|i: DataQualityIssue| model::dismissal_key_text(i.kind, period))
}

/// The dismissal keys of all open findings.
pub open spec fn open_keys(findings: Seq<PeriodFindings>, dismissed: Seq<String>) -> Seq<Seq<char>>
    decreases findings.len(),
{
    if findings.len() == 0 {
        Seq::empty()
    } else {
        open_keys(findings.drop_last(), dismissed) + keys_in(
            open_in(findings.last(), dismissed),
            findings.last().period@,
        )
    }
}

/// Untagged usage was not dismissed for a period.
pub open spec fn nags(dismissed: Seq<String>, period: Seq<char>) -> bool {
    !db::dismissed(dismissed, model::dismissal_key_text(DataQualityKind::UntaggedUsage, period))
}

/// The usages of the periods for which untagged usage was not dismissed.
pub open spec fn open_usage(findings: Seq<PeriodFindings>, dismissed: Seq<String>) -> Seq<Amount>
    decreases findings.len(),
{
    if findings.len() == 0 {
        Seq::empty()
    } else {
        let rest = open_usage(findings.drop_last(), dismissed);
        if nags(dismissed, findings.last().period@) {
            rest.push(findings.last().usage)
        } else {
            rest
        }
    }
}

/// A service by its provider and name.
pub open spec fn service_label(row: UntaggedServiceUsage) -> Seq<char> {
    row.provider@ + " · "@ + (match row.service {
        Some(service) => service@,
        None => "Other"@,
    })
}

pub open spec fn labelled(services: Seq<UntaggedServiceUsage>) -> Seq<(Seq<char>, Amount)> {
    services.map_values(|s: UntaggedServiceUsage| (service_label(s), s.amount))
}

/// The services of the periods for which untagged usage was not dismissed.
pub open spec fn open_services(findings: Seq<PeriodFindings>, dismissed: Seq<String>) -> Seq<
    (Seq<char>, Amount),
>
    decreases findings.len(),
{
    if findings.len() == 0 {
        Seq::empty()
    } else {
        let rest = open_services(findings.drop_last(), dismissed);
        if nags(dismissed, findings.last().period@) {
            rest + labelled(findings.last().services@)
        } else {
            rest
        }
    }
}

pub open spec fn pair_views(pairs: Seq<(String, Amount)>) -> Seq<(Seq<char>, Amount)> {
    pairs.map_values(|p: (String, Amount)| (p.0@, p.1))
}

pub open spec fn pair_amounts(pairs: Seq<(Seq<char>, Amount)>) -> Seq<Amount> {
    pairs.map_values(|p: (Seq<char>, Amount)| p.1)
}

/// The worst severity among findings, no worse than informational where there
/// are none.
pub open spec fn worst(issues: Seq<DataQualityIssue>) -> IssueSeverity
    decreases issues.len(),
{
    if issues.len() == 0 {
        IssueSeverity::Info
    } else {
        let rest = worst(issues.drop_last());
        let last = issues.last().severity;
        if quality::severity_of(last).rank() > quality::severity_of(rest).rank() {
            last
        } else {
            rest
        }
    }
}

/// The worst severity is that of a finding, unless it is informational, and no
/// finding is worse.
pub proof fn worst_is_worst(issues: Seq<DataQualityIssue>)
    ensures
        forall|i: int|
            0 <= i < issues.len() ==> quality::severity_of(#[trigger] issues[i].severity).rank()
                <= quality::severity_of(worst(issues)).rank(),
        worst(issues) != IssueSeverity::Info ==> exists|i: int|
            0 <= i < issues.len() && #[trigger] issues[i].severity == worst(issues),
    decreases issues.len(),
{
    if issues.len() > 0 {
        let rest = issues.drop_last();
        worst_is_worst(rest);
        assert forall|i: int| 0 <= i < issues.len() implies quality::severity_of(
            #[trigger] issues[i].severity,
        ).rank() <= quality::severity_of(worst(issues)).rank() by {
            if i < rest.len() {
                assert(rest[i].severity == issues[i].severity);
            }
        }
        if worst(issues) != IssueSeverity::Info {
            if worst(issues) == worst(rest) {
                let i = choose|i: int|
                    0 <= i < rest.len() && #[trigger] rest[i].severity == worst(rest);
                assert(issues[i].severity == worst(issues));
            } else {
                assert(issues[issues.len() - 1].severity == worst(issues));
            }
        }
    }
}

/// What untagged usage adds up from: a finding that could not be summed counts
/// as nothing.
pub open spec fn untagged_terms(issues: Seq<DataQualityIssue>) -> Seq<Amount> {
    issues.map_values(
        |i: DataQualityIssue|
            match i.affected_amount {
                Some(amount) => amount,
                None => Amount { bits: 0 },
            },
    )
}

/// One period's open findings: those about other things, those about untagged
/// usage, and the keys of all.
struct SplitFindings {
    others: Vec<DataQualityIssue>,
    untagged: Vec<DataQualityIssue>,
    keys: Vec<String>,
}

fn split_findings(findings: &PeriodFindings, dismissed: &Vec<String>) -> (res: SplitFindings)
    ensures
        res.others@ == open_in(*findings, dismissed@).filter(about_others()),
        res.untagged@ == open_in(*findings, dismissed@).filter(about_untagged()),
        text::texts(res.keys@) == keys_in(open_in(*findings, dismissed@), findings.period@),
{
    let mut others: Vec<DataQualityIssue> = Vec::new();
    let mut untagged: Vec<DataQualityIssue> = Vec::new();
    let mut keys: Vec<String> = Vec::new();
    let issues = &findings.issues;
    let ghost period = findings.period@;
    let ghost mut open: Seq<DataQualityIssue> = Seq::empty();
    let mut i: usize = 0;
    proof {
        reveal(Seq::filter);
        assert(quality::open_issues(issues@.take(0), period, dismissed@) =~= open);
        assert(text::texts(keys@) =~= keys_in(open, period));
    }
    while i < issues.len()
        invariant
            i <= issues.len(),
            issues == &findings.issues,
            period == findings.period@,
            open == quality::open_issues(issues@.take(i as int), period, dismissed@),
            others@ == open.filter(about_others()),
            untagged@ == open.filter(about_untagged()),
            text::texts(keys@) == keys_in(open, period),
        decreases issues.len() - i,
    {
        proof {
            reveal(Seq::filter);
            assert(issues@.take(i + 1).drop_last() =~= issues@.take(i as int));
            assert(issues@.take(i + 1).last() == issues@[i as int]);
        }
        let issue = &issues[i];
        let key = issue.dismissal_key(&findings.period);
        if !db::is_dismissed(dismissed, &key) {
            let ghost keys_before = text::texts(keys@);
            let ghost before = open;
            proof {
                open = open.push(*issue);
                assert(open.drop_last() =~= before);
            }
            if issue.kind == DataQualityKind::UntaggedUsage {
                untagged.push(issue.clone());
            } else {
                others.push(issue.clone());
            }
            keys.push(key);
            proof {
                assert(text::texts(keys@) =~= keys_before.push(key@));
                assert(keys_in(open, period) =~= keys_in(before, period).push(key@));
            }
        }
        i = i + 1;
    }
    proof {
        assert(issues@.take(i as int) =~= issues@);
    }
    SplitFindings { others, untagged, keys }
}

fn label_services(services: &Vec<UntaggedServiceUsage>) -> (res: Vec<(String, Amount)>)
    ensures
        pair_views(res@) == labelled(services@),
{
    let mut res: Vec<(String, Amount)> = Vec::new();
    let mut i: usize = 0;
    while i < services.len()
        invariant
            i <= services.len(),
            res@.len() == i,
            forall|k: int|
                0 <= k < i ==> (#[trigger] res@[k]).0@ == service_label(services@[k])
                    && res@[k].1 == services@[k].amount,
        decreases services.len() - i,
    {
        let row = &services[i];
        let label = match &row.service {
            Some(service) => concat3(&row.provider, " · ", service),
            None => concat3(&row.provider, " · ", "Other"),
        };
        res.push((label, row.amount));
        i = i + 1;
    }
    proof {
        assert(pair_views(res@) =~= labelled(services@));
    }
    res
}

/// The largest three of labelled services.
pub open spec fn largest_three(pairs: Seq<(Seq<char>, Amount)>) -> Seq<(Seq<char>, Amount)> {
    ranked::first(ranked::sorted_by_amount(pairs, pair_amounts(pairs)), 3)
}

fn keep_largest_three(services: Vec<(String, Amount)>) -> (res: Vec<(String, Amount)>)
    ensures
        pair_views(res@) == largest_three(pair_views(services@)),
{
    let ghost pairs = pair_views(services@);
    let mut amounts: Vec<Amount> = Vec::new();
    let mut i: usize = 0;
    while i < services.len()
        invariant
            i <= services.len(),
            pairs == pair_views(services@),
            amounts@.len() == i,
            forall|k: int| 0 <= k < i ==> #[trigger] amounts@[k] == pair_amounts(pairs)[k],
        decreases services.len() - i,
    {
        amounts.push(services[i].1);
        i = i + 1;
    }
    proof {
        assert(amounts@ =~= pair_amounts(pairs));
    }
    let ghost all = services@;
    let sorted = ranked::sort_by_amount(services, &amounts);
    proof {
        let keys = crate::amount::ranks_of(amounts@);
        order::ranking_is_stable_and_complete(keys);
        assert(pair_views(sorted@) =~= ranked::sorted_by_amount(pairs, pair_amounts(pairs))) by {
            assert forall|k: int| 0 <= k < sorted@.len() implies #[trigger] pair_views(sorted@)[k]
                == ranked::sorted_by_amount(pairs, pair_amounts(pairs))[k] by {
                let at = order::ranking(keys)[k];
                assert(0 <= at < all.len());
            }
        }
    }
    let res = ranked::truncated(sorted, 3);
    proof {
        assert(pair_views(res@) =~= largest_three(pairs));
    }
    res
}

/// Gather what the checks found in every period. A period for which untagged
/// usage was dismissed is out of the nag altogether.
pub fn gather_health(findings: &Vec<PeriodFindings>, dismissed: &Vec<String>) -> (res: HealthParts)
    ensures
        res.issues@ == quality::worst_first(
            open_findings(findings@, dismissed@, about_others()),
        ),
        text::texts(res.dismiss_keys@) == open_keys(findings@, dismissed@),
        res.untagged_severity == worst(open_findings(findings@, dismissed@, about_untagged())),
        res.untagged_terms@ == untagged_terms(
            open_findings(findings@, dismissed@, about_untagged()),
        ),
        res.usage_terms@ == open_usage(findings@, dismissed@),
        pair_views(res.top_services@) == largest_three(open_services(findings@, dismissed@)),
{
    let mut others: Vec<DataQualityIssue> = Vec::new();
    let mut untagged: Vec<DataQualityIssue> = Vec::new();
    let mut dismiss_keys: Vec<String> = Vec::new();
    let mut usage_terms: Vec<Amount> = Vec::new();
    let mut services: Vec<(String, Amount)> = Vec::new();
    let mut i: usize = 0;
    proof {
        assert(findings@.take(0) =~= Seq::empty());
        assert(text::texts(dismiss_keys@) =~= open_keys(findings@.take(0), dismissed@));
        assert(pair_views(services@) =~= open_services(findings@.take(0), dismissed@));
    }
    while i < findings.len()
        invariant
            i <= findings.len(),
            others@ == open_findings(findings@.take(i as int), dismissed@, about_others()),
            untagged@ == open_findings(findings@.take(i as int), dismissed@, about_untagged()),
            text::texts(dismiss_keys@) == open_keys(findings@.take(i as int), dismissed@),
            usage_terms@ == open_usage(findings@.take(i as int), dismissed@),
            pair_views(services@) == open_services(findings@.take(i as int), dismissed@),
        decreases findings.len() - i,
    {
        proof {
            assert(findings@.take(i + 1).drop_last() =~= findings@.take(i as int));
            assert(findings@.take(i + 1).last() == findings@[i as int]);
        }
        let period = &findings[i];
        let ghost keys_before = dismiss_keys@;
        let ghost services_before = services@;
        let nag_key = concat3(DataQualityKind::UntaggedUsage.as_str(), ":", &period.period);
        if !db::is_dismissed(dismissed, &nag_key) {
            usage_terms.push(period.usage);
            let mut more = label_services(&period.services);
            let ghost added = more@;
            services.append(&mut more);
            proof {
                assert(pair_views(services@) =~= pair_views(services_before) + pair_views(added));
            }
        }
        let mut split = split_findings(period, dismissed);
        let ghost keys_added = split.keys@;
        others.append(&mut split.others);
        untagged.append(&mut split.untagged);
        dismiss_keys.append(&mut split.keys);
        proof {
            assert(text::texts(dismiss_keys@) =~= text::texts(keys_before) + text::texts(
                keys_added,
            ));
        }
        i = i + 1;
    }
    proof {
        assert(findings@.take(i as int) =~= findings@);
    }
    let (untagged_severity, untagged_terms) = untagged_parts(&untagged);
    HealthParts {
        issues: quality::sort_worst_first(others),
        dismiss_keys,
        untagged_severity,
        untagged_terms,
        usage_terms,
        top_services: keep_largest_three(services),
    }
}

fn untagged_parts(untagged: &Vec<DataQualityIssue>) -> (res: (IssueSeverity, Vec<Amount>))
    ensures
        res.0 == worst(untagged@),
        res.1@ == untagged_terms(untagged@),
{
    let mut severity = IssueSeverity::Info;
    let mut terms: Vec<Amount> = Vec::new();
    let mut i: usize = 0;
    proof {
        assert(untagged@.take(0) =~= Seq::empty());
    }
    while i < untagged.len()
        invariant
            i <= untagged.len(),
            severity == worst(untagged@.take(i as int)),
            terms@.len() == i,
            forall|k: int| 0 <= k < i ==> #[trigger] terms@[k] == untagged_terms(untagged@)[k],
        decreases untagged.len() - i,
    {
        proof {
            assert(untagged@.take(i + 1).drop_last() =~= untagged@.take(i as int));
            assert(untagged@.take(i + 1).last() == untagged@[i as int]);
        }
        if severity_rank(untagged[i].severity) < severity_rank(severity) {
            severity = untagged[i].severity;
        }
        terms.push(
            match untagged[i].affected_amount {
                Some(amount) => amount,
                None => Amount::zero(),
            },
        );
        i = i + 1;
    }
    proof {
        assert(untagged@.take(i as int) =~= untagged@);
        assert(terms@ =~= untagged_terms(untagged@));
    }
    (severity, terms)
}

/// The card, from its parts and their sums: `untagged` of the untagged terms,
/// `usage` of the usage terms, and `share` their quotient, which is read only
/// where there is usage. There is a nag only where there is untagged usage.
pub fn load_health(parts: HealthParts, untagged: Amount, usage: Amount, share: Amount) -> (res:
    AccountsHealth)
    ensures
        res.issues == parts.issues,
        res.dismiss_keys == parts.dismiss_keys,
        res.untagged is Some <==> untagged.is_positive(),
        res.untagged is Some ==> res.untagged->0 == (UntaggedSummary {
            severity: parts.untagged_severity,
            amount: untagged,
            share: attribution::share_of(usage, share),
            top_services: parts.top_services,
        }),
{
    let summary = if untagged.positive() {
        Some(
            UntaggedSummary {
                severity: parts.untagged_severity,
                amount: untagged,
                share: usage_share(usage, share),
                top_services: parts.top_services,
            },
        )
    } else {
        None
    };
    AccountsHealth {
        issues: parts.issues,
        untagged: summary,
        dismiss_keys: parts.dismiss_keys,
    }
}

// ==================== The card ====================

/// A finding as the card shows it.
#[derive(Debug)]
pub struct IssueCells {
    pub severity: IssueSeverity,
    pub message: String,
    /// The amount behind it, where the check could sum one.
    pub amount: Option<String>,
}

/// The section about untagged usage.
#[derive(Debug)]
pub struct NagCells {
    pub severity: IssueSeverity,
    pub headline: String,
    pub services: Vec<(String, String)>,
    pub advice: String,
    /// The label of the way to the query page, where there is one.
    pub query_label: Option<&'static str>,
}

/// The card.
#[derive(Debug)]
pub struct HealthCard {
    pub title: &'static str,
    pub caption: &'static str,
    /// There is something to dismiss.
    pub dismissable: bool,
    /// What is said where there are no findings.
    pub note: Option<&'static str>,
    pub issues: Vec<IssueCells>,
    pub nag: Option<NagCells>,
}

pub open spec fn is_issue_cells(
    cells: IssueCells,
    issue: DataQualityIssue,
    currency: Seq<char>,
) -> bool {
    &&& cells.severity == issue.severity
    &&& cells.message@ == issue.message@
    &&& order::part_view(cells.amount) == (match issue.affected_amount {
        Some(amount) => Some(fmt::amount_text(amount, currency)),
        None => None,
    })
}

/// A finding as a row.
pub fn issue_row(issue: &DataQualityIssue, currency: &str) -> (res: IssueCells)
    ensures
        is_issue_cells(res, *issue, currency@),
{
    let amount = match issue.affected_amount {
        Some(amount) => Some(fmt::amount(amount, currency)),
        None => None,
    };
    IssueCells { severity: issue.severity, message: issue.message.clone(), amount }
}

/// How untagged usage is mended. In the browser there is no query page to point
/// to.
pub open spec fn advice_text(in_browser: bool) -> Seq<char> {
    "Tag these resources with '"@ + BUSINESS_LINE_TAG@
        + "' at your provider so their spend lands on a business line."@ + (if in_browser {
        ""@
    } else {
        " The Query page's 'Unallocated spend by service' template lists everything untagged."@
    })
}

pub open spec fn is_nag_cells(
    cells: NagCells,
    untagged: UntaggedSummary,
    pct: Amount,
    currency: Seq<char>,
    in_browser: bool,
) -> bool {
    &&& cells.severity == untagged.severity
    &&& cells.headline@ == fmt::amount_text(untagged.amount, currency)
        + " of usage is untagged this period ("@ + fmt::share_text(pct) + " of all usage)"@
    &&& cells.services@.len() == untagged.top_services@.len()
    &&& forall|i: int|
        0 <= i < cells.services@.len() ==> (#[trigger] cells.services@[i]).0@
            == untagged.top_services@[i].0@ && cells.services@[i].1@ == fmt::amount_text(
            untagged.top_services@[i].1,
            currency,
        )
    &&& cells.advice@ == advice_text(in_browser)
    &&& crate::cloud::label_view(cells.query_label) == (if in_browser {
        None
    } else {
        Some("Open the Query template →"@)
    })
}

/// The section about untagged usage. `pct` is its share in percent.
pub fn untagged_nag(
    untagged: &UntaggedSummary,
    pct: Amount,
    currency: &str,
    in_browser: bool,
) -> (res: NagCells)
    ensures
        is_nag_cells(res, *untagged, pct, currency@, in_browser),
{
    let mut headline = concat2(
        &fmt::amount(untagged.amount, currency),
        " of usage is untagged this period (",
    );
    headline.append(&fmt::share_pct(pct));
    headline.append(" of all usage)");
    let mut services: Vec<(String, String)> = Vec::new();
    let mut i: usize = 0;
    while i < untagged.top_services.len()
        invariant
            i <= untagged.top_services.len(),
            services@.len() == i,
            forall|k: int|
                0 <= k < i ==> (#[trigger] services@[k]).0@ == untagged.top_services@[k].0@
                    && services@[k].1@ == fmt::amount_text(
                    untagged.top_services@[k].1,
                    currency@,
                ),
        decreases untagged.top_services.len() - i,
    {
        let row = &untagged.top_services[i];
        services.push((row.0.clone(), fmt::amount(row.1, currency)));
        i = i + 1;
    }
    let mut advice = concat3(
        "Tag these resources with '",
        BUSINESS_LINE_TAG,
        "' at your provider so their spend lands on a business line.",
    );
    if in_browser {
        advice.append("");
    } else {
        advice.append(
            " The Query page's 'Unallocated spend by service' template lists everything untagged.",
        );
    }
    let query_label = if in_browser {
        None
    } else {
        Some("Open the Query template →")
    };
    NagCells { severity: untagged.severity, headline, services, advice, query_label }
}

impl AccountsHealth {
    /// The card. `pct` is the share of untagged usage in percent.
    pub fn card(&self, pct: Amount, currency: &str, in_browser: bool) -> (res: HealthCard)
        ensures
            res.title@ == "Data health"@,
            res.caption@ == "Data-quality checks over the current billing period"@,
            res.dismissable == (self.issues@.len() > 0 || self.untagged is Some),
            res.note is Some <==> !res.dismissable,
            res.note is Some ==> res.note->0@
                == "All good — no data-quality issues this period."@,
            res.issues@.len() == self.issues@.len(),
            forall|i: int|
                0 <= i < res.issues@.len() ==> is_issue_cells(
                    #[trigger] res.issues@[i],
                    self.issues@[i],
                    currency@,
                ),
            match self.untagged {
                Some(untagged) => res.nag is Some && is_nag_cells(
                    res.nag->0,
                    untagged,
                    pct,
                    currency@,
                    in_browser,
                ),
                None => res.nag is None,
            },
    {
        let mut issues: Vec<IssueCells> = Vec::new();
        let mut i: usize = 0;
        while i < self.issues.len()
            invariant
                i <= self.issues.len(),
                issues@.len() == i,
                forall|k: int|
                    0 <= k < i ==> is_issue_cells(
                        #[trigger] issues@[k],
                        self.issues@[k],
                        currency@,
                    ),
            decreases self.issues.len() - i,
        {
            issues.push(issue_row(&self.issues[i], currency));
            i = i + 1;
        }
        let nag = match &self.untagged {
            Some(untagged) => Some(untagged_nag(untagged, pct, currency, in_browser)),
            None => None,
        };
        let dismissable = self.issues.len() > 0 || nag.is_some();
        let note = if dismissable {
            None
        } else {
            Some("All good — no data-quality issues this period.")
        };
        HealthCard {
            title: "Data health",
            caption: "Data-quality checks over the current billing period",
            dismissable,
            note,
            issues,
            nag,
        }
    }
}

} // verus!
