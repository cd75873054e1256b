//! What the pages tell of the records behind them, in terms of those records.
use vstd::prelude::*;

use super::account_detail;
use super::account_detail::ServiceCells;
use super::accounts::form;
use super::accounts::form::{AccountDraft, AccountForm};
use super::accounts::health;
use super::accounts::health::PeriodFindings;
use super::accounts::table;
use super::accounts::table::{FormInput, SourceChoice};
use super::alerts;
use super::alerts::{ActionLook, AlertsView};
use super::dashboard;
use super::dashboard::{AccountCard, AccountReport, DashboardReport, DashboardView, DailyCost};
use super::data::accounts::AccountRowData;
use super::data::alert_list::{AlertFilterData, KindLabels};
use super::data::change;
use super::data::detail::ServiceRow;
use super::data::overview::MoverRow;
use super::data::page::{BusinessLineRow, OverviewData};
use super::data::shown;
use super::data::starter::{QueryResultData, QueryTemplate};
use super::fmt;
use super::overview;
use super::overview::{LineCells, LineTone, MonthCells, MoverCells};
use super::query;
use super::rules;
use super::rules::{ReadInputs, RuleConfig, RuleKind};
use crate::alerts::{AlertKind, AlertView};
use crate::amount::Amount;
use crate::calendar;
use crate::calendar::Timestamp;
use crate::cloud;
use crate::list;
use crate::model::{DataQualityIssue, DataQualityKind, UntaggedServiceUsage};
use crate::text;

verus! {

// ==================== Findings of the accounts page ====================

/// The key under which a finding of a period is dismissed.
pub open spec fn dismissed_as(kind: DataQualityKind, period: Seq<char>) -> Seq<char> {
    (match kind {
        DataQualityKind::UnconvertedCharges => "unconverted_charges"@,
        DataQualityKind::UntaggedUsage => "untagged_usage"@,
        DataQualityKind::MissingRegion => "missing_region"@,
        DataQualityKind::UnreconciledAdjustments => "unreconciled_adjustments"@,
    }) + ":"@ + period
}

/// A period has a finding that was not dismissed.
pub open spec fn stands_in(
    findings: PeriodFindings,
    dismissed: Seq<String>,
    issue: DataQualityIssue,
) -> bool {
    findings.issues@.contains(issue) && !shown::was_dismissed(
        dismissed,
        dismissed_as(issue.kind, findings.period@),
    )
}

/// One of the periods has a finding that was not dismissed.
pub open spec fn stands(
    findings: Seq<PeriodFindings>,
    dismissed: Seq<String>,
    issue: DataQualityIssue,
) -> bool {
    exists|f: int| 0 <= f < findings.len() && stands_in(#[trigger] findings[f], dismissed, issue)
}

proof fn lemma_open_in(findings: PeriodFindings, dismissed: Seq<String>, issue: DataQualityIssue)
    ensures
        health::open_in(findings, dismissed).contains(issue) <==> stands_in(
            findings,
            dismissed,
            issue,
        ),
{
    let test = super::data::quality::still_open(findings.period@, dismissed);
    let issues = findings.issues@;
    let key = dismissed_as(issue.kind, findings.period@);
    assert(test(issue) == !shown::was_dismissed(dismissed, key)) by {
        assert(key == crate::model::dismissal_key_text(issue.kind, findings.period@));
        if shown::was_dismissed(dismissed, key) {
            let i = choose|i: int| 0 <= i < dismissed.len() && (#[trigger] dismissed[i])@ == key;
            assert(dismissed[i]@ == key);
        }
        if crate::db::dismissed(dismissed, key) {
            let i = choose|i: int| 0 <= i < dismissed.len() && #[trigger] dismissed[i]@ == key;
            assert(dismissed[i]@ == key);
        }
    }
    lemma_filtered(issues, test, issue);
}

proof fn lemma_filtered<T>(items: Seq<T>, test: spec_fn(T) -> bool, item: T)
    ensures
        items.filter(test).contains(item) <==> items.contains(item) && test(item),
{
    if items.filter(test).contains(item) {
        let i = choose|i: int| 0 <= i < items.filter(test).len() && items.filter(test)[i] == item;
        items.lemma_filter_pred(test, i);
        items.lemma_filter_contains_rev(test, item);
    }
    if items.contains(item) && test(item) {
        let i = choose|i: int| 0 <= i < items.len() && items[i] == item;
        items.lemma_filter_contains(test, i);
    }
}

proof fn lemma_joined<T>(a: Seq<T>, b: Seq<T>, item: T)
    ensures
        (a + b).contains(item) <==> a.contains(item) || b.contains(item),
{
    if a.contains(item) {
        let i = choose|i: int| 0 <= i < a.len() && a[i] == item;
        assert((a + b)[i] == item);
    }
    if b.contains(item) {
        let i = choose|i: int| 0 <= i < b.len() && b[i] == item;
        assert((a + b)[a.len() + i] == item);
    }
    if (a + b).contains(item) {
        let i = choose|i: int| 0 <= i < (a + b).len() && (a + b)[i] == item;
        if i < a.len() {
            assert(a[i] == item);
        } else {
            assert(b[i - a.len()] == item);
        }
    }
}

/// The findings listed are those of any period that were not dismissed for it, with
/// what is about untagged usage kept apart.
pub proof fn findings_stand_until_dismissed(
    findings: Seq<PeriodFindings>,
    dismissed: Seq<String>,
    issue: DataQualityIssue,
)
    ensures
        health::open_findings(findings, dismissed, health::about_others()).contains(issue)
            <==> stands(findings, dismissed, issue) && issue.kind
            != DataQualityKind::UntaggedUsage,
        health::open_findings(findings, dismissed, health::about_untagged()).contains(issue)
            <==> stands(findings, dismissed, issue) && issue.kind
            == DataQualityKind::UntaggedUsage,
    decreases findings.len(),
{
    if findings.len() > 0 {
        let fewer = findings.drop_last();
        let last = findings.len() - 1;
        findings_stand_until_dismissed(fewer, dismissed, issue);
        let open = health::open_in(findings.last(), dismissed);
        lemma_open_in(findings.last(), dismissed, issue);
        lemma_filtered(open, health::about_others(), issue);
        lemma_filtered(open, health::about_untagged(), issue);
        lemma_joined(
            health::open_findings(fewer, dismissed, health::about_others()),
            open.filter(health::about_others()),
            issue,
        );
        lemma_joined(
            health::open_findings(fewer, dismissed, health::about_untagged()),
            open.filter(health::about_untagged()),
            issue,
        );
        assert(stands(findings, dismissed, issue) <==> stands(fewer, dismissed, issue)
            || stands_in(findings[last], dismissed, issue)) by {
            if stands(fewer, dismissed, issue) {
                let f = choose|f: int|
                    0 <= f < fewer.len() && stands_in(#[trigger] fewer[f], dismissed, issue);
                assert(stands_in(findings[f], dismissed, issue));
            }
            if stands(findings, dismissed, issue) {
                let f = choose|f: int|
                    0 <= f < findings.len() && stands_in(#[trigger] findings[f], dismissed, issue);
                if f < last {
                    assert(stands_in(fewer[f], dismissed, issue));
                }
            }
        }
    }
}

/// A period counts toward the untagged share while its untagged usage was not
/// dismissed.
pub open spec fn counts(dismissed: Seq<String>) -> spec_fn(PeriodFindings) -> bool {
    |findings: PeriodFindings|
        !shown::was_dismissed(
            dismissed,
            dismissed_as(DataQualityKind::UntaggedUsage, findings.period@),
        )
}

proof fn lemma_nags(dismissed: Seq<String>, findings: PeriodFindings)
    ensures
        health::nags(dismissed, findings.period@) == counts(dismissed)(findings),
{
    let key = dismissed_as(DataQualityKind::UntaggedUsage, findings.period@);
    assert(key == crate::model::dismissal_key_text(
        DataQualityKind::UntaggedUsage,
        findings.period@,
    ));
    if shown::was_dismissed(dismissed, key) {
        let i = choose|i: int| 0 <= i < dismissed.len() && (#[trigger] dismissed[i])@ == key;
        assert(dismissed[i]@ == key);
    }
    if crate::db::dismissed(dismissed, key) {
        let i = choose|i: int| 0 <= i < dismissed.len() && #[trigger] dismissed[i]@ == key;
        assert(dismissed[i]@ == key);
    }
}

/// The usage that untagged usage is a share of is that of the periods whose
/// untagged usage was not dismissed.
pub proof fn dismissed_periods_leave_the_share(
    findings: Seq<PeriodFindings>,
    dismissed: Seq<String>,
)
    ensures
        health::open_usage(findings, dismissed) == findings.filter(counts(dismissed)).map_values(
            |f: PeriodFindings| f.usage,
        ),
    decreases findings.len(),
{
    reveal(Seq::filter);
    let usage_of = |f: PeriodFindings| f.usage;
    if findings.len() > 0 {
        let fewer = findings.drop_last();
        dismissed_periods_leave_the_share(fewer, dismissed);
        lemma_nags(dismissed, findings.last());
        let kept = fewer.filter(counts(dismissed));
        assert(kept.push(findings.last()).map_values(usage_of) =~= kept.map_values(usage_of).push(
            findings.last().usage,
        ));
        assert(health::open_usage(findings, dismissed) =~= findings.filter(
            counts(dismissed),
        ).map_values(usage_of));
    } else {
        assert(health::open_usage(findings, dismissed) =~= findings.filter(
            counts(dismissed),
        ).map_values(usage_of));
    }
}

/// A service as it is listed: its provider and its name.
pub open spec fn listed_as(row: UntaggedServiceUsage) -> Seq<char> {
    if row.service is Some {
        row.provider@ + " · "@ + row.service->0@
    } else {
        row.provider@ + " · "@ + "Other"@
    }
}

/// A period lists a service with an amount.
pub open spec fn lists_service(
    findings: PeriodFindings,
    dismissed: Seq<String>,
    entry: (Seq<char>, Amount),
) -> bool {
    counts(dismissed)(findings) && exists|s: int|
        0 <= s < findings.services@.len() && listed_as(#[trigger] findings.services@[s]) == entry.0
            && findings.services@[s].amount == entry.1
}

/// The services named are those of the periods whose untagged usage was not
/// dismissed, each under its provider and name and with its own amount.
pub proof fn untagged_services_are_named(
    findings: Seq<PeriodFindings>,
    dismissed: Seq<String>,
    entry: (Seq<char>, Amount),
)
    ensures
        health::open_services(findings, dismissed).contains(entry) <==> exists|f: int|
            0 <= f < findings.len() && lists_service(#[trigger] findings[f], dismissed, entry),
    decreases findings.len(),
{
    if findings.len() > 0 {
        let fewer = findings.drop_last();
        let last = findings.len() - 1;
        untagged_services_are_named(fewer, dismissed, entry);
        lemma_nags(dismissed, findings.last());
        let services = findings.last().services@;
        let named = health::labelled(services);
        lemma_joined(health::open_services(fewer, dismissed), named, entry);
        assert(counts(dismissed)(findings[last]) ==> (named.contains(entry) <==> lists_service(
            findings[last],
            dismissed,
            entry,
        ))) by {
            assert forall|s: int| 0 <= s < services.len() implies #[trigger] named[s] == (
                listed_as(services[s]),
                services[s].amount,
            ) by {}
            if named.contains(entry) {
                let s = choose|s: int| 0 <= s < named.len() && named[s] == entry;
                assert(named[s] == (listed_as(services[s]), services[s].amount));
            }
            if exists|s: int|
                0 <= s < services.len() && listed_as(#[trigger] services[s]) == entry.0
                    && services[s].amount == entry.1 {
                let s = choose|s: int|
                    0 <= s < services.len() && listed_as(#[trigger] services[s]) == entry.0
                        && services[s].amount == entry.1;
                assert(named[s] == entry);
            }
        }
        if exists|f: int|
            0 <= f < fewer.len() && lists_service(#[trigger] fewer[f], dismissed, entry) {
            let f = choose|f: int|
                0 <= f < fewer.len() && lists_service(#[trigger] fewer[f], dismissed, entry);
            assert(lists_service(findings[f], dismissed, entry));
        }
        if exists|f: int|
            0 <= f < findings.len() && lists_service(#[trigger] findings[f], dismissed, entry) {
            let f = choose|f: int|
                0 <= f < findings.len() && lists_service(#[trigger] findings[f], dismissed, entry);
            if f < last {
                assert(lists_service(fewer[f], dismissed, entry));
            }
        }
    }
}

// ==================== New accounts ====================

/// A form is complete where it has a name; a key, unless the source's bill can be
/// imported; the secret that goes with a key, where the source has one; and no
/// export elsewhere than in a bucket.
pub proof fn a_complete_form_has_no_fault(form: AccountForm, source: cloud::SourceFacts)
    ensures
        form::form_fault(form, source) is None <==> {
            &&& form.name@.len() > 0
            &&& form.access_key@.len() > 0 || source.bill_file is Some
            &&& form.access_key@.len() > 0 && source.secret_key_label is Some
                ==> form.secret_key@.len() > 0
            &&& text::trimmed(form.export_uri@).len() > 0 ==> text::begins_with(
                text::trimmed(form.export_uri@),
                "s3://"@,
            )
        },
{
}

/// An account is made as its form says, for the source that was chosen: enabled,
/// never synced, with the key and the secret that were entered. Its bill is
/// fetched at once just where the source has an API and a key was entered, and an
/// import is suggested just where it is not and the source has an export.
pub proof fn an_account_is_made_as_its_form_says(
    draft: AccountDraft,
    form: AccountForm,
    source: cloud::SourceFacts,
    now: Timestamp,
)
    requires
        form::drafts(draft, form, source, now),
    ensures
        draft.account.name@ == form.name@,
        draft.account.source_id.id@ == source.id,
        draft.account.region is Some <==> form.region@.len() > 0,
        draft.account.region is Some ==> draft.account.region->0@ == form.region@,
        draft.account.export_uri is Some <==> text::trimmed(form.export_uri@).len() > 0,
        draft.account.export_uri is Some ==> draft.account.export_uri->0@ == text::trimmed(
            form.export_uri@,
        ),
        draft.account.created_at == now,
        draft.account.last_synced_at is None,
        draft.account.enabled,
        draft.access_key@ == form.access_key@,
        draft.secret_key@ == form.secret_key@,
        draft.fetch_after_save <==> source.fetches_from_api && form.access_key@.len() > 0,
        draft.import_hint is Some <==> source.bill_file is Some && !draft.fetch_after_save,
        draft.import_hint is Some ==> draft.import_hint->0@ == source.bill_file->0.display_name,
{
}

// ==================== Alerts ====================

/// What the kind of an alert is labelled.
pub open spec fn labelled_as(alert: AlertView, labels: KindLabels, label: Seq<char>) -> bool {
    &&& alert.kind == AlertKind::CostAnomaly ==> labels.cost_anomaly@ == label
    &&& alert.kind == AlertKind::Balance ==> labels.balance@ == label
    &&& alert.kind == AlertKind::UntaggedRatio ==> labels.untagged_ratio@ == label
    &&& alert.kind == AlertKind::Budget ==> labels.budget@ == label
}

/// A filter shows the alerts of its kind, each once and in their order; the filter
/// for all shows every one.
pub proof fn a_filter_shows_its_kind(
    open: Seq<AlertView>,
    label: Seq<char>,
    labels: KindLabels,
    count: int,
)
    requires
        0 <= count <= open.len(),
    ensures
        forall|k: int|
            #![trigger alerts::shown_in(open, label, labels, count).contains(k)]
            alerts::shown_in(open, label, labels, count).contains(k) <==> 0 <= k < count && (label
                == "All"@ || labelled_as(open[k], labels, label)),
        forall|i: int, j: int|
            #![trigger
                alerts::shown_in(open, label, labels, count)[i],
                alerts::shown_in(open, label, labels, count)[j]]
            0 <= i < j < alerts::shown_in(open, label, labels, count).len() ==> alerts::shown_in(
                open,
                label,
                labels,
                count,
            )[i] < alerts::shown_in(open, label, labels, count)[j],
    decreases count,
{
    if count > 0 {
        a_filter_shows_its_kind(open, label, labels, count - 1);
        let before = alerts::shown_in(open, label, labels, count - 1);
        let after = alerts::shown_in(open, label, labels, count);
        let shows = label == "All"@ || labelled_as(open[count - 1], labels, label);
        assert(shows == (label == "All"@ || alerts::label_of(open[count - 1].kind, labels)
            == label));
        assert forall|i: int| 0 <= i < before.len() implies #[trigger] before[i] < count - 1 by {
            assert(before.contains(before[i]));
        }
        assert forall|k: int| #![trigger after.contains(k)] after.contains(k) <==> 0 <= k < count
            && (label == "All"@ || labelled_as(open[k], labels, label)) by {
            if shows {
                lemma_joined(before, seq![count - 1], k);
                assert(after =~= before + seq![count - 1]);
                assert(seq![count - 1][0] == count - 1);
                assert(seq![count - 1].contains(k) <==> k == count - 1);
            }
            assert(before.contains(k) <==> 0 <= k < count - 1 && (label == "All"@ || labelled_as(
                open[k],
                labels,
                label,
            )));
        }
    }
}

/// The filter that applies is the selected one where it is offered, else the first.
pub proof fn a_filter_applies_while_it_is_offered(view: AlertsView)
    requires
        view.data is Some,
    ensures
        (exists|i: int|
            0 <= i < view.data->0.filters@.len() && (#[trigger] view.data->0.filters@[i]).label@
                == view.selected_filter@) ==> view.applied_filter() == view.selected_filter@,
        (forall|i: int|
            0 <= i < view.data->0.filters@.len() ==> (#[trigger] view.data->0.filters@[i]).label@
                != view.selected_filter@) && view.data->0.filters@.len() > 0
            ==> view.applied_filter() == view.data->0.filters@[0].label@,
{
    let filters = view.data->0.filters@;
    let test = alerts::has_label(view.selected_filter@);
    list::first_index_is_first(filters, test);
    match list::first_index(filters, test) {
        Some(i) => {
            assert(test(filters[i]));
        },
        None => {
            assert forall|i: int| 0 <= i < filters.len() implies (#[trigger] filters[i]).label@
                != view.selected_filter@ by {
                assert(!test(filters[i]));
            }
        },
    }
}

/// Dismissing is plain text; of the other actions the first stands out, and it
/// alone.
pub proof fn one_action_stands_out(actions: Seq<String>, i: int)
    requires
        0 <= i < actions.len(),
    ensures
        alerts::look_at(actions, i) == ActionLook::Text <==> actions[i]@ == "Dismiss"@,
        alerts::look_at(actions, i) == ActionLook::Primary <==> actions[i]@ != "Dismiss"@
            && forall|j: int| 0 <= j < i ==> (#[trigger] actions[j])@ == "Dismiss"@,
{
    let test = alerts::keeps_alert();
    list::first_index_is_first(actions, test);
    assert(test(actions[i]) == (actions[i]@ != "Dismiss"@));
    match list::first_index(actions, test) {
        Some(f) => {
            assert(test(actions[f]));
            assert forall|j: int| 0 <= j < f implies (#[trigger] actions[j])@ == "Dismiss"@ by {
                assert(!test(actions[j]));
            }
            if f < i {
                assert(actions[f]@ != "Dismiss"@);
            }
        },
        None => {
            assert(!test(actions[i]));
        },
    }
}

/// A rule is made from the inputs of its own kind, and only where those could be
/// read: the days of a cost rule as a whole number of them.
pub proof fn a_rule_is_made_from_its_inputs(
    kind: RuleKind,
    read: ReadInputs,
    consecutive: Seq<char>,
    res: Result<RuleConfig, String>,
)
    requires
        rules::describes(kind, read, consecutive, res),
    ensures
        kind == RuleKind::BalanceFloor ==> (res is Ok <==> read.floor is Some),
        kind == RuleKind::UntaggedRatio ==> (res is Ok <==> read.threshold is Some),
        kind == RuleKind::CostAnomaly ==> (res is Ok <==> read.multiplier is Some
            && text::whole_number(text::trimmed(consecutive)) is Some && text::whole_number(
            text::trimmed(consecutive),
        )->0 <= u64::MAX),
        res is Ok ==> match res->Ok_0 {
            RuleConfig::CostAnomaly { multiplier, consecutive_days } => {
                &&& kind == RuleKind::CostAnomaly
                &&& Some(multiplier) == read.multiplier
                &&& text::whole_number(text::trimmed(consecutive)) == Some(consecutive_days as nat)
            },
            RuleConfig::BalanceFloor { floor } => kind == RuleKind::BalanceFloor && Some(floor)
                == read.floor,
            RuleConfig::UntaggedRatio { threshold } => kind == RuleKind::UntaggedRatio && Some(
                threshold,
            ) == read.threshold,
        },
{
}

// ==================== Account pages ====================

/// A service's row tells its name, its amount and its share, and how it changed: as
/// rising unless it fell, and as unknown where there is nothing to compare with.
pub proof fn a_service_row_tells_of_its_service(
    cells: ServiceCells,
    row: ServiceRow,
    currency: Seq<char>,
)
    requires
        account_detail::is_service_cells(cells, row, currency),
    ensures
        cells.name@ == row.name@,
        cells.amount@ == fmt::amount_text(row.amount, currency),
        cells.share == row.share,
        row.change_pct is Some ==> cells.change.text@ == fmt::whole_change_text(row.change_pct->0)
            && (cells.change.rising <==> !row.change_pct->0.lt(shown::nothing())),
        row.change_pct is None ==> cells.change.text@ == "—"@ && !cells.change.rising,
{
}

/// The dashboard's figures are those of its report, in its order.
pub proof fn the_dashboard_tells_its_report(
    stats: Seq<dashboard::StatCard>,
    report: DashboardReport,
    symbol: Seq<char>,
)
    requires
        dashboard::is_stats(stats, report, symbol),
    ensures
        stats.len() == 4,
        stats[0].title@ == "Current Month"@,
        stats[1].title@ == "Last Month"@,
        stats[2].title@ == "Month-over-Month"@,
        stats[3].title@ == "Active Accounts"@,
        stats[0].rises is None && stats[1].rises is None && stats[3].rises is None,
        stats[0].value@ == symbol + fmt::plain_text(report.current_month),
        stats[1].value@ == symbol + fmt::plain_text(report.last_month),
        stats[2].value@ == fmt::change_text(report.month_over_month_change),
        stats[2].rises == Some(shown::nothing().le(report.month_over_month_change)),
        stats[3].value@ == text::decimal(report.accounts@.len()),
{
}

/// A card tells of its account: its name, its amount in its currency, and its
/// change where there is one. It is open just where its account is the expanded
/// one, and lists the account's services then.
pub proof fn a_card_tells_of_its_account(
    card: AccountCard,
    account: AccountReport,
    symbol: Seq<char>,
    view: DashboardView,
)
    requires
        dashboard::is_card(card, account, symbol, view),
    ensures
        card.account_id@ == account.account_id@,
        card.name@ == account.account_name@,
        card.short_name@ == account.short_name@,
        card.amount@ == symbol + fmt::plain_text(account.amount),
        account.snapshot ==> card.amount_label@ == "Balance"@,
        !account.snapshot ==> card.amount_label@ == "This Month"@,
        account.month_over_month_change is Some ==> card.change@ == fmt::change_text(
            account.month_over_month_change->0,
        ) && card.rises == Some(!account.month_over_month_change->0.lt(shown::nothing())),
        account.month_over_month_change is None ==> card.change@ == "—"@ && card.rises is None,
        card.expanded <==> view.expanded_account is Some && view.expanded_account->0@
            == account.account_id@,
        card.marker@ == (if card.expanded {
            "▼"@
        } else {
            "▶"@
        }),
        card.details is Some <==> card.expanded,
        card.details is Some ==> card.details->0.services@ == account.services@,
{
}

/// The cards of a section are those of its accounts, in the order of the report.
pub proof fn a_section_keeps_the_order(accounts: Seq<AccountReport>, snapshot: bool)
    ensures
        forall|k: int|
            #![trigger dashboard::places(accounts, snapshot)[k]]
            0 <= k < dashboard::places(accounts, snapshot).len() ==> 0 <= dashboard::places(
                accounts,
                snapshot,
            )[k] < accounts.len() && accounts[dashboard::places(accounts, snapshot)[k]].snapshot
                == snapshot,
        forall|j: int, k: int|
            #![trigger
                dashboard::places(accounts, snapshot)[j],
                dashboard::places(accounts, snapshot)[k]]
            0 <= j < k < dashboard::places(accounts, snapshot).len() ==> dashboard::places(
                accounts,
                snapshot,
            )[j] < dashboard::places(accounts, snapshot)[k],
    decreases accounts.len(),
{
    if accounts.len() > 0 {
        let fewer = accounts.drop_last();
        a_section_keeps_the_order(fewer, snapshot);
        let before = dashboard::places(fewer, snapshot);
        let after = dashboard::places(accounts, snapshot);
        assert forall|k: int| #![trigger after[k]] 0 <= k < after.len() implies 0 <= after[k]
            < accounts.len() && accounts[after[k]].snapshot == snapshot by {
            if k < before.len() {
                assert(after[k] == before[k]);
                assert(accounts[before[k]] == fewer[before[k]]);
            }
        }
        assert forall|j: int, k: int|
            #![trigger after[j], after[k]]
            0 <= j < k < after.len() implies after[j] < after[k] by {
            assert(after[j] == before[j]);
            if k < before.len() {
                assert(after[k] == before[k]);
            }
        }
    }
}

/// No day costs less than the smallest that a trend shows.
pub proof fn no_day_is_below_the_smallest(days: Seq<DailyCost>)
    requires
        days.len() > 0,
        forall|i: int| 0 <= i < days.len() ==> !(#[trigger] days[i]).amount.is_nan(),
    ensures
        forall|i: int|
            0 <= i < days.len() ==> !(#[trigger] days[i]).amount.lt(dashboard::smallest(days)),
{
    lemma_smallest(days);
}

proof fn lemma_smallest(days: Seq<DailyCost>)
    requires
        forall|i: int| 0 <= i < days.len() ==> !(#[trigger] days[i]).amount.is_nan(),
    ensures
        !dashboard::smallest(days).is_nan(),
        forall|i: int|
            0 <= i < days.len() ==> dashboard::smallest(days).rank() <= (
            #[trigger] days[i]).amount.rank() && !days[i].amount.lt(dashboard::smallest(days)),
    decreases days.len(),
{
    if days.len() > 0 {
        let fewer = days.drop_last();
        assert forall|i: int| 0 <= i < fewer.len() implies !(
        #[trigger] fewer[i]).amount.is_nan() by {
            assert(fewer[i] == days[i]);
        }
        lemma_smallest(fewer);
        assert(!days[days.len() - 1].amount.is_nan());
        assert forall|i: int| 0 <= i < days.len() implies dashboard::smallest(days).rank() <= (
        #[trigger] days[i]).amount.rank() && !days[i].amount.lt(dashboard::smallest(days)) by {
            if i < fewer.len() {
                assert(fewer[i] == days[i]);
            }
            days[i].amount.rank_orders_numbers(dashboard::smallest(days));
        }
    }
}

// ==================== Overview ====================

/// A line of the overview tells its name and amount; what has no line is grey, and
/// the others take turns.
pub proof fn a_line_tells_its_amount(
    cells: LineCells,
    row: BusinessLineRow,
    index: int,
    currency: Seq<char>,
)
    requires
        overview::is_line_cells(cells, row, index, currency),
    ensures
        cells.name@ == row.name@,
        cells.amount@ == fmt::amount_text(row.amount, currency),
        cells.tone == LineTone::Grey <==> row.name@ == "Unallocated"@,
        row.name@ != "Unallocated"@ ==> (cells.tone == LineTone::Accent <==> index % 2 == 0),
{
}

/// A mover's row tells its service, its amount, its change and the line it drives.
pub proof fn a_mover_tells_what_it_drives(cells: MoverCells, row: MoverRow, currency: Seq<char>)
    requires
        overview::is_mover_cells(cells, row, currency),
    ensures
        cells.provider@ == row.provider@,
        cells.service@ == row.service@,
        cells.amount@ == fmt::amount_text(row.amount, currency),
        row.change_pct is Some ==> cells.change.text@ == fmt::change_text(row.change_pct->0) && (
        cells.change.rising <==> !row.change_pct->0.lt(shown::nothing())),
        row.change_pct is None ==> cells.change.text@ == "—"@ && !cells.change.rising,
        cells.drives@ == row.drives@,
        cells.allocated <==> row.drives@ != "Unallocated"@,
{
}

/// A compared service's row tells both its months, each as what it was.
pub proof fn a_month_row_tells_both_months(
    cells: MonthCells,
    row: change::ServiceMonthComparison,
    currency: Seq<char>,
)
    requires
        overview::is_month_cells(cells, row, currency),
    ensures
        cells.service@ == row.service@,
        cells.current@ == fmt::amount_text(row.current, currency),
        cells.previous@ == fmt::amount_text(row.previous, currency),
        row.change_pct is Some ==> cells.change.text@ == fmt::change_text(row.change_pct->0) && (
        cells.change.rising <==> !row.change_pct->0.lt(shown::nothing())),
        row.change_pct is None ==> cells.change.text@ == "—"@ && !cells.change.rising,
{
}

/// What explains a change tells each category and each service with its own
/// difference, what appeared or grew as rising, and warns just where the parts
/// leave something over.
pub proof fn an_explanation_tells_its_parts(
    cells: overview::WhyCells,
    why: change::ChangeDecomposition,
    currency: Seq<char>,
)
    requires
        overview::explains(cells, why, currency),
    ensures
        cells.categories@.len() == why.categories@.len(),
        forall|i: int|
            #![trigger cells.categories@[i]]
            0 <= i < cells.categories@.len() ==> cells.categories@[i].category@
                == why.categories@[i].category@ && tells_difference(
                cells.categories@[i].delta,
                why.categories@[i].delta,
                currency,
            ),
        cells.movements@.len() == why.movements@.len(),
        forall|i: int|
            #![trigger cells.movements@[i]]
            0 <= i < cells.movements@.len() ==> {
                let badge = why.movements@[i].badge;
                &&& cells.movements@[i].service@ == why.movements@[i].service@
                &&& badge == change::MovementBadge::Appeared ==> cells.movements@[i].badge@
                    == "Appeared"@
                &&& badge == change::MovementBadge::Vanished ==> cells.movements@[i].badge@
                    == "Vanished"@
                &&& badge == change::MovementBadge::Grown ==> cells.movements@[i].badge@
                    == "Grown"@
                &&& badge == change::MovementBadge::Shrunk ==> cells.movements@[i].badge@
                    == "Shrunk"@
                &&& tells_difference(cells.movements@[i].delta, why.movements@[i].delta, currency)
                &&& cells.movements@[i].rising <==> badge == change::MovementBadge::Appeared
                    || badge == change::MovementBadge::Grown
            },
        cells.warning is Some <==> !why.reconciled,
{
}

/// A cell tells a difference: with a plus where it is not below nothing.
pub open spec fn tells_difference(
    cell: overview::ChangeCell,
    delta: Amount,
    currency: Seq<char>,
) -> bool {
    &&& shown::nothing().le(delta) ==> cell.text@ == "+"@ + fmt::amount_text(delta, currency)
    &&& !shown::nothing().le(delta) ==> cell.text@ == fmt::amount_text(delta, currency)
    &&& cell.rising <==> !delta.lt(shown::nothing())
}

// ==================== Query ====================

/// A cell of a result is the value of its row and column, behind a column of row
/// numbers; what is missing reads as such.
pub proof fn a_cell_is_its_value(result: QueryResultData, row: int, column: int)
    requires
        0 <= row < result.rows@.len(),
        0 <= column < result.rows@[row]@.len(),
    ensures
        query::cell_at(result, row, 0) == (text::decimal((row + 1) as nat), true),
        result.rows@[row]@[column] is Some ==> query::cell_at(result, row, column + 1) == (
            result.rows@[row]@[column]->0@,
            false,
        ),
        result.rows@[row]@[column] is None ==> query::cell_at(result, row, column + 1) == (
            "NULL"@,
            true,
        ),
{
}

/// Every template stands in the group of its category and in no other, in the order
/// of the templates; no category has two groups.
pub proof fn templates_are_grouped_by_category(templates: Seq<QueryTemplate>)
    ensures
        forall|g: int, at: int|
            #![trigger query::by_category(templates)[g].1.contains(at)]
            0 <= g < query::by_category(templates).len() ==> (query::by_category(
                templates,
            )[g].1.contains(at) <==> 0 <= at < templates.len() && templates[at].category@
                == query::by_category(templates)[g].0),
        forall|g: int, h: int|
            #![trigger query::by_category(templates)[g], query::by_category(templates)[h]]
            0 <= g < h < query::by_category(templates).len() ==> query::by_category(templates)[g].0
                != query::by_category(templates)[h].0,
        forall|at: int|
            #![trigger templates[at]]
            0 <= at < templates.len() ==> has_group(
                query::by_category(templates),
                templates[at].category@,
            ),
    decreases templates.len(),
{
    if templates.len() > 0 {
        let fewer = templates.drop_last();
        let last = templates.len() - 1;
        templates_are_grouped_by_category(fewer);
        let before = query::by_category(fewer);
        let after = query::by_category(templates);
        let category = templates.last().category@;
        let test = query::of_category(category);
        list::first_index_is_first(before, test);
        let found = list::first_index(before, test);
        assert forall|g: int, at: int|
            #![trigger after[g].1.contains(at)]
            0 <= g < after.len() implies (after[g].1.contains(at) <==> 0 <= at < templates.len()
            && templates[at].category@ == after[g].0) by {
            if 0 <= at < last {
                assert(templates[at] == fewer[at]);
            }
            if found is Some && g == found->0 {
                assert(test(before[g]));
                lemma_joined(before[g].1, seq![last], at);
                assert(after[g].1 =~= before[g].1 + seq![last]);
                assert(seq![last][0] == last);
                assert(before[g].1.contains(at) <==> 0 <= at < fewer.len() && fewer[at].category@
                    == before[g].0);
            } else if g < before.len() {
                assert(after[g] == before[g]);
                assert(before[g].1.contains(at) <==> 0 <= at < fewer.len() && fewer[at].category@
                    == before[g].0);
                assert(before[g].0 != category) by {
                    if found is Some {
                        assert(test(before[found->0]));
                        if g < found->0 {
                            assert(!test(before[g]));
                        }
                    } else {
                        assert(!test(before[g]));
                    }
                }
            } else {
                assert(after[g] == (category, seq![last]));
                assert(seq![last][0] == last);
                if 0 <= at < last && fewer[at].category@ == category {
                    assert(has_group(before, fewer[at].category@));
                    let b = choose|b: int|
                        0 <= b < before.len() && (#[trigger] before[b]).0 == category;
                    assert(!test(before[b]));
                }
            }
        }
        assert forall|g: int, h: int|
            #![trigger after[g], after[h]]
            0 <= g < h < after.len() implies after[g].0 != after[h].0 by {
            if found is Some {
                assert(test(before[found->0]));
                assert(after[g].0 == before[g].0 && after[h].0 == before[h].0);
            } else {
                assert(after[g] == before[g]);
                assert(!test(before[g]));
                if h < before.len() {
                    assert(after[h] == before[h]);
                }
            }
        }
        assert forall|at: int| #![trigger templates[at]] 0 <= at < templates.len() implies
            has_group(after, templates[at].category@) by {
            if at < last {
                assert(templates[at] == fewer[at]);
                let b = choose|b: int|
                    0 <= b < before.len() && (#[trigger] before[b]).0 == fewer[at].category@;
                if found is Some && b == found->0 {
                    assert(test(before[b]));
                }
                assert(after[b].0 == templates[at].category@);
            } else if found is Some {
                assert(after[found->0].0 == category);
            } else {
                assert(after[before.len() as int].0 == category);
            }
        }
    }
}

/// One of the groups is of a category.
pub open spec fn has_group(groups: Seq<(Seq<char>, Seq<int>)>, category: Seq<char>) -> bool {
    exists|g: int| 0 <= g < groups.len() && (#[trigger] groups[g]).0 == category
}

// ==================== The accounts page ====================

/// The amount of an account's row: the balance, in its own currency, of a source
/// that reports no more, and else what was billed this month.
pub proof fn a_balance_stands_for_a_cost(row: AccountRowData, currency: Seq<char>)
    ensures
        row.source_kind@ != "Balance only"@ ==> table::row_amount(row, currency)
            == fmt::amount_text(row.mtd, currency),
        row.source_kind@ == "Balance only"@ && row.balance is None ==> table::row_amount(
            row,
            currency,
        ) == "—"@,
        row.source_kind@ == "Balance only"@ && row.balance is Some ==> match row.balance->0 {
            (amount, own) => table::row_amount(row, currency) == fmt::amount_text(amount, own@)
                + " left"@,
        },
{
}

/// A source is offered by its short name; the selected one, and it alone, is marked.
pub proof fn a_source_is_offered_by_its_name(
    choice: SourceChoice,
    source: cloud::SourceFacts,
    selected: cloud::SourceFacts,
)
    requires
        table::is_choice(choice, source, selected),
    ensures
        choice.id@ == source.id,
        choice.label@ == source.short_name,
        choice.selected <==> source.id == selected.id,
        choice.tooltip is None <==> source.fetches_from_api,
{
}

/// The dialog always asks for a name, and for credentials only where the source has
/// an API: a key, the secret where it has one, the region where it has regions.
pub proof fn the_dialog_asks_for_what_a_source_needs(source: cloud::SourceFacts)
    ensures
        ({
            let fields = table::fields_of(source);
            let asks = |input: FormInput|
                exists|i: int| 0 <= i < fields.len() && (#[trigger] fields[i]).0 == input;
            &&& asks(FormInput::Name)
            &&& asks(FormInput::AccessKey) <==> source.fetches_from_api
            &&& asks(FormInput::SecretKey) <==> source.fetches_from_api
                && source.secret_key_label is Some
            &&& asks(FormInput::Region) <==> source.fetches_from_api && source.default_region
                is Some
            &&& asks(FormInput::ExportUri) <==> source.fetches_from_api && source.id == "AWS"@
        }),
{
    let fields = table::fields_of(source);
    assert(fields[0].0 == FormInput::Name);
    if source.fetches_from_api {
        assert(fields[1].0 == FormInput::AccessKey);
        if source.secret_key_label is Some {
            assert(fields[2].0 == FormInput::SecretKey);
        }
        if source.default_region is Some {
            assert(fields[if source.secret_key_label is Some {
                3int
            } else {
                2int
            }].0 == FormInput::Region);
        }
        if source.id == "AWS"@ {
            assert(fields[fields.len() - 1].0 == FormInput::ExportUri);
        }
    }
}

/// A finding's row tells its severity and message, and its amount where there is
/// one.
pub proof fn a_finding_tells_its_amount(
    cells: health::IssueCells,
    issue: DataQualityIssue,
    currency: Seq<char>,
)
    requires
        health::is_issue_cells(cells, issue, currency),
    ensures
        cells.severity == issue.severity,
        cells.message@ == issue.message@,
        cells.amount is Some <==> issue.affected_amount is Some,
        cells.amount is Some ==> cells.amount->0@ == fmt::amount_text(
            issue.affected_amount->0,
            currency,
        ),
{
}

/// What is said of untagged usage: how much it is, how much of all usage, and which
/// services it is of, each with its own amount.
pub proof fn the_nag_tells_what_is_untagged(
    cells: health::NagCells,
    untagged: health::UntaggedSummary,
    pct: Amount,
    currency: Seq<char>,
    in_browser: bool,
)
    requires
        health::is_nag_cells(cells, untagged, pct, currency, in_browser),
    ensures
        cells.severity == untagged.severity,
        cells.headline@ == fmt::amount_text(untagged.amount, currency)
            + " of usage is untagged this period ("@ + fmt::share_text(pct) + " of all usage)"@,
        cells.services@.len() == untagged.top_services@.len(),
        forall|i: int|
            #![trigger cells.services@[i]]
            0 <= i < cells.services@.len() ==> cells.services@[i].0@
                == untagged.top_services@[i].0@ && cells.services@[i].1@ == fmt::amount_text(
                untagged.top_services@[i].1,
                currency,
            ),
        cells.query_label is Some <==> !in_browser,
{
}

/// Untagged usage adds up what its findings could sum, and nothing for the others.
pub proof fn untagged_usage_adds_up_its_findings(issues: Seq<DataQualityIssue>, i: int)
    requires
        0 <= i < issues.len(),
    ensures
        health::untagged_terms(issues).len() == issues.len(),
        issues[i].affected_amount is Some ==> health::untagged_terms(issues)[i]
            == issues[i].affected_amount->0,
        issues[i].affected_amount is None ==> health::untagged_terms(issues)[i]
            == shown::nothing(),
{
}

/// Dismissing a card dismisses each finding that stands, under its own key.
pub proof fn a_dismissal_covers_what_stands(
    findings: Seq<PeriodFindings>,
    dismissed: Seq<String>,
    key: Seq<char>,
)
    ensures
        health::open_keys(findings, dismissed).contains(key) <==> exists|f: int|
            0 <= f < findings.len() && covers(#[trigger] findings[f], dismissed, key),
    decreases findings.len(),
{
    if findings.len() > 0 {
        let fewer = findings.drop_last();
        let last = findings.len() - 1;
        a_dismissal_covers_what_stands(fewer, dismissed, key);
        let period = findings.last().period@;
        let open = health::open_in(findings.last(), dismissed);
        let keys = health::keys_in(open, period);
        lemma_joined(health::open_keys(fewer, dismissed), keys, key);
        assert(keys.contains(key) <==> covers(findings[last], dismissed, key)) by {
            if keys.contains(key) {
                let k = choose|k: int| 0 <= k < keys.len() && keys[k] == key;
                lemma_open_in(findings.last(), dismissed, open[k]);
                assert(open.contains(open[k]));
                assert(stands_in(findings[last], dismissed, open[k]));
                assert(dismissed_as(open[k].kind, period) == key);
            }
            if covers(findings[last], dismissed, key) {
                let issue = choose|issue: DataQualityIssue| #[trigger]
                    stands_in(findings[last], dismissed, issue) && dismissed_as(
                        issue.kind,
                        period,
                    ) == key;
                lemma_open_in(findings.last(), dismissed, issue);
                let k = choose|k: int| 0 <= k < open.len() && open[k] == issue;
                assert(keys[k] == key);
            }
        }
        if exists|f: int| 0 <= f < fewer.len() && covers(#[trigger] fewer[f], dismissed, key) {
            let f = choose|f: int|
                0 <= f < fewer.len() && covers(#[trigger] fewer[f], dismissed, key);
            assert(covers(findings[f], dismissed, key));
        }
        if exists|f: int|
            0 <= f < findings.len() && covers(#[trigger] findings[f], dismissed, key) {
            let f = choose|f: int|
                0 <= f < findings.len() && covers(#[trigger] findings[f], dismissed, key);
            if f < last {
                assert(covers(fewer[f], dismissed, key));
            }
        }
    }
}

/// A key is that of a finding that stands in a period.
pub open spec fn covers(
    findings: PeriodFindings,
    dismissed: Seq<String>,
    key: Seq<char>,
) -> bool {
    exists|issue: DataQualityIssue| #[trigger]
        stands_in(findings, dismissed, issue) && dismissed_as(issue.kind, findings.period@) == key
}

/// A filter's chip tells its count, and is active just where it is selected.
pub proof fn a_chip_tells_its_count(
    chip: alerts::FilterChip,
    filter: AlertFilterData,
    selected: Seq<char>,
)
    requires
        alerts::is_chip(chip, filter, selected),
    ensures
        chip.label@ == filter.label@,
        chip.count@ == text::decimal(filter.count as nat),
        chip.active <==> filter.label@ == selected,
{
}

/// A resolved alert is dated by when it was resolved, else by when it was raised.
pub proof fn a_resolved_alert_is_dated(alert: AlertView)
    ensures
        ({
            let at = if alert.resolved_at is Some {
                alert.resolved_at->0
            } else {
                alert.created_at
            };
            let day = calendar::civil(at.seconds as int / 86_400);
            alerts::resolved_text(alert) == calendar::month_name(day.month as int).take(3) + " "@
                + text::padded(day.day as nat, 2)
        }),
{
}

/// The overview is empty where nothing was spent, no day is charted and no line has
/// usage.
pub proof fn an_empty_overview_has_nothing(data: OverviewData)
    ensures
        overview::is_empty_page(data) <==> {
            &&& data.stats.spend.bits == 0 || data.stats.spend.bits == 0x8000_0000_0000_0000
            &&& data.chart.actual@.len() == 0
            &&& data.business_lines@.len() == 0
        },
{
}

} // verus!
