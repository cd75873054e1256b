//! What the pages show of what they are given: findings, comparisons, movers,
//! alerts and the windows they are measured over.
use vstd::prelude::*;

use super::accounts;
use super::accounts::{AccountRead, AccountRowData, AccountState};
use super::alert_list;
use super::attribution;
use super::change;
use super::change::{ChangeDecomposition, Compared, MovementBadge};
use super::flows;
use super::flows::SourceFlows;
use super::overview;
use super::overview::{Drive, Mover, MoverRow};
use super::page;
use super::quality;
use super::quality::{DataQualityRow, DataQualitySeverity};
use super::range::Range;
use crate::alerts::{AlertKind, AlertView, Severity};
use crate::amount::Amount;
use crate::calendar;
use crate::calendar::{BillingPeriod, Date, Timestamp};
use crate::cloud;
use crate::db;
use crate::ledger::history;
use crate::ledger::measured;
use crate::ledger::ranked;
use crate::ledger::reach;
use crate::list;
use crate::memory;
use crate::memory::{NormalizedRow, Store};
use crate::model::{
    CloudAccount, CostChangeDecomposition, DataQualityIssue, DataQualityKind, IssueSeverity,
    MovementKind, Reporting, ServiceTagUsage, UntaggedCharge,
};
use crate::order;
use crate::text;

verus! {

/// No amount.
pub open spec fn nothing() -> Amount {
    Amount { bits: 0 }
}

/// One cent.
pub open spec fn cent() -> Amount {
    Amount { bits: 0x3F84_7AE1_47AE_147B }
}

/// The second a month begins with.
pub open spec fn first_second(year: int, month: int) -> int {
    (Date { year: year as i32, month: month as u32, day: 1 }).number() * 86_400
}

// ==================== Findings ====================

/// A row tells of a finding: what it is dismissed under, how bad it is, what it
/// says and how much is behind it.
pub open spec fn tells_of(
    row: DataQualityRow,
    issue: DataQualityIssue,
    period: Seq<char>,
) -> bool {
    &&& row.key@ == (match issue.kind {
        DataQualityKind::UnconvertedCharges => "unconverted_charges"@,
        DataQualityKind::UntaggedUsage => "untagged_usage"@,
        DataQualityKind::MissingRegion => "missing_region"@,
        DataQualityKind::UnreconciledAdjustments => "unreconciled_adjustments"@,
    }) + ":"@ + period
    &&& row.severity == DataQualitySeverity::Info <==> issue.severity == IssueSeverity::Info
    &&& row.severity == DataQualitySeverity::Warning <==> issue.severity == IssueSeverity::Warning
    &&& row.message@ == issue.message@
    &&& row.affected_amount == issue.affected_amount
}

/// A key is among those that were dismissed.
pub open spec fn was_dismissed(dismissed: Seq<String>, key: Seq<char>) -> bool {
    exists|i: int| 0 <= i < dismissed.len() && (#[trigger] dismissed[i])@ == key
}

/// A row tells of one of the findings.
pub open spec fn tells_of_one(
    row: DataQualityRow,
    issues: Seq<DataQualityIssue>,
    period: Seq<char>,
) -> bool {
    exists|k: int| 0 <= k < issues.len() && tells_of(row, #[trigger] issues[k], period)
}

/// One of the rows tells of a finding.
pub open spec fn is_told(
    rows: Seq<DataQualityRow>,
    issue: DataQualityIssue,
    period: Seq<char>,
) -> bool {
    exists|i: int| 0 <= i < rows.len() && tells_of(#[trigger] rows[i], issue, period)
}

/// The findings of a period are listed worst first, all but those that were
/// dismissed for it.
pub proof fn findings_are_listed_worst_first(
    rows: Seq<DataQualityRow>,
    issues: Seq<DataQualityIssue>,
    period: Seq<char>,
    dismissed: Seq<String>,
)
    requires
        rows.len() == quality::shown_issues(issues, period, dismissed).len(),
        forall|i: int|
            #![trigger rows[i]]
            0 <= i < rows.len() ==> quality::shows(
                rows[i],
                quality::shown_issues(issues, period, dismissed)[i],
                period,
            ),
    ensures
        forall|i: int|
            #![trigger rows[i]]
            0 <= i < rows.len() ==> tells_of_one(rows[i], issues, period) && !was_dismissed(
                dismissed,
                rows[i].key@,
            ),
        forall|k: int|
            #![trigger issues[k]]
            0 <= k < issues.len() ==> is_told(rows, issues[k], period) || was_dismissed(
                dismissed,
                issues[k].kind.name() + ":"@ + period,
            ),
        forall|i: int, j: int|
            #![trigger rows[i], rows[j]]
            0 <= i < j < rows.len() ==> {
                &&& rows[j].severity == DataQualitySeverity::Critical ==> rows[i].severity
                    == DataQualitySeverity::Critical
                &&& rows[i].severity == DataQualitySeverity::Info ==> rows[j].severity
                    == DataQualitySeverity::Info
            },
{
    let open = quality::open_issues(issues, period, dismissed);
    let shown = quality::shown_issues(issues, period, dismissed);
    let ranks = quality::issue_ranks(open);
    let at = order::ranking(ranks);
    let test = quality::still_open(period, dismissed);
    order::ranking_is_stable_and_complete(ranks);
    assert forall|key: Seq<char>| #[trigger] was_dismissed(dismissed, key) == db::dismissed(
        dismissed,
        key,
    ) by {}
    assert forall|i: int| #![trigger rows[i]] 0 <= i < rows.len() implies tells_of_one(
        rows[i],
        issues,
        period,
    ) && !was_dismissed(dismissed, rows[i].key@) by {
        assert(shown[i] == open[at[i]]);
        issues.lemma_filter_pred(test, at[i]);
        assert(open.contains(open[at[i]]));
        issues.lemma_filter_contains_rev(test, open[at[i]]);
        let k = choose|k: int| 0 <= k < issues.len() && issues[k] == open[at[i]];
        assert(tells_of(rows[i], issues[k], period));
        assert(was_dismissed(dismissed, rows[i].key@) == db::dismissed(dismissed, rows[i].key@));
    }
    assert forall|k: int| #![trigger issues[k]] 0 <= k < issues.len() implies is_told(
        rows,
        issues[k],
        period,
    ) || was_dismissed(dismissed, issues[k].kind.name() + ":"@ + period) by {
        let key = issues[k].kind.name() + ":"@ + period;
        assert(was_dismissed(dismissed, key) == db::dismissed(dismissed, key));
        if !was_dismissed(dismissed, key) {
            assert(test(issues[k]));
            issues.lemma_filter_contains(test, k);
            let o = choose|o: int| 0 <= o < open.len() && open[o] == issues[k];
            order::lemma_ranked_somewhere(ranks, o);
            let i = choose|i: int| 0 <= i < at.len() && at[i] == o;
            assert(quality::shows(rows[i], shown[i], period));
            assert(tells_of(rows[i], issues[k], period));
        }
    }
    assert forall|i: int, j: int| #![trigger rows[i], rows[j]] 0 <= i < j < rows.len() implies ({
        &&& rows[j].severity == DataQualitySeverity::Critical ==> rows[i].severity
            == DataQualitySeverity::Critical
        &&& rows[i].severity == DataQualitySeverity::Info ==> rows[j].severity
            == DataQualitySeverity::Info
    }) by {
        assert(quality::shows(rows[i], shown[i], period));
        assert(quality::shows(rows[j], shown[j], period));
        assert(order::ranks_ahead(ranks, at[i], at[j]));
        assert(ranks[at[i]] == quality::severity_of(shown[i].severity).rank());
        assert(ranks[at[j]] == quality::severity_of(shown[j].severity).rank());
    }
}

/// The typical-day line is drawn at the last day's value, where that is a cent or
/// more.
pub proof fn the_benchmark_is_the_last_typical_day(series: Seq<(String, Amount)>)
    ensures
        quality::flat_value(series) is Some <==> series.len() > 0 && cent().le(series[series.len() - 1].1),
        quality::flat_value(series) is Some ==> quality::flat_value(series)->0
            == series[series.len() - 1].1,
{
    if series.len() > 0 {
        series.last().1.positive_is_above_zero();
    }
}

// ==================== Two months ====================

/// A list gives a service an amount, and no later entry gives it another.
pub open spec fn gives_last(
    totals: Seq<(String, Amount)>,
    service: Seq<char>,
    amount: Amount,
) -> bool {
    exists|i: int| #[trigger] is_last(totals, service, i) && totals[i].1 == amount
}

/// The last entry of a service.
pub open spec fn is_last(totals: Seq<(String, Amount)>, service: Seq<char>, i: int) -> bool {
    0 <= i < totals.len() && totals[i].0@ == service && forall|j: int|
        i < j < totals.len() ==> (#[trigger] totals[j]).0@ != service
}

/// A list names a service.
pub open spec fn lists_service(totals: Seq<(String, Amount)>, service: Seq<char>) -> bool {
    exists|i: int| 0 <= i < totals.len() && (#[trigger] totals[i]).0@ == service
}

proof fn lemma_last_amount(totals: Seq<(String, Amount)>, service: Seq<char>)
    ensures
        match change::last_amount(totals, service) {
            Some(amount) => gives_last(totals, service, amount),
            None => !lists_service(totals, service),
        },
    decreases totals.len(),
{
    if totals.len() > 0 {
        let last = totals.len() - 1;
        let fewer = totals.drop_last();
        if totals.last().0@ == service {
            assert(is_last(totals, service, last));
        } else {
            lemma_last_amount(fewer, service);
            assert forall|i: int| 0 <= i < fewer.len() implies fewer[i] == #[trigger] totals[i] by {
            }
            if let Some(amount) = change::last_amount(fewer, service) {
                let i = choose|i: int| #[trigger]
                    is_last(fewer, service, i) && fewer[i].1 == amount;
                assert(is_last(totals, service, i));
            }
        }
    }
}

/// Two months are compared service by service: what a row shows as this month's is
/// what this month's list gives the service, nothing where it lists none, and what
/// it shows as last month's what last month's list gives it. Every service of
/// either month has a row, and a service has vanished where only last month lists
/// it.
pub proof fn months_are_compared_by_service(
    rows: Seq<Compared>,
    current: Seq<(String, Amount)>,
    previous: Seq<(String, Amount)>,
)
    requires
        change::union_of(rows, current, previous),
    ensures
        forall|i: int|
            #![trigger rows[i]]
            0 <= i < rows.len() ==> {
                &&& rows[i].vanished <==> !lists_service(current, rows[i].service@)
                &&& rows[i].vanished ==> rows[i].current == nothing() && lists_service(
                    previous,
                    rows[i].service@,
                )
                &&& !rows[i].vanished ==> i < current.len() && current[i].0@ == rows[i].service@
                    && current[i].1 == rows[i].current
                &&& lists_service(previous, rows[i].service@) ==> gives_last(
                    previous,
                    rows[i].service@,
                    rows[i].previous,
                )
                &&& !lists_service(previous, rows[i].service@) ==> rows[i].previous == nothing()
            },
        forall|name: Seq<char>|
            lists_service(current, name) || lists_service(previous, name) ==> exists|i: int|
                0 <= i < rows.len() && (#[trigger] rows[i]).service@ == name,
{
    assert forall|i: int| #![trigger rows[i]] 0 <= i < rows.len() implies ({
        &&& rows[i].vanished <==> !lists_service(current, rows[i].service@)
        &&& rows[i].vanished ==> rows[i].current == nothing() && lists_service(
            previous,
            rows[i].service@,
        )
        &&& !rows[i].vanished ==> i < current.len() && current[i].0@ == rows[i].service@
            && current[i].1 == rows[i].current
        &&& lists_service(previous, rows[i].service@) ==> gives_last(
            previous,
            rows[i].service@,
            rows[i].previous,
        )
        &&& !lists_service(previous, rows[i].service@) ==> rows[i].previous == nothing()
    }) by {
        let name = rows[i].service@;
        lemma_last_amount(previous, name);
        if change::last_amount(previous, name) is Some {
            let k = choose|k: int| #[trigger]
                is_last(previous, name, k) && previous[k].1 == change::last_amount(
                    previous,
                    name,
                )->0;
            assert(previous[k].0@ == name);
            assert(lists_service(previous, name));
        }
        if i < current.len() {
            assert(change::is_current(rows[i], current[i], previous));
            assert(lists_service(current, name));
        } else {
            assert(change::is_vanished(rows[i], current, previous));
            assert(change::has_name(current, name) == lists_service(current, name));
            assert(change::has_name(previous, name) == lists_service(previous, name));
        }
    }
    assert forall|name: Seq<char>|
        lists_service(current, name) || lists_service(previous, name) implies exists|i: int|
        0 <= i < rows.len() && (#[trigger] rows[i]).service@ == name by {
        if lists_service(current, name) {
            let c = choose|c: int| 0 <= c < current.len() && (#[trigger] current[c]).0@ == name;
            assert(change::is_current(rows[c], current[c], previous));
            assert(rows[c].service@ == name);
        } else {
            assert(change::has_name(previous, name) == lists_service(previous, name));
            assert(change::has_name(current, name) == lists_service(current, name));
        }
    }
}

/// The larger of two amounts is one of them, and neither is above it.
pub proof fn the_larger_is_not_exceeded(one: Amount, other: Amount)
    ensures
        one.max_of(other) == one || one.max_of(other) == other,
        !one.max_of(other).lt(one),
        !one.max_of(other).lt(other),
        one.min_of(other) == one || one.min_of(other) == other,
        !one.lt(one.min_of(other)),
        !other.lt(one.min_of(other)),
        !one.is_nan() ==> !one.max_of(other).is_nan() && !one.min_of(other).is_nan(),
{
}

/// The comparison shows the five largest services, by the larger of their two
/// months, the largest first; what it leaves out is not larger.
pub proof fn the_largest_services_are_compared(
    listed: Seq<Compared>,
    rows: Seq<Compared>,
)
    requires
        listed == change::largest_services(rows),
    ensures
        listed.len() == (if rows.len() < 5 {
            rows.len()
        } else {
            5
        }),
        forall|i: int| #![trigger listed[i]] 0 <= i < listed.len() ==> rows.contains(listed[i]),
        forall|i: int, j: int|
            #![trigger listed[i], listed[j]]
            0 <= i < j < listed.len() ==> !listed[i].current.max_of(listed[i].previous).lt(
                listed[j].current.max_of(listed[j].previous),
            ),
        forall|row: Compared|
            #![trigger rows.contains(row)]
            rows.contains(row) && !listed.contains(row) ==> forall|i: int|
                #![trigger listed[i]]
                0 <= i < listed.len() ==> !listed[i].current.max_of(listed[i].previous).lt(
                    row.current.max_of(row.previous),
                ),
{
    let amounts = change::larger_months(rows);
    let sorted = ranked::sorted_by_amount(rows, amounts);
    let at = measured::a_sorted_list_falls(rows, amounts);
    assert forall|i: int| #![trigger listed[i]] 0 <= i < listed.len() implies rows.contains(
        listed[i],
    ) by {
        assert(listed[i] == rows[at[i]]);
    }
    assert forall|i: int, j: int|
        #![trigger listed[i], listed[j]]
        0 <= i < j < listed.len() implies !listed[i].current.max_of(listed[i].previous).lt(
        listed[j].current.max_of(listed[j].previous),
    ) by {
        assert(listed[i] == rows[at[i]] && listed[j] == rows[at[j]]);
        assert(amounts[at[i]] == rows[at[i]].current.max_of(rows[at[i]].previous));
        assert(amounts[at[j]] == rows[at[j]].current.max_of(rows[at[j]].previous));
    }
    assert forall|row: Compared|
        #![trigger rows.contains(row)]
        rows.contains(row) && !listed.contains(row) implies forall|i: int|
        #![trigger listed[i]]
        0 <= i < listed.len() ==> !listed[i].current.max_of(listed[i].previous).lt(
            row.current.max_of(row.previous),
        ) by {
        broadcast use vstd::seq_lib::group_to_multiset_ensures;

        assert(rows.to_multiset().count(row) > 0);
        assert(sorted.contains(row));
        let k = choose|k: int| 0 <= k < sorted.len() && sorted[k] == row;
        if k < listed.len() {
            assert(listed[k] == row);
        }
        assert forall|i: int|
            #![trigger listed[i]]
            0 <= i < listed.len() implies !listed[i].current.max_of(listed[i].previous).lt(
            row.current.max_of(row.previous),
        ) by {
            assert(listed[i] == rows[at[i]] && row == rows[at[k]]);
            assert(amounts[at[i]] == rows[at[i]].current.max_of(rows[at[i]].previous));
            assert(amounts[at[k]] == rows[at[k]].current.max_of(rows[at[k]].previous));
        }
    }
}

/// A compared service shows both its months as they are, and a change only where
/// last month was a cent or more: all of it lost where it vanished.
pub proof fn a_change_needs_a_base(row: Compared, pct: Amount)
    ensures
        change::comparison(row, pct).service == row.service,
        change::comparison(row, pct).current == row.current,
        change::comparison(row, pct).previous == row.previous,
        change::comparison(row, pct).change_pct is Some <==> cent().le(row.previous),
        change::comparison(row, pct).change_pct is Some ==> change::comparison(
            row,
            pct,
        ).change_pct->0 == (if row.vanished {
            Amount { bits: 0xC059_0000_0000_0000 }
        } else {
            pct
        }),
{
    row.previous.positive_is_above_zero();
}

/// A percentage is shown just where its base is a cent or more, as it was worked
/// out.
pub proof fn a_percentage_needs_a_base(base: Amount, pct: Amount, usage: Amount)
    ensures
        overview::change_from(base, pct) is Some <==> cent().le(
            base,
        ),
        overview::change_from(base, pct) is Some ==> overview::change_from(base, pct)->0 == pct,
        attribution::share_of(usage, pct) == (if nothing().lt(usage) {
            pct
        } else {
            nothing()
        }),
{
    base.positive_is_above_zero();
    usage.positive_is_above_zero();
}

/// What explains a change shows the first five categories and the first five
/// services of the decomposition, each with its own change, and what is left over.
pub proof fn a_change_is_explained_by_its_parts(
    section: ChangeDecomposition,
    of: CostChangeDecomposition,
)
    requires
        change::shows(section, of),
    ensures
        section.categories@.len() == (if of.by_category@.len() < 5 {
            of.by_category@.len()
        } else {
            5
        }),
        section.movements@.len() == (if of.by_service@.len() < 5 {
            of.by_service@.len()
        } else {
            5
        }),
        forall|i: int|
            #![trigger section.categories@[i]]
            0 <= i < section.categories@.len() ==> section.categories@[i].category
                == of.by_category@[i].category && section.categories@[i].delta
                == of.by_category@[i].delta,
        forall|i: int|
            #![trigger section.movements@[i]]
            0 <= i < section.movements@.len() ==> {
                &&& section.movements@[i].service == of.by_service@[i].service
                &&& section.movements@[i].delta == of.by_service@[i].delta
                &&& section.movements@[i].badge == (match of.by_service@[i].kind {
                    MovementKind::Appeared => MovementBadge::Appeared,
                    MovementKind::Vanished => MovementBadge::Vanished,
                    MovementKind::Grown => MovementBadge::Grown,
                    MovementKind::Shrunk => MovementBadge::Shrunk,
                })
            },
        section.residual == of.residual,
        section.reconciled == of.reconciled,
{
}

// ==================== Movers ====================

/// The first entry of a service of a provider.
pub open spec fn is_first_of(
    totals: Seq<(String, String, Amount)>,
    provider: Seq<char>,
    service: Seq<char>,
    i: int,
) -> bool {
    0 <= i < totals.len() && totals[i].0@ == provider && totals[i].1@ == service && forall|j: int|
        0 <= j < i ==> (#[trigger] totals[j]).0@ != provider || totals[j].1@ != service
}

/// What a service is compared with is what the earlier list gives that service of
/// that provider, nothing where it lists none.
pub proof fn a_service_is_compared_with_itself(
    previous: Seq<(String, String, Amount)>,
    provider: Seq<char>,
    service: Seq<char>,
)
    ensures
        forall|i: int| #[trigger]
            is_first_of(previous, provider, service, i) ==> overview::prior_amount(
                previous,
                provider,
                service,
            ) == previous[i].2,
        (forall|i: int|
            0 <= i < previous.len() ==> (#[trigger] previous[i]).0@ != provider || previous[i].1@
                != service) ==> overview::prior_amount(previous, provider, service) == nothing(),
    decreases previous.len(),
{
    if previous.len() > 0 {
        let rest = previous.skip(1);
        a_service_is_compared_with_itself(rest, provider, service);
        assert forall|i: int| 0 <= i < rest.len() implies rest[i] == #[trigger] previous[i + 1] by {}
        if previous[0].0@ == provider && previous[0].1@ == service {
            assert forall|i: int| #[trigger]
                is_first_of(previous, provider, service, i) implies overview::prior_amount(
                previous,
                provider,
                service,
            ) == previous[i].2 by {
                if i > 0 {
                    assert(previous[0].0@ != provider || previous[0].1@ != service);
                }
            }
        } else {
            assert forall|i: int| #[trigger]
                is_first_of(previous, provider, service, i) implies overview::prior_amount(
                previous,
                provider,
                service,
            ) == previous[i].2 by {
                assert(rest[i - 1] == previous[i]);
                assert forall|j: int| 0 <= j < i - 1 implies (#[trigger] rest[j]).0@ != provider
                    || rest[j].1@ != service by {
                    assert(previous[j + 1].0@ != provider || previous[j + 1].1@ != service);
                }
                assert(is_first_of(rest, provider, service, i - 1));
            }
            if forall|i: int|
                0 <= i < previous.len() ==> (#[trigger] previous[i]).0@ != provider
                    || previous[i].1@ != service {
                assert forall|i: int| 0 <= i < rest.len() implies (#[trigger] rest[i]).0@
                    != provider || rest[i].1@ != service by {
                    assert(previous[i + 1].0@ != provider || previous[i + 1].1@ != service);
                }
            }
        }
    }
}

/// A mover is one of the services, with its own usage and change.
pub open spec fn moves_as(
    mover: Mover,
    current: Seq<(String, String, Amount)>,
    previous: Seq<(String, String, Amount)>,
    pcts: Seq<Amount>,
    i: int,
) -> bool {
    &&& 0 <= i < current.len()
    &&& mover.provider == current[i].0
    &&& mover.service == current[i].1
    &&& mover.amount == current[i].2
    &&& mover.change_pct is Some <==> cent().le(
        overview::prior_amount(previous, current[i].0@, current[i].1@),
    )
    &&& mover.change_pct is Some ==> mover.change_pct->0 == pcts[i]
}

/// A mover is one of the services.
pub open spec fn moves(
    mover: Mover,
    current: Seq<(String, String, Amount)>,
    previous: Seq<(String, String, Amount)>,
    pcts: Seq<Amount>,
) -> bool {
    exists|i: int| #[trigger] moves_as(mover, current, previous, pcts, i)
}

/// The movers are the five services that moved most, those with a change ahead of
/// those without: by how much they changed, up or down, and then by their usage.
pub proof fn the_movers_moved_most(
    listed: Seq<Mover>,
    current: Seq<(String, String, Amount)>,
    previous: Seq<(String, String, Amount)>,
    pcts: Seq<Amount>,
)
    requires
        pcts.len() == current.len(),
        ({
            let all = overview::movers_of(current, previous, pcts);
            listed == ranked::first(
                order::arranged(all, order::ranking(overview::mover_ranks(all))),
                5,
            )
        }),
    ensures
        listed.len() == (if current.len() < 5 {
            current.len()
        } else {
            5
        }),
        forall|i: int|
            #![trigger listed[i]]
            0 <= i < listed.len() ==> moves(listed[i], current, previous, pcts),
        forall|i: int, j: int|
            #![trigger listed[i], listed[j]]
            0 <= i < j < listed.len() ==> {
                &&& listed[j].change_pct is Some ==> listed[i].change_pct is Some
                &&& listed[j].change_pct is Some ==> listed[i].change_pct->0.magnitude()
                    >= listed[j].change_pct->0.magnitude()
                &&& listed[i].change_pct is None ==> !listed[i].amount.lt(listed[j].amount)
            },
{
    let all = overview::movers_of(current, previous, pcts);
    let ranks = overview::mover_ranks(all);
    let at = order::ranking(ranks);
    order::ranking_is_stable_and_complete(ranks);
    assert forall|i: int| #![trigger listed[i]] 0 <= i < listed.len() implies moves(
        listed[i],
        current,
        previous,
        pcts,
    ) by {
        let k = at[i];
        assert(listed[i] == all[k]);
        overview::prior_amount(previous, current[k].0@, current[k].1@).positive_is_above_zero();
        assert(moves_as(listed[i], current, previous, pcts, k));
    }
    assert forall|i: int, j: int|
        #![trigger listed[i], listed[j]]
        0 <= i < j < listed.len() implies ({
        &&& listed[j].change_pct is Some ==> listed[i].change_pct is Some
        &&& listed[j].change_pct is Some ==> listed[i].change_pct->0.magnitude()
            >= listed[j].change_pct->0.magnitude()
        &&& listed[i].change_pct is None ==> !listed[i].amount.lt(listed[j].amount)
    }) by {
        assert(listed[i] == all[at[i]] && listed[j] == all[at[j]]);
        assert(order::ranks_ahead(ranks, at[i], at[j]));
        assert(ranks[at[i]] == overview::mover_rank(listed[i]));
        assert(ranks[at[j]] == overview::mover_rank(listed[j]));
        overview::percentages_rank_first(listed[j], listed[i]);
        listed[i].amount.rank_orders_numbers(listed[j].amount);
    }
}

/// The first usage of a service that has a business line.
pub open spec fn is_first_line(
    rows: Seq<ServiceTagUsage>,
    provider: Seq<char>,
    service: Seq<char>,
    i: int,
) -> bool {
    &&& 0 <= i < rows.len()
    &&& rows[i].provider@ == provider
    &&& rows[i].service@ == service
    &&& rows[i].tag_value@ != "Unallocated"@
    &&& forall|j: int|
        0 <= j < i && (#[trigger] rows[j]).provider@ == provider && rows[j].service@ == service
            ==> rows[j].tag_value@ == "Unallocated"@
}

/// The business line that a service drives is the first named one in its usage, the
/// largest where the usage is ranked; "Unallocated" where its usage has none, and
/// nothing where it has no usage.
pub proof fn a_service_drives_its_first_line(
    rows: Seq<ServiceTagUsage>,
    provider: Seq<char>,
    service: Seq<char>,
)
    ensures
        forall|i: int| #[trigger]
            is_first_line(rows, provider, service, i) ==> overview::driven_line(
                rows,
                provider,
                service,
            ) == Some(rows[i].tag_value@),
        (forall|i: int|
            0 <= i < rows.len() ==> (#[trigger] rows[i]).provider@ != provider || rows[i].service@
                != service) ==> overview::driven_line(rows, provider, service) is None,
        (forall|i: int|
            0 <= i < rows.len() && (#[trigger] rows[i]).provider@ == provider && rows[i].service@
                == service ==> rows[i].tag_value@ == "Unallocated"@) && overview::has_service(
            rows,
            provider,
            service,
        ) ==> overview::driven_line(rows, provider, service) == Some("Unallocated"@),
{
    lemma_named_line(rows, provider, service);
    assert forall|i: int| #[trigger]
        is_first_line(rows, provider, service, i) implies overview::driven_line(
        rows,
        provider,
        service,
    ) == Some(rows[i].tag_value@) by {
        assert(overview::of_service(rows[i], provider, service));
    }
    if overview::has_service(rows, provider, service) {
        let i = choose|i: int|
            0 <= i < rows.len() && #[trigger] overview::of_service(rows[i], provider, service);
        assert(rows[i].provider@ == provider);
    }
}

proof fn lemma_named_line(rows: Seq<ServiceTagUsage>, provider: Seq<char>, service: Seq<char>)
    ensures
        forall|i: int| #[trigger]
            is_first_line(rows, provider, service, i) ==> overview::named_line(
                rows,
                provider,
                service,
            ) == Some(rows[i].tag_value@),
        (forall|i: int|
            0 <= i < rows.len() && (#[trigger] rows[i]).provider@ == provider && rows[i].service@
                == service ==> rows[i].tag_value@ == "Unallocated"@) ==> overview::named_line(
            rows,
            provider,
            service,
        ) is None,
    decreases rows.len(),
{
    if rows.len() > 0 {
        let fewer = rows.drop_last();
        let last = rows.len() - 1;
        lemma_named_line(fewer, provider, service);
        assert forall|i: int| 0 <= i < fewer.len() implies fewer[i] == #[trigger] rows[i] by {}
        assert forall|i: int| #[trigger]
            is_first_line(rows, provider, service, i) implies overview::named_line(
            rows,
            provider,
            service,
        ) == Some(rows[i].tag_value@) by {
            if i < last {
                assert(is_first_line(fewer, provider, service, i));
            } else {
                assert forall|j: int|
                    0 <= j < fewer.len() && (#[trigger] fewer[j]).provider@ == provider
                        && fewer[j].service@ == service implies fewer[j].tag_value@
                    == "Unallocated"@ by {
                    assert(rows[j].provider@ == provider);
                }
                assert(overview::named_line(fewer, provider, service) is None);
            }
        }
        if forall|i: int|
            0 <= i < rows.len() && (#[trigger] rows[i]).provider@ == provider && rows[i].service@
                == service ==> rows[i].tag_value@ == "Unallocated"@ {
            assert forall|j: int|
                0 <= j < fewer.len() && (#[trigger] fewer[j]).provider@ == provider
                    && fewer[j].service@ == service implies fewer[j].tag_value@
                == "Unallocated"@ by {
                assert(rows[j].provider@ == provider);
            }
            assert(rows[last].provider@ == provider && rows[last].service@ == service
                ==> rows[last].tag_value@ == "Unallocated"@);
        }
    }
}

/// A row of the movers shows its mover, and the line it is listed to drive.
pub proof fn a_mover_row_shows_its_mover(
    rows: Seq<MoverRow>,
    movers: Seq<Mover>,
    drives: Seq<Drive>,
    i: int,
)
    requires
        overview::tells_movers(rows, movers, drives),
        0 <= i < rows.len(),
    ensures
        rows.len() == movers.len(),
        rows[i].provider == movers[i].provider,
        rows[i].service == movers[i].service,
        rows[i].amount == movers[i].amount,
        rows[i].change_pct == movers[i].change_pct,
        overview::listed_line(drives, movers[i].provider@, movers[i].service@) is None
            ==> rows[i].drives@ == "Unallocated"@,
        overview::listed_line(drives, movers[i].provider@, movers[i].service@) is Some
            ==> rows[i].drives@ == overview::listed_line(
            drives,
            movers[i].provider@,
            movers[i].service@,
        )->0,
{
}

/// The line that a breakdown drives is its first named one, the largest where it
/// is ranked.
pub proof fn a_breakdown_drives_its_first_line(breakdown: Seq<(String, Amount)>, i: int)
    ensures
        0 <= i < breakdown.len() && breakdown[i].0@ != "Unallocated"@ && (forall|j: int|
            0 <= j < i ==> (#[trigger] breakdown[j]).0@ == "Unallocated"@)
            ==> overview::line_of_breakdown(breakdown) == breakdown[i].0@,
        (forall|j: int|
            0 <= j < breakdown.len() ==> (#[trigger] breakdown[j]).0@ == "Unallocated"@)
            ==> overview::line_of_breakdown(breakdown) == "Unallocated"@,
    decreases breakdown.len(),
{
    if breakdown.len() > 0 {
        let rest = breakdown.skip(1);
        a_breakdown_drives_its_first_line(rest, i - 1);
        assert forall|j: int| 0 <= j < rest.len() implies rest[j] == #[trigger] breakdown[j + 1] by {
        }
        if breakdown[0].0@ == "Unallocated"@ {
            if 0 <= i < breakdown.len() && breakdown[i].0@ != "Unallocated"@ && (forall|j: int|
                0 <= j < i ==> (#[trigger] breakdown[j]).0@ == "Unallocated"@) {
                assert(rest[i - 1] == breakdown[i]);
                assert forall|j: int| 0 <= j < i - 1 implies (#[trigger] rest[j]).0@
                    == "Unallocated"@ by {
                    assert(breakdown[j + 1].0@ == "Unallocated"@);
                }
            }
            if forall|j: int|
                0 <= j < breakdown.len() ==> (#[trigger] breakdown[j]).0@ == "Unallocated"@ {
                assert forall|j: int| 0 <= j < rest.len() implies (#[trigger] rest[j]).0@
                    == "Unallocated"@ by {
                    assert(breakdown[j + 1].0@ == "Unallocated"@);
                }
            }
        } else if 0 <= i < breakdown.len() && breakdown[i].0@ != "Unallocated"@ && (forall|j: int|
            0 <= j < i ==> (#[trigger] breakdown[j]).0@ == "Unallocated"@) {
            if i > 0 {
                assert(breakdown[0].0@ == "Unallocated"@);
            }
        }
    }
}

/// What reaches no business line is what a breakdown gives "Unallocated", nothing
/// where it gives it nothing.
pub proof fn unallocated_is_what_has_no_line(breakdown: Seq<(String, Amount)>)
    ensures
        forall|i: int|
            0 <= i < breakdown.len() && (#[trigger] breakdown[i]).0@ == "Unallocated"@ && (forall|
                j: int,
            |
                0 <= j < i ==> (#[trigger] breakdown[j]).0@ != "Unallocated"@)
                ==> attribution::unallocated_in(breakdown) == breakdown[i].1,
        (forall|i: int|
            0 <= i < breakdown.len() ==> (#[trigger] breakdown[i]).0@ != "Unallocated"@)
            ==> attribution::unallocated_in(breakdown) == nothing(),
{
    let test = attribution::is_unallocated();
    list::first_index_is_first(breakdown, test);
    assert forall|i: int|
        0 <= i < breakdown.len() && (#[trigger] breakdown[i]).0@ == "Unallocated"@ && (forall|
            j: int,
        |
            0 <= j < i ==> (#[trigger] breakdown[j]).0@
                != "Unallocated"@) implies attribution::unallocated_in(breakdown)
        == breakdown[i].1 by {
        assert(test(breakdown[i]));
        match list::first_index(breakdown, test) {
            Some(f) => {
                assert(test(breakdown[f]));
                assert(breakdown[f].0@ == "Unallocated"@);
                if i < f {
                    assert(!test(breakdown[i]));
                }
            },
            None => {
                assert(!test(breakdown[i]));
            },
        }
    }
    if let Some(f) = list::first_index(breakdown, test) {
        assert(test(breakdown[f]));
        assert(breakdown[f].0@ == "Unallocated"@);
    }
}

/// The business lines are those of the breakdown, with their amounts, in its order.
pub proof fn business_lines_are_the_breakdown(breakdown: Seq<(String, Amount)>, i: int)
    requires
        0 <= i < breakdown.len(),
    ensures
        page::lines_of(breakdown).len() == breakdown.len(),
        page::lines_of(breakdown)[i].name == breakdown[i].0,
        page::lines_of(breakdown)[i].amount == breakdown[i].1,
{
}

// ==================== Windows ====================

/// The windows of a range. The month to date begins at the first midnight of the
/// month, and is compared with the month before. Thirty days are today and the
/// twenty-nine before, compared with the thirty before those. Twelve months are
/// this one and the eleven before, compared with the twelve before those. Each
/// window ends now.
pub proof fn windows_begin_where_they_say(range: Range, now: Timestamp)
    requires
        range.reaches(now),
    ensures
        range.window(now).1 == now,
        range.window(now).0.nanos == 0,
        range.prior_window(now).0.nanos == 0,
        range == Range::Days30 ==> range.window(now).0.seconds == (now.seconds as int / 86_400 - 29)
            * 86_400,
        range == Range::Days30 ==> range.prior_window(now).0.seconds == (now.seconds as int / 86_400
            - 59) * 86_400,
        range == Range::Mtd ==> range.window(now).0.seconds == first_second(
            now.on().year as int,
            now.on().month as int,
        ),
        range == Range::Mtd && now.on().month > 1 ==> range.prior_window(now).0.seconds
            == first_second(now.on().year as int, now.on().month - 1),
        range == Range::Mtd && now.on().month == 1 ==> range.prior_window(now).0.seconds
            == first_second(now.on().year - 1, 12),
        range == Range::Months12 && now.on().month == 12 ==> range.window(now).0.seconds
            == first_second(now.on().year as int, 1),
        range == Range::Months12 && now.on().month < 12 ==> range.window(now).0.seconds
            == first_second(now.on().year - 1, now.on().month + 1),
        range == Range::Months12 && now.on().month == 12 ==> range.prior_window(now).0.seconds
            == first_second(now.on().year - 1, 1),
        range == Range::Months12 && now.on().month < 12 ==> range.prior_window(now).0.seconds
            == first_second(now.on().year - 2, now.on().month + 1),
{
    calendar::lemma_day_exists(now);
    let today = now.on();
    let index = calendar::period_of(now).index();
    assert(index == today.year * 12 + today.month - 1);
    calendar::lemma_number_range(calendar::period_of(now).first_day());
    if range == Range::Mtd {
        lemma_month_at(index - 1);
    } else if range == Range::Months12 {
        lemma_month_at(index - 11);
        lemma_month_at(index - 23);
    }
}

proof fn lemma_month_at(index: int)
    requires
        -262143 * 12 <= index < 262143 * 12,
    ensures
        ({
            let period = BillingPeriod::at(index);
            &&& period.valid()
            &&& period.index() == index
            &&& super::range::month_start(period).seconds == period.first_day().number() * 86_400
            &&& super::range::month_start(period).nanos == 0
        }),
{
    let period = BillingPeriod::at(index);
    assert(period.year == index / 12);
    assert(period.month == index % 12 + 1);
    calendar::lemma_number_range(period.first_day());
}

/// The days of a month that count against the same days of another: of the labels
/// of days, those in the month and up to the day.
pub proof fn the_same_days_are_compared(
    row: (String, Amount),
    date: Date,
    year: int,
    month: int,
    today: int,
)
    requires
        date.valid(),
        0 <= date.year <= 9999,
        0 <= year <= 9999,
        1 <= month <= 12,
        row.0@ == calendar::day_label(date),
    ensures
        page::up_to_today(calendar::month_label(year, month), today)(row) <==> date.year == year
            && date.month == month && date.day <= today,
{
    calendar::a_day_label_tells_month_and_day(date, year, month);
    let bytes = vstd::utf8::encode_utf8(row.0@);
    assert(page::is_digit(bytes[9]) && page::is_digit(bytes[8]));
    assert(10 * (date.day / 10) + date.day % 10 == date.day);
}

/// What the same days used is what their rows give, in order.
pub proof fn same_days_give_their_amounts(
    rows: Seq<(String, Amount)>,
    month: Seq<char>,
    today: int,
)
    ensures
        page::same_days(rows, month, today).len() == rows.filter(
            page::up_to_today(month, today),
        ).len(),
        forall|i: int|
            0 <= i < page::same_days(rows, month, today).len() ==> #[trigger] page::same_days(
                rows,
                month,
                today,
            )[i] == rows.filter(page::up_to_today(month, today))[i].1,
{
}

// ==================== Alerts ====================

/// Alerts are counted by their kind and by their severity; those resolved this
/// month are the ones whose end falls in it, whenever they were raised.
pub proof fn alerts_are_told_apart(alerts: Seq<AlertView>, kind: AlertKind, severity: Severity, month: Seq<char>)
    ensures
        alerts.filter(alert_list::of_kind(kind)) == alerts.filter(
            |alert: AlertView| alert.kind == kind,
        ),
        alerts.filter(page::has_severity(severity)) == alerts.filter(
            |alert: AlertView| alert.severity == severity,
        ),
        alerts.filter(alert_list::resolved_in(month)) == alerts.filter(
            |alert: AlertView|
                alert.resolved_at is Some && calendar::month_label(
                    calendar::civil(alert.resolved_at->0.seconds as int / 86_400).year as int,
                    calendar::civil(alert.resolved_at->0.seconds as int / 86_400).month as int,
                ) == month,
        ),
{
    assert(alert_list::of_kind(kind) =~= (|alert: AlertView| alert.kind == kind));
    assert(page::has_severity(severity) =~= (|alert: AlertView| alert.severity == severity));
    assert(alert_list::resolved_in(month) =~= (|alert: AlertView|
        alert.resolved_at is Some && calendar::month_label(
            calendar::civil(alert.resolved_at->0.seconds as int / 86_400).year as int,
            calendar::civil(alert.resolved_at->0.seconds as int / 86_400).month as int,
        ) == month));
}

// ==================== Flows ====================

/// A source's own flows are its largest services: each with the whole of the
/// service's usage, and what the tags give each business line of that very service
/// of that very provider.
pub proof fn a_flow_is_its_services_usage(
    source: SourceFlows,
    services: Seq<(String, String, Amount)>,
    tags: Seq<ServiceTagUsage>,
    i: int,
)
    requires
        flows::is_source(source, services, tags),
        0 <= i < source.own@.len(),
    ensures
        source.own@.len() <= 5,
        source.own@[i].provider@ == source.provider@,
        exists|s: int|
            0 <= s < services.len() && (#[trigger] services[s]).0@ == source.provider@
                && services[s].1@ == source.own@[i].service@ && services[s].2
                == source.own@[i].amount,
        source.own@[i].lines@ == tags.filter(
            |t: ServiceTagUsage|
                t.provider@ == source.provider@ && t.service@ == source.own@[i].service@,
        ).map_values(|t: ServiceTagUsage| (t.tag_value, t.amount)),
        forall|j: int|
            #![trigger source.own@[j]]
            i < j < source.own@.len() ==> !source.own@[i].amount.lt(source.own@[j].amount),
{
    let own = flows::services_of(services, source.provider@);
    let amounts = ranked::named_amounts(own);
    let all = flows::ranked_services(services, source.provider@);
    let at = measured::a_sorted_list_falls(own, amounts);
    let test = flows::of_provider(source.provider@);
    assert(flows::is_flow(source.own@[i], source.provider@, all[i], tags));
    let k = at[i];
    assert(all[i] == own[k]);
    let kept = services.filter(test);
    services.lemma_filter_pred(test, k);
    assert(kept.contains(kept[k]));
    services.lemma_filter_contains_rev(test, kept[k]);
    let s = choose|s: int| 0 <= s < services.len() && services[s] == kept[k];
    assert(services[s].0@ == source.provider@);
    assert(services[s].1@ == source.own@[i].service@);
    let mine = |t: ServiceTagUsage|
        t.provider@ == source.provider@ && t.service@ == source.own@[i].service@;
    assert(flows::of_service(source.provider@, source.own@[i].service@) =~= mine);
    assert(source.own@[i].lines@ =~= tags.filter(mine).map_values(
        |t: ServiceTagUsage| (t.tag_value, t.amount),
    ));
    assert forall|j: int| #![trigger source.own@[j]] i < j < source.own@.len() implies !source.own@[i].amount.lt(
        source.own@[j].amount,
    ) by {
        assert(flows::is_flow(source.own@[j], source.provider@, all[j], tags));
        assert(all[j] == own[at[j]]);
        assert(amounts[at[i]] == all[i].1 && amounts[at[j]] == all[j].1);
    }
}

/// Being a service of a provider.
pub open spec fn is_service_of(
    provider: Seq<char>,
) -> spec_fn((String, String, Amount)) -> bool {
    |service: (String, String, Amount)| service.0@ == provider
}

/// A source has a flow for each of its services while it has no more than five, and
/// for the five largest where it has more; none that it merges is larger than one
/// that it does not.
pub proof fn a_source_shows_its_largest_services(
    source: SourceFlows,
    services: Seq<(String, String, Amount)>,
    tags: Seq<ServiceTagUsage>,
)
    requires
        flows::is_source(source, services, tags),
    ensures
        ({
            let count = services.filter(is_service_of(source.provider@)).len();
            &&& count <= 5 ==> source.own@.len() == count && source.merged@.len() == 0
            &&& count > 5 ==> source.own@.len() == 5 && source.merged@.len() == count - 5
        }),
        forall|i: int, j: int|
            #![trigger source.own@[i], source.merged@[j]]
            0 <= i < source.own@.len() && 0 <= j < source.merged@.len()
                ==> !source.own@[i].amount.lt(source.merged@[j]),
{
    let provider = source.provider@;
    assert(flows::of_provider(provider) =~= is_service_of(provider));
    let own = flows::services_of(services, provider);
    let amounts = ranked::named_amounts(own);
    let all = flows::ranked_services(services, provider);
    let at = measured::a_sorted_list_falls(own, amounts);
    let kept = flows::own_count(all.len());
    assert(source.merged@ == ranked::named_amounts(all.skip(kept)));
    assert forall|i: int, j: int|
        #![trigger source.own@[i], source.merged@[j]]
        0 <= i < source.own@.len() && 0 <= j
            < source.merged@.len() implies !source.own@[i].amount.lt(source.merged@[j]) by {
        assert(flows::is_flow(source.own@[i], provider, all[i], tags));
        assert(source.merged@[j] == all[kept + j].1);
        assert(all[i] == own[at[i]] && all[kept + j] == own[at[kept + j]]);
        assert(amounts[at[i]] == all[i].1 && amounts[at[kept + j]] == all[kept + j].1);
    }
}

// ==================== Accounts ====================

/// An open alert of a kind names a value under a key.
pub open spec fn is_alerted(
    open: Seq<AlertView>,
    kind: AlertKind,
    key: Seq<char>,
    value: Seq<char>,
) -> bool {
    exists|i: int|
        0 <= i < open.len() && (#[trigger] open[i]).kind == kind && memory::json_member(
            open[i].context@,
            key,
        ) == Some(value)
}

/// The state of an account: its balance is low where it reports one and an open
/// balance alert names it; otherwise its cost is an anomaly where an open cost
/// alert names its source; otherwise its spend is unallocated where it has any and
/// more than the threshold of it is untagged; otherwise it is healthy.
pub proof fn an_account_is_as_bad_as_its_worst(
    account_id: Seq<char>,
    is_snapshot: bool,
    provider: Seq<char>,
    open: Seq<AlertView>,
    total: Amount,
    untagged_share: Amount,
    threshold: Amount,
)
    ensures
        ({
            let state = accounts::state_of(
                account_id,
                is_snapshot,
                provider,
                open,
                total,
                untagged_share,
                threshold,
            );
            let low = is_snapshot && is_alerted(open, AlertKind::Balance, "account_id"@, account_id);
            let odd = is_alerted(open, AlertKind::CostAnomaly, "provider"@, provider);
            let untagged = nothing().lt(total) && threshold.lt(untagged_share);
            &&& state == AccountState::LowBalance <==> low
            &&& state == AccountState::Anomaly <==> !low && odd
            &&& state == AccountState::UntaggedSpend <==> !low && !odd && untagged
            &&& state == AccountState::Healthy <==> !low && !odd && !untagged
        }),
{
    total.positive_is_above_zero();
    lemma_alerted(open, AlertKind::Balance, "account_id"@, account_id);
    lemma_alerted(open, AlertKind::CostAnomaly, "provider"@, provider);
}

proof fn lemma_alerted(
    open: Seq<AlertView>,
    kind: AlertKind,
    key: Seq<char>,
    value: Seq<char>,
)
    ensures
        is_alerted(open, kind, key, value) == accounts::any_alert(
            open,
            accounts::names(kind, key, value),
        ),
{
    let test = accounts::names(kind, key, value);
    if is_alerted(open, kind, key, value) {
        let i = choose|i: int|
            0 <= i < open.len() && (#[trigger] open[i]).kind == kind && memory::json_member(
                open[i].context@,
                key,
            ) == Some(value);
        assert(test(open[i]));
    }
    if accounts::any_alert(open, test) {
        let i = choose|i: int| 0 <= i < open.len() && test(#[trigger] open[i]);
        assert(open[i].kind == kind);
    }
}

/// What an account's row shows: the account, its source, what it was billed this
/// month, its own balance in its own currency, and when it was last synced.
pub proof fn an_account_row_shows_its_account(
    row: AccountRowData,
    account: CloudAccount,
    source: cloud::SourceFacts,
    mtd: Amount,
    balance: Option<crate::model::Balance>,
    last_sync: Option<Timestamp>,
    state: AccountState,
)
    requires
        accounts::shows_account(row, account, source, mtd, balance, last_sync, state),
    ensures
        row.id@ == account.id@,
        row.name@ == account.name@,
        row.provider@ == source.display_name,
        row.mtd == mtd,
        row.last_sync == last_sync,
        row.state == state,
        match (balance, row.balance) {
            (Some(own), Some((amount, currency))) => amount == own.balance && currency
                == own.currency,
            (None, None) => true,
            _ => false,
        },
        source.reporting == Reporting::Snapshot ==> row.source_kind@ == "Balance only"@,
        source.reporting != Reporting::Snapshot && source.fetches_from_api && source.bill_file
            is Some ==> row.source_kind@ == "Cost API + bill import"@,
        source.reporting != Reporting::Snapshot && source.fetches_from_api && source.bill_file
            is None ==> row.source_kind@ == "Cost API"@,
        source.reporting != Reporting::Snapshot && !source.fetches_from_api && source.bill_file
            is Some ==> row.source_kind@ == "Bill import"@,
        source.reporting != Reporting::Snapshot && !source.fetches_from_api && source.bill_file
            is None ==> row.source_kind@ == "None"@,
{
}

/// Being billed to an account in a month.
pub open spec fn billed_to(
    account: CloudAccount,
    month: Seq<char>,
) -> spec_fn(NormalizedRow) -> bool {
    |row: NormalizedRow|
        row.provider@ == account.source_id.id@ && row.account_id@ == account.id@
            && row.billing_period@ == month
}

/// What is read for an account's row: what it was billed this month, its newest
/// balance, and when a bill of its came in last, or when it was marked as synced
/// where none did.
pub proof fn an_account_is_read_for_itself(
    read: AccountRead,
    account: CloudAccount,
    ingests: Seq<(String, String, Timestamp)>,
    store: Store,
    all: Seq<NormalizedRow>,
    now: Timestamp,
)
    requires
        accounts::reads_account(read, account, ingests, store, all, now),
    ensures
        read.account == account,
        read.mtd@ == reach::billed_amounts(
            all.filter(
                billed_to(
                    account,
                    calendar::month_label(
                        calendar::civil(now.seconds as int / 86_400).year as int,
                        calendar::civil(now.seconds as int / 86_400).month as int,
                    ),
                ),
            ),
        ),
        read.balance == history::balance_of(
            store.balances@,
            account.source_id.id@,
            account.id@,
        ),
        (forall|i: int|
            0 <= i < ingests.len() ==> (#[trigger] ingests[i]).0@ != account.source_id.id@
                || ingests[i].1@ != account.id@) ==> read.last_sync == account.last_synced_at,
        (exists|i: int|
            0 <= i < ingests.len() && (#[trigger] ingests[i]).0@ == account.source_id.id@
                && ingests[i].1@ == account.id@) ==> exists|i: int|
            0 <= i < ingests.len() && (#[trigger] ingests[i]).0@ == account.source_id.id@
                && ingests[i].1@ == account.id@ && read.last_sync == Some(ingests[i].2),
{
    let month = calendar::period_of(now).text();
    let own = billed_to(account, month);
    let chosen = super::detail::charged_this_month(account, now);
    assert(crate::ledger::scope::scoped(chosen) =~= own);
    reach::a_total_adds_up_billed_amounts(all.filter(own));
    let test = accounts::ingest_of(account.source_id.id@, account.id@);
    list::first_index_is_first(ingests, test);
    match list::first_index(ingests, test) {
        Some(f) => {
            assert(test(ingests[f]));
            assert(ingests[f].0@ == account.source_id.id@);
        },
        None => {
            assert forall|i: int| 0 <= i < ingests.len() implies (#[trigger] ingests[i]).0@
                != account.source_id.id@ || ingests[i].1@ != account.id@ by {
                assert(!test(ingests[i]));
            }
        },
    }
}

/// A row of a window's movers tells of its mover as it is, and of the first named
/// line of that service's own usage.
pub proof fn a_window_mover_tells_of_its_service(
    row: MoverRow,
    mover: Mover,
    lines: Seq<(String, Amount)>,
)
    requires
        super::window::tells_mover(row, mover, lines),
    ensures
        row.provider == mover.provider,
        row.service == mover.service,
        row.amount == mover.amount,
        row.change_pct == mover.change_pct,
        row.drives@ == overview::line_of_breakdown(
            ranked::positive_first(lines, ranked::named_amounts(lines)),
        ),
{
}

/// The accounts page reads every account whose source is registered, in the order
/// they are stored in, and counts the bills that were fetched for this month.
pub proof fn the_accounts_page_reads_every_account(
    reads: accounts::AccountsReads,
    store: Store,
    all: Seq<NormalizedRow>,
    now: Timestamp,
)
    requires
        accounts::reads_accounts(reads, store, all, now),
    ensures
        ({
            let known = store.accounts@.filter(
                |account: CloudAccount| cloud::source_of(account.source_id.id@) is Some,
            );
            &&& reads.accounts@.len() == known.len()
            &&& forall|i: int|
                #![trigger reads.accounts@[i]]
                0 <= i < known.len() ==> reads.accounts@[i].account == known[i]
        }),
        reads.used == store.periods@.filter(
            |period: memory::StoredPeriod|
                period.channel == crate::model::Channel::Api && period.key.billing_period@
                    == calendar::month_label(
                    calendar::civil(now.seconds as int / 86_400).year as int,
                    calendar::civil(now.seconds as int / 86_400).month as int,
                ),
        ).len(),
        history::ingests_of(reads.ingests@, store.periods@),
        forall|g: int|
            #![trigger reads.untagged@[g]]
            0 <= g < reads.untagged@.len() ==> reads.untagged@[g].1@ == amounts_charged_by(
                listed_untagged(all, super::month::this_month(now)),
                reads.untagged@[g].0@,
            ),
{
    crate::records::listed_accounts_have_a_source(store);
    crate::ledger::kept::fetches_are_counted_by_month(store.periods@, now);
    let listed = listed_untagged(all, super::month::this_month(now));
    assert forall|g: int| #![trigger reads.untagged@[g]] 0 <= g < reads.untagged@.len() implies
        reads.untagged@[g].1@ == amounts_charged_by(listed, reads.untagged@[g].0@) by {
        lemma_amounts_charged(listed, reads.untagged@[g].0@);
    }
}

/// The untagged charges of a month, the largest first.
pub open spec fn listed_untagged(all: Seq<NormalizedRow>, month: Seq<char>) -> Seq<UntaggedCharge> {
    let charges = ranked::untagged_charges(all, month, "business_line"@);
    ranked::first(
        ranked::sorted_by_amount(charges, ranked::untagged_amounts(charges)),
        usize::MAX as nat,
    )
}

/// Being charged by a provider.
pub open spec fn charged_by(provider: Seq<char>) -> spec_fn(UntaggedCharge) -> bool {
    |charge: UntaggedCharge| charge.provider@ == provider
}

/// The amounts of the charges of a provider.
pub open spec fn amounts_charged_by(
    charges: Seq<UntaggedCharge>,
    provider: Seq<char>,
) -> Seq<Amount> {
    ranked::untagged_amounts(charges.filter(charged_by(provider)))
}

proof fn lemma_amounts_charged(charges: Seq<UntaggedCharge>, provider: Seq<char>)
    ensures
        flows::amounts_under(accounts::untagged_items(charges), provider) == amounts_charged_by(
            charges,
            provider,
        ),
    decreases charges.len(),
{
    reveal(Seq::filter);
    let items = accounts::untagged_items(charges);
    if charges.len() > 0 {
        let fewer = charges.drop_last();
        lemma_amounts_charged(fewer, provider);
        assert(items.drop_last() =~= accounts::untagged_items(fewer));
        assert(items.last() == (charges.last().provider, charges.last().amount));
        let kept = items.drop_last().filter(flows::under_name(provider));
        assert(ranked::named_amounts(kept.push(items.last())) =~= ranked::named_amounts(kept).push(
            charges.last().amount,
        ));
        let own = fewer.filter(charged_by(provider));
        assert(ranked::untagged_amounts(own.push(charges.last())) =~= ranked::untagged_amounts(
            own,
        ).push(charges.last().amount));
        assert(flows::amounts_under(items, provider) =~= amounts_charged_by(charges, provider));
    } else {
        assert(flows::amounts_under(items, provider) =~= amounts_charged_by(charges, provider));
    }
}

/// An account's row is worked out from what was read of that account and from the
/// figures beside it.
pub proof fn an_account_row_goes_by_its_own_figures(
    row: AccountRowData,
    read: AccountRead,
    figures: accounts::AccountFigures,
    open: Seq<AlertView>,
    threshold: Amount,
)
    requires
        accounts::shows_read(row, read, figures, open, threshold),
    ensures
        row.id@ == read.account.id@,
        row.name@ == read.account.name@,
        row.mtd == figures.mtd,
        row.last_sync == read.last_sync,
        row.balance is Some <==> read.balance is Some,
        row.state == accounts::state_of(
            read.account.id@,
            cloud::source_of(read.account.source_id.id@)->0.reporting == Reporting::Snapshot,
            cloud::source_of(read.account.source_id.id@)->0.id,
            open,
            figures.mtd,
            figures.untagged_share,
            threshold,
        ),
{
}

/// The rows pair what was read of each account with that account's figures.
pub proof fn figures_stand_beside_their_accounts(
    reads: Seq<AccountRead>,
    figures: Seq<accounts::AccountFigures>,
    entry: (AccountRead, accounts::AccountFigures),
)
    requires
        figures.len() == reads.len(),
    ensures
        accounts::with_figures(reads, figures).filter(accounts::sourced()).contains(entry)
            <==> cloud::source_of(entry.0.account.source_id.id@) is Some && exists|i: int|
            0 <= i < reads.len() && (#[trigger] reads[i]) == entry.0 && figures[i] == entry.1,
{
    let all = accounts::with_figures(reads, figures);
    let test = accounts::sourced();
    if all.filter(test).contains(entry) {
        let k = choose|k: int| 0 <= k < all.filter(test).len() && all.filter(test)[k] == entry;
        all.lemma_filter_pred(test, k);
        all.lemma_filter_contains_rev(test, entry);
        let i = choose|i: int| 0 <= i < all.len() && all[i] == entry;
        assert(reads[i] == entry.0 && figures[i] == entry.1);
    }
    if test(entry) && exists|i: int|
        0 <= i < reads.len() && (#[trigger] reads[i]) == entry.0 && figures[i] == entry.1 {
        let i = choose|i: int|
            0 <= i < reads.len() && (#[trigger] reads[i]) == entry.0 && figures[i] == entry.1;
        assert(all[i] == entry);
        all.lemma_filter_contains(test, i);
    }
}

} // verus!
