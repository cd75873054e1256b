//! The alerts and rules pages, and budgets.
use vstd::prelude::*;

use crate::alerts::{AlertKind, AlertStatus, AlertView, RuleView};
use crate::amount::Amount;
use crate::calendar;
use crate::calendar::{BillingPeriod, Timestamp};
use crate::db;
use crate::error::Error;
use crate::list;
use crate::memory::Store;
use crate::model::{BudgetInfo, BudgetStatus};
use crate::text::same_text;

verus! {

/// Heading of the resolved alerts under the open ones.
pub const RESOLVED_SECTION_TITLE: &'static str = "RESOLVED THIS MONTH";

/// One filter above the alert list.
#[derive(Debug)]
pub struct AlertFilterData {
    pub label: String,
    pub count: usize,
}

impl Clone for AlertFilterData {
    fn clone(&self) -> (res: Self)
        ensures
            res == *self,
    {
        AlertFilterData {
            label: self.label.clone(),
            count: self.count,
        }
    }
}

/// Everything the alerts page shows.
#[derive(Debug)]
pub struct AlertsData {
    pub filters: Vec<AlertFilterData>,
    pub open: Vec<AlertView>,
    /// Alerts that were resolved in the current month, whenever they were
    /// raised.
    pub resolved_this_month: Vec<AlertView>,
}

/// What the kinds of alert are called.
#[derive(Clone, Copy, Debug)]
pub struct KindLabels {
    pub cost_anomaly: &'static str,
    pub balance: &'static str,
    pub untagged_ratio: &'static str,
    pub budget: &'static str,
}

/// Being of a kind.
pub open spec fn of_kind(kind: AlertKind) -> spec_fn(AlertView) -> bool {
    |alert: AlertView| alert.kind == kind
}

/// How many alerts are of a kind.
pub fn count_kind(alerts: &Vec<AlertView>, kind: AlertKind) -> (res: usize)
    ensures
        res == alerts@.filter(of_kind(kind)).len(),
        res <= alerts@.len(),
{
    let mut count: usize = 0;
    let mut i: usize = 0;
    proof {
        reveal(Seq::filter);
        assert(alerts@.take(0).filter(of_kind(kind)) =~= Seq::empty());
    }
    while i < alerts.len()
        invariant
            i <= alerts.len(),
            count <= i,
            count == alerts@.take(i as int).filter(of_kind(kind)).len(),
        decreases alerts.len() - i,
    {
        proof {
            reveal(Seq::filter);
            assert(alerts@.take(i + 1).drop_last() =~= alerts@.take(i as int));
            assert(alerts@.take(i + 1).last() == alerts@[i as int]);
        }
        if alerts[i].kind == kind {
            count = count + 1;
        }
        i = i + 1;
    }
    proof {
        assert(alerts@.take(i as int) =~= alerts@);
    }
    count
}

/// Every alert is of one kind.
pub proof fn kinds_partition_the_alerts(alerts: Seq<AlertView>)
    ensures
        alerts.filter(of_kind(AlertKind::CostAnomaly)).len() + alerts.filter(
            of_kind(AlertKind::Balance),
        ).len() + alerts.filter(of_kind(AlertKind::UntaggedRatio)).len() + alerts.filter(
            of_kind(AlertKind::Budget),
        ).len() == alerts.len(),
    decreases alerts.len(),
{
    reveal(Seq::filter);
    if alerts.len() > 0 {
        kinds_partition_the_alerts(alerts.drop_last());
    }
}

/// Having been resolved in a month.
pub open spec fn resolved_in(month: Seq<char>) -> spec_fn(AlertView) -> bool {
    |alert: AlertView|
        alert.resolved_at is Some && calendar::period_of(alert.resolved_at->0).text() == month
}

/// The stamps of alerts are instants of the calendar.
pub open spec fn stamped(alerts: Seq<AlertView>) -> bool {
    forall|i: int|
        #![trigger alerts[i]]
        0 <= i < alerts.len() && alerts[i].resolved_at is Some ==> alerts[i].resolved_at->0.valid()
}

/// The alerts that were resolved in the month of `now`. An alert without a stamp
/// drops out.
pub fn resolved_this_month(resolved: Vec<AlertView>, now: Timestamp) -> (res: Vec<AlertView>)
    requires
        now.valid(),
        stamped(resolved@),
    ensures
        res@ == resolved@.filter(resolved_in(calendar::period_of(now).text())),
{
    let current = BillingPeriod::containing(now).label();
    let ghost all = resolved@;
    let ghost keep = resolved_in(calendar::period_of(now).text());
    let ghost mut seen: int = 0;
    let mut left = resolved;
    let mut i: usize = 0;
    proof {
        reveal(Seq::filter);
        assert(all.take(0).filter(keep) + all.skip(0) =~= all);
    }
    while i < left.len()
        invariant
            0 <= seen <= all.len(),
            stamped(all),
            current@ == calendar::period_of(now).text(),
            keep == resolved_in(calendar::period_of(now).text()),
            i == all.take(seen).filter(keep).len(),
            left@ == all.take(seen).filter(keep) + all.skip(seen),
        decreases left@.len() - i,
    {
        proof {
            reveal(Seq::filter);
            assert(all.take(seen + 1).drop_last() =~= all.take(seen));
            assert(all.take(seen + 1).last() == all[seen]);
            assert(left@[i as int] == all[seen]);
        }
        let kept: bool = match left[i].resolved_at {
            Some(at) => same_text(&BillingPeriod::containing(at).label(), &current),
            None => false,
        };
        if kept {
            i = i + 1;
        } else {
            left.remove(i);
        }
        proof {
            assert(left@ =~= all.take(seen + 1).filter(keep) + all.skip(seen + 1));
            seen = seen + 1;
        }
    }
    proof {
        if seen < all.len() {
            assert(left@.len() > i);
        }
        assert(all.take(seen) =~= all);
        assert(left@ =~= all.filter(keep));
    }
    left
}

/// The alerts page: the open alerts, a filter for all of them and one for each
/// kind, and what was resolved this month.
pub fn load_alerts(
    open: Vec<AlertView>,
    resolved: Vec<AlertView>,
    labels: KindLabels,
    now: Timestamp,
) -> (res: AlertsData)
    requires
        now.valid(),
        stamped(resolved@),
    ensures
        res.open == open,
        res.resolved_this_month@ == resolved@.filter(
            resolved_in(calendar::period_of(now).text()),
        ),
        res.filters@.len() == 5,
        res.filters@[0].label@ == "All"@,
        res.filters@[0].count == open@.len(),
        res.filters@[1].label@ == labels.cost_anomaly@,
        res.filters@[1].count == open@.filter(of_kind(AlertKind::CostAnomaly)).len(),
        res.filters@[2].label@ == labels.balance@,
        res.filters@[2].count == open@.filter(of_kind(AlertKind::Balance)).len(),
        res.filters@[3].label@ == labels.untagged_ratio@,
        res.filters@[3].count == open@.filter(of_kind(AlertKind::UntaggedRatio)).len(),
        res.filters@[4].label@ == labels.budget@,
        res.filters@[4].count == open@.filter(of_kind(AlertKind::Budget)).len(),
{
    let mut filters: Vec<AlertFilterData> = Vec::new();
    filters.push(AlertFilterData { label: "All".to_owned(), count: open.len() });
    filters.push(
        AlertFilterData {
            label: labels.cost_anomaly.to_owned(),
            count: count_kind(&open, AlertKind::CostAnomaly),
        },
    );
    filters.push(
        AlertFilterData {
            label: labels.balance.to_owned(),
            count: count_kind(&open, AlertKind::Balance),
        },
    );
    filters.push(
        AlertFilterData {
            label: labels.untagged_ratio.to_owned(),
            count: count_kind(&open, AlertKind::UntaggedRatio),
        },
    );
    filters.push(
        AlertFilterData {
            label: labels.budget.to_owned(),
            count: count_kind(&open, AlertKind::Budget),
        },
    );
    let resolved_this_month = resolved_this_month(resolved, now);
    AlertsData { filters, open, resolved_this_month }
}

// ==================== Rules ====================

/// Everything the rules page shows.
#[derive(Debug)]
pub struct RulesData {
    pub rules: Vec<RuleView>,
}

/// The rules page.
pub fn load_rules(rules: Vec<RuleView>) -> (res: RulesData)
    ensures
        res.rules == rules,
{
    RulesData { rules }
}

/// Enable or disable a rule.
pub fn set_rule_enabled(store: &mut Store, id: &str, enabled: bool) -> (res: Result<(), Error>)
    ensures
        res is Ok,
        db::same_but_rules(*final(store), *old(store)),
        final(store).alert_rules@ == (match list::first_index(
            old(store).alert_rules@,
            db::rule_id(id@),
        ) {
            Some(i) => old(store).alert_rules@.update(
                i,
                (crate::alerts::AlertRule { enabled, ..old(store).alert_rules@[i] }),
            ),
            None => old(store).alert_rules@,
        }),
        old(store).ids_distinct() ==> final(store).ids_distinct(),
{
    db::set_alert_rule_enabled(store, id, enabled)
}

/// Delete a rule. Its past alerts stay.
pub fn delete_rule(store: &mut Store, id: &str) -> (res: Result<(), Error>)
    ensures
        res is Ok,
        db::same_but_rules(*final(store), *old(store)),
        final(store).alert_rules@ == list::without(old(store).alert_rules@, db::rule_id(id@)),
        old(store).ids_distinct() ==> final(store).ids_distinct(),
{
    db::delete_alert_rule(store, id)
}

// ==================== Alerts ====================

/// Snooze an alert for some hours from `now`.
pub fn snooze_alert(store: &mut Store, id: &str, hours: i64, now: Timestamp) -> (res: Result<
    (),
    Error,
>)
    requires
        now.valid(),
        calendar::MIN_SECONDS <= now.seconds + hours * 3600 <= calendar::MAX_SECONDS,
    ensures
        res is Ok,
        db::same_but_events(*final(store), *old(store)),
        final(store).alert_events@ == (match list::first_index(
            old(store).alert_events@,
            db::event_id(id@),
        ) {
            Some(i) => old(store).alert_events@.update(
                i,
                db::moved(
                    old(store).alert_events@[i],
                    AlertStatus::Snoozed,
                    Some(
                        (Timestamp {
                            seconds: (now.seconds + hours * 3600) as i64,
                            nanos: now.nanos,
                        }),
                    ),
                    now,
                ),
            ),
            None => old(store).alert_events@,
        }),
        old(store).ids_distinct() ==> final(store).ids_distinct(),
{
    db::set_alert_event_status(store, id, AlertStatus::Snoozed, Some(now.plus_hours(hours)), now)
}

/// Dismiss an alert, as of `now`.
pub fn dismiss_alert(store: &mut Store, id: &str, now: Timestamp) -> (res: Result<(), Error>)
    ensures
        res is Ok,
        db::same_but_events(*final(store), *old(store)),
        final(store).alert_events@ == (match list::first_index(
            old(store).alert_events@,
            db::event_id(id@),
        ) {
            Some(i) => old(store).alert_events@.update(
                i,
                db::moved(old(store).alert_events@[i], AlertStatus::Dismissed, None, now),
            ),
            None => old(store).alert_events@,
        }),
        old(store).ids_distinct() ==> final(store).ids_distinct(),
{
    db::set_alert_event_status(store, id, AlertStatus::Dismissed, None, now)
}

// ==================== Budgets ====================

/// How much of each budget has been used.
pub fn load_budget_statuses(questions: &Vec<db::BudgetQuestion>, figures: &Vec<db::BudgetFigures>) -> (res:
    Vec<BudgetStatus>)
    requires
        questions@.len() == figures@.len(),
    ensures
        res@.len() == questions@.len(),
        forall|i: int|
            #![trigger res@[i]]
            0 <= i < res@.len() ==> db::is_status(res@[i], questions@[i], figures@[i]),
{
    db::get_all_budget_statuses(questions, figures)
}

/// Save an account's budget in the reporting currency. A save is an update: the
/// stamp of its creation is kept.
pub fn save_budget(
    store: &mut Store,
    account_id: &str,
    monthly_budget: Amount,
    alert_threshold: Amount,
    currency: &str,
    now: Timestamp,
) -> (res: Result<(), Error>)
    ensures
        res is Ok,
        db::same_but_budgets(*final(store), *old(store)),
        exists|budget: BudgetInfo|
            {
                &&& budget.account_id@ == account_id@
                &&& budget.monthly_budget == monthly_budget
                &&& budget.currency@ == currency@
                &&& budget.alert_threshold == alert_threshold
                &&& budget.created_at == (match list::first_index(
                    old(store).budgets@,
                    db::budget_of(account_id@),
                ) {
                    Some(i) => old(store).budgets@[i].created_at,
                    None => now,
                })
                &&& budget.updated_at == now
                &&& final(store).budgets@ == #[trigger] list::upserted(
                    old(store).budgets@,
                    db::budget_of(account_id@),
                    budget,
                )
            },
        old(store).ids_distinct() ==> final(store).ids_distinct(),
{
    let created_at = match db::get_budget(store, account_id) {
        Ok(Some(budget)) => budget.created_at,
        Ok(None) => now,
        Err(e) => {
            return Err(e);
        },
    };
    let budget = BudgetInfo {
        account_id: account_id.to_owned(),
        monthly_budget,
        currency: currency.to_owned(),
        alert_threshold,
        created_at,
        updated_at: now,
    };
    db::save_budget(store, &budget)
}

/// Remove an account's budget.
pub fn delete_budget(store: &mut Store, account_id: &str) -> (res: Result<(), Error>)
    ensures
        res is Ok,
        db::same_but_budgets(*final(store), *old(store)),
        final(store).budgets@ == list::without(old(store).budgets@, db::budget_of(account_id@)),
        old(store).ids_distinct() ==> final(store).ids_distinct(),
{
    db::delete_budget(store, account_id)
}

} // verus!
