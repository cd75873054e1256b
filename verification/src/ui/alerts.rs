//! The alerts page: open alerts under filters, and what was resolved this month.
use vstd::prelude::*;

use super::data::alert_list::{
    AlertFilterData, AlertsData, KindLabels, RESOLVED_SECTION_TITLE,
};
use crate::alerts::{AlertKind, AlertView, Severity};
use crate::cloud;
use crate::error::Error;
use crate::list;
use crate::order;
use crate::text;
use crate::text::{concat2, concat3, decimal_text, same_text};

verus! {

/// The page.
#[derive(Debug)]
pub struct AlertsView {
    /// Label of the selected filter: it stays valid across reloads, where a
    /// position would point elsewhere once a filter goes.
    pub selected_filter: String,
    /// What was loaded, once the first load landed.
    pub data: Option<AlertsData>,
    /// A load or an action is in flight.
    pub loading: bool,
    /// The last failure, if any.
    pub error: Option<String>,
}

/// What the page shows under its header.
#[derive(Clone, Copy, PartialEq, Eq, Structural, Debug)]
pub enum AlertsBody {
    /// Nothing yet: no load was started.
    Blank,
    /// Cards without content, while the first load runs.
    Skeleton,
    /// The failure of the first load, with a way to retry.
    Failed,
    /// The alerts.
    Listed,
}

impl AlertsView {
    pub fn new() -> (res: AlertsView)
        ensures
            res.selected_filter@ == "All"@,
            res.data is None,
            !res.loading,
            res.error is None,
    {
        AlertsView { selected_filter: "All".to_owned(), data: None, loading: false, error: None }
    }

    /// Start the first load if none has run; whether one starts.
    pub fn ensure_loaded(&mut self) -> (res: bool)
        ensures
            res == (old(self).data is None && !old(self).loading),
            final(self).loading == (old(self).loading || res),
            final(self).selected_filter == old(self).selected_filter,
            final(self).data == old(self).data,
            final(self).error == old(self).error,
    {
        if self.data.is_none() && !self.loading {
            self.load();
            return true;
        }
        false
    }

    pub fn select_filter(&mut self, label: String)
        ensures
            final(self).selected_filter == label,
            final(self).data == old(self).data,
            final(self).loading == old(self).loading,
            final(self).error == old(self).error,
    {
        self.selected_filter = label;
    }

    /// Reload, unless a load or an action is in flight; whether one starts. What
    /// is shown stays while the reload runs.
    pub fn reload(&mut self) -> (res: bool)
        ensures
            res == !old(self).loading,
            final(self).loading,
            final(self).selected_filter == old(self).selected_filter,
            final(self).data == old(self).data,
            final(self).error == old(self).error,
    {
        if self.loading {
            return false;
        }
        self.load();
        true
    }

    /// A load starts.
    pub fn load(&mut self)
        ensures
            final(self).loading,
            final(self).selected_filter == old(self).selected_filter,
            final(self).data == old(self).data,
            final(self).error == old(self).error,
    {
        self.loading = true;
    }

    /// A load came back. A failure leaves what is shown.
    pub fn loaded(&mut self, result: Result<AlertsData, Error>)
        ensures
            !final(self).loading,
            final(self).selected_filter == old(self).selected_filter,
            match result {
                Ok(data) => final(self).data == Some(data) && final(self).error is None,
                Err(e) => {
                    &&& final(self).data == old(self).data
                    &&& final(self).error is Some
                    &&& final(self).error->0@ == "Could not load alerts: "@ + e.message@
                },
            },
    {
        self.loading = false;
        match result {
            Ok(data) => {
                self.data = Some(data);
                self.error = None;
            },
            Err(e) => {
                self.error = Some(concat2("Could not load alerts: ", &e.message));
            },
        }
    }

    /// Start an action on an alert, unless a load or an action is in flight;
    /// whether it starts.
    pub fn begin_action(&mut self) -> (res: bool)
        ensures
            res == !old(self).loading,
            final(self).loading,
            final(self).selected_filter == old(self).selected_filter,
            final(self).data == old(self).data,
            final(self).error == old(self).error,
    {
        if self.loading {
            return false;
        }
        self.loading = true;
        true
    }

    /// An action came back: a failure is said, and a load follows either way.
    pub fn action_done(&mut self, result: Result<(), Error>, verb: &str)
        ensures
            final(self).loading,
            final(self).selected_filter == old(self).selected_filter,
            final(self).data == old(self).data,
            match result {
                Ok(_) => final(self).error == old(self).error,
                Err(e) => {
                    &&& final(self).error is Some
                    &&& final(self).error->0@ == "Could not "@ + verb@ + " the alert: "@ + e.message@
                },
            },
    {
        if let Err(e) = result {
            let head = concat3("Could not ", verb, " the alert: ");
            self.error = Some(concat2(&head, &e.message));
        }
        self.load();
    }

    /// What the page shows under its header.
    pub fn body(&self) -> (res: AlertsBody)
        ensures
            res == (if self.data is Some {
                AlertsBody::Listed
            } else if self.loading {
                AlertsBody::Skeleton
            } else if self.error is Some {
                AlertsBody::Failed
            } else {
                AlertsBody::Blank
            }),
    {
        if self.data.is_some() {
            AlertsBody::Listed
        } else if self.loading {
            AlertsBody::Skeleton
        } else if self.error.is_some() {
            AlertsBody::Failed
        } else {
            AlertsBody::Blank
        }
    }

    /// The filter that applies: the selected one, or the first where the
    /// selected one is gone.
    pub open spec fn applied_filter(self) -> Seq<char> {
        match self.data {
            Some(data) => match list::first_index(
                data.filters@,
                has_label(self.selected_filter@),
            ) {
                Some(i) => data.filters@[i].label@,
                None => if data.filters@.len() > 0 {
                    data.filters@[0].label@
                } else {
                    "All"@
                },
            },
            None => "All"@,
        }
    }

    /// The filter that applies: the selected one, or the first where the
    /// selected one is gone.
    pub fn selected_label(&self) -> (res: String)
        ensures
            res@ == self.applied_filter(),
    {
        if let Some(data) = &self.data {
            let wanted = &self.selected_filter;
            let accepts = |filter: &AlertFilterData| -> (b: bool)
                ensures
                    b == (filter.label@ == wanted@)
            { same_text(&filter.label, wanted) };
            match list::position(&data.filters, accepts, Ghost(has_label(wanted@))) {
                Some(i) => {
                    return data.filters[i].label.clone();
                },
                None => {
                    if data.filters.len() > 0 {
                        return data.filters[0].label.clone();
                    }
                },
            }
        }
        "All".to_owned()
    }

    /// The positions of the open alerts that the filter leaves, in their order.
    /// Where there are none the page says "All clear".
    pub fn shown_alerts(&self, labels: KindLabels) -> (res: Vec<usize>)
        ensures
            match self.data {
                Some(data) => positions(res@) == shown_in(
                    data.open@,
                    self.applied_filter(),
                    labels,
                    data.open@.len() as int,
                ),
                None => res@.len() == 0,
            },
    {
        let mut shown: Vec<usize> = Vec::new();
        if let Some(data) = &self.data {
            let label = self.selected_label();
            let ghost open = data.open@;
            let mut i: usize = 0;
            proof {
                assert(positions(shown@) =~= shown_in(open, label@, labels, 0));
            }
            while i < data.open.len()
                invariant
                    i <= data.open.len(),
                    open == data.open@,
                    positions(shown@) == shown_in(open, label@, labels, i as int),
                decreases data.open.len() - i,
            {
                let ghost before = shown@;
                if same_text(&label, "All") || same_text(
                    kind_label(data.open[i].kind, labels),
                    &label,
                ) {
                    shown.push(i);
                    proof {
                        assert(positions(shown@) =~= positions(before).push(i as int));
                    }
                }
                i = i + 1;
            }
        }
        shown
    }
}

/// Being the filter with a label.
pub open spec fn has_label(label: Seq<char>) -> spec_fn(AlertFilterData) -> bool {
    |filter: AlertFilterData| filter.label@ == label
}

pub open spec fn positions(shown: Seq<usize>) -> Seq<int> {
    shown.map_values(|i: usize| i as int)
}

pub open spec fn label_of(kind: AlertKind, labels: KindLabels) -> Seq<char> {
    match kind {
        AlertKind::CostAnomaly => labels.cost_anomaly@,
        AlertKind::Balance => labels.balance@,
        AlertKind::UntaggedRatio => labels.untagged_ratio@,
        AlertKind::Budget => labels.budget@,
    }
}

fn kind_label(kind: AlertKind, labels: KindLabels) -> (res: &'static str)
    ensures
        res@ == label_of(kind, labels),
{
    match kind {
        AlertKind::CostAnomaly => labels.cost_anomaly,
        AlertKind::Balance => labels.balance,
        AlertKind::UntaggedRatio => labels.untagged_ratio,
        AlertKind::Budget => labels.budget,
    }
}

/// The positions among the first `count` alerts that a filter leaves: all of
/// them under "All", else those of the kind with that label.
pub open spec fn shown_in(
    open: Seq<AlertView>,
    label: Seq<char>,
    labels: KindLabels,
    count: int,
) -> Seq<int>
    decreases count,
{
    if count <= 0 {
        Seq::empty()
    } else {
        let before = shown_in(open, label, labels, count - 1);
        if label == "All"@ || label_of(open[count - 1].kind, labels) == label {
            before.push(count - 1)
        } else {
            before
        }
    }
}

// ==================== Actions ====================

/// What a button of an alert does.
#[derive(Clone, Copy, PartialEq, Eq, Structural, Debug)]
pub enum AlertAction {
    /// Snooze for some hours.
    Snooze(i64),
    Dismiss,
    /// Open the attribution page.
    Trace,
    Nothing,
}

/// What the button with a label does.
pub open spec fn action_named(label: Seq<char>) -> AlertAction {
    if label == "Snooze 24h"@ {
        AlertAction::Snooze(24)
    } else if label == "Dismiss"@ {
        AlertAction::Dismiss
    } else if label == "Trace in attribution"@ {
        AlertAction::Trace
    } else {
        AlertAction::Nothing
    }
}

/// What the button with a label does.
pub fn action_of(label: &str) -> (res: AlertAction)
    ensures
        res == action_named(label@),
{
    if same_text(label, "Snooze 24h") {
        AlertAction::Snooze(24)
    } else if same_text(label, "Dismiss") {
        AlertAction::Dismiss
    } else if same_text(label, "Trace in attribution") {
        AlertAction::Trace
    } else {
        AlertAction::Nothing
    }
}

/// How a button looks.
#[derive(Clone, Copy, PartialEq, Eq, Structural, Debug)]
pub enum ActionLook {
    Text,
    Primary,
    Outlined,
}

/// Being another action than dismissing.
pub open spec fn keeps_alert() -> spec_fn(String) -> bool {
    |label: String| label@ != "Dismiss"@
}

/// How the button at a position looks: dismissing is a text button, the first
/// other action is the primary one, and the rest are outlined.
pub open spec fn look_at(actions: Seq<String>, i: int) -> ActionLook {
    if actions[i]@ == "Dismiss"@ {
        ActionLook::Text
    } else if list::first_index(actions, keeps_alert()) == Some(i) {
        ActionLook::Primary
    } else {
        ActionLook::Outlined
    }
}

/// How the buttons of an alert look.
pub fn action_looks(actions: &Vec<String>) -> (res: Vec<ActionLook>)
    ensures
        res@.len() == actions@.len(),
        forall|i: int| 0 <= i < res@.len() ==> #[trigger] res@[i] == look_at(actions@, i),
{
    let accepts = |label: &String| -> (b: bool)
        ensures
            b == (label@ != "Dismiss"@)
    { !same_text(label, "Dismiss") };
    let primary = list::position(actions, accepts, Ghost(keeps_alert()));
    let mut looks: Vec<ActionLook> = Vec::new();
    let mut i: usize = 0;
    while i < actions.len()
        invariant
            i <= actions.len(),
            looks@.len() == i,
            match list::first_index(actions@, keeps_alert()) {
                Some(k) => primary is Some && primary->0 == k,
                None => primary is None,
            },
            forall|k: int| 0 <= k < i ==> #[trigger] looks@[k] == look_at(actions@, k),
        decreases actions.len() - i,
    {
        let look = if same_text(&actions[i], "Dismiss") {
            ActionLook::Text
        } else {
            match primary {
                Some(k) => if k == i {
                    ActionLook::Primary
                } else {
                    ActionLook::Outlined
                },
                None => ActionLook::Outlined,
            }
        };
        looks.push(look);
        i = i + 1;
    }
    looks
}

/// The marker next to an alert's title.
pub fn severity_label(severity: Severity) -> (res: &'static str)
    ensures
        res@ == (match severity {
            Severity::Critical => "Critical"@,
            Severity::Warning => "Warning"@,
        }),
{
    match severity {
        Severity::Critical => "Critical",
        Severity::Warning => "Warning",
    }
}

/// When a resolved alert ended, else when it was raised, as a short date.
pub open spec fn resolved_text(alert: AlertView) -> Seq<char> {
    let at = match alert.resolved_at {
        Some(at) => at,
        None => alert.created_at,
    };
    crate::calendar::short_month_name(at.on().month as int) + " "@ + text::padded(
        at.on().day as nat,
        2,
    )
}

/// When a resolved alert ended, else when it was raised, as a short date.
pub fn resolved_label(alert: &AlertView) -> (res: String)
    requires
        alert.created_at.valid(),
        alert.resolved_at is Some ==> alert.resolved_at->0.valid(),
    ensures
        res@ == resolved_text(*alert),
{
    let at = match alert.resolved_at {
        Some(at) => at,
        None => alert.created_at,
    };
    at.date().short_label()
}

// ==================== What is shown ====================

/// A chip of the filter row.
#[derive(Debug)]
pub struct FilterChip {
    pub label: String,
    pub count: String,
    pub active: bool,
}

/// What the page shows around its alerts.
#[derive(Debug)]
pub struct AlertsScreen {
    pub title: &'static str,
    pub caption: &'static str,
    /// The way to the rules, where there is a page of rules.
    pub rules_label: Option<&'static str>,
    pub chips: Vec<FilterChip>,
    /// The banner over the list: what went wrong last.
    pub error: Option<String>,
    /// The open alerts that are shown, by position.
    pub shown: Vec<usize>,
    /// What is said where none is shown.
    pub empty_note: Option<&'static str>,
    pub resolved_title: &'static str,
    /// What was resolved this month, and when.
    pub resolved: Vec<(String, String)>,
    /// What is said where nothing was.
    pub resolved_note: Option<&'static str>,
}

/// A chip shows a filter; the one that was selected is active.
pub open spec fn is_chip(chip: FilterChip, filter: AlertFilterData, selected: Seq<char>) -> bool {
    &&& chip.label@ == filter.label@
    &&& chip.count@ == text::decimal(filter.count as nat)
    &&& chip.active == (filter.label@ == selected)
}

/// Every alert is dated.
pub open spec fn dated(alerts: Seq<AlertView>) -> bool {
    forall|i: int|
        #![trigger alerts[i]]
        0 <= i < alerts.len() ==> alerts[i].created_at.valid() && (alerts[i].resolved_at is Some
            ==> alerts[i].resolved_at->0.valid())
}

fn filter_chips(filters: &Vec<AlertFilterData>, selected: &str) -> (res: Vec<FilterChip>)
    ensures
        res@.len() == filters@.len(),
        forall|i: int|
            #![trigger res@[i]]
            0 <= i < res@.len() ==> is_chip(res@[i], filters@[i], selected@),
{
    let mut chips: Vec<FilterChip> = Vec::new();
    let mut i: usize = 0;
    while i < filters.len()
        invariant
            i <= filters.len(),
            chips@.len() == i,
            forall|k: int|
                #![trigger chips@[k]]
                0 <= k < i ==> is_chip(chips@[k], filters@[k], selected@),
        decreases filters.len() - i,
    {
        chips.push(
            FilterChip {
                label: filters[i].label.clone(),
                count: decimal_text(filters[i].count as u64),
                active: same_text(&filters[i].label, selected),
            },
        );
        i = i + 1;
    }
    chips
}

fn resolved_rows(alerts: &Vec<AlertView>) -> (res: Vec<(String, String)>)
    requires
        dated(alerts@),
    ensures
        res@.len() == alerts@.len(),
        forall|i: int|
            #![trigger res@[i]]
            0 <= i < res@.len() ==> res@[i].0@ == alerts@[i].title@ && res@[i].1@ == resolved_text(
                alerts@[i],
            ),
{
    let mut rows: Vec<(String, String)> = Vec::new();
    let mut i: usize = 0;
    while i < alerts.len()
        invariant
            i <= alerts.len(),
            dated(alerts@),
            rows@.len() == i,
            forall|k: int|
                #![trigger rows@[k]]
                0 <= k < i ==> rows@[k].0@ == alerts@[k].title@ && rows@[k].1@ == resolved_text(
                    alerts@[k],
                ),
        decreases alerts.len() - i,
    {
        proof {
            assert(alerts@[i as int].created_at.valid());
        }
        rows.push((alerts[i].title.clone(), resolved_label(&alerts[i])));
        i = i + 1;
    }
    rows
}

impl AlertsView {
    /// What the page shows around its alerts, once a load landed. In the browser
    /// there is no page of rules to go to.
    pub fn screen(&self, labels: KindLabels, in_browser: bool) -> (res: Option<AlertsScreen>)
        requires
            self.data is Some ==> dated(self.data->0.resolved_this_month@),
        ensures
            res is Some <==> self.data is Some,
            res is Some ==> {
                let data = self.data->0;
                let screen = res->0;
                &&& screen.title@ == "Alerts"@
                &&& screen.caption@ == "Evaluated locally against the ledger every ingest"@
                &&& cloud::label_view(screen.rules_label) == (if in_browser {
                    None
                } else {
                    Some("Edit rules"@)
                })
                &&& screen.chips@.len() == data.filters@.len()
                &&& forall|i: int|
                    #![trigger screen.chips@[i]]
                    0 <= i < screen.chips@.len() ==> is_chip(
                        screen.chips@[i],
                        data.filters@[i],
                        self.selected_filter@,
                    )
                &&& order::part_view(screen.error) == order::part_view(self.error)
                &&& positions(screen.shown@) == shown_in(
                    data.open@,
                    self.applied_filter(),
                    labels,
                    data.open@.len() as int,
                )
                &&& cloud::label_view(screen.empty_note) == (if screen.shown@.len() == 0 {
                    Some("All clear"@)
                } else {
                    None
                })
                &&& screen.resolved_title@ == RESOLVED_SECTION_TITLE@
                &&& screen.resolved@.len() == data.resolved_this_month@.len()
                &&& forall|i: int|
                    #![trigger screen.resolved@[i]]
                    0 <= i < screen.resolved@.len() ==> screen.resolved@[i].0@
                        == data.resolved_this_month@[i].title@ && screen.resolved@[i].1@
                        == resolved_text(data.resolved_this_month@[i])
                &&& cloud::label_view(screen.resolved_note) == (if screen.resolved@.len() == 0 {
                    Some("Nothing resolved yet."@)
                } else {
                    None
                })
            },
    {
        let data = match &self.data {
            Some(data) => data,
            None => {
                return None;
            },
        };
        let shown = self.shown_alerts(labels);
        let resolved = resolved_rows(&data.resolved_this_month);
        let empty_note = if shown.len() == 0 {
            Some("All clear")
        } else {
            None
        };
        let resolved_note = if resolved.len() == 0 {
            Some("Nothing resolved yet.")
        } else {
            None
        };
        Some(
            AlertsScreen {
                title: "Alerts",
                caption: "Evaluated locally against the ledger every ingest",
                rules_label: if in_browser {
                    None
                } else {
                    Some("Edit rules")
                },
                chips: filter_chips(&data.filters, &self.selected_filter),
                error: order::clone_text(&self.error),
                shown,
                empty_note,
                resolved_title: RESOLVED_SECTION_TITLE,
                resolved,
                resolved_note,
            },
        )
    }
}

} // verus!
