//! Alert rules and the events they raise, as the application state keeps them.
use vstd::prelude::*;

use crate::calendar::Timestamp;

verus! {

/// The kind of a rule that watches an account's budget.
pub const RULE_BUDGET: &'static str = "budget";

/// Where an alert event stands.
#[derive(Clone, Copy, PartialEq, Eq, Structural, Debug)]
pub enum AlertStatus {
    Open,
    Snoozed,
    Resolved,
    Dismissed,
}

impl AlertStatus {
    /// A live event is one that is open or snoozed.
    pub open spec fn is_live(self) -> bool {
        self == AlertStatus::Open || self == AlertStatus::Snoozed
    }

    /// A final state is one that an event is stamped with an end for.
    pub open spec fn is_final(self) -> bool {
        self == AlertStatus::Resolved || self == AlertStatus::Dismissed
    }

    pub fn live(self) -> (res: bool)
        ensures
            res == self.is_live(),
    {
        match self {
            AlertStatus::Open | AlertStatus::Snoozed => true,
            _ => false,
        }
    }
}

/// What an alert is about.
#[derive(Clone, Copy, PartialEq, Eq, Structural, Debug)]
pub enum AlertKind {
    CostAnomaly,
    Balance,
    UntaggedRatio,
    Budget,
}

/// How bad an alert is.
#[derive(Clone, Copy, PartialEq, Eq, Structural, Debug)]
pub enum Severity {
    Warning,
    Critical,
}

/// A rule that raises alerts.
#[derive(Debug)]
pub struct AlertRule {
    pub id: String,
    pub name: String,
    pub kind: String,
    /// What the rule measures, as the text of a JSON object.
    pub config: String,
    pub enabled: bool,
    pub last_fired_at: Option<Timestamp>,
}

impl Clone for AlertRule {
    fn clone(&self) -> (res: Self)
        ensures
            res == *self,
    {
        AlertRule {
            id: self.id.clone(),
            name: self.name.clone(),
            kind: self.kind.clone(),
            config: self.config.clone(),
            enabled: self.enabled,
            last_fired_at: self.last_fired_at,
        }
    }
}

/// One alert that a rule raised.
#[derive(Debug)]
pub struct AlertEvent {
    pub id: String,
    pub rule_id: String,
    /// What keeps one condition from alerting twice while it holds.
    pub dedupe_key: String,
    pub status: AlertStatus,
    pub created_at: Timestamp,
    pub snoozed_until: Option<Timestamp>,
    pub resolved_at: Option<Timestamp>,
    /// What the event is about, as the text of a JSON object.
    pub context: String,
}

impl Clone for AlertEvent {
    fn clone(&self) -> (res: Self)
        ensures
            res == *self,
    {
        AlertEvent {
            id: self.id.clone(),
            rule_id: self.rule_id.clone(),
            dedupe_key: self.dedupe_key.clone(),
            status: self.status,
            created_at: self.created_at,
            snoozed_until: self.snoozed_until,
            resolved_at: self.resolved_at,
            context: self.context.clone(),
        }
    }
}

/// The number an alert stands out with.
#[derive(Debug)]
pub struct AlertStat {
    pub value: String,
    pub label: String,
}

/// One label and value of an alert.
#[derive(Debug)]
pub struct AlertField {
    pub label: String,
    pub value: String,
}

/// An alert as the pages show it.
#[derive(Debug)]
pub struct AlertView {
    pub id: String,
    pub kind: AlertKind,
    pub severity: Severity,
    pub title: String,
    pub body: String,
    pub stat: Option<AlertStat>,
    pub fields: Vec<AlertField>,
    /// What can be done about it, by the labels of the buttons.
    pub actions: Vec<String>,
    /// What the alert is about, as the text of a JSON object.
    pub context: String,
    pub created_at: Timestamp,
    pub resolved_at: Option<Timestamp>,
}

/// A rule as the page lists it.
#[derive(Debug)]
pub struct RuleView {
    pub id: String,
    pub name: String,
    /// What the rule watches.
    pub scope: String,
    pub description: String,
    /// The conditions it fires on, one chip each.
    pub condition_chips: Vec<String>,
    /// Where its alerts go, one chip each.
    pub delivery_chips: Vec<String>,
    pub enabled: bool,
    pub last_fired_at: Option<Timestamp>,
}

} // verus!
