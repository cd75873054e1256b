//! The rules page: alerting rules, a dialog that creates one and a dialog that
//! deletes one.
use vstd::prelude::*;

use super::data::alert_list::RulesData;
use super::fmt;
use super::fmt::elapsed_minutes;
use crate::alerts::RuleView;
use crate::amount::Amount;
use crate::calendar;
use crate::calendar::Timestamp;
use crate::error::Error;
use crate::list;
use crate::text;
use crate::text::{concat2, concat3, decimal_text, same_text};

verus! {

/// A kind of rule that the dialog creates.
#[derive(Clone, Copy, PartialEq, Eq, Structural, Debug)]
pub enum RuleKind {
    CostAnomaly,
    BalanceFloor,
    UntaggedRatio,
}

impl RuleKind {
    pub open spec fn title(self) -> Seq<char> {
        match self {
            RuleKind::CostAnomaly => "Model cost growth anomaly"@,
            RuleKind::BalanceFloor => "Balance floor"@,
            RuleKind::UntaggedRatio => "Untagged spend ratio"@,
        }
    }

    /// The default name of a rule of the kind, and the label of its choice.
    pub fn name(self) -> (res: &'static str)
        ensures
            res@ == self.title(),
    {
        match self {
            RuleKind::CostAnomaly => "Model cost growth anomaly",
            RuleKind::BalanceFloor => "Balance floor",
            RuleKind::UntaggedRatio => "Untagged spend ratio",
        }
    }
}

/// The fields of the dialog.
#[derive(Debug)]
pub struct RuleInputs {
    pub name: String,
    pub multiplier: String,
    pub consecutive: String,
    pub floor: String,
    pub threshold: String,
}

impl RuleInputs {
    /// The fields are prefilled for a kind.
    pub open spec fn prefilled(self, kind: RuleKind) -> bool {
        &&& self.name@ == kind.title()
        &&& self.multiplier@ == "2.5"@
        &&& self.consecutive@ == "2"@
        &&& self.floor@ == "200"@
        &&& self.threshold@ == "15"@
    }

    /// The fields as a kind prefills them.
    pub fn of_kind(kind: RuleKind) -> (res: RuleInputs)
        ensures
            res.prefilled(kind),
    {
        RuleInputs {
            name: kind.name().to_owned(),
            multiplier: "2.5".to_owned(),
            consecutive: "2".to_owned(),
            floor: "200".to_owned(),
            threshold: "15".to_owned(),
        }
    }
}

/// What a rule measures.
#[derive(Clone, Copy, PartialEq, Eq, Structural, Debug)]
pub enum RuleConfig {
    CostAnomaly { multiplier: Amount, consecutive_days: u64 },
    BalanceFloor { floor: Amount },
    /// A ratio, not a percentage.
    UntaggedRatio { threshold: Amount },
}

/// A rule to create.
#[derive(Debug)]
pub struct NewRule {
    pub kind: RuleKind,
    pub name: String,
    pub config: RuleConfig,
}

/// The numbers that the fields of the dialog were read as, where they are
/// numbers. The threshold is read as a percentage and handed over as a ratio.
#[derive(Clone, Copy, Debug)]
pub struct ReadInputs {
    pub multiplier: Option<Amount>,
    pub floor: Option<Amount>,
    pub threshold: Option<Amount>,
}

/// What the fields of the dialog describe for a kind, or what is wrong with
/// them.
pub open spec fn describes(
    kind: RuleKind,
    read: ReadInputs,
    consecutive: Seq<char>,
    res: Result<RuleConfig, String>,
) -> bool {
    match kind {
        RuleKind::CostAnomaly => match read.multiplier {
            Some(multiplier) => match text::whole_number(text::trimmed(consecutive)) {
                Some(days) => if days <= u64::MAX {
                    res == Ok::<RuleConfig, String>(
                        RuleConfig::CostAnomaly { multiplier, consecutive_days: days as u64 },
                    )
                } else {
                    res is Err && res->Err_0@
                        == "Consecutive days must be a whole number, e.g. 2"@
                },
                None => res is Err && res->Err_0@
                    == "Consecutive days must be a whole number, e.g. 2"@,
            },
            None => res is Err && res->Err_0@ == "The multiplier must be a number, e.g. 2.5"@,
        },
        RuleKind::BalanceFloor => match read.floor {
            Some(floor) => res == Ok::<RuleConfig, String>(RuleConfig::BalanceFloor { floor }),
            None => res is Err && res->Err_0@ == "The floor must be a number, e.g. 200"@,
        },
        RuleKind::UntaggedRatio => match read.threshold {
            Some(threshold) => res == Ok::<RuleConfig, String>(
                RuleConfig::UntaggedRatio { threshold },
            ),
            None => res is Err && res->Err_0@ == "The threshold must be a number, e.g. 15"@,
        },
    }
}

/// What the fields of the dialog describe for a kind, or the message that says
/// what is wrong with them. `consecutive` is the text of its field.
pub fn config_from_inputs(kind: RuleKind, read: ReadInputs, consecutive: &str) -> (res: Result<
    RuleConfig,
    String,
>)
    ensures
        describes(kind, read, consecutive@, res),
{
    match kind {
        RuleKind::CostAnomaly => {
            let multiplier = match read.multiplier {
                Some(multiplier) => multiplier,
                None => {
                    return Err("The multiplier must be a number, e.g. 2.5".to_owned());
                },
            };
            match text::parse_whole(&text::trim(consecutive)) {
                Some(consecutive_days) => Ok(
                    RuleConfig::CostAnomaly { multiplier, consecutive_days },
                ),
                None => Err("Consecutive days must be a whole number, e.g. 2".to_owned()),
            }
        },
        RuleKind::BalanceFloor => match read.floor {
            Some(floor) => Ok(RuleConfig::BalanceFloor { floor }),
            None => Err("The floor must be a number, e.g. 200".to_owned()),
        },
        RuleKind::UntaggedRatio => match read.threshold {
            Some(threshold) => Ok(RuleConfig::UntaggedRatio { threshold }),
            None => Err("The threshold must be a number, e.g. 15".to_owned()),
        },
    }
}

// ==================== Last fired ====================

/// When a rule last fired.
pub open spec fn fired_text(last_fired_at: Option<Timestamp>, now: Timestamp) -> Seq<char> {
    match last_fired_at {
        Some(at) => {
            let elapsed = fmt::minutes_between(at, now);
            if elapsed < 60 {
                "Fired "@ + text::decimal(elapsed as nat) + " min ago"@
            } else if elapsed < 2880 {
                "Fired "@ + text::decimal((elapsed / 60) as nat) + " h ago"@
            } else if elapsed < 10080 {
                "Fired "@ + text::decimal((elapsed / 1440) as nat) + " d ago"@
            } else {
                "Fired "@ + calendar::day_label(at.on())
            }
        },
        None => "Never fired"@,
    }
}

/// When a rule last fired, as the line under its switch.
pub fn last_fired_label(last_fired_at: Option<Timestamp>, now: Timestamp) -> (res: String)
    requires
        now.valid(),
        last_fired_at is Some ==> last_fired_at->0.valid(),
    ensures
        res@ == fired_text(last_fired_at, now),
{
    let at = match last_fired_at {
        Some(at) => at,
        None => {
            return "Never fired".to_owned();
        },
    };
    let elapsed: u64 = elapsed_minutes(at, now);
    if elapsed < 60 {
        concat3("Fired ", &decimal_text(elapsed), " min ago")
    } else if elapsed < 2880 {
        concat3("Fired ", &decimal_text(elapsed / 60), " h ago")
    } else if elapsed < 10080 {
        concat3("Fired ", &decimal_text(elapsed / 1440), " d ago")
    } else {
        concat2("Fired ", &at.date().label())
    }
}

// ==================== The page ====================

/// The page.
#[derive(Debug)]
pub struct RulesView {
    /// The rules, once the first load landed.
    pub data: Option<RulesData>,
    /// A load is in flight.
    pub loading: bool,
    /// Grows with every load, so that an older load discards its result.
    pub load_generation: u64,
    /// The last failure, if any.
    pub error: Option<String>,
    pub show_new_dialog: bool,
    /// What is wrong inside the dialog.
    pub dialog_error: Option<String>,
    /// A rule is being created.
    pub creating: bool,
    /// The kind the dialog creates.
    pub selected_kind: RuleKind,
    pub inputs: RuleInputs,
    /// The rule that awaits the confirmation of its deletion.
    pub pending_delete: Option<String>,
    /// A rule is being deleted.
    pub deleting: bool,
}

/// What the page shows under its header.
#[derive(Clone, Copy, PartialEq, Eq, Structural, Debug)]
pub enum RulesBody {
    Loading,
    Failed,
    Empty,
    Listed,
}

/// Being the rule with an id.
pub open spec fn rule_with(id: Seq<char>) -> spec_fn(RuleView) -> bool {
    |rule: RuleView| rule.id@ == id
}

impl RulesView {
    /// Everything but the list of rules and its load is the same.
    pub open spec fn same_dialogs(self, other: RulesView) -> bool {
        &&& self.show_new_dialog == other.show_new_dialog
        &&& self.dialog_error == other.dialog_error
        &&& self.creating == other.creating
        &&& self.selected_kind == other.selected_kind
        &&& self.inputs == other.inputs
        &&& self.pending_delete == other.pending_delete
        &&& self.deleting == other.deleting
    }

    /// The list of rules and its load are the same.
    pub open spec fn same_list(self, other: RulesView) -> bool {
        &&& self.data == other.data
        &&& self.loading == other.loading
        &&& self.load_generation == other.load_generation
        &&& self.error == other.error
    }

    /// A page without rules, its first load on the way.
    pub fn new() -> (res: RulesView)
        ensures
            res.data is None,
            res.loading,
            res.load_generation == 1,
            res.error is None,
            !res.show_new_dialog,
            res.dialog_error is None,
            !res.creating,
            res.selected_kind == RuleKind::CostAnomaly,
            res.inputs.prefilled(RuleKind::CostAnomaly),
            res.pending_delete is None,
            !res.deleting,
    {
        RulesView {
            data: None,
            loading: true,
            load_generation: 1,
            error: None,
            show_new_dialog: false,
            dialog_error: None,
            creating: false,
            selected_kind: RuleKind::CostAnomaly,
            inputs: RuleInputs::of_kind(RuleKind::CostAnomaly),
            pending_delete: None,
            deleting: false,
        }
    }

    /// Reload, unless a load is in flight; the generation of the load that
    /// starts.
    pub fn reload(&mut self) -> (res: Option<u64>)
        requires
            old(self).load_generation < u64::MAX,
        ensures
            res is Some <==> !old(self).loading,
            res is Some ==> res->0 == final(self).load_generation && final(self).load_generation
                == old(self).load_generation + 1,
            res is None ==> final(self).load_generation == old(self).load_generation,
            final(self).loading,
            final(self).data == old(self).data,
            final(self).error == old(self).error,
            final(self).same_dialogs(*old(self)),
    {
        if self.loading {
            return None;
        }
        Some(self.load())
    }

    /// A load starts; its generation.
    pub fn load(&mut self) -> (res: u64)
        requires
            old(self).load_generation < u64::MAX,
        ensures
            res == old(self).load_generation + 1,
            final(self).load_generation == res,
            final(self).loading,
            final(self).data == old(self).data,
            final(self).error == old(self).error,
            final(self).same_dialogs(*old(self)),
    {
        self.loading = true;
        self.load_generation = self.load_generation + 1;
        self.load_generation
    }

    /// A load came back. Only the newest may write; an older result is
    /// discarded. A banner of an earlier failure goes with a fresh list.
    pub fn loaded(&mut self, generation: u64, result: Result<RulesData, Error>)
        ensures
            final(self).load_generation == old(self).load_generation,
            final(self).same_dialogs(*old(self)),
            generation != old(self).load_generation ==> final(self).same_list(*old(self)),
            generation == old(self).load_generation ==> {
                &&& !final(self).loading
                &&& match result {
                    Ok(rules) => final(self).data == Some(rules) && final(self).error is None,
                    Err(e) => {
                        &&& final(self).data == old(self).data
                        &&& final(self).error is Some
                        &&& final(self).error->0@ == "Could not load rules: "@ + e.message@
                    },
                }
            },
    {
        if generation != self.load_generation {
            return ;
        }
        self.loading = false;
        match result {
            Ok(rules) => {
                self.data = Some(rules);
                self.error = None;
            },
            Err(e) => {
                self.error = Some(concat2("Could not load rules: ", &e.message));
            },
        }
    }

    /// Flip a rule on or off. The switch shows the new state at once, before it
    /// is stored.
    pub fn set_enabled(&mut self, id: &str, enabled: bool)
        ensures
            final(self).loading == old(self).loading,
            final(self).load_generation == old(self).load_generation,
            final(self).error == old(self).error,
            final(self).same_dialogs(*old(self)),
            match old(self).data {
                Some(data) => {
                    &&& final(self).data is Some
                    &&& final(self).data->0.rules@ == (match list::first_index(
                        data.rules@,
                        rule_with(id@),
                    ) {
                        Some(i) => data.rules@.update(
                            i,
                            (RuleView { enabled, ..data.rules@[i] }),
                        ),
                        None => data.rules@,
                    })
                },
                None => final(self).data is None,
            },
    {
        let mut at: Option<usize> = None;
        if let Some(data) = &self.data {
            let accepts = |rule: &RuleView| -> (b: bool)
                ensures
                    b == (rule.id@ == id@)
            { same_text(&rule.id, id) };
            at = list::position(&data.rules, accepts, Ghost(rule_with(id@)));
        }
        if let Some(i) = at {
            if let Some(data) = &mut self.data {
                data.rules[i].enabled = enabled;
            }
        }
    }

    /// A switch was stored, or not: a failure is said, and a load follows that
    /// brings the truth; its generation.
    pub fn enabled_stored(&mut self, result: Result<(), Error>) -> (res: u64)
        requires
            old(self).load_generation < u64::MAX,
        ensures
            res == old(self).load_generation + 1,
            final(self).load_generation == res,
            final(self).loading,
            final(self).data == old(self).data,
            final(self).same_dialogs(*old(self)),
            match result {
                Ok(_) => final(self).error == old(self).error,
                Err(e) => {
                    &&& final(self).error is Some
                    &&& final(self).error->0@ == "Could not update the rule: "@ + e.message@
                },
            },
    {
        if let Err(e) = result {
            self.error = Some(concat2("Could not update the rule: ", &e.message));
        }
        self.load()
    }

    // ==================== New rule ====================

    /// Open the dialog, on the first kind.
    pub fn open_new_dialog(&mut self)
        ensures
            final(self).show_new_dialog,
            final(self).dialog_error is None,
            final(self).error is None,
            final(self).selected_kind == RuleKind::CostAnomaly,
            final(self).inputs.prefilled(RuleKind::CostAnomaly),
            final(self).data == old(self).data,
            final(self).loading == old(self).loading,
            final(self).load_generation == old(self).load_generation,
            final(self).creating == old(self).creating,
            final(self).pending_delete == old(self).pending_delete,
            final(self).deleting == old(self).deleting,
    {
        self.show_new_dialog = true;
        self.dialog_error = None;
        self.error = None;
        self.set_kind(RuleKind::CostAnomaly);
    }

    pub fn hide_new_dialog(&mut self)
        ensures
            !final(self).show_new_dialog,
            final(self).dialog_error is None,
            final(self).same_list(*old(self)),
            final(self).creating == old(self).creating,
            final(self).selected_kind == old(self).selected_kind,
            final(self).inputs == old(self).inputs,
            final(self).pending_delete == old(self).pending_delete,
            final(self).deleting == old(self).deleting,
    {
        self.show_new_dialog = false;
        self.dialog_error = None;
    }

    /// Select the kind the dialog creates; its fields are prefilled.
    pub fn set_kind(&mut self, kind: RuleKind)
        ensures
            final(self).selected_kind == kind,
            final(self).dialog_error is None,
            final(self).inputs.prefilled(kind),
            final(self).same_list(*old(self)),
            final(self).show_new_dialog == old(self).show_new_dialog,
            final(self).creating == old(self).creating,
            final(self).pending_delete == old(self).pending_delete,
            final(self).deleting == old(self).deleting,
    {
        self.selected_kind = kind;
        self.dialog_error = None;
        self.inputs = RuleInputs::of_kind(kind);
    }

    /// Submit the dialog: what to create, or nothing where a field is wrong,
    /// which the dialog then says.
    pub fn submit_new_rule(&mut self, read: ReadInputs) -> (res: Option<NewRule>)
        ensures
            final(self).same_list(*old(self)),
            final(self).show_new_dialog == old(self).show_new_dialog,
            final(self).selected_kind == old(self).selected_kind,
            final(self).inputs == old(self).inputs,
            final(self).pending_delete == old(self).pending_delete,
            final(self).deleting == old(self).deleting,
            exists|config: Result<RuleConfig, String>|
                {
                    &&& #[trigger] describes(
                        old(self).selected_kind,
                        read,
                        old(self).inputs.consecutive@,
                        config,
                    )
                    &&& match config {
                        Ok(config) => {
                            &&& res is Some
                            &&& res->0.kind == old(self).selected_kind
                            &&& res->0.name@ == text::trimmed(old(self).inputs.name@)
                            &&& res->0.config == config
                            &&& final(self).creating
                            &&& final(self).dialog_error is None
                        },
                        Err(message) => {
                            &&& res is None
                            &&& final(self).creating == old(self).creating
                            &&& final(self).dialog_error == Some(message)
                        },
                    }
                },
    {
        let name = text::trim(&self.inputs.name);
        match config_from_inputs(self.selected_kind, read, &self.inputs.consecutive) {
            Ok(config) => {
                self.creating = true;
                self.dialog_error = None;
                Some(NewRule { kind: self.selected_kind, name, config })
            },
            Err(message) => {
                self.dialog_error = Some(message);
                None
            },
        }
    }

    /// A rule was created, or not: the dialog closes and a load follows, whose
    /// generation comes back, or the dialog stays and says why.
    pub fn rule_created(&mut self, result: Result<(), Error>) -> (res: Option<u64>)
        requires
            old(self).load_generation < u64::MAX,
        ensures
            !final(self).creating,
            final(self).data == old(self).data,
            final(self).error == old(self).error,
            final(self).selected_kind == old(self).selected_kind,
            final(self).inputs == old(self).inputs,
            final(self).pending_delete == old(self).pending_delete,
            final(self).deleting == old(self).deleting,
            match result {
                Ok(_) => {
                    &&& res is Some
                    &&& res->0 == old(self).load_generation + 1
                    &&& final(self).load_generation == res->0
                    &&& final(self).loading
                    &&& !final(self).show_new_dialog
                    &&& final(self).dialog_error is None
                },
                Err(e) => {
                    &&& res is None
                    &&& final(self).same_list(*old(self))
                    &&& final(self).show_new_dialog == old(self).show_new_dialog
                    &&& final(self).dialog_error is Some
                    &&& final(self).dialog_error->0@ == e.message@
                },
            },
    {
        self.creating = false;
        match result {
            Ok(_) => {
                self.show_new_dialog = false;
                self.dialog_error = None;
                Some(self.load())
            },
            Err(e) => {
                self.dialog_error = Some(e.message);
                None
            },
        }
    }

    // ==================== Delete ====================

    pub fn ask_delete(&mut self, id: String)
        ensures
            final(self).pending_delete == Some(id),
            final(self).same_list(*old(self)),
            final(self).show_new_dialog == old(self).show_new_dialog,
            final(self).dialog_error == old(self).dialog_error,
            final(self).creating == old(self).creating,
            final(self).selected_kind == old(self).selected_kind,
            final(self).inputs == old(self).inputs,
            final(self).deleting == old(self).deleting,
    {
        self.pending_delete = Some(id);
    }

    pub fn cancel_delete(&mut self)
        ensures
            final(self).pending_delete is None,
            final(self).same_list(*old(self)),
            final(self).show_new_dialog == old(self).show_new_dialog,
            final(self).dialog_error == old(self).dialog_error,
            final(self).creating == old(self).creating,
            final(self).selected_kind == old(self).selected_kind,
            final(self).inputs == old(self).inputs,
            final(self).deleting == old(self).deleting,
    {
        self.pending_delete = None;
    }

    /// Confirm the deletion: the rule to delete, if one awaits it.
    pub fn confirm_delete(&mut self) -> (res: Option<String>)
        ensures
            res == old(self).pending_delete,
            final(self).pending_delete is None,
            final(self).deleting == (old(self).deleting || old(self).pending_delete is Some),
            final(self).same_list(*old(self)),
            final(self).show_new_dialog == old(self).show_new_dialog,
            final(self).dialog_error == old(self).dialog_error,
            final(self).creating == old(self).creating,
            final(self).selected_kind == old(self).selected_kind,
            final(self).inputs == old(self).inputs,
    {
        let pending = self.pending_delete.take();
        if pending.is_some() {
            self.deleting = true;
        }
        pending
    }

    /// A rule was deleted, or not: a failure is said, and a load follows; its
    /// generation.
    pub fn rule_deleted(&mut self, result: Result<(), Error>) -> (res: u64)
        requires
            old(self).load_generation < u64::MAX,
        ensures
            !final(self).deleting,
            res == old(self).load_generation + 1,
            final(self).load_generation == res,
            final(self).loading,
            final(self).data == old(self).data,
            final(self).show_new_dialog == old(self).show_new_dialog,
            final(self).dialog_error == old(self).dialog_error,
            final(self).creating == old(self).creating,
            final(self).selected_kind == old(self).selected_kind,
            final(self).inputs == old(self).inputs,
            final(self).pending_delete == old(self).pending_delete,
            match result {
                Ok(_) => final(self).error == old(self).error,
                Err(e) => {
                    &&& final(self).error is Some
                    &&& final(self).error->0@ == "Could not delete the rule: "@ + e.message@
                },
            },
    {
        self.deleting = false;
        if let Err(e) = result {
            self.error = Some(concat2("Could not delete the rule: ", &e.message));
        }
        self.load()
    }

    // ==================== What is shown ====================

    /// What the page shows under its header.
    pub fn body(&self) -> (res: RulesBody)
        ensures
            res == (if self.loading && self.data is None {
                RulesBody::Loading
            } else if self.error is Some {
                RulesBody::Failed
            } else if self.data is None || self.data->0.rules@.len() == 0 {
                RulesBody::Empty
            } else {
                RulesBody::Listed
            }),
    {
        if self.loading && self.data.is_none() {
            return RulesBody::Loading;
        }
        if self.error.is_some() {
            return RulesBody::Failed;
        }
        match &self.data {
            Some(data) => if data.rules.len() == 0 {
                RulesBody::Empty
            } else {
                RulesBody::Listed
            },
            None => RulesBody::Empty,
        }
    }

    /// What the dialog for a new rule shows, while it is open.
    pub fn new_dialog(&self) -> (res: Option<NewRuleDialog>)
        ensures
            res is Some <==> self.show_new_dialog,
            res is Some ==> {
                let dialog = res->0;
                &&& dialog.title@ == "New rule"@
                &&& dialog.kinds@ == seq![
                    (RuleKind::CostAnomaly, self.selected_kind == RuleKind::CostAnomaly),
                    (RuleKind::BalanceFloor, self.selected_kind == RuleKind::BalanceFloor),
                    (RuleKind::UntaggedRatio, self.selected_kind == RuleKind::UntaggedRatio),
                ]
                &&& dialog.parameters@.map_values(|p: &'static str| p@) == parameters_of(
                    self.selected_kind,
                )
                &&& dialog.note@
                    == "The rule is enabled on creation and runs on the next evaluation, right after it is saved."@
                &&& crate::order::part_view(dialog.error) == crate::order::part_view(self.dialog_error)
                &&& dialog.submit_label@ == "Create rule"@
                &&& dialog.submit_disabled == self.creating
            },
    {
        if !self.show_new_dialog {
            return None;
        }
        let mut kinds: Vec<(RuleKind, bool)> = Vec::new();
        kinds.push((RuleKind::CostAnomaly, self.selected_kind == RuleKind::CostAnomaly));
        kinds.push((RuleKind::BalanceFloor, self.selected_kind == RuleKind::BalanceFloor));
        kinds.push((RuleKind::UntaggedRatio, self.selected_kind == RuleKind::UntaggedRatio));
        let mut parameters: Vec<&'static str> = Vec::new();
        match self.selected_kind {
            RuleKind::CostAnomaly => {
                parameters.push("Multiplier (× 7-day baseline)");
                parameters.push("Consecutive days");
            },
            RuleKind::BalanceFloor => {
                parameters.push("Floor (account's currency)");
            },
            RuleKind::UntaggedRatio => {
                parameters.push("Threshold (%)");
            },
        }
        proof {
            assert(parameters@.map_values(|p: &'static str| p@) =~= parameters_of(
                self.selected_kind,
            ));
        }
        Some(
            NewRuleDialog {
                title: "New rule",
                kinds,
                parameters,
                note: "The rule is enabled on creation and runs on the next evaluation, right after it is saved.",
                error: crate::order::clone_text(&self.dialog_error),
                submit_label: "Create rule",
                submit_disabled: self.creating,
            },
        )
    }

    /// The name of the rule that awaits the confirmation of its deletion.
    pub open spec fn doomed_name(self) -> Seq<char> {
        match self.data {
            Some(data) => match list::first_index(
                data.rules@,
                rule_with(self.pending_delete->0@),
            ) {
                Some(i) => data.rules@[i].name@,
                None => "this rule"@,
            },
            None => "this rule"@,
        }
    }

    /// What the dialog that confirms a deletion asks, while one awaits it.
    pub fn delete_question(&self) -> (res: Option<String>)
        ensures
            res is Some <==> self.pending_delete is Some,
            res is Some ==> res->0@ == "Delete \""@ + self.doomed_name()
                + "\"? Its past alerts stay; the rule stops running."@,
    {
        let id = match &self.pending_delete {
            Some(id) => id,
            None => {
                return None;
            },
        };
        let mut name = "this rule".to_owned();
        if let Some(data) = &self.data {
            let accepts = |rule: &RuleView| -> (b: bool)
                ensures
                    b == (rule.id@ == id@)
            { same_text(&rule.id, id) };
            if let Some(i) = list::position(&data.rules, accepts, Ghost(rule_with(id@))) {
                name = data.rules[i].name.clone();
            }
        }
        Some(concat3("Delete \"", &name, "\"? Its past alerts stay; the rule stops running."))
    }
}

/// The fields that a kind asks for, by their labels.
pub open spec fn parameters_of(kind: RuleKind) -> Seq<Seq<char>> {
    match kind {
        RuleKind::CostAnomaly => seq![
            "Multiplier (× 7-day baseline)"@,
            "Consecutive days"@,
        ],
        RuleKind::BalanceFloor => seq!["Floor (account's currency)"@],
        RuleKind::UntaggedRatio => seq!["Threshold (%)"@],
    }
}

/// What the dialog for a new rule shows.
#[derive(Debug)]
pub struct NewRuleDialog {
    pub title: &'static str,
    /// The kinds to choose from, and which is chosen.
    pub kinds: Vec<(RuleKind, bool)>,
    /// The labels of the fields for the chosen kind, below the name.
    pub parameters: Vec<&'static str>,
    pub note: &'static str,
    pub error: Option<String>,
    pub submit_label: &'static str,
    pub submit_disabled: bool,
}

/// A rule may be deleted only where the user made it: its id begins with the
/// prefix of custom rules.
pub fn is_custom(rule: &RuleView, custom_prefix: &str) -> (res: bool)
    ensures
        res == text::begins_with(rule.id@, custom_prefix@),
{
    text::starts_with(&rule.id, custom_prefix)
}

} // verus!
