//! What the store and the pages remember.
use cloudbridge::alerts::{
    AlertEvent, AlertKind, AlertRule, AlertStatus, AlertView, RuleView, Severity, RULE_BUDGET,
};
use cloudbridge::amount::Amount;
use cloudbridge::calendar::{Date, Timestamp};
use cloudbridge::db;
use cloudbridge::error::Error;
use cloudbridge::memory::Store;
use cloudbridge::model::{BudgetInfo, CloudAccount, SourceId};
use cloudbridge::ui::alerts::{
    action_looks, action_of, resolved_label, ActionLook, AlertAction, AlertsBody, AlertsView,
};
use cloudbridge::ui::data::alert_list::{
    count_kind, dismiss_alert, load_alerts, load_budget_statuses, load_rules, save_budget,
    set_rule_enabled, snooze_alert, KindLabels,
};
use cloudbridge::ui::data::starter::{run_adhoc_query, QueryResultData};
use cloudbridge::ui::query::{
    result_cell, result_columns, secondary_enter_newline, QueryStatus, QueryView,
};
use cloudbridge::ui::rules::{
    config_from_inputs, is_custom, last_fired_label, ReadInputs, RuleConfig, RuleInputs, RuleKind,
    RulesBody, RulesView,
};
use cloudbridge::ui::settings::{
    current_theme, settings_screen, theme_title, Settings, SettingsView, StatusMessage,
    SwitchFailure,
};
use cloudbridge::ui::theme::{DARK_THEME_NAME, LIGHT_THEME_NAME};

fn amount(value: f64) -> Amount {
    Amount { bits: value.to_bits() }
}

fn on(month: u32, day: u32) -> Timestamp {
    Date { year: 2026, month, day }.midnight()
}

fn account(id: &str, source: &str) -> CloudAccount {
    CloudAccount {
        id: id.to_string(),
        name: format!("Account {id}"),
        source_id: SourceId::of(source),
        region: None,
        created_at: on(1, 1),
        last_synced_at: None,
        enabled: true,
        access_key_hint: None,
        export_uri: None,
    }
}

fn store_with(ids: &[&str]) -> Store {
    let mut store = Store::new("USD");
    for id in ids {
        db::save_account(&mut store, &account(id, "AWS"), "", "", "").unwrap();
    }
    store
}

// ==================== Accounts and budgets ====================

#[test]
fn an_account_is_saved_under_its_id() {
    db::init_database().unwrap();
    let mut store = store_with(&["a", "b"]);
    let mut renamed = account("a", "AWS");
    renamed.name = "Renamed".to_string();
    db::save_account(&mut store, &renamed, "AKIA1234", "secret", "AKIA").unwrap();
    let accounts = db::get_all_accounts(&store).unwrap();
    assert_eq!(accounts.len(), 2);
    assert_eq!(accounts[0].name, "Renamed");
    assert_eq!(accounts[0].access_key_hint.as_deref(), Some("AKIA"));
    assert_eq!(accounts[1].access_key_hint, None);
    db::mark_account_synced(&mut store, "b", on(9, 1)).unwrap();
    assert_eq!(store.accounts[1].last_synced_at, Some(on(9, 1)));
    db::delete_account(&mut store, "a").unwrap();
    assert_eq!(db::get_all_accounts(&store).unwrap().len(), 1);
}

#[test]
fn an_account_of_an_unknown_source_is_left_out() {
    let mut store = store_with(&["a"]);
    store.accounts.push(account("z", "Nowhere"));
    let ids: Vec<String> =
        db::get_all_accounts(&store).unwrap().into_iter().map(|one| one.id).collect();
    assert_eq!(ids, vec!["a"]);
}

#[test]
fn an_account_with_no_secrets_has_no_context() {
    let mut store = store_with(&["a"]);
    let one = account("a", "AWS");
    let source = one.descriptor().unwrap();
    let refused = db::account_context(&mut store, &one, &source, "hint").unwrap_err();
    assert_eq!(
        refused.message,
        "No credentials stored for account Account a; they have to be re-entered"
    );
    let secrets = Some(("AKIA1234".to_string(), "shh".to_string()));
    let context = db::context_of(&mut store, &one, &source, secrets, "AKIA").unwrap();
    assert_eq!(context.access_key_id, "AKIA1234");
    assert_eq!(context.secret_access_key, "shh");
    assert_eq!(context.region.as_deref(), source.default_region);
    assert_eq!(store.accounts[0].access_key_hint.as_deref(), Some("AKIA"));
}

#[test]
fn a_budget_keeps_its_creation_time() {
    let mut store = store_with(&["a"]);
    save_budget(&mut store, "a", amount(100.0), amount(80.0), "USD", on(3, 1)).unwrap();
    save_budget(&mut store, "a", amount(200.0), amount(90.0), "EUR", on(4, 1)).unwrap();
    let budget: BudgetInfo = db::get_budget(&store, "a").unwrap().unwrap();
    assert_eq!((budget.created_at, budget.updated_at), (on(3, 1), on(4, 1)));
    assert_eq!((budget.monthly_budget, budget.currency.as_str()), (amount(200.0), "EUR"));
    assert_eq!(db::get_all_budgets(&store).unwrap().len(), 1);
    assert!(db::get_budget(&store, "b").unwrap().is_none());
    db::delete_budget(&mut store, "a").unwrap();
    assert!(db::get_all_budgets(&store).unwrap().is_empty());
}

fn figures(cost: f64, used: f64, left: f64) -> db::BudgetFigures {
    db::BudgetFigures {
        current_cost: amount(cost),
        ratio_pct: amount(used),
        remaining: amount(left),
    }
}

#[test]
fn a_budget_triggers_at_its_threshold_or_by_its_alert() {
    let mut store = store_with(&["a"]);
    save_budget(&mut store, "a", amount(100.0), amount(80.0), "USD", on(3, 1)).unwrap();
    let questions = db::budget_questions(&store, &vec![], on(9, 10)).unwrap();
    assert_eq!(questions.len(), 1);
    assert!(questions[0].charges.is_empty() && !questions[0].live_alert);
    let calm = load_budget_statuses(&questions, &vec![figures(79.0, 79.0, 21.0)]);
    assert!(!calm[0].alert_triggered);
    assert_eq!(calm[0].account_name, "Account a");
    let hot = db::get_budget_status(&questions[0], figures(80.0, 80.0, 20.0));
    assert!(hot.alert_triggered);
    assert_eq!((hot.percentage_used, hot.remaining), (amount(80.0), amount(20.0)));

    let mut alert = event("e1", "budget:a", on(9, 1));
    alert.rule_id = RULE_BUDGET.to_string();
    alert.context = "{\"account_id\":\"a\"}".to_string();
    db::insert_alert_event(&mut store, &alert).unwrap();
    let live = db::has_live_budget_alert(&store, "a");
    let question = db::budget_question(&store, &vec![], "a", on(9, 10)).unwrap().unwrap();
    assert_eq!(question.live_alert, live);
    assert!(db::budget_question(&store, &vec![], "b", on(9, 10)).unwrap().is_none());
}

#[test]
fn a_budget_of_a_missing_account_is_an_error() {
    let mut store = Store::new("USD");
    save_budget(&mut store, "gone", amount(1.0), amount(1.0), "USD", on(1, 1)).unwrap();
    let refused = db::budget_question(&store, &vec![], "gone", on(9, 1)).unwrap_err();
    assert_eq!(refused.message, "Account not found");
}

// ==================== Rules and alerts ====================

fn rule(id: &str) -> AlertRule {
    AlertRule {
        id: id.to_string(),
        name: id.to_uppercase(),
        kind: "cost_anomaly".to_string(),
        config: "{}".to_string(),
        enabled: true,
        last_fired_at: None,
    }
}

fn event(id: &str, key: &str, created_at: Timestamp) -> AlertEvent {
    AlertEvent {
        id: id.to_string(),
        rule_id: "r".to_string(),
        dedupe_key: key.to_string(),
        status: AlertStatus::Open,
        created_at,
        snoozed_until: None,
        resolved_at: None,
        context: "{}".to_string(),
    }
}

#[test]
fn a_rule_is_switched_and_removed() {
    let mut store = Store::new("USD");
    db::save_alert_rule(&mut store, &rule("r1")).unwrap();
    db::save_alert_rule(&mut store, &rule("r2")).unwrap();
    assert!(db::alert_rule_exists(&store, "r1").unwrap());
    set_rule_enabled(&mut store, "r1", false).unwrap();
    db::mark_rule_fired(&mut store, "r2", on(9, 1)).unwrap();
    let rules = db::get_alert_rules(&store).unwrap();
    assert_eq!(rules.iter().map(|one| one.enabled).collect::<Vec<_>>(), vec![false, true]);
    assert_eq!(rules[1].last_fired_at, Some(on(9, 1)));
    db::delete_alert_rule(&mut store, "r1").unwrap();
    assert!(!db::alert_rule_exists(&store, "r1").unwrap());
}

#[test]
fn no_two_rows_share_an_id() {
    let mut store = Store::new("USD");
    for name in ["first", "second"] {
        let mut one = account("a", "AWS");
        one.name = name.to_string();
        db::save_account(&mut store, &one, "", "", "").unwrap();
        db::save_alert_rule(&mut store, &rule("r")).unwrap();
        db::insert_alert_event(&mut store, &event("e", name, on(9, 1))).unwrap();
        let monthly = amount(if name == "first" { 1.0 } else { 2.0 });
        save_budget(&mut store, "a", monthly, amount(0.8), "USD", on(9, 1)).unwrap();
    }
    db::save_account(&mut store, &account("b", "AWS"), "", "", "").unwrap();
    let ids: Vec<&str> = store.accounts.iter().map(|one| one.id.as_str()).collect();
    assert_eq!(ids, vec!["a", "b"]);
    assert_eq!(store.accounts[0].name, "second");
    assert_eq!((store.alert_rules.len(), store.alert_events.len()), (1, 1));
    assert_eq!(store.budgets.len(), 1);
    assert_eq!(db::get_budget(&store, "a").unwrap().unwrap().monthly_budget, amount(2.0));
    db::delete_account(&mut store, "a").unwrap();
    assert_eq!((store.accounts.len(), store.budgets.len()), (1, 0));
}

#[test]
fn the_newest_live_alert_is_found() {
    let mut store = Store::new("USD");
    for one in [event("old", "k", on(9, 1)), event("new", "k", on(9, 3)), event("x", "l", on(9, 4))] {
        db::insert_alert_event(&mut store, &one).unwrap();
    }
    assert_eq!(db::find_live_alert_event(&store, "k").unwrap().unwrap().id, "new");
    dismiss_alert(&mut store, "new", on(9, 5)).unwrap();
    assert_eq!(db::find_live_alert_event(&store, "k").unwrap().unwrap().id, "old");
    snooze_alert(&mut store, "old", -24, on(9, 5)).unwrap();
    let snoozed = db::find_live_alert_event(&store, "k").unwrap().unwrap();
    assert_eq!(snoozed.snoozed_until, Some(on(9, 4)));
    snooze_alert(&mut store, "old", 24, on(9, 5)).unwrap();
    let snoozed = db::find_live_alert_event(&store, "k").unwrap().unwrap();
    assert_eq!((snoozed.status, snoozed.snoozed_until), (AlertStatus::Snoozed, Some(on(9, 6))));
    let listed = db::get_alert_events(&store, &vec![AlertStatus::Dismissed]).unwrap();
    assert_eq!(listed.len(), 1);
    assert_eq!(listed[0].id, "new");
    assert!(db::find_live_alert_event(&store, "m").unwrap().is_none());
}

#[test]
fn a_finding_is_dismissed_once() {
    let mut store = Store::new("USD");
    db::dismiss_quality_issue(&mut store, "untagged_usage:2026-09").unwrap();
    db::dismiss_quality_issue(&mut store, "untagged_usage:2026-09").unwrap();
    let keys = db::dismissed_quality_issue_keys(&store).unwrap();
    assert_eq!(keys, vec!["untagged_usage:2026-09"]);
    assert!(db::is_dismissed(&keys, "untagged_usage:2026-09"));
    assert!(!db::is_dismissed(&keys, "untagged_usage:2026-10"));
    db::clear_dismissed_quality_issues(&mut store).unwrap();
    assert!(db::dismissed_quality_issue_keys(&store).unwrap().is_empty());
}

fn alert(id: &str, kind: AlertKind, resolved_at: Option<Timestamp>) -> AlertView {
    AlertView {
        id: id.to_string(),
        kind,
        severity: Severity::Warning,
        title: id.to_string(),
        body: String::new(),
        stat: None,
        fields: vec![],
        actions: vec![],
        context: "{}".to_string(),
        created_at: on(9, 1),
        resolved_at,
    }
}

const LABELS: KindLabels = KindLabels {
    cost_anomaly: "Anomaly",
    balance: "Balance",
    untagged_ratio: "Untagged",
    budget: "Budget",
};

#[test]
fn alerts_are_counted_by_kind() {
    let open = vec![
        alert("1", AlertKind::Budget, None),
        alert("2", AlertKind::Balance, None),
        alert("3", AlertKind::Budget, None),
    ];
    assert_eq!(count_kind(&open, AlertKind::Budget), 2);
    assert_eq!(count_kind(&open, AlertKind::CostAnomaly), 0);
    let resolved = vec![
        alert("4", AlertKind::Budget, Some(on(9, 2))),
        alert("5", AlertKind::Budget, Some(on(8, 31))),
    ];
    let data = load_alerts(open, resolved, LABELS, on(9, 10));
    assert_eq!(data.open.len(), 3);
    assert_eq!(data.resolved_this_month.len(), 1);
    assert_eq!(data.filters[0].count, 3);
    let by_kind: usize = data.filters[1..].iter().map(|filter| filter.count).sum();
    assert_eq!(by_kind, 3);
    assert_eq!(resolved_label(&data.resolved_this_month[0]), "Sep 02");
}

#[test]
fn the_alerts_page_loads_and_fails() {
    let mut view = AlertsView::new();
    assert_eq!(view.body(), AlertsBody::Blank);
    assert!(view.ensure_loaded());
    assert!(!view.ensure_loaded());
    assert_eq!(view.body(), AlertsBody::Skeleton);
    view.loaded(Err(Error::new("no store")));
    assert_eq!(view.body(), AlertsBody::Failed);
    let open = vec![alert("1", AlertKind::Budget, None), alert("2", AlertKind::Balance, None)];
    view.loaded(Ok(load_alerts(open, vec![], LABELS, on(9, 10))));
    assert_eq!(view.body(), AlertsBody::Listed);
    assert_eq!(view.shown_alerts(LABELS), vec![0, 1]);
    view.select_filter("Balance".to_string());
    assert_eq!(view.shown_alerts(LABELS), vec![1]);
    assert!(view.begin_action());
    view.action_done(Err(Error::new("locked")), "snooze");
    assert_eq!(view.error.as_deref(), Some("Could not snooze the alert: locked"));
    let screen = view.screen(LABELS, true).unwrap();
    assert_eq!(screen.error.as_deref(), Some("Could not snooze the alert: locked"));
}

#[test]
fn an_action_is_what_its_label_says() {
    assert_eq!(action_of("Dismiss"), AlertAction::Dismiss);
    assert_eq!(action_of("Nonsense"), AlertAction::Nothing);
    let looks = action_looks(&vec!["A".to_string(), "B".to_string(), "C".to_string()]);
    assert_eq!(looks.len(), 3);
    assert!(looks.contains(&ActionLook::Primary));
}

fn read(multiplier: Option<f64>, floor: Option<f64>, threshold: Option<f64>) -> ReadInputs {
    ReadInputs {
        multiplier: multiplier.map(amount),
        floor: floor.map(amount),
        threshold: threshold.map(amount),
    }
}

#[test]
fn a_rule_needs_its_numbers() {
    let none = read(None, None, None);
    let fault = |kind, read, days| config_from_inputs(kind, read, days).unwrap_err();
    assert_eq!(
        fault(RuleKind::CostAnomaly, none, "2"),
        "The multiplier must be a number, e.g. 2.5"
    );
    assert_eq!(
        fault(RuleKind::CostAnomaly, read(Some(2.5), None, None), "two"),
        "Consecutive days must be a whole number, e.g. 2"
    );
    assert_eq!(fault(RuleKind::BalanceFloor, none, ""), "The floor must be a number, e.g. 200");
    assert_eq!(
        fault(RuleKind::UntaggedRatio, none, ""),
        "The threshold must be a number, e.g. 15"
    );
    assert_eq!(
        config_from_inputs(RuleKind::CostAnomaly, read(Some(2.5), None, None), " 2 ").unwrap(),
        RuleConfig::CostAnomaly { multiplier: amount(2.5), consecutive_days: 2 }
    );
    assert_eq!(
        config_from_inputs(RuleKind::BalanceFloor, read(None, Some(200.0), None), "").unwrap(),
        RuleConfig::BalanceFloor { floor: amount(200.0) }
    );
    assert_eq!(
        config_from_inputs(RuleKind::UntaggedRatio, read(None, None, Some(0.15)), "").unwrap(),
        RuleConfig::UntaggedRatio { threshold: amount(0.15) }
    );
}

fn rule_view(id: &str) -> RuleView {
    RuleView {
        id: id.to_string(),
        name: "Spike".to_string(),
        scope: String::new(),
        description: String::new(),
        condition_chips: vec![],
        delivery_chips: vec![],
        enabled: true,
        last_fired_at: None,
    }
}

#[test]
fn the_rules_page_ignores_an_old_load() {
    let mut view = RulesView::new();
    let first = view.load();
    let second = view.load();
    view.loaded(first, Ok(load_rules(vec![rule_view("a"), rule_view("b")])));
    assert!(view.data.is_none());
    view.loaded(second, Ok(load_rules(vec![rule_view("custom-a")])));
    assert_eq!(view.data.as_ref().unwrap().rules.len(), 1);
    assert_eq!(view.body(), RulesBody::Listed);
    view.set_enabled("custom-a", false);
    assert!(!view.data.as_ref().unwrap().rules[0].enabled);
    assert!(is_custom(&view.data.as_ref().unwrap().rules[0], "custom-"));

    view.ask_delete("custom-a".to_string());
    assert_eq!(
        view.delete_question().as_deref(),
        Some("Delete \"Spike\"? Its past alerts stay; the rule stops running.")
    );
    assert_eq!(view.confirm_delete().as_deref(), Some("custom-a"));
    assert!(view.deleting && view.pending_delete.is_none());
    assert_eq!(view.confirm_delete(), None);
    view.rule_deleted(Err(Error::new("locked")));
    assert!(!view.deleting);
}

#[test]
fn a_new_rule_is_submitted_from_its_dialog() {
    let mut view = RulesView::new();
    view.open_new_dialog();
    view.set_kind(RuleKind::BalanceFloor);
    view.inputs = RuleInputs::of_kind(RuleKind::BalanceFloor);
    view.inputs.name = "  Low balance ".to_string();
    assert!(view.submit_new_rule(read(None, None, None)).is_none());
    assert_eq!(view.dialog_error.as_deref(), Some("The floor must be a number, e.g. 200"));
    let rule = view.submit_new_rule(read(None, Some(5.0), None)).unwrap();
    assert_eq!((rule.name.as_str(), rule.kind), ("Low balance", RuleKind::BalanceFloor));
    assert!(view.creating && view.dialog_error.is_none());
    assert_eq!(view.rule_created(Err(Error::new("full"))), None);
    assert_eq!(view.dialog_error.as_deref(), Some("full"));
    assert!(view.rule_created(Ok(())).is_some());
    assert!(!view.show_new_dialog);
    assert_eq!(last_fired_label(None, on(9, 1)), "Never fired");
}

// ==================== Query ====================

#[test]
fn a_query_runs_once_at_a_time() {
    let mut view = QueryView::new();
    assert!(view.editor.starts_with("-- \u{2318}Enter runs the query."));
    assert!(view.editor.ends_with("ORDER BY billing_period DESC\nLIMIT 12"));
    view.editor = "  \n ".to_string();
    assert_eq!(view.run(), None);
    view.editor = "SELECT 1".to_string();
    let first = view.run().unwrap();
    view.editor = "SELECT 2".to_string();
    assert_eq!(view.run(), None);
    view.ran(first + 1, Err("stale".to_string()));
    assert!(view.running);
    view.ran(first, run_adhoc_query("SELECT 1".to_string()));
    assert!(!view.running);
    assert!(matches!(view.status, QueryStatus::Failed(_)));
}

#[test]
fn a_result_has_a_leading_index() {
    let result = QueryResultData {
        columns: vec!["day".to_string(), "spend".to_string()],
        numeric: vec![false, true],
        rows: vec![vec![Some("2026-09-01".to_string()), None]],
        truncated: false,
        elapsed_ms: 3,
    };
    let columns = result_columns(&result);
    assert_eq!(columns.len(), 3);
    assert_eq!(columns[0].name, "#");
    assert!(columns[2].right_aligned && !columns[1].right_aligned);
    assert_eq!(result_cell(&result, 0, 0).text, "1");
    assert_eq!(result_cell(&result, 0, 1).text, "2026-09-01");
    assert!(result_cell(&result, 0, 2).muted);
}

#[test]
fn a_modified_enter_leaves_no_newline() {
    assert_eq!(secondary_enter_newline(""), None);
    assert_eq!(secondary_enter_newline("SELECT 1"), None);
    assert_eq!(secondary_enter_newline("SELECT 1  "), None);
    assert_eq!(secondary_enter_newline("SELECT 1\n"), Some(1));
    assert_eq!(secondary_enter_newline("  SELECT 1\n \t"), Some(3));
}

// ==================== Settings ====================

fn settings() -> Settings {
    Settings {
        theme_name: None,
        dark_mode: false,
        reporting_currency: "USD".to_string(),
        refresh_interval_hours: 6,
    }
}

#[test]
fn a_save_asked_for_during_a_save_follows_it() {
    let mut view = SettingsView::new(settings());
    assert!(view.save_config());
    assert!(!view.save_config());
    assert!(view.save_pending);
    assert!(view.config_saved(Ok(())));
    assert!(!view.save_pending);
    let failed = view.config_saved(Err(Error::new("disk full")));
    assert!(!failed);
    assert!(matches!(view.save_status, Some(StatusMessage::Failure(_))));
}

#[test]
fn a_failed_currency_switch_is_undone() {
    let mut view = SettingsView::new(settings());
    let previous = view.set_reporting_currency("EUR").unwrap();
    assert_eq!(view.set_reporting_currency("GBP"), None);
    assert_eq!((previous.as_str(), view.config.reporting_currency.as_str()), ("USD", "EUR"));
    let failure = Err(SwitchFailure::Switch(Error::new("no rate")));
    assert!(!view.currency_switched(failure, previous));
    assert_eq!(view.config.reporting_currency, "USD");
}

#[test]
fn a_newer_status_outlives_an_old_fade() {
    let mut view = SettingsView::new(settings());
    assert!(view.set_demo_data());
    assert!(!view.set_demo_data());
    assert!(view.demo_done(Ok("Loaded".to_string())));
    let generation = view.status_generation;
    view.fade_status(generation - 1);
    assert!(view.save_status.is_some());
    view.fade_status(generation);
    assert!(view.save_status.is_none());
}

#[test]
fn the_settings_screen_marks_what_is_chosen() {
    let view = SettingsView::new(settings());
    let themes = vec!["CloudBridge Dark".to_string(), "CloudBridge Light".to_string()];
    let currencies = vec!["USD".to_string(), "EUR".to_string()];
    let screen = settings_screen(&view, &currencies, &vec![1, 6], &themes, "0.3.1");
    assert_eq!(screen.theme, Some(1));
    assert_eq!(screen.about[0], ("Version:", "0.3.1".to_string()));
    assert_eq!(screen.about[1], ("Built with:", "GPUI + Rust".to_string()));
    let bare = settings_screen(&view, &currencies, &vec![1, 6], &vec![], "0.3.1");
    assert_eq!(bare.theme, None);
    let chosen: Vec<bool> = screen.currencies.iter().map(|one| one.selected).collect();
    assert_eq!(chosen, vec![true, false]);
    let chosen: Vec<bool> = screen.intervals.iter().map(|one| one.selected).collect();
    assert_eq!(chosen, vec![false, true]);
    assert_eq!(current_theme(&view.config), LIGHT_THEME_NAME);
    let dark = Settings { dark_mode: true, ..settings() };
    assert_eq!(current_theme(&dark), DARK_THEME_NAME);
    let picked = Settings { theme_name: Some("Day".to_string()), ..settings() };
    assert_eq!(current_theme(&picked), "Day");
    assert!(!theme_title("Day", false).is_empty());
}
