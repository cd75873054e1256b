//! What the pages write.
use cloudbridge::amount::Amount;
use cloudbridge::calendar::{Date, Timestamp};
use cloudbridge::cloud;
use cloudbridge::error::Error;
use cloudbridge::model::{
    BreakdownDim, CloudAccount, DataQualityIssue, DataQualityKind, IssueSeverity,
    PeriodOverPeriod, SourceId, TopResource,
};
use cloudbridge::ui::account_detail::{
    self, detail_stats, header_caption, health_note, load_health, services_card,
    AccountDrilldown,
};
use cloudbridge::ui::accounts::{picker_message, AccountsView};
use cloudbridge::ui::alerts::severity_label;
use cloudbridge::ui::attribution::{
    resource_label, unallocated_title, BreakdownMode, DrillDim, DrilldownData,
};
use cloudbridge::ui::breakdown::{resource_rows, resources_note, unallocated_cells};
use cloudbridge::ui::dashboard::empty_prompt;
use cloudbridge::ui::data::attribution::{UnallocatedCardData, UnallocatedItem};
use cloudbridge::ui::data::change::{
    compared_services, month_over_month, CategoryDeltaRow, ChangeDecomposition, MovementBadge,
    ServiceMovementRow,
};
use cloudbridge::ui::data::detail::{
    load_account_detail, rank_detail, AccountDetailData, DetailFigures, DetailTotals,
};
use cloudbridge::ui::data::overview::MoverRow;
use cloudbridge::ui::data::page::{
    business_lines, load_overview, overview_stats, ForecastBand, OverviewData, OverviewFigures,
    OverviewParts,
};
use cloudbridge::ui::data::range::Range;
use cloudbridge::ui::data::series::{ChartPoint, SpendChart};
use cloudbridge::ui::data::starter::{query_templates, QueryResultData};
use cloudbridge::ui::overview::{
    bar_scale, delta_cell, failure_line, middle_cards, month_card, mover_cells, stat_cards, OverviewView,
};
use cloudbridge::ui::query::{template_groups, QueryView};
use cloudbridge::ui::rules::{RuleKind, RulesView};
use cloudbridge::ui::settings::{setting_sections, Settings, SettingsView};

fn amount(value: f64) -> Amount {
    Amount { bits: value.to_bits() }
}

fn on(day: u32) -> Timestamp {
    Date { year: 2026, month: 9, day }.midnight()
}

fn named(name: &str, value: f64) -> (String, Amount) {
    (name.to_string(), amount(value))
}

fn page(range: Range) -> OverviewData {
    let breakdown = vec![named("payments", 6.0), named("Unallocated", 4.0)];
    let figures = OverviewFigures {
        spend: amount(9.0),
        usage: amount(10.0),
        credits: amount(-1.0),
        prior_usage: amount(8.0),
        change: amount(25.0),
        unallocated: amount(40.0),
    };
    let point = |label: &str| ChartPoint { label: label.to_string(), amount: amount(1.0) };
    let parts = OverviewParts {
        currency: "USD".to_string(),
        stats: overview_stats(figures, &breakdown, &vec![]),
        card2_value: amount(30.0),
        forecast_band: Some(ForecastBand {
            pessimistic: amount(35.0),
            optimistic: amount(25.0),
        }),
        chart_benchmark: Some(amount(1.0)),
        data_quality: vec![],
        chart: SpendChart {
            actual: vec![point("2026-09-01"), point("2026-09-02")],
            baseline: vec![point("2026-09-01"), point("2026-09-02")],
        },
        business_lines: business_lines(&breakdown),
        movers: vec![],
        month_over_month: None,
    };
    load_overview(range, on(15), parts)
}

#[test]
fn the_headline_cards_read_in_full() {
    let cards = stat_cards(&page(Range::Mtd));
    assert_eq!(cards.spend.label, "MONTH TO DATE");
    assert_eq!(cards.spend.caption, "usage $10.00 \u{b7} credits -$1.00");
    assert!(cards.spend.aside.as_ref().unwrap().ends_with("vs same day last month"));
    assert_eq!(cards.outlook.caption, "range $35.00\u{2013}$25.00");
    assert_eq!(cards.unallocated.value, "40.0%");
    assert_eq!(cards.unallocated.caption, "$4.00 with no tag or metric match");
    assert_eq!(cards.alerts.value, "0");
    assert!(!cards.alerts_tinted);
    let cards = stat_cards(&page(Range::Days30));
    assert_eq!(cards.outlook.caption, "Mean daily usage over the last 30 days");
}

#[test]
fn the_chart_names_its_series() {
    let middle = middle_cards(&page(Range::Mtd));
    assert_eq!(middle.legend, vec!["Actual", "7-day baseline", "Typical day (6-mo avg)"]);
    assert!(middle.axis.is_none() && middle.caption.is_none());
    assert_eq!(middle.lines[1].amount, "$4.00");
    assert_eq!(middle.bar_scale, amount(6.0));
    let small = business_lines(&vec![named("payments", 0.25), named("ads", 0.5)]);
    assert_eq!(bar_scale(&small), amount(1.0));
    assert_eq!(bar_scale(&vec![]), amount(1.0));
    let odd = business_lines(&vec![named("payments", f64::NAN), named("ads", 3.0)]);
    assert_eq!(bar_scale(&odd), amount(3.0));
    let middle = middle_cards(&page(Range::Days30));
    assert_eq!(middle.legend, vec!["Actual", "7-day baseline"]);
    assert_eq!(
        middle.axis,
        Some(("2026-09-01".to_string(), "2026-09-02".to_string()))
    );
    let middle = middle_cards(&page(Range::Months12));
    assert_eq!(middle.caption, Some("One point per month of gross usage."));
}

#[test]
fn the_month_card_compares_and_explains() {
    let pop = PeriodOverPeriod {
        current_total: amount(22.0),
        previous_total: amount(114.0),
        current_by_service: vec![named("EC2", 22.0)],
        previous_by_service: vec![named("EC2", 114.0)],
    };
    let why = ChangeDecomposition {
        categories: vec![CategoryDeltaRow { category: "Usage".to_string(), delta: amount(-92.0) }],
        movements: vec![ServiceMovementRow {
            service: "EC2".to_string(),
            badge: MovementBadge::Shrunk,
            delta: amount(-92.0),
        }],
        residual: amount(0.0),
        reconciled: true,
    };
    let services = compared_services(&pop);
    let month = month_over_month(&pop, &services, &vec![amount(-80.7)], amount(-80.7), Some(why));
    let card = month_card(&month, "USD");
    assert_eq!(card.summary, "$22.00 so far vs $114 in all of last month");
    assert!(!card.change.as_ref().unwrap().rising);
    assert_eq!(card.services[0].previous, "$114");
    let why = card.why.unwrap();
    assert!(why.warning.is_none() && !why.movements[0].rising);
    assert!(delta_cell(amount(3.0), "USD").rising);
    let rows = mover_cells(
        &vec![MoverRow {
            provider: "AWS".to_string(),
            service: "EC2".to_string(),
            amount: amount(5.0),
            change_pct: None,
            drives: "Unallocated".to_string(),
        }],
        "USD",
    );
    assert_eq!((rows[0].amount.as_str(), rows[0].allocated), ("$5.00", false));
    assert_eq!(rows[0].change.text, "\u{2014}");
    assert_eq!(failure_line("Main", &Error::new("offline")), "Main: offline");
    let view = OverviewView::new(on(15));
    assert_eq!(view.header_caption("USD"), format!("{} \u{b7} reported in USD", Range::Mtd.header_caption(on(15))));
    assert!(!view.refresh_labels().0.is_empty());
}

fn account(source: &str) -> CloudAccount {
    CloudAccount {
        id: "a".to_string(),
        name: "Main".to_string(),
        source_id: SourceId::of(source),
        region: None,
        created_at: on(1),
        last_synced_at: None,
        enabled: true,
        access_key_hint: None,
        export_uri: None,
    }
}

fn detail(source: &str, services: Vec<(String, Amount)>) -> AccountDetailData {
    let totals = DetailTotals {
        usage: amount(4.0),
        credits: amount(-1.0),
        prior: vec![],
        before: vec![],
        services,
        services_before: vec![],
        series: vec![],
    };
    let ranked = rank_detail(totals, Range::Days30, on(15));
    let count = ranked.services.len();
    let figures = DetailFigures {
        spend: amount(3.0),
        prior: amount(0.0),
        change: amount(0.0),
        shares: vec![amount(1.0); count],
        pcts: vec![amount(0.0); count],
    };
    load_account_detail(&account(source), &ranked, figures, "USD".to_string(), Range::Days30, on(15))
}

#[test]
fn an_account_without_usage_says_where_it_comes_from() {
    let card = services_card(&detail("AWS", vec![]));
    assert_eq!(card.empty_note, Some("No usage in this window."));
    assert!(!card.offers_import);
    let card = services_card(&detail("DeepSeek", vec![]));
    assert!(card.offers_import);
    let full = detail("AWS", vec![named("EC2", 4.0)]);
    let card = services_card(&full);
    assert_eq!((card.change_header, card.rows[0].amount.as_str()), ("VS PRIOR 30D", "$4.00"));
    let stats = detail_stats(&full);
    assert_eq!(stats.spend, "$3.00");
    assert!(!header_caption(&full).is_empty());
    assert_eq!(health_note(), "All good \u{2014} no data-quality issues this period.");
}

#[test]
fn breakdowns_pair_this_month_with_the_last() {
    let data = DrilldownData {
        by_service: vec![named("EC2", 3.0), named("S3", 1.0)],
        by_region: vec![],
        by_category: vec![],
        prev_by_service: vec![named("EC2", 2.0)],
        prev_by_region: vec![],
        prev_by_category: vec![],
        top_resources: vec![],
    };
    let tiles = data.treemap_items(DrillDim::Service);
    assert_eq!((tiles[0].previous, tiles[1].previous), (amount(2.0), amount(0.0)));
    assert!(data.treemap_items(DrillDim::Tag).is_empty());
    let shares = vec![amount(0.75), amount(0.25)];
    let card = data.card(DrillDim::Service, BreakdownMode::Table, amount(4.0), &shares, "USD");
    assert_eq!(card.rows.len(), 2);
    assert_eq!(DrillDim::Region.dimension(), Some(BreakdownDim::Region));
    let own = AccountDrilldown { by_region: vec![named("Other", 1.0)], by_category: vec![] };
    let card = own.card(account_detail::DrillDim::Region, amount(1.0), &vec![amount(1.0)], "USD");
    assert!(card.footnote.is_some());
    assert_eq!(card.empty_note, None);
    let card = own.card(
        account_detail::DrillDim::ServiceCategory,
        amount(0.0),
        &vec![],
        "USD",
    );
    assert_eq!(card.empty_note, Some("No usage in this billing period."));
}

#[test]
fn unallocated_usage_and_resources_are_listed() {
    let item = UnallocatedItem {
        provider: "AWS".to_string(),
        service: Some("EC2".to_string()),
        description: None,
        amount: amount(4.0),
    };
    let card = UnallocatedCardData {
        amount: amount(4.0),
        pct: amount(40.0),
        largest: vec![item],
        action: "Write an allocation rule".to_string(),
    };
    let cells = unallocated_cells(&card, "USD");
    assert_eq!(cells.title, unallocated_title(&card, "USD"));
    assert_eq!(cells.rows[0].1, "$4.00");
    assert_eq!(cells.action, "Write an allocation rule");
    let resource = TopResource {
        resource_id: "i-1".to_string(),
        resource_name: Some("web".to_string()),
        service: "EC2".to_string(),
        amount: amount(2.0),
    };
    assert!(resource_label(&resource).contains("web"));
    let rows = resource_rows(&vec![resource], "USD");
    assert_eq!((rows[0].service.as_str(), rows[0].amount.as_str()), ("EC2", "$2.00"));
    assert!(!resources_note().is_empty());
}

#[test]
fn findings_are_listed_worst_first() {
    let issue = |kind, severity| DataQualityIssue {
        kind,
        severity,
        message: String::new(),
        affected_amount: None,
        affected_count: 1,
    };
    let issues = vec![
        issue(DataQualityKind::MissingRegion, IssueSeverity::Info),
        issue(DataQualityKind::UnconvertedCharges, IssueSeverity::Critical),
    ];
    let health = load_health("2026-09", &issues, &vec!["missing_region:2026-08".to_string()]);
    assert_eq!(health.issues[0].severity, IssueSeverity::Critical);
    assert_eq!(health.dismiss_keys.len(), 2);
    let health = load_health("2026-09", &issues, &vec!["missing_region:2026-09".to_string()]);
    assert_eq!(health.issues.len(), 1);
}

#[test]
fn dialogs_ask_for_what_their_kind_needs() {
    let mut view = AccountsView::new();
    assert!(view.add_dialog().is_none());
    view.request_add_dialog();
    view.open_requested();
    let dialog = view.add_dialog().unwrap();
    assert_eq!(dialog.choices.len(), cloud::all().len());
    assert_eq!(dialog.choices.iter().filter(|choice| choice.selected).count(), 1);
    view.fill_from_system();
    assert!(view.fill_status.is_some());
    view.hide_add_dialog();
    assert!(view.add_dialog().is_none());
    assert_eq!(picker_message("denied"), "Could not open the file picker: denied");
    assert!(empty_prompt().starts_with("No data available"));

    let mut rules = RulesView::new();
    assert!(rules.new_dialog().is_none());
    rules.open_new_dialog();
    rules.set_kind(RuleKind::UntaggedRatio);
    let dialog = rules.new_dialog().unwrap();
    assert_eq!((dialog.title, dialog.submit_label), ("New rule", "Create rule"));
    assert_eq!(dialog.parameters, vec!["Threshold (%)"]);
    rules.hide_new_dialog();
    assert!(rules.new_dialog().is_none());
    assert_ne!(
        severity_label(cloudbridge::alerts::Severity::Critical),
        severity_label(cloudbridge::alerts::Severity::Warning)
    );
}

#[test]
fn a_result_reports_its_size() {
    let mut view = QueryView::new();
    assert_eq!(view.status_line(), None);
    assert_eq!(view.pane_note().as_deref(), Some("Run a query or pick a template"));
    let result = |truncated| QueryResultData {
        columns: vec![],
        numeric: vec![],
        rows: vec![vec![], vec![]],
        truncated,
        elapsed_ms: 7,
    };
    let templates = query_templates();
    view.fill_from_template(&templates[0]);
    assert_eq!(view.editor, templates[0].sql);
    let generation = view.run().unwrap();
    assert_eq!(view.status_line(), Some(("Running\u{2026}".to_string(), false)));
    view.ran(generation, Ok(result(false)));
    assert_eq!(view.status_line(), Some(("2 rows \u{b7} 7 ms".to_string(), false)));
    let generation = view.run().unwrap();
    view.ran(generation, Ok(result(true)));
    let expected = "Showing first 2 rows \u{2014} result truncated \u{b7} 7 ms";
    assert_eq!(view.status_line(), Some((expected.to_string(), true)));
    let groups = template_groups(&templates);
    assert_eq!(groups.iter().map(|group| group.members.len()).sum::<usize>(), templates.len());
}

#[test]
fn a_setting_is_saved_as_it_changes() {
    let mut view = SettingsView::new(Settings {
        theme_name: None,
        dark_mode: false,
        reporting_currency: "USD".to_string(),
        refresh_interval_hours: 6,
    });
    assert!(!view.set_theme("Nowhere", None));
    assert_eq!(view.config.theme_name, None);
    assert!(view.set_theme("Night", Some(true)));
    assert_eq!((view.config.theme_name.as_deref(), view.config.dark_mode), (Some("Night"), true));
    assert!(!view.set_refresh_interval(12));
    assert_eq!(view.config.refresh_interval_hours, 12);
    assert!(view.save_pending);
    assert!(!setting_sections().is_empty());
}
