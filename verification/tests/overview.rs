//! The overview, attribution, account and dashboard pages.
use cloudbridge::alerts::{AlertKind, AlertView, Severity};
use cloudbridge::amount::Amount;
use cloudbridge::calendar::{Date, Timestamp};
use cloudbridge::error::Error;
use cloudbridge::memory::{Store, UNALLOCATED};
use cloudbridge::model::{
    CloudAccount, DataQualityIssue, DataQualityKind, IssueSeverity, ServiceTagUsage, SourceId,
    TopResource, UntaggedServiceUsage,
};
use cloudbridge::ui::account_detail::{AccountDetailView, DetailBody};
use cloudbridge::ui::attribution::{
    column_count, column_flows, dominant_line, line_shades, merge_buckets, rank_buckets,
    rank_resources, settle_column, settle_lines, AttributionBody, AttributionView, BreakdownMode,
    DrillDim, LineShade,
};
use cloudbridge::ui::breakdown::drill_rows;
use cloudbridge::ui::dashboard::{
    accounts_to_refresh, stat_cards, trend_stats, trend_window, AccountReport, DailyCost,
    DashboardBody, DashboardReport, DashboardView, TrendBody,
};
use cloudbridge::ui::data::attribution::{
    load_attribution, sankey, sankey_plan, unallocated_amount, unallocated_card, SankeyData,
    Throughput,
};
use cloudbridge::ui::data::detail::{
    detail_account, load_account_detail, prior_services, rank_detail, DetailFigures, DetailTotals,
};
use cloudbridge::ui::data::flows::{service_flows, source_flows, MergedTotals};
use cloudbridge::ui::data::overview::{mover_rows, movers, prior_amounts, Drive};
use cloudbridge::ui::data::page::{
    business_lines, load_overview, overview_stats, same_day_usage, OverviewFigures, OverviewParts,
};
use cloudbridge::ui::data::quality::{
    dismiss_quality_issues, dismissed_quality_keys, load_data_quality,
};
use cloudbridge::ui::data::range::Range;
use cloudbridge::ui::data::series::{ChartPoint, SpendChart};
use cloudbridge::ui::overview::{
    change_cell, is_empty, line_tone, stat_cards as overview_cards, LineTone, OverviewBody,
    OverviewView,
};

fn amount(value: f64) -> Amount {
    Amount { bits: value.to_bits() }
}

fn number(amount: Amount) -> f64 {
    f64::from_bits(amount.bits)
}

fn sum(terms: &[Amount]) -> Amount {
    amount(terms.iter().map(|term| number(*term)).sum())
}

fn on(month: u32, day: u32) -> Timestamp {
    Date { year: 2026, month, day }.midnight()
}

fn named(name: &str, value: f64) -> (String, Amount) {
    (name.to_string(), amount(value))
}

fn used(provider: &str, service: &str, value: f64) -> (String, String, Amount) {
    (provider.to_string(), service.to_string(), amount(value))
}

// ==================== Overview ====================

#[test]
fn a_month_is_compared_over_the_same_days() {
    let rows = vec![
        named("2026-08-01", 1.0),
        named("2026-08-10", 2.0),
        named("2026-08-11", 4.0),
        named("2026-09-01", 8.0),
    ];
    assert_eq!(same_day_usage(&rows, "2026-08", 10), vec![amount(1.0), amount(2.0)]);
}

#[test]
fn movers_with_a_base_come_before_new_ones() {
    let current = vec![
        used("AWS", "New", 90.0),
        used("AWS", "Down", 5.0),
        used("AWS", "Up", 12.0),
        used("AWS", "Newer", 95.0),
        used("AWS", "Flat", 10.0),
        used("AWS", "Newest", 99.0),
    ];
    let previous = vec![
        used("AWS", "Up", 10.0),
        used("AWS", "Down", 10.0),
        used("AWS", "Flat", 10.0),
        used("AWS", "New", 0.001),
    ];
    let pcts: Vec<Amount> = prior_amounts(&current, &previous)
        .iter()
        .zip(&current)
        .map(|(prior, row)| amount((number(row.2) - number(*prior)) / number(*prior) * 100.0))
        .collect();
    let ranked = movers(&current, &previous, &pcts);
    let names: Vec<&str> = ranked.iter().map(|mover| mover.service.as_str()).collect();
    assert_eq!(names, vec!["Down", "Up", "Flat", "Newest", "Newer"]);
    assert_eq!(ranked[0].change_pct, Some(amount(-50.0)));
    assert_eq!(ranked[3].change_pct, None);
    let drive = Drive {
        provider: "AWS".to_string(),
        service: "Up".to_string(),
        line: "payments".to_string(),
    };
    let rows = mover_rows(&ranked, &vec![drive]);
    assert_eq!((rows[0].drives.as_str(), rows[1].drives.as_str()), (UNALLOCATED, "payments"));
}

fn alert(severity: Severity) -> AlertView {
    AlertView {
        id: "1".to_string(),
        kind: AlertKind::Budget,
        severity,
        title: String::new(),
        body: String::new(),
        stat: None,
        fields: vec![],
        actions: vec![],
        context: "{}".to_string(),
        created_at: on(9, 1),
        resolved_at: None,
    }
}

fn parts(spend: f64, points: usize) -> OverviewParts {
    let breakdown = vec![named("payments", 6.0), named(UNALLOCATED, 4.0)];
    let figures = OverviewFigures {
        spend: amount(spend),
        usage: amount(10.0),
        credits: amount(-1.0),
        prior_usage: amount(8.0),
        change: amount(25.0),
        unallocated: amount(40.0),
    };
    let open = vec![alert(Severity::Critical), alert(Severity::Warning), alert(Severity::Warning)];
    let point = |i: usize| ChartPoint { label: i.to_string(), amount: amount(1.0) };
    OverviewParts {
        currency: "USD".to_string(),
        stats: overview_stats(figures, &breakdown, &open),
        card2_value: amount(30.0),
        forecast_band: None,
        chart_benchmark: None,
        data_quality: vec![],
        chart: SpendChart { actual: (0..points).map(point).collect(), baseline: vec![] },
        business_lines: if points == 0 { vec![] } else { business_lines(&breakdown) },
        movers: vec![],
        month_over_month: None,
    }
}

#[test]
fn the_overview_says_which_window_it_shows() {
    let data = load_overview(Range::Mtd, on(9, 15), parts(9.0, 2));
    assert_eq!(data.spend_label, "MONTH TO DATE");
    assert_eq!(data.change_caption, "vs same day last month");
    assert_eq!(data.card2_label, "MONTH-END FORECAST");
    assert_eq!(data.stats.change_pct, Some(amount(25.0)));
    assert_eq!(data.stats.unallocated_amount, amount(4.0));
    assert_eq!(
        (data.stats.open_alerts, data.stats.critical_alerts, data.stats.warning_alerts),
        (3, 1, 2)
    );
    assert!(!is_empty(&data));
    let cards = overview_cards(&data);
    assert_eq!(cards.spend.value, "$9.00");
    let data = load_overview(Range::Days30, on(9, 15), parts(0.0, 0));
    assert_eq!((data.spend_label, data.card2_label), ("LAST 30 DAYS", "DAILY AVERAGE"));
    assert!(is_empty(&data));
    let data = load_overview(Range::Months12, on(9, 15), parts(0.0, 1));
    assert_eq!((data.movers_delta_header, data.card2_label), ("VS PRIOR 12M", "MONTHLY AVERAGE"));
}

#[test]
fn the_overview_ignores_an_old_load() {
    let mut view = OverviewView::new(on(9, 15));
    let first = view.load();
    let second = view.select_range(Range::Days30).unwrap();
    assert_eq!(view.select_range(Range::Days30), None);
    view.loaded(first, Ok(load_overview(Range::Mtd, on(9, 15), parts(9.0, 2))));
    assert!(view.data.is_none());
    view.loaded(second, Ok(load_overview(Range::Days30, on(9, 15), parts(9.0, 2))));
    assert_eq!(view.body(), OverviewBody::Cards);
    let again = view.refresh().unwrap();
    assert_eq!(view.refresh(), None);
    view.refreshed(again, Err(Error::new("no store")), &vec![]);
    assert_eq!(view.error.as_deref(), Some("Refresh failed: no store"));
    assert!(view.data.is_some() && !view.refreshing);
    let again = view.refresh().unwrap();
    let data = load_overview(Range::Days30, on(9, 15), parts(9.0, 2));
    view.refreshed(again, Ok(data), &vec!["A: x".to_string(), "B: y".to_string()]);
    assert_eq!(view.error.as_deref(), Some("Some sources failed: A: x; B: y"));
    assert!(view.hover(Some(1)));
    assert!(!view.hover(Some(1)));
}

#[test]
fn a_change_is_coloured_by_its_sign() {
    assert!(change_cell(Some(amount(12.3))).rising);
    assert!(!change_cell(Some(amount(-12.3))).rising);
    assert!(!change_cell(None).rising);
    assert_eq!(line_tone(UNALLOCATED, 0), LineTone::Grey);
    assert_eq!(line_tone("payments", 0), LineTone::Accent);
}

#[test]
fn a_dismissed_finding_stays_away() {
    let mut store = Store::new("USD");
    let issue = || DataQualityIssue {
        kind: DataQualityKind::MissingRegion,
        severity: IssueSeverity::Info,
        message: "no region".to_string(),
        affected_amount: None,
        affected_count: 1,
    };
    let rows = load_data_quality("2026-09", Ok(vec![issue()]), &dismissed_quality_keys(&store));
    assert_eq!(rows.len(), 1);
    dismiss_quality_issues(&mut store, &vec![rows[0].key.clone()]).unwrap();
    let dismissed = dismissed_quality_keys(&store);
    assert!(load_data_quality("2026-09", Ok(vec![issue()]), &dismissed).is_empty());
    assert_eq!(load_data_quality("2026-10", Ok(vec![issue()]), &dismissed).len(), 1);
    assert!(load_data_quality("2026-09", Err(Error::new("no store")), &dismissed).is_empty());
}

// ==================== Attribution ====================

fn tag(provider: &str, service: &str, line: &str, value: f64) -> ServiceTagUsage {
    ServiceTagUsage {
        provider: provider.to_string(),
        service: service.to_string(),
        tag_value: line.to_string(),
        amount: amount(value),
    }
}

/// Seven services of one source and one of another, each wholly on one line.
fn diagram() -> SankeyData {
    let mut services: Vec<(String, String, Amount)> =
        (1..=7).map(|i| used("AWS", &format!("S{i}"), 10.0 * f64::from(i))).collect();
    services.push(used("Nowhere", "X", 5.0));
    let mut tags: Vec<ServiceTagUsage> = (1..=7)
        .map(|i| {
            let line = if i % 2 == 0 { "payments" } else { UNALLOCATED };
            tag("AWS", &format!("S{i}"), line, 10.0 * f64::from(i))
        })
        .collect();
    tags.push(tag("Nowhere", "X", "payments", 5.0));
    let sources = source_flows(&services, &tags);
    let merged: Vec<MergedTotals> = sources
        .iter()
        .map(|source| MergedTotals {
            amount: sum(&source.merged),
            lines: source
                .merged_lines
                .iter()
                .map(|(line, terms)| (line.clone(), sum(terms)))
                .collect(),
        })
        .collect();
    let plan = sankey_plan(&service_flows(sources, &merged));
    let through = |flows: &[Throughput]| flows.iter().map(|flow| sum(&flow.terms)).collect();
    let (by_source, by_line): (Vec<Amount>, Vec<Amount>) =
        (through(&plan.sources), through(&plan.lines));
    sankey(plan, &by_source, &by_line)
}

#[test]
fn every_column_carries_the_same_usage() {
    let data = diagram();
    assert_eq!(column_count(&data), 3);
    for column in 0..3 {
        let total: f64 = data
            .nodes
            .iter()
            .filter(|node| node.column == column)
            .map(|node| number(node.value))
            .sum();
        assert_eq!(total, 285.0, "column {column}");
    }
    for link in &data.links {
        assert!(data.nodes.iter().any(|node| node.id == link.from));
        assert!(data.nodes.iter().any(|node| node.id == link.to));
    }
    let labels: Vec<&str> = data
        .nodes
        .iter()
        .filter(|node| node.column == 1)
        .map(|node| node.label.as_str())
        .collect();
    assert_eq!(labels, vec!["S7", "S6", "S5", "S4", "S3", "Other", "X"]);
    let sources: Vec<&str> = data
        .nodes
        .iter()
        .filter(|node| node.column == 0)
        .map(|node| node.label.as_str())
        .collect();
    assert_eq!(sources.len(), 2);
    assert_eq!(sources[1], "Nowhere");
}

#[test]
fn a_source_keeps_six_services_and_columns_fall() {
    let data = diagram();
    let of_source = data.nodes.iter().filter(|node| node.id.starts_with("svc-AWS-"));
    assert_eq!(of_source.count(), 6);
    for column in 0..3 {
        let values: Vec<f64> = data
            .nodes
            .iter()
            .filter(|node| node.column == column)
            .map(|node| number(node.value))
            .collect();
        assert!(values.windows(2).all(|pair| pair[0] >= pair[1]), "column {column}");
    }
    let plan = sankey_plan(&service_flows(source_flows(&vec![], &vec![]), &vec![]));
    let none = sankey(plan, &vec![], &vec![]);
    assert!(none.nodes.is_empty() && none.links.is_empty());
}

#[test]
fn a_node_follows_the_line_most_of_it_reaches() {
    let data = diagram();
    let mut dominant = settle_lines(&data);
    for column in [1, 0] {
        let flows = column_flows(&data, column, &dominant);
        let totals: Vec<Vec<Amount>> = flows
            .iter()
            .map(|node| node.lines.iter().map(|line| sum(&line.terms)).collect())
            .collect();
        settle_column(&mut dominant, &flows, &totals);
    }
    let line_of = |id: &str| dominant_line(&dominant, id);
    assert_eq!(line_of("svc-AWS-S6").as_deref(), Some("line-payments"));
    assert_eq!(line_of("svc-AWS-S7").as_deref(), Some("line-Unallocated"));
    assert_eq!(line_of("svc-AWS-Other").as_deref(), Some("line-payments"));
    assert_eq!(line_of("src-AWS").as_deref(), Some("line-Unallocated"));
    assert_eq!(line_of("nothing"), None);
    let shades = line_shades(&data);
    let shade = |id: &str| shades.iter().find(|(line, _)| line == id).map(|(_, shade)| *shade);
    assert_eq!(shade("line-Unallocated"), Some(LineShade::Grey));
    assert_eq!(shade("line-payments"), Some(LineShade::Shade(0)));
}

#[test]
fn the_unallocated_card_lists_the_three_largest() {
    let breakdown = vec![named("payments", 6.0), named(UNALLOCATED, 4.0)];
    assert_eq!(unallocated_amount(&breakdown), amount(4.0));
    assert_eq!(unallocated_amount(&vec![named("payments", 6.0)]), amount(0.0));
    let usage = |service: &str, value: f64| UntaggedServiceUsage {
        provider: "AWS".to_string(),
        service: Some(service.to_string()),
        amount: amount(value),
    };
    let untagged = vec![usage("a", 1.0), usage("b", 3.0), usage("c", 2.0), usage("d", 0.5)];
    let card = unallocated_card(&breakdown, amount(10.0), amount(40.0), untagged);
    let names: Vec<&str> =
        card.largest.iter().map(|item| item.service.as_deref().unwrap()).collect();
    assert_eq!(names, vec!["b", "c", "a"]);
    assert_eq!((card.amount, card.pct), (amount(4.0), amount(40.0)));
    let nothing = unallocated_card(&vec![], amount(0.0), amount(f64::NAN), vec![]);
    assert_eq!(nothing.pct, amount(0.0));
    let data = load_attribution("USD".to_string(), diagram(), card);
    let path: Vec<&str> = data.path.iter().map(|step| step.label.as_str()).collect();
    assert_eq!(path, vec!["Source", "Service", "Business line"]);
}

#[test]
fn accounts_are_merged_bucket_by_bucket() {
    let mut merged: Vec<Throughput> = Vec::new();
    merge_buckets(&mut merged, &vec![named("EC2", 1.0), named("S3", 2.0)]);
    merge_buckets(&mut merged, &vec![named("S3", 4.0), named("RDS", 8.0)]);
    let totals = merged.into_iter().map(|one| (one.id, sum(&one.terms))).collect();
    assert_eq!(rank_buckets(totals), vec![named("RDS", 8.0), named("S3", 6.0), named("EC2", 1.0)]);
    let resource = |id: usize| TopResource {
        resource_id: id.to_string(),
        resource_name: None,
        service: "EC2".to_string(),
        amount: amount(id as f64),
    };
    let ranked = rank_resources((0..12).map(resource).collect());
    assert_eq!(ranked.len(), 10);
    assert_eq!(ranked[0].resource_id, "11");
}

#[test]
fn the_attribution_page_ignores_an_old_load() {
    let mut view = AttributionView::new();
    let first = view.ensure_loaded().unwrap();
    assert_eq!(view.ensure_loaded(), None);
    assert_eq!(view.body(), AttributionBody::Loading);
    view.loaded(first + 1, Err(Error::new("stale")));
    assert!(view.error.is_none());
    let second = view.load();
    view.loaded(second, Err(Error::new("no store")));
    assert_eq!(view.body(), AttributionBody::Failed);
    view.select_dim(DrillDim::Region);
    view.select_mode(BreakdownMode::Table);
    assert_eq!((view.dim, view.breakdown_mode), (DrillDim::Region, BreakdownMode::Table));
}

#[test]
fn a_breakdown_shares_out_its_total() {
    let buckets = vec![named("EC2", 3.0), named("Other", 1.0)];
    let shares = vec![amount(0.75), amount(0.25)];
    let (rows, other) = drill_rows(&buckets, amount(4.0), &shares, "USD");
    assert!(other);
    assert_eq!((rows[0].amount.as_str(), rows[0].share), ("$3.00", amount(0.75)));
    assert!(rows[1].muted && !rows[0].muted);
    let (rows, other) =
        drill_rows(&vec![named("EC2", 0.0)], amount(0.0), &vec![amount(f64::NAN)], "USD");
    assert!(!other);
    assert_eq!(rows[0].share, amount(0.0));
}

// ==================== Account detail ====================

fn account(id: &str, enabled: bool) -> CloudAccount {
    CloudAccount {
        id: id.to_string(),
        name: "Main".to_string(),
        source_id: SourceId::of("AWS"),
        region: None,
        created_at: on(1, 1),
        last_synced_at: None,
        enabled,
        access_key_hint: None,
        export_uri: None,
    }
}

#[test]
fn a_detail_page_is_of_a_known_account() {
    let mut store = Store::new("USD");
    store.accounts.push(account("a", true));
    assert_eq!(detail_account(&store, "a").unwrap().id, "a");
    assert_eq!(detail_account(&store, "b").unwrap_err().message, "No account b");
    let current = vec![named("EC2", 8.0), named("S3", 2.0)];
    let previous = vec![named("EC2", 4.0)];
    assert_eq!(prior_services(&current, &previous), vec![amount(4.0), amount(0.0)]);
    let ranked = rank_detail(
        DetailTotals {
            usage: amount(10.0),
            credits: amount(-1.0),
            prior: vec![],
            before: vec![],
            services: vec![named("S3", 2.0), named("EC2", 8.0), named("RDS", 0.0)],
            services_before: previous,
            series: vec![named("2026-09-15", 10.0)],
        },
        Range::Days30,
        on(9, 15),
    );
    assert_eq!(ranked.services, current);
    assert_eq!(ranked.priors, vec![amount(4.0), amount(0.0)]);
    let figures = DetailFigures {
        spend: amount(9.0),
        prior: amount(0.0),
        change: amount(f64::INFINITY),
        shares: vec![amount(0.8), amount(0.2)],
        pcts: vec![amount(100.0), amount(f64::INFINITY)],
    };
    let data = load_account_detail(
        &account("a", true),
        &ranked,
        figures,
        "USD".to_string(),
        Range::Days30,
        on(9, 15),
    );
    let rows = &data.services;
    assert_eq!((rows[0].share, rows[0].change_pct), (amount(0.8), Some(amount(100.0))));
    assert_eq!(rows[1].change_pct, None);
    assert_eq!(data.chart.actual.len(), 30);
    assert_eq!(data.chart.actual[29].amount, amount(10.0));
    assert!(data.chart.baseline.is_empty());
    assert_eq!(data.change_pct, None);
    assert_eq!(data.change_caption, "vs prior 30 days");
    assert!(!data.is_snapshot);
}

#[test]
fn the_detail_page_ignores_an_old_load() {
    let mut view = AccountDetailView::new();
    assert_eq!(view.body(), DetailBody::NoAccount);
    assert_eq!(view.reload(), None);
    let first = view.show("a".to_string());
    assert_eq!(view.body(), DetailBody::Loading);
    let second = view.select_range(Range::Months12).unwrap();
    view.loaded(first, Err(Error::new("stale")));
    assert!(view.error.is_none());
    view.loaded(second, Err(Error::new("gone")));
    assert_eq!(view.error.as_deref(), Some("Could not load the account: gone"));
}

// ==================== Dashboard ====================

fn report(accounts: Vec<AccountReport>) -> DashboardReport {
    DashboardReport {
        reporting_currency: "USD".to_string(),
        current_month: amount(12.345),
        last_month: amount(10.0),
        month_over_month_change: amount(23.45),
        unconverted_charges: 2,
        accounts,
    }
}

fn account_report(id: &str, snapshot: bool) -> AccountReport {
    AccountReport {
        account_id: id.to_string(),
        account_name: id.to_uppercase(),
        short_name: "AWS".to_string(),
        snapshot,
        currency: "USD".to_string(),
        amount: amount(5.0),
        month_over_month_change: None,
        services: vec![],
    }
}

#[test]
fn the_dashboard_shares_out_its_accounts() {
    let mut view = DashboardView::new();
    view.refresh();
    assert_eq!(view.body(), DashboardBody::Loading);
    view.loaded(Err("Failed to read the ledger: x".to_string()));
    assert_eq!(view.body(), DashboardBody::Failed);
    view.force_refresh();
    view.loaded(Ok(report(vec![account_report("a", false), account_report("b", true)])));
    assert_eq!(view.body(), DashboardBody::Summary);
    let symbols = vec!["$".to_string(), "$".to_string()];
    let cards = view.summary("$", &symbols).unwrap();
    assert_eq!((cards.cost.len(), cards.balance.len()), (1, 1));
    assert_eq!(
        cards.unconverted.as_deref(),
        Some("2 charge(s) are not included: no exchange rate to USD")
    );
    let stats = stat_cards(view.report.as_ref().unwrap(), "$");
    let values: Vec<&str> = stats.iter().map(|card| card.value.as_str()).collect();
    assert_eq!(values, vec!["$12.35", "$10.00", "+23.4%", "2"]);
}

#[test]
fn an_expanded_card_shows_its_services_and_trend() {
    let mut view = DashboardView::new();
    let mut account = account_report("a", false);
    account.services = vec![named("EC2", 4.0), named("S3", 1.0)];
    assert!(view.account_card(&account, "$").details.is_none());
    assert!(view.toggle_account_expand("a"));
    let card = view.account_card(&account, "$");
    assert_eq!((card.marker, card.expanded), ("\u{25bc}", true));
    let details = card.details.unwrap();
    assert_eq!(details.services_title, "Service Cost Breakdown (This Month)");
    assert_eq!(details.services, account.services);
    assert_eq!((details.trend_title, details.trend), ("Cost Trend", TrendBody::Loading));
}

#[test]
fn a_trend_is_read_once() {
    let mut view = DashboardView::new();
    view.loaded(Ok(report(vec![account_report("a", false)])));
    assert!(view.toggle_account_expand("a"));
    assert_eq!(view.trend_chart("a"), TrendBody::Loading);
    let day = |value: f64| DailyCost { day: "2026-09-01".to_string(), amount: amount(value) };
    view.trend_loaded("a".to_string(), Some(vec![day(3.0), day(1.0), day(2.0)]));
    assert_eq!(view.trend_chart("a"), TrendBody::Chart(0));
    assert!(!view.toggle_account_expand("a"));
    assert!(!view.toggle_account_expand("a"));
    let stats = trend_stats(&view.cost_trends[0].days, amount(6.0), amount(2.0));
    assert_eq!((stats.max, stats.min), (amount(3.0), amount(1.0)));
    assert_eq!(trend_window(&account("a", true), Some(30)), Ok(30));
    assert!(trend_window(&account("a", true), None).is_err());
    let refreshed = accounts_to_refresh(&vec![account("a", true), account("b", false)]);
    assert_eq!(refreshed.len(), 1);
}
