//! From stored charges to the pages.
use cloudbridge::amount::Amount;
use cloudbridge::calendar::{Date, Timestamp};
use cloudbridge::ledger::buckets::ServiceTerms;
use cloudbridge::ledger::{record_balance, replace_period};
use cloudbridge::memory::{normalized, NormalizedRow, Store, UNALLOCATED};
use cloudbridge::model::{
    BalanceSnapshot, Channel, Charge, ChargeCategory, CloudAccount, PeriodKey, PeriodOverPeriod,
    ServiceTagUsage, SourceId,
};
use cloudbridge::ui::account_detail;
use cloudbridge::ui::accounts::health::{period_findings, period_reads};
use cloudbridge::ui::attribution::{drill_reads, load_drilldown, DrillTallies, DrilldownData};
use cloudbridge::ui::data::accounts::{accounts_reads, load_accounts, raw_payloads, AccountFigures};
use cloudbridge::ui::data::attribution::attribution_reads;
use cloudbridge::ui::data::change::{compared_services, month_over_month};
use cloudbridge::ui::data::detail::{
    detail_reads, load_account_detail, rank_detail, DetailFigures, DetailTotals,
};
use cloudbridge::ui::data::month::{
    load_overview_mtd, month_reads, rank_month, MonthFigures, MonthTotals,
};
use cloudbridge::ui::data::overview::movers;
use cloudbridge::ui::data::range::Range;
use cloudbridge::ui::data::series::ChartPoint;
use cloudbridge::ui::data::window::{
    driven_rows, load_overview_window, mover_lines, rank_window, window_reads, WindowFigures,
    WindowTotals,
};

fn amount(value: f64) -> Amount {
    Amount { bits: value.to_bits() }
}

fn number(amount: Amount) -> f64 {
    f64::from_bits(amount.bits)
}

fn sum(terms: &[Amount]) -> Amount {
    amount(terms.iter().fold(0.0, |total, term| total + number(*term)))
}

fn totals(buckets: Vec<(String, Vec<Amount>)>) -> Vec<(String, Amount)> {
    buckets.into_iter().map(|(name, terms)| (name, sum(&terms))).collect()
}

fn services(terms: Vec<ServiceTerms>) -> Vec<(String, String, Amount)> {
    terms.into_iter().map(|one| (one.provider, one.service, sum(&one.terms))).collect()
}

fn on(month: u32, day: u32) -> Timestamp {
    Date { year: 2026, month, day }.midnight()
}

fn named(name: &str, value: f64) -> (String, Amount) {
    (name.to_string(), amount(value))
}

fn charge(service: &str, line: Option<&str>, month: u32, day: u32, cost: f64) -> Charge {
    let category = if cost < 0.0 { ChargeCategory::Credit } else { ChargeCategory::Usage };
    Charge {
        charge_description: None,
        service_name: Some(service.to_string()),
        service_category: Some("Compute".to_string()),
        region_id: Some("eu".to_string()),
        resource_id: Some(format!("{service}-1")),
        resource_name: None,
        pricing_unit: None,
        charge_category: category,
        tags: line.map(|line| format!("{{\"business_line\":\"{line}\"}}")),
        billing_currency: "USD".to_string(),
        charge_period_start: on(month, day),
        billed_cost: Some(amount(cost)),
        effective_cost: Some(amount(cost)),
    }
}

fn account() -> CloudAccount {
    CloudAccount {
        id: "a".to_string(),
        name: "Main".to_string(),
        source_id: SourceId::of("AWS"),
        region: None,
        created_at: on(1, 1),
        last_synced_at: None,
        enabled: true,
        access_key_hint: None,
        export_uri: None,
    }
}

/// Two months of one account: August up to the 20th, September up to the 10th.
fn store() -> Store {
    let mut store = Store::new("USD");
    store.accounts.push(account());
    let august = vec![
        charge("EC2", Some("pay"), 8, 5, 10.0),
        charge("S3", None, 8, 9, 4.0),
        charge("EC2", Some("pay"), 8, 20, 100.0),
    ];
    let september = vec![
        charge("EC2", Some("pay"), 9, 5, 20.0),
        charge("S3", None, 9, 9, 1.0),
        charge("EC2", None, 9, 10, 3.0),
        charge("EC2", None, 9, 10, -2.0),
    ];
    for (label, charges) in [("2026-08", august), ("2026-09", september)] {
        let key = PeriodKey::new("AWS".to_string(), "a".to_string(), label.to_string());
        replace_period(&mut store, &key, label, &charges, Channel::Api, on(9, 10)).unwrap();
    }
    store
}

fn rows(store: &Store) -> Vec<NormalizedRow> {
    let products = store
        .periods
        .iter()
        .map(|period| {
            period
                .charges
                .iter()
                .map(|one| (one.billed_cost.unwrap(), one.effective_cost.unwrap()))
                .collect()
        })
        .collect();
    normalized(store, &products)
}

#[test]
fn the_month_is_read_ranked_and_shown() {
    let rows = rows(&store());
    let now = on(9, 10).plus_hours(12);
    let asked = month_reads(&rows, now);
    assert_eq!((asked.period.as_str(), asked.previous.as_str()), ("2026-09", "2026-08"));
    assert_eq!(sum(&asked.spend), amount(22.0));
    assert_eq!(sum(&asked.usage), amount(24.0));
    assert_eq!(sum(&asked.credits), amount(-2.0));
    assert_eq!(asked.run_rate.first_charge, Some(Date { year: 2026, month: 9, day: 5 }));
    assert_eq!(asked.quality.untagged_count, 2);
    assert_eq!(totals(asked.compared.1), vec![named("EC2", 110.0), named("S3", 4.0)]);
    let tags = asked
        .tags
        .into_iter()
        .map(|one| ServiceTagUsage {
            provider: one.provider,
            service: one.service,
            tag_value: one.tag_value,
            amount: sum(&one.terms),
        })
        .collect();
    let ranked = rank_month(
        MonthTotals {
            spend: sum(&asked.spend),
            usage: sum(&asked.usage),
            credits: sum(&asked.credits),
            daily: totals(asked.daily),
            lines: totals(asked.lines),
            services: services(asked.services),
            services_before: services(asked.services_before),
            tags,
        },
        now,
    );
    assert_eq!(sum(&ranked.prior), amount(14.0));
    assert_eq!(ranked.lines, vec![named("pay", 20.0), named(UNALLOCATED, 4.0)]);
    assert_eq!(ranked.priors, vec![amount(110.0), amount(4.0)]);
    let days: Vec<u32> = ranked.days.iter().map(|day| day.day).collect();
    assert_eq!(days, vec![5, 9, 10]);

    let pop = PeriodOverPeriod {
        current_total: amount(22.0),
        previous_total: amount(114.0),
        current_by_service: vec![named("EC2", 21.0), named("S3", 1.0)],
        previous_by_service: vec![named("EC2", 110.0), named("S3", 4.0)],
    };
    let compared = compared_services(&pop);
    let pcts = vec![amount(0.0); compared.len()];
    let comparison = month_over_month(&pop, &compared, &pcts, amount(-80.0), None);
    let data = load_overview_mtd(
        &ranked,
        MonthFigures {
            prior: amount(14.0),
            change: amount(71.4),
            unallocated: amount(16.7),
            pcts: vec![amount(-79.0), amount(-75.0)],
            means: vec![amount(1.0), amount(2.0), amount(3.0)],
            forecast: amount(66.0),
            band: None,
            typical: vec![named("2026-09-10", 5.0)],
        },
        "USD".to_string(),
        comparison,
        vec![],
        &vec![],
        now,
    );
    assert_eq!(data.stats.change_pct, Some(amount(71.4)));
    assert_eq!(data.stats.unallocated_amount, amount(4.0));
    let labels = |points: &[ChartPoint]| -> Vec<String> {
        points.iter().map(|point| point.label.clone()).collect()
    };
    let charted = labels(&data.chart.actual);
    assert_eq!(charted, labels(&data.chart.baseline));
    assert!(charted.windows(2).all(|pair| pair[0] < pair[1]));
    assert!(charted.iter().all(|label| label.starts_with("2026-09-")));
    let usage: Vec<Amount> = data.chart.actual.iter().map(|point| point.amount).collect();
    assert_eq!(usage, vec![amount(20.0), amount(1.0), amount(3.0)]);
    assert_eq!(data.chart.baseline[2].amount, amount(3.0));
    assert_eq!(data.chart_benchmark, Some(amount(5.0)));
    assert_eq!(data.movers[0].service, "EC2");
    assert_eq!((data.movers[0].drives.as_str(), data.movers[1].drives.as_str()), ("pay", UNALLOCATED));
}

#[test]
fn a_rolling_window_is_read_ranked_and_shown() {
    let rows = rows(&store());
    let now = on(9, 10).plus_hours(12);
    let asked = window_reads(&rows, Range::Days30, now);
    assert_eq!(sum(&asked.spend), amount(122.0));
    assert_eq!(sum(&asked.prior), amount(14.0));
    let ranked = rank_window(
        WindowTotals {
            spend: sum(&asked.spend),
            usage: sum(&asked.usage),
            credits: sum(&asked.credits),
            prior: sum(&asked.prior),
            lines: totals(asked.lines),
            services: services(asked.services),
            services_before: services(asked.services_before),
            series: totals(asked.series),
        },
        Range::Days30,
        now,
    );
    assert_eq!(ranked.days.len(), 30);
    assert_eq!(ranked.priors, vec![amount(10.0), amount(4.0)]);
    let pcts = vec![amount(1130.0), amount(-75.0)];
    let moved = movers(&ranked.services, &ranked.services_before, &pcts);
    let lines = mover_lines(&rows, &moved, Range::Days30, now).into_iter().map(totals).collect();
    let driven = driven_rows(&moved, &lines);
    assert_eq!((driven[0].service.as_str(), driven[0].drives.as_str()), ("EC2", "pay"));
    assert_eq!(driven[1].drives, UNALLOCATED);
    let data = load_overview_window(
        &ranked,
        WindowFigures {
            change: amount(785.7),
            unallocated: amount(3.2),
            mean: amount(4.1),
            means: vec![amount(0.0); 30],
        },
        "USD".to_string(),
        driven,
        vec![],
        &vec![],
        Range::Days30,
        now,
    );
    assert_eq!(data.card2_value, amount(4.1));
    assert_eq!((Range::Days30.mean_spread(), Range::Months12.mean_spread()), (30, 12));
    assert_eq!((data.chart.actual.len(), data.chart.baseline.len()), (30, 30));
    assert_eq!(data.chart.actual[9].amount, amount(0.0));
    assert_eq!(data.chart.baseline[8].label, "2026-08-20");
    assert_eq!(data.chart.actual[29].amount, amount(3.0));
    assert_eq!(data.chart.actual[8].label, "2026-08-20");
    assert_eq!(data.chart.actual[8].amount, amount(100.0));

    let asked = window_reads(&rows, Range::Months12, now);
    assert_eq!(totals(asked.series), vec![named("2026-08", 114.0), named("2026-09", 24.0)]);
}

#[test]
fn an_account_is_read_ranked_and_shown() {
    let rows = rows(&store());
    let now = on(9, 10).plus_hours(12);
    let asked = detail_reads(&rows, &account(), Range::Mtd, now);
    assert!(asked.prior.is_empty());
    assert_eq!(totals(asked.regions), vec![named("eu", 22.0)]);
    let ranked = rank_detail(
        DetailTotals {
            usage: sum(&asked.usage),
            credits: sum(&asked.credits),
            prior: asked.prior,
            before: totals(asked.before),
            services: totals(asked.services),
            services_before: totals(asked.services_before),
            series: totals(asked.series),
        },
        Range::Mtd,
        now,
    );
    assert_eq!(sum(&ranked.prior), amount(14.0));
    assert_eq!(ranked.services, vec![named("EC2", 23.0), named("S3", 1.0)]);
    let data = load_account_detail(
        &account(),
        &ranked,
        DetailFigures {
            spend: amount(22.0),
            prior: amount(14.0),
            change: amount(71.4),
            shares: vec![amount(0.96), amount(0.04)],
            pcts: vec![amount(-79.0), amount(-75.0)],
        },
        "USD".to_string(),
        Range::Mtd,
        now,
    );
    assert_eq!(data.chart.actual.len(), 10);
    assert_eq!(data.chart.actual[4].amount, amount(20.0));
    assert_eq!(data.services[0].change_pct, Some(amount(-79.0)));
    let drilldown =
        account_detail::load_drilldown(vec![named("eu", 1.0), named("us", 2.0)], vec![]);
    assert_eq!(drilldown.by_region, vec![named("us", 2.0), named("eu", 1.0)]);

    let rolling = detail_reads(&rows, &account(), Range::Days30, now);
    assert_eq!(sum(&rolling.prior), amount(14.0));
    assert!(rolling.before.is_empty());
}

#[test]
fn the_bills_of_all_accounts_are_merged() {
    let rows = rows(&store());
    let now = on(9, 10);
    let mut tallies = DrillTallies::new();
    for _ in 0..2 {
        let asked = drill_reads(&rows, &account(), now);
        tallies.absorb(DrilldownData {
            by_service: totals(asked.by_service),
            by_region: totals(asked.by_region),
            by_category: totals(asked.by_category),
            prev_by_service: totals(asked.prev_by_service),
            prev_by_region: totals(asked.prev_by_region),
            prev_by_category: totals(asked.prev_by_category),
            top_resources: vec![],
        });
    }
    let tallied = |tallies: Vec<cloudbridge::ui::data::attribution::Throughput>| {
        tallies.into_iter().map(|one| (one.id, sum(&one.terms))).collect::<Vec<_>>()
    };
    let data = load_drilldown(DrilldownData {
        by_service: tallied(tallies.by_service),
        by_region: tallied(tallies.by_region),
        by_category: tallied(tallies.by_category),
        prev_by_service: tallied(tallies.prev_by_service),
        prev_by_region: tallied(tallies.prev_by_region),
        prev_by_category: tallied(tallies.prev_by_category),
        top_resources: tallies.resources,
    });
    assert_eq!(data.by_service, vec![named("EC2", 42.0), named("S3", 2.0)]);
    assert_eq!(data.prev_by_region, vec![named("eu", 228.0)]);
}

#[test]
fn the_table_and_the_checks_read_the_month() {
    let mut store = store();
    let snapshot = BalanceSnapshot {
        provider: "AWS".to_string(),
        account_id: "a".to_string(),
        observed_at: on(9, 1),
        currency: "USD".to_string(),
        balance: amount(5.0),
        granted_balance: None,
        topped_up_balance: None,
    };
    record_balance(&mut store, &snapshot).unwrap();
    let rows = rows(&store);
    let now = on(9, 10);
    let asked = accounts_reads(&store, &rows, now).unwrap();
    assert_eq!(sum(&asked.accounts[0].mtd), amount(22.0));
    assert_eq!(asked.accounts[0].last_sync, Some(on(9, 10)));
    assert_eq!(totals(asked.untagged.clone()), vec![named("AWS", 4.0)]);
    assert_eq!(sum(&asked.untagged_of("AWS")), amount(4.0));
    assert!(asked.untagged_of("Aliyun").is_empty());
    assert_eq!(asked.used, 1);
    let figures = AccountFigures { mtd: amount(22.0), untagged_share: amount(0.18) };
    let data = load_accounts(
        &asked,
        &vec![figures],
        &vec![],
        amount(0.15),
        "USD".to_string(),
        amount(0.01),
        raw_payloads(Ok(0), Ok(String::new())),
    );
    assert_eq!(data.accounts[0].state.label(), "Unallocated spend");
    assert_eq!(data.accounts[0].balance, Some((amount(5.0), "USD".to_string())));

    let checks = period_reads(&rows, "2026-09");
    assert_eq!((checks.quality.rows, checks.untagged.len()), (4, 2));
    assert_eq!(sum(&checks.usage), amount(24.0));
    let found = period_findings("2026-09".to_string(), vec![], amount(24.0), vec![]);
    assert!(found.services.is_empty());

    let lines = attribution_reads(&rows, now);
    assert_eq!(totals(lines.lines), vec![named(UNALLOCATED, 4.0), named("pay", 20.0)]);
    assert_eq!(sum(&lines.usage), amount(24.0));
    assert_eq!(lines.untagged.len(), 2);
}
