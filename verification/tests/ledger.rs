//! Charges in, totals out.
use cloudbridge::amount::Amount;
use cloudbridge::calendar::{Date, Timestamp};
use cloudbridge::ledger::demo::{clear_demo, seed_demo, DemoBill, DemoPeriod};
use cloudbridge::ledger::history::{
    api_fetches_this_month, balance_observations, channel_of, last_ingest, last_ingests,
    latest_balance,
};
use cloudbridge::ledger::{compare, query, ranked};
use cloudbridge::ledger::{
    init_ledger, new_batch_id, record_balance, replace_period, set_reporting_currency,
    top_up_charges,
};
use cloudbridge::memory::{
    json_text, normalized, rate_for, tag_bucket, tag_value, NormalizedRow, Store, UNALLOCATED,
};
use cloudbridge::model::{
    BalanceSnapshot, BreakdownDim, Channel, Charge, ChargeCategory, CloudAccount, PeriodKey,
    ServiceTagUsage, SourceId, TopResource, UntaggedServiceUsage,
};

fn amount(value: f64) -> Amount {
    Amount { bits: value.to_bits() }
}

fn number(amount: Amount) -> f64 {
    f64::from_bits(amount.bits)
}

fn sum(terms: &[Amount]) -> f64 {
    terms.iter().map(|term| number(*term)).sum()
}

fn on(year: i32, month: u32, day: u32) -> Timestamp {
    Date { year, month, day }.midnight()
}

fn charge(service: &str, day: u32, cost: f64) -> Charge {
    Charge {
        charge_description: None,
        service_name: Some(service.to_string()),
        service_category: Some("Compute".to_string()),
        region_id: None,
        resource_id: None,
        resource_name: None,
        pricing_unit: None,
        charge_category: ChargeCategory::Usage,
        tags: None,
        billing_currency: "USD".to_string(),
        charge_period_start: on(2026, 9, day),
        billed_cost: Some(amount(cost)),
        effective_cost: Some(amount(cost)),
    }
}

fn tagged(mut charge: Charge, line: &str) -> Charge {
    charge.tags = Some(format!("{{\"business_line\":\"{line}\"}}"));
    charge
}

fn key(account: &str) -> PeriodKey {
    PeriodKey::new("aws".to_string(), account.to_string(), "2026-09".to_string())
}

fn store_of(charges: Vec<Charge>) -> Store {
    let mut store = Store::new("USD");
    replace_period(&mut store, &key("a"), "batch", &charges, Channel::Api, on(2026, 9, 20)).unwrap();
    store
}

/// Every charge as the reads see it, converted at its rate.
fn rows(store: &Store) -> Vec<NormalizedRow> {
    let convert = |cost: Option<Amount>, rate: Option<Amount>| match (cost, rate) {
        (Some(cost), Some(rate)) => amount(number(cost) * number(rate)),
        _ => amount(0.0),
    };
    let products = store
        .periods
        .iter()
        .map(|period| {
            period
                .charges
                .iter()
                .map(|charge| {
                    let rate = rate_for(charge, &store.reporting_currency);
                    (convert(charge.billed_cost, rate), convert(charge.effective_cost, rate))
                })
                .collect()
        })
        .collect();
    normalized(store, &products)
}

fn sums(buckets: Vec<(String, Vec<Amount>)>) -> Vec<(String, f64)> {
    buckets.into_iter().map(|(name, terms)| (name, sum(&terms))).collect()
}

fn named(name: &str, value: f64) -> (String, f64) {
    (name.to_string(), value)
}

#[test]
fn storing_a_period_twice_leaves_one() {
    let mut store = store_of(vec![charge("EC2", 1, 5.0)]);
    let other = PeriodKey::new("aws".to_string(), "b".to_string(), "2026-09".to_string());
    replace_period(&mut store, &other, "b2", &vec![], Channel::File, on(2026, 9, 21)).unwrap();
    let corrected = vec![charge("EC2", 1, 3.0), charge("S3", 2, 1.0)];
    replace_period(&mut store, &key("a"), "b3", &corrected, Channel::Api, on(2026, 9, 22)).unwrap();
    assert_eq!(store.periods.len(), 2);
    assert_eq!(store.periods[0].batch_id, "b2");
    assert_eq!(store.periods[1].batch_id, "b3");
    assert_eq!(sum(&query::period_total(&rows(&store), &key("a"))), 4.0);
}

#[test]
fn ingests_are_remembered_by_period() {
    let mut store = store_of(vec![]);
    let old = PeriodKey::new("aws".to_string(), "a".to_string(), "2026-08".to_string());
    replace_period(&mut store, &old, "b2", &vec![], Channel::File, on(2026, 9, 25)).unwrap();
    assert_eq!(last_ingest(&store, &key("a")), Some(on(2026, 9, 20)));
    assert_eq!(last_ingest(&store, &key("z")), None);
    assert_eq!(channel_of(&store, &old), Channel::File);
    assert_eq!(channel_of(&store, &key("z")), Channel::Api);
    assert_eq!(
        last_ingests(&store),
        vec![("aws".to_string(), "a".to_string(), on(2026, 9, 25))]
    );
    assert_eq!(api_fetches_this_month(&store, on(2026, 9, 30)), 1);
    assert_eq!(api_fetches_this_month(&store, on(2026, 10, 1)), 0);
}

fn snapshot(day: u32, balance: f64) -> BalanceSnapshot {
    BalanceSnapshot {
        provider: "deepseek".to_string(),
        account_id: "a".to_string(),
        observed_at: on(2026, 9, day),
        currency: "CNY".to_string(),
        balance: amount(balance),
        granted_balance: None,
        topped_up_balance: None,
    }
}

#[test]
fn a_balance_observed_again_overwrites() {
    let mut store = Store::new("USD");
    for one in [snapshot(2, 9.0), snapshot(1, 12.0), snapshot(2, 8.0), snapshot(2, 8.0)] {
        record_balance(&mut store, &one).unwrap();
    }
    assert_eq!(store.balances.len(), 2);
    let latest = latest_balance(&store, "deepseek", "a").unwrap();
    assert_eq!((number(latest.balance), latest.observed_at), (8.0, on(2026, 9, 2)));
    assert!(latest_balance(&store, "deepseek", "b").is_none());
    let history: Vec<f64> = balance_observations(&store, "deepseek", "a")
        .iter()
        .map(|observation| number(observation.balance))
        .collect();
    assert_eq!(history, vec![12.0, 8.0]);
}

#[test]
fn the_currency_changes_and_nothing_else() {
    let mut store = Store::new("USD");
    init_ledger(&mut store, "EUR").unwrap();
    assert_eq!(store.reporting_currency(), "EUR");
    let mut store = store_of(vec![charge("EC2", 1, 2.0)]);
    set_reporting_currency(&mut store, "CNY").unwrap();
    assert_eq!(store.reporting_currency(), "CNY");
    assert_eq!(store.periods[0].charges[0].billing_currency, "USD");
    let total = sum(&query::total_for_period(&rows(&store), "2026-09"));
    assert!((total - 14.2).abs() < 1e-9);
}

#[test]
fn a_rate_is_its_own_or_the_newest_before_the_charge() {
    let mut one = charge("EC2", 1, 2.0);
    assert_eq!(rate_for(&one, "USD"), Some(amount(1.0)));
    assert_eq!(rate_for(&one, "CNY"), Some(amount(7.1)));
    one.charge_period_start = on(2025, 12, 31);
    assert_eq!(rate_for(&one, "CNY"), None);
    one.billing_currency = "EUR".to_string();
    assert_eq!(rate_for(&one, "CNY"), None);
    assert_eq!(rate_for(&one, "EUR"), Some(amount(1.0)));
}

#[test]
fn a_charge_that_no_rate_covers_adds_nothing() {
    let mut foreign = charge("EC2", 1, 100.0);
    foreign.billing_currency = "EUR".to_string();
    let store = store_of(vec![foreign, charge("EC2", 2, 1.5)]);
    let rows = rows(&store);
    assert_eq!(sum(&query::total_for_period(&rows, "2026-09")), 1.5);
    assert_eq!(ranked::unconverted_charges(&rows, "2026-09"), 1);
    assert_eq!(rows[0].billed_cost_base, None);
}

#[test]
fn a_total_is_usage_and_credits() {
    let mut credit = charge("EC2", 3, -4.0);
    credit.charge_category = ChargeCategory::Credit;
    let store = store_of(vec![charge("EC2", 1, 10.0), credit, charge("S3", 2, 2.0)]);
    let rows = rows(&store);
    let (usage, credits) = query::usage_and_credits(&rows, "2026-09");
    assert_eq!((sum(&usage), sum(&credits)), (12.0, -4.0));
    assert_eq!(sum(&query::total_for_period(&rows, "2026-09")), 8.0);
    let (usage, _) = query::usage_and_credits_between(&rows, on(2026, 9, 2), on(2026, 9, 3));
    assert_eq!(sum(&usage), 2.0);
    assert_eq!(sum(&query::total_between(&rows, on(2026, 9, 1), on(2026, 9, 3))), 12.0);
}

#[test]
fn every_breakdown_has_the_same_total() {
    let mut regional = charge("EC2", 1, 3.0);
    regional.region_id = Some("us-east-1".to_string());
    let mut nameless = charge("EC2", 2, 1.0);
    nameless.service_name = None;
    let store = store_of(vec![regional, charge("S3", 2, 2.0), nameless]);
    let rows = rows(&store);
    for dim in [BreakdownDim::Service, BreakdownDim::Region, BreakdownDim::ServiceCategory] {
        let buckets = sums(query::breakdown_by(&rows, &key("a"), dim));
        assert_eq!(buckets.iter().map(|bucket| bucket.1).sum::<f64>(), 6.0, "{dim:?}");
    }
    assert_eq!(
        sums(query::service_breakdown(&rows, &key("a"))),
        vec![named("EC2", 3.0), named("Other", 1.0), named("S3", 2.0)]
    );
    assert_eq!(
        sums(query::breakdown_by(&rows, &key("a"), BreakdownDim::Region)),
        vec![named("Other", 3.0), named("us-east-1", 3.0)]
    );
}

#[test]
fn days_come_in_order() {
    let store = store_of(vec![
        charge("EC2", 9, 1.0),
        charge("EC2", 2, 2.0),
        charge("S3", 9, 4.0),
    ]);
    let rows = rows(&store);
    assert_eq!(
        sums(query::daily_totals_all(&rows, on(2026, 9, 1))),
        vec![named("2026-09-02", 2.0), named("2026-09-09", 5.0)]
    );
    assert_eq!(
        sums(query::daily_totals(&rows, "aws", "a", on(2026, 9, 3))),
        vec![named("2026-09-09", 5.0)]
    );
    assert!(query::daily_usage_of(&rows, "aws", "b", on(2026, 9, 1)).is_empty());
    assert_eq!(sums(query::monthly_usage(&rows, on(2026, 9, 1))), vec![named("2026-09", 7.0)]);
}

#[test]
fn a_tag_is_read_from_the_charges_tags() {
    assert_eq!(json_text("{\"a\":\"x\",\"b\":1}", "a"), Some("x".to_string()));
    assert_eq!(json_text("{\"a\":\"x\",\"b\":1}", "b"), None);
    assert_eq!(json_text("{\"a\":\"x\"}", "c"), None);
    assert_eq!(json_text("not json", "a"), None);
    assert_eq!(json_text("[\"a\"]", "a"), None);
    assert_eq!(json_text("{\"a\":\"\\u00e9\\n\"}", "a"), Some("\u{e9}\n".to_string()));
    assert_eq!(tag_value(Some("{\"line\":\"pay\"}"), "line"), "pay");
    assert_eq!(tag_value(Some("{\"line\":\"\"}"), "line"), UNALLOCATED);
    assert_eq!(tag_value(None, "line"), UNALLOCATED);
    assert_eq!(tag_bucket(Some("pay".to_string())), "pay");
    assert_eq!(tag_bucket(None), UNALLOCATED);
}

#[test]
fn tags_in_one_pass_are_each_services_tags() {
    let store = store_of(vec![
        tagged(charge("EC2", 1, 5.0), "pay"),
        charge("EC2", 2, 2.0),
        tagged(charge("S3", 2, 1.0), "pay"),
    ]);
    let rows = rows(&store);
    assert_eq!(
        sums(query::tag_usage_breakdown(&rows, "2026-09", "business_line")),
        vec![named(UNALLOCATED, 2.0), named("pay", 6.0)]
    );
    let all = query::tag_usage_terms_by_service(&rows, "2026-09", "business_line");
    for service in ["EC2", "S3"] {
        let mut own: Vec<(String, f64)> = all
            .iter()
            .filter(|bucket| bucket.service == service)
            .map(|bucket| (bucket.tag_value.clone(), sum(&bucket.terms)))
            .collect();
        own.sort_by(|a, b| a.0.cmp(&b.0));
        let asked =
            query::service_tag_usage_breakdown(&rows, "2026-09", "aws", service, "business_line");
        assert_eq!(own, sums(asked));
    }
}

#[test]
fn untagged_usage_is_found() {
    let mut credit = charge("EC2", 3, -4.0);
    credit.charge_category = ChargeCategory::Credit;
    let store = store_of(vec![
        tagged(charge("EC2", 1, 5.0), "pay"),
        charge("S3", 2, 2.0),
        charge("EC2", 2, 3.0),
        credit,
    ]);
    let rows = rows(&store);
    let detail = ranked::untagged_detail(&rows, "2026-09", "business_line", 10);
    let amounts: Vec<f64> = detail.iter().map(|one| number(one.amount)).collect();
    assert_eq!(amounts, vec![3.0, 2.0]);
    assert_eq!(ranked::untagged_detail(&rows, "2026-09", "business_line", 1).len(), 1);
    let terms = ranked::untagged_usage_terms_by_service(&rows, "2026-09", "business_line");
    assert_eq!(terms.len(), 2);
    let counts = compare::data_quality_issues(&rows, "2026-09", "business_line");
    assert_eq!((counts.rows, counts.unconverted, counts.untagged_count), (4, 0, 2));
    assert_eq!((sum(&counts.usage), sum(&counts.untagged)), (10.0, 5.0));
}

fn untagged_services(store: &Store) -> Vec<UntaggedServiceUsage> {
    let terms = ranked::untagged_usage_terms_by_service(&rows(store), "2026-09", "business_line");
    let totals = terms
        .into_iter()
        .map(|one| UntaggedServiceUsage {
            provider: one.provider,
            service: one.service,
            amount: amount(sum(&one.terms)),
        })
        .collect();
    ranked::untagged_usage_by_service(totals, 10)
}

#[test]
fn an_untagged_service_that_nets_to_nothing_is_absent() {
    assert!(untagged_services(&store_of(vec![charge("EC2", 1, 0.0)])).is_empty());
    let store =
        store_of(vec![charge("EC2", 1, 0.0), charge("S3", 1, 2.0), charge("RDS", 1, 5.0)]);
    let listed: Vec<Option<String>> =
        untagged_services(&store).into_iter().map(|one| one.service).collect();
    assert_eq!(listed, vec![Some("RDS".to_string()), Some("S3".to_string())]);
}

#[test]
fn one_pass_ranks_as_each_service_does() {
    let store = store_of(vec![
        tagged(charge("EC2", 1, 5.0), "pay"),
        tagged(charge("S3", 1, 9.0), "pay"),
        tagged(charge("EC2", 2, 7.0), "web"),
        tagged(charge("EC2", 3, 5.0), "ads"),
        charge("EC2", 4, 1.0),
        tagged(charge("EC2", 5, 0.0), "idle"),
    ]);
    let rows = rows(&store);
    let totals = query::tag_usage_terms_by_service(&rows, "2026-09", "business_line")
        .into_iter()
        .map(|one| ServiceTagUsage {
            provider: one.provider,
            service: one.service,
            tag_value: one.tag_value,
            amount: amount(sum(&one.terms)),
        })
        .collect();
    let at_once: Vec<(String, f64)> = ranked::tag_usage_breakdown_by_service(totals)
        .into_iter()
        .filter(|one| one.service == "EC2")
        .map(|one| (one.tag_value, number(one.amount)))
        .collect();
    let own =
        query::service_tag_usage_breakdown(&rows, "2026-09", "aws", "EC2", "business_line")
            .into_iter()
            .map(|(name, terms)| (name, amount(sum(&terms))))
            .collect();
    let alone: Vec<(String, f64)> = ranked::rank_totals(own)
        .into_iter()
        .map(|(name, total)| (name, number(total)))
        .collect();
    assert_eq!(at_once, alone);
    assert_eq!(
        alone,
        vec![named("web", 7.0), named("ads", 5.0), named("pay", 5.0), named(UNALLOCATED, 1.0)]
    );
}

#[test]
fn a_charge_without_a_rate_is_counted_and_not_added() {
    let mut euros = charge("EC2", 2, 50.0);
    euros.billing_currency = "EUR".to_string();
    let mut early = charge("EC2", 2, 40.0);
    early.billing_currency = "CNY".to_string();
    early.charge_period_start = on(2025, 12, 31);
    let mut costless = charge("EC2", 2, 0.0);
    costless.billing_currency = "EUR".to_string();
    costless.billed_cost = None;
    let store = store_of(vec![charge("EC2", 1, 5.0), euros, early, costless]);
    let rows = rows(&store);
    assert_eq!(ranked::unconverted_charges(&rows, "2026-09"), 2);
    assert_eq!(ranked::unconverted_charges(&rows, "2026-08"), 0);
    assert_eq!(sum(&query::total_for_period(&rows, "2026-09")), 5.0);
}

#[test]
fn a_clean_period_counts_nothing() {
    let mut clean = tagged(charge("EC2", 1, 5.0), "pay");
    clean.region_id = Some("us-east-1".to_string());
    let mut store = store_of(vec![clean]);
    let other = PeriodKey::new("aws".to_string(), "a".to_string(), "2026-08".to_string());
    let dirty = vec![charge("S3", 1, 3.0)];
    replace_period(&mut store, &other, "batch", &dirty, Channel::Api, on(2026, 9, 20)).unwrap();
    let rows = rows(&store);
    let counts = compare::data_quality_issues(&rows, "2026-09", "business_line");
    assert_eq!((counts.rows, counts.unconverted, counts.untagged_count), (1, 0, 0));
    assert!(counts.untagged.is_empty() && counts.regionless.is_empty());
    let counts = compare::data_quality_issues(&rows, "2026-08", "business_line");
    assert_eq!((counts.untagged_count, counts.regionless.len()), (1, 1));
}

#[test]
fn resources_are_ranked_by_cost() {
    let resource = |id: &str, cost: f64| TopResource {
        resource_id: id.to_string(),
        resource_name: None,
        service: "EC2".to_string(),
        amount: amount(cost),
    };
    let top = ranked::top_resources(
        vec![resource("a", 1.0), resource("b", 7.0), resource("c", 0.0), resource("d", 7.0)],
        2,
    );
    let ids: Vec<&str> = top.iter().map(|one| one.resource_id.as_str()).collect();
    assert_eq!(ids, vec!["b", "d"]);
}

#[test]
fn positive_totals_rank_largest_first_and_ties_keep_their_order() {
    let total = |name: &str, value: f64| (name.to_string(), amount(value));
    let ranked = ranked::rank_totals(vec![
        total("a", 1.0),
        total("b", -2.0),
        total("c", 3.0),
        total("d", 1.0),
    ]);
    let names: Vec<&str> = ranked.iter().map(|one| one.0.as_str()).collect();
    assert_eq!(names, vec!["c", "a", "d"]);
}

#[test]
fn a_run_rate_starts_at_the_first_charge() {
    let store = store_of(vec![charge("EC2", 5, 5.0), charge("EC2", 3, 2.0)]);
    let rows = rows(&store);
    let rate = compare::forecast_for_period(&rows, "2026-09", on(2026, 9, 10));
    assert_eq!(rate.first_charge, Some(Date { year: 2026, month: 9, day: 3 }));
    assert_eq!(sum(&rate.month_to_date), 7.0);
    let none = compare::forecast_for_period(&rows, "2026-08", on(2026, 9, 10));
    assert!(none.first_charge.is_none() && none.month_to_date.is_empty());
}

#[test]
fn two_periods_are_set_side_by_side() {
    let mut store = store_of(vec![charge("EC2", 5, 5.0), charge("S3", 3, 2.0)]);
    let before = PeriodKey::new("aws".to_string(), "a".to_string(), "2026-08".to_string());
    let mut old = charge("EC2", 5, 4.0);
    old.charge_period_start = on(2026, 8, 5);
    replace_period(&mut store, &before, "b", &vec![old], Channel::Api, on(2026, 9, 1)).unwrap();
    let rows = rows(&store);
    let (categories, services) = compare::cost_change_decomposition(&rows, "2026-09", "2026-08");
    assert_eq!(categories.len(), 1);
    assert_eq!((sum(&categories[0].current), sum(&categories[0].previous)), (7.0, 4.0));
    let found: Vec<(&str, f64, f64)> = services
        .iter()
        .map(|one| (one.name.as_str(), sum(&one.current), sum(&one.previous)))
        .collect();
    assert_eq!(found, vec![("EC2", 5.0, 4.0), ("S3", 2.0, 0.0)]);
}

#[test]
fn a_batch_id_is_a_random_uuid() {
    let (one, two) = (new_batch_id(), new_batch_id());
    assert_eq!(one.len(), 36);
    assert_ne!(one, two);
    let parsed = uuid::Uuid::parse_str(&one).unwrap();
    assert_eq!(parsed.get_version_num(), 4);
    assert_eq!(parsed.to_string(), one);
}

#[test]
fn no_purchase_is_derived() {
    assert!(top_up_charges(&key("a")).unwrap().is_empty());
}

fn account(id: &str) -> CloudAccount {
    CloudAccount {
        id: id.to_string(),
        name: format!("Account {id}"),
        source_id: SourceId::of("AWS"),
        region: None,
        created_at: on(2026, 1, 1),
        last_synced_at: None,
        enabled: true,
        access_key_hint: None,
        export_uri: None,
    }
}

#[test]
fn the_demo_comes_and_goes() {
    let mut store = store_of(vec![charge("EC2", 1, 5.0)]);
    store.accounts.push(account("mine"));
    record_balance(&mut store, &snapshot(1, 3.0)).unwrap();
    let mut demo_balance = snapshot(1, 50.0);
    demo_balance.account_id = "demo-1".to_string();
    let bill = DemoBill {
        accounts: vec![account("demo-1")],
        periods: vec![DemoPeriod {
            key: key("demo-1"),
            batch_id: "demo-batch".to_string(),
            charges: vec![charge("EC2", 2, 1.0), charge("S3", 2, 1.0)],
        }],
        balances: vec![demo_balance],
    };
    let now = on(2026, 9, 20);
    assert_eq!(seed_demo(&mut store, &bill, now).unwrap(), 2);
    assert_eq!(seed_demo(&mut store, &bill, now).unwrap(), 2);
    assert_eq!((store.accounts.len(), store.periods.len(), store.balances.len()), (2, 2, 2));
    assert_eq!(store.accounts[1].last_synced_at, Some(now));

    let summary = clear_demo(&mut store, "demo-").unwrap();
    assert_eq!(summary, "Removed 1 demo account(s) and their data");
    assert_eq!(store.accounts.len(), 1);
    assert_eq!(store.accounts[0].id, "mine");
    assert_eq!(store.periods.len(), 1);
    assert_eq!(store.balances.len(), 1);
}

#[test]
fn a_query_is_refused() {
    assert!(query::run_adhoc("SELECT 1").is_err());
}
