//! What the pages are made of.
use cloudbridge::amount::Amount;
use cloudbridge::calendar::{Date, Timestamp};
use cloudbridge::memory::UNALLOCATED;
use cloudbridge::model::{
    CategoryDelta, CostChangeDecomposition, DataQualityIssue, DataQualityKind, IssueSeverity,
    MovementKind, PeriodOverPeriod, ServiceMovement, ServiceTagUsage,
};
use cloudbridge::ui::data::change::{
    change_decomposition, compared_services, month_over_month, Compared, MonthOverMonth,
    MovementBadge, TOP_DECOMPOSITION_ROWS,
};
use cloudbridge::ui::data::overview::{drives_by_service, Drive};
use cloudbridge::ui::data::quality::{benchmark_value, data_quality_rows, DataQualitySeverity};
use cloudbridge::ui::data::series::daily_series;
use cloudbridge::ui::data::starter::query_templates;

fn amount(value: f64) -> Amount {
    Amount { bits: value.to_bits() }
}

fn number(amount: Amount) -> f64 {
    f64::from_bits(amount.bits)
}

fn named(name: &str, value: f64) -> (String, Amount) {
    (name.to_string(), amount(value))
}

/// Midnight UTC of a day.
fn at(date: Date) -> Timestamp {
    date.midnight()
}

#[test]
fn daily_series_zero_fills_and_baselines_on_demand() {
    let first = Date { year: 2026, month: 9, day: 1 };
    let last = Date { year: 2026, month: 9, day: 3 };
    let by_day = vec![(Date { year: 2026, month: 9, day: 2 }, amount(5.0))];

    let chart = daily_series(&by_day, at(first), at(last), None);
    let amounts: Vec<f64> = chart.actual.iter().map(|p| number(p.amount)).collect();
    assert_eq!(amounts, vec![0.0, 5.0, 0.0]);
    assert!(chart.baseline.is_empty());

    let means = vec![amount(0.0), amount(0.0), amount(2.5)];
    let chart = daily_series(&by_day, at(first), at(last), Some(&means));
    assert_eq!(chart.baseline.len(), chart.actual.len());
}

fn line_of<'a>(drives: &'a [Drive], provider: &str, service: &str) -> Option<&'a String> {
    drives
        .iter()
        .find(|drive| drive.provider == provider && drive.service == service)
        .map(|drive| &drive.line)
}

#[test]
fn drives_prefers_the_largest_tagged_line() {
    let rows = vec![
        ServiceTagUsage {
            provider: "aws".to_string(),
            service: "EC2".to_string(),
            tag_value: UNALLOCATED.to_string(),
            amount: amount(100.0),
        },
        ServiceTagUsage {
            provider: "aws".to_string(),
            service: "EC2".to_string(),
            tag_value: "payments".to_string(),
            amount: amount(50.0),
        },
        ServiceTagUsage {
            provider: "aws".to_string(),
            service: "S3".to_string(),
            tag_value: "analytics".to_string(),
            amount: amount(10.0),
        },
    ];
    let drives = drives_by_service(&rows);
    assert_eq!(line_of(&drives, "aws", "EC2"), Some(&"payments".to_string()));
    assert_eq!(line_of(&drives, "aws", "S3"), Some(&"analytics".to_string()));
    assert!(line_of(&drives, "gcp", "EC2").is_none());
}

#[test]
fn a_service_without_a_line_drives_none() {
    let row = |service: &str, line: &str, spent: f64| ServiceTagUsage {
        provider: "aws".to_string(),
        service: service.to_string(),
        tag_value: line.to_string(),
        amount: amount(spent),
    };
    let drives = drives_by_service(&vec![row("EC2", UNALLOCATED, 100.0)]);
    assert_eq!(line_of(&drives, "aws", "EC2"), Some(&UNALLOCATED.to_string()));
    assert_eq!(line_of(&drives, "aws", "S3"), None);
    let drives = drives_by_service(&vec![
        row("S3", "analytics", 30.0),
        row("EC2", UNALLOCATED, 20.0),
        row("S3", UNALLOCATED, 10.0),
    ]);
    assert_eq!(drives.len(), 2);
    assert_eq!(line_of(&drives, "aws", "S3"), Some(&"analytics".to_string()));
    assert_eq!(line_of(&drives, "aws", "EC2"), Some(&UNALLOCATED.to_string()));
}

fn percent(current: Amount, previous: Amount) -> Amount {
    amount((number(current) - number(previous)) / number(previous) * 100.0)
}

fn compare_months(pop: &PeriodOverPeriod) -> MonthOverMonth {
    let services: Vec<Compared> = compared_services(pop);
    let pcts: Vec<Amount> = services.iter().map(|s| percent(s.current, s.previous)).collect();
    let total = percent(pop.current_total, pop.previous_total);
    month_over_month(pop, &services, &pcts, total, None)
}

#[test]
fn month_over_month_unions_both_months() {
    let mom = compare_months(&PeriodOverPeriod {
        current_total: amount(150.0),
        previous_total: amount(100.0),
        current_by_service: vec![named("EC2", 150.0)],
        previous_by_service: vec![named("EC2", 80.0), named("Retired", 20.0)],
    });
    assert_eq!(mom.change_pct.map(number), Some(50.0));

    assert_eq!(mom.services.len(), 2);
    let ec2 = &mom.services[0];
    assert_eq!(ec2.service, "EC2");
    assert_eq!((number(ec2.current), number(ec2.previous)), (150.0, 80.0));
    assert_eq!(ec2.change_pct.map(number), Some(87.5));
    // A service that vanished this month is a −100% mover.
    let retired = &mom.services[1];
    assert_eq!(retired.service, "Retired");
    assert_eq!((number(retired.current), number(retired.previous)), (0.0, 20.0));
    assert_eq!(retired.change_pct.map(number), Some(-100.0));
    assert!(mom.decomposition.is_none());
}

#[test]
fn month_over_month_skips_delta_on_a_dust_base() {
    let mom = compare_months(&PeriodOverPeriod {
        current_total: amount(10.0),
        previous_total: amount(0.0),
        current_by_service: vec![named("EC2", 10.0)],
        previous_by_service: Vec::new(),
    });
    assert_eq!(mom.change_pct, None);
    assert_eq!(mom.services[0].change_pct, None);
}

fn movement(service: &str, kind: MovementKind, current: f64, previous: f64) -> ServiceMovement {
    ServiceMovement {
        service: service.to_string(),
        kind,
        current: amount(current),
        previous: amount(previous),
        delta: amount(current - previous),
    }
}

/// A decomposition with every movement kind and more rows than the section
/// lists.
fn sample_decomposition() -> CostChangeDecomposition {
    CostChangeDecomposition {
        billing_period: "2026-09".to_string(),
        previous_period: "2026-08".to_string(),
        current_total: amount(150.0),
        previous_total: amount(100.0),
        total_delta: amount(50.0),
        by_category: (0..7)
            .map(|i| CategoryDelta {
                category: format!("Category{i}"),
                current: amount(10.0 + f64::from(i)),
                previous: amount(10.0),
                delta: amount(f64::from(i)),
            })
            .collect(),
        by_service: vec![
            movement("NewSvc", MovementKind::Appeared, 40.0, 0.0),
            movement("GoneSvc", MovementKind::Vanished, 0.0, 20.0),
            movement("BigSvc", MovementKind::Grown, 100.0, 90.0),
            movement("SmallSvc", MovementKind::Shrunk, 10.0, 15.0),
        ],
        residual: amount(2.5),
        reconciled: false,
    }
}

#[test]
fn change_decomposition_maps_badges_and_truncates() {
    let why = change_decomposition(Some(sample_decomposition())).expect("Some in, Some out");
    // Seven category rows in, five out.
    assert_eq!(why.categories.len(), TOP_DECOMPOSITION_ROWS);
    assert_eq!(why.movements.len(), 4);
    let badges: Vec<MovementBadge> = why.movements.iter().map(|row| row.badge).collect();
    assert_eq!(
        badges,
        vec![
            MovementBadge::Appeared,
            MovementBadge::Vanished,
            MovementBadge::Grown,
            MovementBadge::Shrunk,
        ]
    );
    // The reconciliation flags pass through untouched.
    assert!(!why.reconciled);
    assert_eq!(number(why.residual), 2.5);
}

#[test]
fn change_decomposition_passes_none_through() {
    assert!(change_decomposition(None).is_none());
}

#[test]
fn benchmark_value_skips_empty_and_dust_series() {
    assert_eq!(benchmark_value(&Vec::new()), None);
    // A fresh ledger averages to a flat zero line: no real history, no overlay.
    let zeros = (1..=5)
        .map(|day| (format!("2026-09-{day:02}"), amount(0.0)))
        .collect();
    assert_eq!(benchmark_value(&zeros), None);
}

#[test]
fn benchmark_value_takes_the_flat_value() {
    let series = (1..=5)
        .map(|day| (format!("2026-09-{day:02}"), amount(42.0)))
        .collect();
    assert_eq!(benchmark_value(&series).map(number), Some(42.0));
}

#[test]
fn data_quality_rows_sort_critical_first() {
    let issue = |severity: IssueSeverity| DataQualityIssue {
        kind: DataQualityKind::UntaggedUsage,
        severity,
        message: format!("{severity:?}"),
        affected_amount: None,
        affected_count: 1,
    };
    let rows = data_quality_rows(
        "2026-09",
        &vec![
            issue(IssueSeverity::Info),
            issue(IssueSeverity::Critical),
            issue(IssueSeverity::Warning),
        ],
        &Vec::new(),
    );
    let severities: Vec<DataQualitySeverity> = rows.iter().map(|row| row.severity).collect();
    assert_eq!(
        severities,
        vec![
            DataQualitySeverity::Critical,
            DataQualitySeverity::Warning,
            DataQualitySeverity::Info,
        ]
    );
}

#[test]
fn data_quality_rows_drop_dismissed_keys_and_keep_new_ones() {
    let issue = |kind: DataQualityKind| DataQualityIssue {
        kind,
        severity: IssueSeverity::Warning,
        message: format!("{kind:?}"),
        affected_amount: Some(amount(10.0)),
        affected_count: 1,
    };
    // Untagged usage was dismissed for the period; a different kind and a
    // different period are not covered by that dismissal.
    let dismissed: Vec<String> = vec!["untagged_usage:2026-09".to_string()];
    let rows = data_quality_rows(
        "2026-09",
        &vec![
            issue(DataQualityKind::UntaggedUsage),
            issue(DataQualityKind::MissingRegion),
        ],
        &dismissed,
    );
    assert_eq!(rows.len(), 1);
    assert_eq!(rows[0].key, "missing_region:2026-09");

    // The same dismissal does not touch the next period.
    let rows = data_quality_rows(
        "2026-10",
        &vec![issue(DataQualityKind::UntaggedUsage)],
        &dismissed,
    );
    assert_eq!(rows.len(), 1);
    assert_eq!(rows[0].key, "untagged_usage:2026-10");
}

const TEMPLATE_CATEGORIES: [&str; 4] = [
    "Spend overview",
    "Forecast & trends",
    "Composition",
    "Data health",
];

#[test]
fn templates_exist() {
    assert!(!query_templates().is_empty());
}

#[test]
fn templates_are_selects() {
    for template in query_templates() {
        let sql = template.sql.trim_start();
        assert!(!sql.is_empty(), "{}: SQL must not be empty", template.title);
        let starts_select = sql
            .get(..7)
            .is_some_and(|s| s.eq_ignore_ascii_case("select "));
        let starts_with = sql.get(..4).is_some_and(|s| s.eq_ignore_ascii_case("with"));
        assert!(
            starts_select || starts_with,
            "{}: SQL must start with SELECT or WITH",
            template.title
        );
    }
}

#[test]
fn template_categories_are_known() {
    for template in query_templates() {
        assert!(
            TEMPLATE_CATEGORIES.contains(&template.category),
            "{}: unknown category {:?}",
            template.title,
            template.category
        );
    }
}
