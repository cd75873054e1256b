//! The accounts page and the sources behind it.
use cloudbridge::alerts::{AlertKind, AlertView, Severity};
use cloudbridge::amount::Amount;
use cloudbridge::calendar::{Date, Timestamp};
use cloudbridge::cloud::raw::{raw_dir_path, raw_dir_size};
use cloudbridge::cloud::{self, BillingSource, FoundCredentials, SourceContext};
use cloudbridge::error::Error;
use cloudbridge::ingest::{
    import_bill_file, period_key, replay_all, ImportOutcome, IngestOutcome, RefreshOutcome,
    ReplayOutcome,
};
use cloudbridge::memory::Store;
use cloudbridge::model::{
    Balance, CloudAccount, DataQualityIssue, DataQualityKind, IssueSeverity, SourceId,
    UntaggedCharge, UntaggedServiceUsage,
};
use cloudbridge::secret_store::{
    delete_account_secrets, get_account_secrets, store_account_secrets,
};
use cloudbridge::ui::accounts::form::setup_hint;
use cloudbridge::ui::accounts::health::{
    gather_health, health_periods, load_health, PeriodFindings,
};
use cloudbridge::ui::accounts::table::{dialog_fields, format_balance, format_bytes, TableBody};
use cloudbridge::ui::accounts::{import_message, AccountsView, AfterSave};
use cloudbridge::ui::data::accounts::{
    account_names, account_row, account_state, last_sync, load_accounts, load_sync_status,
    raw_payloads, refresh_account, reporting_currency, source_kind, untagged_usage_by_provider,
    AccountFigures, AccountRead, AccountState, AccountsReads,
};

fn amount(value: f64) -> Amount {
    Amount { bits: value.to_bits() }
}


fn on(day: u32) -> Timestamp {
    Date { year: 2026, month: 9, day }.midnight()
}

fn account(id: &str, source: &str) -> CloudAccount {
    CloudAccount {
        id: id.to_string(),
        name: "Main".to_string(),
        source_id: SourceId::of(source),
        region: None,
        created_at: on(1),
        last_synced_at: None,
        enabled: true,
        access_key_hint: None,
        export_uri: None,
    }
}

// ==================== Sources ====================

#[test]
fn every_source_is_found_by_its_id() {
    let all = cloud::all();
    assert!(!all.is_empty());
    for source in &all {
        let found = cloud::get(source.id).unwrap();
        assert_eq!(found.display_name, source.display_name);
        assert!(found.local_credentials.is_none());
        let described = source.source_id().descriptor().unwrap();
        assert_eq!(described.id, source.id);
        assert_eq!(source.source_id().as_str(), source.id);
        assert_eq!(source.needs_secret_key(), source.secret_key_label.is_some());
    }
    assert!(cloud::get("Nowhere").is_none());
    assert_eq!(cloud::default_source().id, all[0].id);
}

#[test]
fn a_source_refuses_to_be_reached() {
    let source = cloud::get("AWS").unwrap();
    let context = SourceContext {
        access_key_id: "AKIA".to_string(),
        secret_access_key: "shh".to_string(),
        region: None,
        export_uri: None,
    };
    match source.client(context) {
        Ok(client) => {
            let refused = client.validate_credentials().unwrap_err();
            assert!(refused.message.starts_with("The web demo cannot reach "));
        }
        Err(refused) => assert!(!refused.message.is_empty()),
    }
    assert!(source.credentials_from_system().is_none());
    assert_eq!(source.region_or_default(Some("eu".to_string())).as_deref(), Some("eu"));
    assert_eq!(source.region_or_default(None).as_deref(), source.default_region);
}

#[test]
fn nothing_is_kept_outside_the_page() {
    store_account_secrets("a", "AKIA", "shh").unwrap();
    assert!(get_account_secrets("a").unwrap().is_none());
    delete_account_secrets("a").unwrap();
    assert_eq!(raw_payloads(raw_dir_size(), raw_dir_path()).bytes, 0);
    let lost = raw_payloads(Err(Error::new("no disk")), Ok("/data".to_string()));
    assert_eq!((lost.bytes, lost.path.as_str()), (0, ""));
    let outcome = refresh_account(&account("a", "AWS"), true).unwrap();
    assert!(outcome.ingested.is_empty() && outcome.skipped_fresh.is_empty());
    let replayed = replay_all().unwrap();
    assert_eq!((replayed.periods, replayed.charges), (0, 0));
    let refused = import_bill_file(&account("a", "AWS"), "bill.csv").unwrap_err();
    assert_eq!(
        refused.message,
        "The web demo reads no bill files \u{2014} it ships with demo data already loaded"
    );
}

#[test]
fn a_period_is_keyed_by_source_and_account() {
    let period = cloudbridge::calendar::BillingPeriod { year: 2026, month: 9 };
    let key = period_key(&account("a", "AWS"), &period);
    assert_eq!(
        (key.provider.as_str(), key.account_id.as_str(), key.billing_period.as_str()),
        ("AWS", "a", "2026-09")
    );
}

fn outcome(charges: usize) -> IngestOutcome {
    IngestOutcome { batch_id: String::new(), charges, balances: 0, raw_path: String::new() }
}

#[test]
fn an_import_says_what_it_replaced() {
    let imported = ImportOutcome {
        format: "cost export",
        periods: vec![("2026-08".to_string(), outcome(2)), ("2026-09".to_string(), outcome(3))],
    };
    assert_eq!(imported.charges(), 5);
    assert_eq!(imported.period_labels(), "2026-08, 2026-09");
    assert_eq!(
        import_message("Main", &imported),
        "Imported 5 charge(s) into Main from its cost export, replacing 2026-08, 2026-09"
    );
}

// ==================== The table ====================

fn alert(kind: AlertKind, context: &str) -> AlertView {
    AlertView {
        id: "1".to_string(),
        kind,
        severity: Severity::Critical,
        title: String::new(),
        body: String::new(),
        stat: None,
        fields: vec![],
        actions: vec![],
        context: context.to_string(),
        created_at: on(1),
        resolved_at: None,
    }
}

#[test]
fn the_worst_badge_wins() {
    let one = account("a", "DeepSeek");
    let low = alert(AlertKind::Balance, "{\"account_id\":\"a\"}");
    let odd = alert(AlertKind::CostAnomaly, "{\"provider\":\"DeepSeek\"}");
    let state = |snapshot, open: Vec<AlertView>, total, share| {
        account_state(&one, snapshot, "DeepSeek", &open, amount(total), amount(share), amount(0.15))
    };
    assert_eq!(state(true, vec![odd, low], 10.0, 0.9), AccountState::LowBalance);
    let odd = || alert(AlertKind::CostAnomaly, "{\"provider\":\"DeepSeek\"}");
    let low = || alert(AlertKind::Balance, "{\"account_id\":\"a\"}");
    assert_eq!(state(false, vec![low(), odd()], 10.0, 0.9), AccountState::Anomaly);
    assert_eq!(state(false, vec![low()], 10.0, 0.16), AccountState::UntaggedSpend);
    assert_eq!(state(false, vec![], 10.0, 0.15), AccountState::Healthy);
    assert_eq!(state(false, vec![], 0.0, f64::NAN), AccountState::Healthy);
    let other = alert(AlertKind::CostAnomaly, "{\"provider\":\"AWS\"}");
    assert_eq!(state(false, vec![other], 0.0, 0.0), AccountState::Healthy);
}

#[test]
fn untagged_usage_is_added_up_by_provider() {
    let charge = |provider: &str, cost: f64| UntaggedCharge {
        provider: provider.to_string(),
        service: None,
        description: None,
        amount: amount(cost),
    };
    let found = untagged_usage_by_provider(&vec![
        charge("AWS", 1.0),
        charge("Aliyun", 2.0),
        charge("AWS", 4.0),
    ]);
    let aws = found.iter().find(|(provider, _)| provider == "AWS").unwrap();
    assert_eq!(aws.1, vec![amount(1.0), amount(4.0)]);
    assert_eq!(found.len(), 2);
}

#[test]
fn a_row_shows_the_last_fetch_or_the_accounts_own() {
    let mut one = account("a", "DeepSeek");
    one.last_synced_at = Some(on(2));
    let ingests = vec![("DeepSeek".to_string(), "a".to_string(), on(5))];
    assert_eq!(last_sync(&ingests, "DeepSeek", &one), Some(on(5)));
    assert_eq!(last_sync(&vec![], "DeepSeek", &one), Some(on(2)));
    let balance = || Balance {
        balance: amount(3.0),
        granted_balance: None,
        topped_up_balance: None,
        currency: "CNY".to_string(),
        observed_at: on(3),
    };
    let row =
        account_row(&one, amount(7.0), Some(balance()), Some(on(5)), AccountState::Healthy).unwrap();
    assert_eq!(row.balance, Some((amount(3.0), "CNY".to_string())));
    assert_eq!(row.source_kind, "Balance only");
    assert_eq!(row.source_kind, source_kind(&cloud::get("DeepSeek").unwrap()));
    let unknown = account("b", "Nowhere");
    assert!(account_row(&unknown, amount(0.0), None, None, AccountState::Healthy).is_none());

    let raw = raw_payloads(Ok(2048), Ok("/data".to_string()));
    let read = AccountRead {
        account: one,
        mtd: vec![amount(7.0)],
        balance: Some(balance()),
        last_sync: Some(on(5)),
    };
    let stray = AccountRead { account: unknown, mtd: vec![], balance: None, last_sync: None };
    let reads =
        AccountsReads { accounts: vec![stray, read], ingests, untagged: vec![], used: 4 };
    let figures = AccountFigures { mtd: amount(7.0), untagged_share: amount(0.0) };
    let data = load_accounts(
        &reads,
        &vec![figures, figures],
        &vec![],
        amount(0.15),
        "USD".to_string(),
        amount(0.04),
        raw,
    );
    assert_eq!(data.accounts.len(), 1);
    let mut view = AccountsView::new();
    view.data_loaded(Ok(data), None);
    assert_eq!(view.table_body(), TableBody::Rows);
    let shown = view.accounts_data.as_ref().unwrap();
    let cells = view.table_row(&shown.accounts[0], "USD", Some("AKIA****"), "demo-", on(5));
    assert_eq!(cells.amount, "\u{a5}3.00 left");
    assert_eq!(cells.last_fetch, "just now");
    assert!(!cells.demo);
    let cards = view.bottom_cards();
    assert_eq!(cards.budget_caption, "4 of a 100-call monthly ceiling");
    assert!(cards.raw_body.starts_with("2 KB of Parquet under /data."));
}

#[test]
fn the_form_asks_for_what_a_source_needs() {
    let mut view = AccountsView::new();
    assert_eq!(view.form.secret_key_placeholder, "Secret Access Key");
    assert_eq!(view.form.region_placeholder, "Region (optional, default us-east-1)");
    assert!(view.form.name.is_empty() && view.form.access_key.is_empty());
    view.set_source(cloud::get("DeepSeek").unwrap());
    assert_eq!(view.form.secret_key_placeholder, "(Not required, leave empty)");
    assert_eq!(view.form.region_placeholder, "(Not required)");
    assert_eq!(view.form.region, "");
}

#[test]
fn an_outcome_starts_empty() {
    let refreshed = RefreshOutcome::default();
    assert!(refreshed.ingested.is_empty() && refreshed.skipped_fresh.is_empty());
    let replayed = ReplayOutcome::default();
    assert_eq!((replayed.periods, replayed.charges), (0, 0));
    let imported = ImportOutcome::default();
    assert!(imported.format.is_empty() && imported.periods.is_empty());
}

#[test]
fn sizes_read_in_their_largest_unit() {
    assert_eq!(format_bytes(0), "0 B");
    assert_eq!(format_bytes(1023), "1023 B");
    assert_eq!(format_bytes(1024), "1 KB");
    assert_eq!(format_bytes((1 << 20) - 1), "1023 KB");
    assert_eq!(format_bytes(1 << 20), "1.0 MB");
    assert_eq!(format_bytes((3 << 30) + (1 << 29)), "3.5 GB");
    assert_eq!(format_bytes(u64::MAX), format!("{:.1} GB", u64::MAX as f64 / (1u64 << 30) as f64));
    assert_eq!(format_balance(amount(12.5), "USD"), "$12.50 left");
}

#[test]
fn the_next_fetch_follows_the_latest() {
    let accounts = vec![account("a", "AWS"), account("b", "AWS")];
    let ingests = vec![
        ("AWS".to_string(), "b".to_string(), on(4)),
        ("AWS".to_string(), "a".to_string(), on(3)),
    ];
    let status = load_sync_status(&accounts, &ingests, 24);
    assert_eq!(status.last_synced_at, Some(on(4)));
    assert_eq!(status.next_fetch_at, Some(on(5)));
    assert_eq!(status.source_count, 2);
    let never = load_sync_status(&accounts, &vec![], 24);
    assert!(never.last_synced_at.is_none() && never.next_fetch_at.is_none());
    let mut store = Store::new("USD");
    store.accounts = accounts;
    assert_eq!(account_names(&store).unwrap()[1], ("b".to_string(), "Main".to_string()));
    assert_eq!(reporting_currency(Ok("EUR".to_string()), "USD"), "EUR");
    assert_eq!(reporting_currency(Err(Error::new("no file")), "USD"), "USD");
}

// ==================== Health ====================

fn issue(kind: DataQualityKind, severity: IssueSeverity, cost: Option<f64>) -> DataQualityIssue {
    DataQualityIssue {
        kind,
        severity,
        message: "found".to_string(),
        affected_amount: cost.map(amount),
        affected_count: 1,
    }
}

fn findings() -> Vec<PeriodFindings> {
    let service = |name: Option<&str>, cost: f64| UntaggedServiceUsage {
        provider: "AWS".to_string(),
        service: name.map(|name| name.to_string()),
        amount: amount(cost),
    };
    vec![PeriodFindings {
        period: "2026-09".to_string(),
        issues: vec![
            issue(DataQualityKind::MissingRegion, IssueSeverity::Info, None),
            issue(DataQualityKind::UntaggedUsage, IssueSeverity::Warning, Some(4.0)),
            issue(DataQualityKind::UnconvertedCharges, IssueSeverity::Critical, None),
        ],
        usage: amount(10.0),
        services: vec![service(None, 1.0), service(Some("EC2"), 3.0)],
    }]
}

#[test]
fn untagged_usage_has_a_section_of_its_own() {
    let parts = gather_health(&findings(), &vec![]);
    assert_eq!(parts.untagged_terms, vec![amount(4.0)]);
    assert_eq!(parts.usage_terms, vec![amount(10.0)]);
    let health = load_health(parts, amount(4.0), amount(10.0), amount(0.4));
    let kinds: Vec<DataQualityKind> = health.issues.iter().map(|one| one.kind).collect();
    assert_eq!(kinds, vec![DataQualityKind::UnconvertedCharges, DataQualityKind::MissingRegion]);
    assert_eq!(health.dismiss_keys.len(), 3);
    let nag = health.untagged.as_ref().unwrap();
    assert_eq!((nag.severity, nag.share), (IssueSeverity::Warning, amount(0.4)));
    let names: Vec<&str> = nag.top_services.iter().map(|one| one.0.as_str()).collect();
    assert_eq!(names, vec!["AWS \u{b7} EC2", "AWS \u{b7} Other"]);
    let card = health.card(amount(40.0), "USD", true);
    assert!(card.dismissable);
    assert_eq!(
        card.nag.unwrap().headline,
        "$4.00 of usage is untagged this period (40.0% of all usage)"
    );
}

#[test]
fn a_dismissed_nag_leaves_the_totals() {
    let dismissed = vec!["untagged_usage:2026-09".to_string()];
    let parts = gather_health(&findings(), &dismissed);
    assert!(parts.untagged_terms.is_empty() && parts.usage_terms.is_empty());
    assert!(parts.top_services.is_empty());
    let health = load_health(parts, amount(0.0), amount(0.0), amount(f64::NAN));
    assert!(health.untagged.is_none());
    assert_eq!(health.dismiss_keys.len(), 2);
}

#[test]
fn accounts_of_one_period_are_checked_once() {
    let mut store = Store::new("USD");
    assert!(health_periods(&store, on(5)).unwrap().is_empty());
    store.accounts = vec![account("a", "AWS"), account("b", "Aliyun")];
    assert_eq!(health_periods(&store, on(5)).unwrap(), vec!["2026-09"]);
}

// ==================== Adding an account ====================

fn filled(name: &str, key: &str, secret: &str) -> AccountsView {
    let mut view = AccountsView::new();
    view.show_add_dialog();
    view.set_source(cloud::get("AWS").unwrap());
    view.form.name = name.to_string();
    view.form.access_key = key.to_string();
    view.form.secret_key = secret.to_string();
    view
}

fn fault(mut view: AccountsView) -> String {
    assert!(view.save_account(on(1)).is_none());
    assert!(!view.saving);
    view.dialog_error.unwrap()
}

#[test]
fn the_form_says_what_is_missing() {
    let source = cloud::get("AWS").unwrap();
    assert_eq!(fault(filled("", "AKIA", "shh")), "Enter a name for the account.");
    if !source.credentials_optional() {
        assert_eq!(fault(filled("Main", "", "")), format!("Enter the {}.", source.access_key_label));
    }
    assert_eq!(
        fault(filled("Main", "AKIA", "")),
        format!("Enter the {}.", source.secret_key_label.unwrap())
    );
    let mut view = filled("Main", "AKIA", "shh");
    view.form.export_uri = "https://bucket".to_string();
    assert_eq!(
        fault(view),
        "The export URI starts with s3://, e.g. s3://bucket/prefix/export-name."
    );
}

#[test]
fn a_draft_is_saved_and_fetched() {
    let mut view = filled("Main", "AKIA", "shh");
    view.form.export_uri = " s3://bucket/x ".to_string();
    let draft = view.save_account(on(1)).unwrap();
    assert!(view.saving && view.save_account(on(1)).is_none());
    assert_eq!(draft.account.export_uri.as_deref(), Some("s3://bucket/x"));
    assert_eq!(draft.account.id.len(), 36);
    assert!(draft.account.enabled);
    let after = view.account_saved(&draft, Ok(()));
    assert!(!view.saving && !view.show_add_dialog);
    if draft.fetch_after_save {
        assert_eq!(after, AfterSave::Fetch);
        assert_eq!(view.banners.info.as_deref(), Some("Added Main. Fetching its bill\u{2026}"));
        let none = RefreshOutcome { ingested: vec![], skipped_fresh: vec![] };
        view.first_bill_fetched("Main", Ok(none));
        assert_eq!(view.banners.success.as_deref(), Some("Added Main. No bill to fetch yet."));
        let some = RefreshOutcome {
            ingested: vec![("2026-09".to_string(), outcome(7))],
            skipped_fresh: vec![],
        };
        view.first_bill_fetched("Main", Ok(some));
        assert_eq!(view.banners.success.as_deref(), Some("Added Main and fetched 7 charge(s)."));
    }
    let draft = filled("Main", "AKIA", "shh").save_account(on(1)).unwrap();
    let mut view = filled("Main", "AKIA", "shh");
    assert_eq!(view.account_saved(&draft, Err(Error::new("full"))), AfterSave::Nothing);
    assert_eq!(view.dialog_error.as_deref(), Some("Couldn't save the account: full"));
}

#[test]
fn the_form_is_filled_from_what_was_found() {
    let mut view = filled("Main", "", "");
    view.fill(None, &vec!["a".to_string(), "b".to_string()]);
    assert!(view.fill_status.as_ref().unwrap().caption().starts_with("No credentials found in "));
    let found = FoundCredentials {
        access_key: "AKIA".to_string(),
        secret_key: Some("shh".to_string()),
        region: None,
        origin: "the environment".to_string(),
    };
    view.fill(Some(found), &vec![]);
    assert_eq!(view.form.access_key, "AKIA");
    assert_eq!(view.fill_status.unwrap().caption(), "Filled from the environment");
    assert!(!dialog_fields(&cloud::get("AWS").unwrap()).is_empty());
    let hint = setup_hint("AWS").unwrap();
    assert!(hint.guide_url().contains('#'));
    assert!(setup_hint("Nowhere").is_none());
}

// ==================== Work in flight ====================

#[test]
fn an_account_is_deleted_after_a_question() {
    let mut view = AccountsView::new();
    view.accounts_loaded(Ok(vec![account("a", "AWS")]));
    assert_eq!(view.position("a"), Some(0));
    view.ask_delete_account("a".to_string());
    assert!(view.delete_dialog().unwrap().question.starts_with("Delete \"Main\"?"));
    view.cancel_delete();
    assert!(view.delete_dialog().is_none());
    view.ask_delete_account("a".to_string());
    assert_eq!(view.confirm_delete().as_deref(), Some("a"));
    assert_eq!(view.deleting_ids, vec!["a"]);
    view.account_deleted("a", Err(Error::new("locked")));
    assert!(view.deleting_ids.is_empty());
    assert_eq!(view.banners.error.as_deref(), Some("Delete failed: locked"));
}

#[test]
fn a_validation_reports_its_outcome() {
    let one = account("a", "AWS");
    let mut view = AccountsView::new();
    view.accounts_loaded(Ok(vec![account("a", "AWS")]));
    assert!(view.validate_account(&one, Err(Error::new("no key"))).is_none());
    assert_eq!(view.banners.error.as_deref(), Some("Cannot validate Main: no key"));
    let context = SourceContext {
        access_key_id: "AKIA".to_string(),
        secret_access_key: "shh".to_string(),
        region: None,
        export_uri: None,
    };
    assert!(view.validate_account(&one, Ok(context)).is_some());
    assert_eq!(view.validating_ids, vec!["a"]);
    assert_eq!(view.banners.info.as_deref(), Some("Validating account Main..."));
    view.account_validated("a", "Main", Ok(false));
    assert!(view.validating_ids.is_empty());
    assert_eq!(view.banners.error.as_deref(), Some("Account Main credentials invalid"));
    view.account_validated("a", "Main", Ok(true));
    assert_eq!(view.banners.success.as_deref(), Some("Account Main validated successfully!"));
    view.account_validated("a", "Main", Err(Error::new("offline")));
    assert_eq!(view.banners.error.as_deref(), Some("Validation failed: offline"));
    view.account_validated("gone", "Gone", Ok(true));
    assert_eq!(view.banners.error.as_deref(), Some("Validation failed: offline"));
}

#[test]
fn an_old_fade_leaves_a_newer_banner() {
    let mut view = AccountsView::new();
    view.replay_normalization();
    let fade = view.replayed(Ok(ReplayOutcome { periods: 2, charges: 9 })).unwrap();
    assert_eq!(
        view.banners.success.as_deref(),
        Some("Re-normalized 2 period(s), 9 charge(s) written")
    );
    view.banners.fade(fade - 1);
    assert!(view.banners.success.is_some());
    view.banners.fade(fade);
    assert!(view.banners.success.is_none());
}

#[test]
fn the_page_keeps_its_health_when_a_read_fails() {
    let mut view = AccountsView::new();
    assert!(view.ensure_loaded());
    assert!(!view.ensure_loaded());
    let parts = gather_health(&findings(), &vec![]);
    let health = load_health(parts, amount(4.0), amount(10.0), amount(0.4));
    view.data_loaded(Err(Error::new("no store")), Some(health));
    assert_eq!(view.banners.error.as_deref(), Some("Failed to load account data: no store"));
    assert!(view.health.is_some());
    let keys = view.dismiss_health();
    assert_eq!(keys.len(), 3);
}
