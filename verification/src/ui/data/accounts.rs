//! The accounts page: what each account costs, how fresh it is, and how it is
//! doing.
use vstd::prelude::*;

use super::detail;
use super::flows;
use super::flows::gather;
use super::month;
use super::page::BUSINESS_LINE_TAG;
use crate::alerts::{AlertKind, AlertView};
use crate::amount::Amount;
use crate::calendar;
use crate::calendar::{BillingPeriod, Timestamp};
use crate::cloud;
use crate::cloud::SourceDescriptor;
use crate::db;
use crate::error::Error;
use crate::ingest;
use crate::ingest::{period_key, RefreshOutcome, ReplayOutcome};
use crate::ledger::buckets::copy_amounts;
use crate::ledger::history;
use crate::ledger::query;
use crate::ledger::ranked;
use crate::ledger::scope;
use crate::list;
use crate::memory;
use crate::memory::{json_text, NormalizedRow, Store};
use crate::model::{Balance, CloudAccount, Reporting, UntaggedCharge};
use crate::text::same_text;

verus! {

/// The ceiling of paid fetches that the budget card measures against.
pub const API_CALL_CEILING: u32 = 100;

/// The state of an account.
#[derive(Clone, Copy, PartialEq, Eq, Structural, Debug)]
pub enum AccountState {
    Healthy,
    Anomaly,
    UntaggedSpend,
    LowBalance,
}

impl AccountState {
    pub fn label(self) -> (res: &'static str)
        ensures
            res@ == (match self {
                AccountState::Healthy => "Healthy"@,
                AccountState::Anomaly => "Anomaly"@,
                AccountState::UntaggedSpend => "Unallocated spend"@,
                AccountState::LowBalance => "Low balance"@,
            }),
    {
        match self {
            AccountState::Healthy => "Healthy",
            AccountState::Anomaly => "Anomaly",
            AccountState::UntaggedSpend => "Unallocated spend",
            AccountState::LowBalance => "Low balance",
        }
    }
}

/// One row of the accounts table.
#[derive(Debug)]
pub struct AccountRowData {
    pub id: String,
    pub name: String,
    /// The source's display name.
    pub provider: String,
    /// What the source reports.
    pub source_kind: String,
    /// Month-to-date charges, in the reporting currency.
    pub mtd: Amount,
    /// The latest balance and its own currency, for a source that reports one.
    pub balance: Option<(Amount, String)>,
    /// When the account's rows were last ingested, if ever.
    pub last_sync: Option<Timestamp>,
    pub state: AccountState,
}

/// The card of paid fetches.
#[derive(Clone, Copy, Debug)]
pub struct BudgetCardData {
    /// Calls used this month.
    pub used: i64,
    /// Monthly call ceiling.
    pub ceiling: u32,
    /// What those calls cost.
    pub spent: Amount,
}

/// The card of stored raw payloads.
#[derive(Debug)]
pub struct RawPayloadsData {
    /// The size of the store in bytes.
    pub bytes: u64,
    /// Where it lives.
    pub path: String,
}

/// Everything the page shows.
#[derive(Debug)]
pub struct AccountsData {
    pub currency: String,
    pub accounts: Vec<AccountRowData>,
    pub budget: BudgetCardData,
    pub raw: RawPayloadsData,
}

// ==================== Kind of source ====================

/// What a source reports, as the table's kind column.
pub open spec fn kind_of(source: cloud::SourceFacts) -> Seq<char> {
    if source.reporting == Reporting::Snapshot {
        "Balance only"@
    } else if source.fetches_from_api && source.bill_file is Some {
        "Cost API + bill import"@
    } else if source.fetches_from_api {
        "Cost API"@
    } else if source.bill_file is Some {
        "Bill import"@
    } else {
        "None"@
    }
}

/// What a source reports, as the table's kind column.
pub fn source_kind(descriptor: &SourceDescriptor) -> (res: String)
    ensures
        res@ == kind_of(descriptor@),
{
    if descriptor.is_snapshot() {
        "Balance only".to_owned()
    } else if descriptor.fetches_from_api() {
        if descriptor.imports_bill_file() {
            "Cost API + bill import".to_owned()
        } else {
            "Cost API".to_owned()
        }
    } else if descriptor.imports_bill_file() {
        "Bill import".to_owned()
    } else {
        "None".to_owned()
    }
}

// ==================== State of an account ====================

/// An alert of a kind whose context names a value.
pub open spec fn names(kind: AlertKind, key: Seq<char>, value: Seq<char>) -> spec_fn(
    AlertView,
) -> bool {
    |alert: AlertView|
        alert.kind == kind && memory::json_member(alert.context@, key) == Some(value)
}

/// Some alert does.
pub open spec fn any_alert(alerts: Seq<AlertView>, test: spec_fn(AlertView) -> bool) -> bool {
    exists|i: int| 0 <= i < alerts.len() && test(#[trigger] alerts[i])
}

/// The state of an account: the worst that applies.
///
/// A low balance comes first, then a cost anomaly of the account's source, then
/// a share of untagged usage above the threshold where anything was charged.
pub open spec fn state_of(
    account_id: Seq<char>,
    is_snapshot: bool,
    provider: Seq<char>,
    open: Seq<AlertView>,
    total: Amount,
    untagged_share: Amount,
    threshold: Amount,
) -> AccountState {
    if is_snapshot && any_alert(open, names(AlertKind::Balance, "account_id"@, account_id)) {
        AccountState::LowBalance
    } else if any_alert(open, names(AlertKind::CostAnomaly, "provider"@, provider)) {
        AccountState::Anomaly
    } else if total.is_positive() && threshold.lt(untagged_share) {
        AccountState::UntaggedSpend
    } else {
        AccountState::Healthy
    }
}

fn find_alert(alerts: &Vec<AlertView>, kind: AlertKind, key: &str, value: &str) -> (res: bool)
    ensures
        res == any_alert(alerts@, names(kind, key@, value@)),
{
    let ghost test = names(kind, key@, value@);
    let mut i: usize = 0;
    while i < alerts.len()
        invariant
            i <= alerts.len(),
            test == names(kind, key@, value@),
            forall|j: int| 0 <= j < i ==> !test(#[trigger] alerts@[j]),
        decreases alerts.len() - i,
    {
        if alerts[i].kind == kind {
            if let Some(found) = json_text(&alerts[i].context, key) {
                if same_text(&found, value) {
                    proof {
                        assert(test(alerts@[i as int]));
                    }
                    return true;
                }
            }
        }
        i = i + 1;
    }
    false
}

/// The state of an account: the worst that applies. `total` is what the account
/// was charged this month, `untagged_share` the untagged usage of its source
/// over that total, read only where the total is above zero.
pub fn account_state(
    account: &CloudAccount,
    is_snapshot: bool,
    provider: &str,
    open: &Vec<AlertView>,
    total: Amount,
    untagged_share: Amount,
    threshold: Amount,
) -> (res: AccountState)
    ensures
        res == state_of(
            account.id@,
            is_snapshot,
            provider@,
            open@,
            total,
            untagged_share,
            threshold,
        ),
{
    if is_snapshot && find_alert(open, AlertKind::Balance, "account_id", &account.id) {
        return AccountState::LowBalance;
    }
    if find_alert(open, AlertKind::CostAnomaly, "provider", provider) {
        return AccountState::Anomaly;
    }
    if total.positive() && threshold.less_than(untagged_share) {
        return AccountState::UntaggedSpend;
    }
    AccountState::Healthy
}

pub open spec fn untagged_items(charges: Seq<UntaggedCharge>) -> Seq<(String, Amount)> {
    charges.map_values(|c: UntaggedCharge| (c.provider, c.amount))
}

/// The untagged usage of a period by source, for all accounts at once.
pub fn untagged_usage_by_provider(charges: &Vec<UntaggedCharge>) -> (res: Vec<(String, Vec<Amount>)>)
    ensures
        flows::gathered(res@, untagged_items(charges@)),
{
    let mut items: Vec<(String, Amount)> = Vec::new();
    let mut i: usize = 0;
    while i < charges.len()
        invariant
            i <= charges.len(),
            items@ == untagged_items(charges@).take(i as int),
        decreases charges.len() - i,
    {
        items.push((charges[i].provider.clone(), charges[i].amount));
        i = i + 1;
        proof {
            assert(items@ =~= untagged_items(charges@).take(i as int));
        }
    }
    proof {
        assert(items@ =~= untagged_items(charges@));
    }
    gather(&items)
}

// ==================== Rows ====================

/// Being the ingest of an account.
pub open spec fn ingest_of(provider: Seq<char>, account_id: Seq<char>) -> spec_fn(
    (String, String, Timestamp),
) -> bool {
    |ingest: (String, String, Timestamp)| ingest.0@ == provider && ingest.1@ == account_id
}

/// When an account was last ingested: as the ledger knows it, else as the
/// account was stamped.
pub open spec fn synced_at(
    ingests: Seq<(String, String, Timestamp)>,
    provider: Seq<char>,
    account_id: Seq<char>,
    stamped: Option<Timestamp>,
) -> Option<Timestamp> {
    match list::first_index(ingests, ingest_of(provider, account_id)) {
        Some(i) => Some(ingests[i].2),
        None => stamped,
    }
}

/// When an account was last ingested: as the ledger knows it, else as the
/// account was stamped.
pub fn last_sync(
    ingests: &Vec<(String, String, Timestamp)>,
    provider: &str,
    account: &CloudAccount,
) -> (res: Option<Timestamp>)
    ensures
        res == synced_at(ingests@, provider@, account.id@, account.last_synced_at),
{
    let accepts = |ingest: &(String, String, Timestamp)| -> (b: bool)
        ensures
            b == (ingest.0@ == provider@ && ingest.1@ == account.id@)
    { same_text(&ingest.0, provider) && same_text(&ingest.1, &account.id) };
    match list::position(ingests, accepts, Ghost(ingest_of(provider@, account.id@))) {
        Some(i) => Some(ingests[i].2),
        None => account.last_synced_at,
    }
}

/// `row` shows an account of a registered source.
pub open spec fn shows_account(
    row: AccountRowData,
    account: CloudAccount,
    source: cloud::SourceFacts,
    mtd: Amount,
    balance: Option<Balance>,
    last_sync: Option<Timestamp>,
    state: AccountState,
) -> bool {
    &&& row.id@ == account.id@
    &&& row.name@ == account.name@
    &&& row.provider@ == source.display_name
    &&& row.source_kind@ == kind_of(source)
    &&& row.mtd == mtd
    &&& match balance {
        Some(balance) => row.balance == Some((balance.balance, balance.currency)),
        None => row.balance is None,
    }
    &&& row.last_sync == last_sync
    &&& row.state == state
}

/// The row of an account, or nothing for an account of a source that is not
/// registered.
pub fn account_row(
    account: &CloudAccount,
    mtd: Amount,
    balance: Option<Balance>,
    last_sync: Option<Timestamp>,
    state: AccountState,
) -> (res: Option<AccountRowData>)
    ensures
        match cloud::source_of(account.source_id.id@) {
            Some(source) => res is Some && shows_account(
                res->0,
                *account,
                source,
                mtd,
                balance,
                last_sync,
                state,
            ),
            None => res is None,
        },
{
    match account.descriptor() {
        Some(descriptor) => Some(
            AccountRowData {
                id: account.id.clone(),
                name: account.name.clone(),
                provider: descriptor.display_name.to_owned(),
                source_kind: source_kind(&descriptor),
                mtd,
                balance: match balance {
                    Some(balance) => Some((balance.balance, balance.currency)),
                    None => None,
                },
                last_sync,
                state,
            },
        ),
        None => None,
    }
}

/// The card of stored raw payloads. A store that cannot be measured counts as
/// empty, and one whose place is not known shows none.
pub fn raw_payloads(size: Result<u64, Error>, path: Result<String, Error>) -> (res: RawPayloadsData)
    ensures
        match size {
            Ok(bytes) => {
                &&& res.bytes == bytes
                &&& match path {
                    Ok(path) => res.path@ == path@,
                    Err(_) => res.path@.len() == 0,
                }
            },
            Err(_) => res.bytes == 0 && res.path@.len() == 0,
        },
{
    match size {
        Ok(bytes) => match path {
            Ok(path) => RawPayloadsData { bytes, path },
            Err(_) => RawPayloadsData { bytes, path: String::new() },
        },
        Err(_) => RawPayloadsData { bytes: 0, path: String::new() },
    }
}

// ==================== The page ====================

/// What the table asks of the store about one account.
#[derive(Debug)]
pub struct AccountRead {
    pub account: CloudAccount,
    /// What its bill of the month adds up.
    pub mtd: Vec<Amount>,
    pub balance: Option<Balance>,
    pub last_sync: Option<Timestamp>,
}

/// What the page asks of the store.
#[derive(Debug)]
pub struct AccountsReads {
    pub accounts: Vec<AccountRead>,
    /// When each account was last ingested.
    pub ingests: Vec<(String, String, Timestamp)>,
    /// The month's untagged usage by source.
    pub untagged: Vec<(String, Vec<Amount>)>,
    /// Paid fetches this month.
    pub used: i64,
}

/// Being the untagged usage of a source.
pub open spec fn untagged_in(source: Seq<char>) -> spec_fn((String, Vec<Amount>)) -> bool {
    |row: (String, Vec<Amount>)| row.0@ == source
}

impl AccountsReads {
    /// The amounts that a source's untagged usage adds up, none where it has none.
    pub fn untagged_of(&self, source: &str) -> (res: Vec<Amount>)
        ensures
            res@ == (match list::first_index(self.untagged@, untagged_in(source@)) {
                Some(i) => self.untagged@[i].1@,
                None => Seq::empty(),
            }),
    {
        let accepts = |row: &(String, Vec<Amount>)| -> (b: bool)
            ensures
                b == (row.0@ == source@)
            { same_text(&row.0, source) };
        match list::position(&self.untagged, accepts, Ghost(untagged_in(source@))) {
            Some(i) => copy_amounts(&self.untagged[i].1),
            None => Vec::new(),
        }
    }
}

/// `read` is what the table asks about an account.
pub open spec fn reads_account(
    read: AccountRead,
    account: CloudAccount,
    ingests: Seq<(String, String, Timestamp)>,
    store: Store,
    all: Seq<NormalizedRow>,
    now: Timestamp,
) -> bool {
    &&& read.account == account
    &&& read.mtd@ == scope::base_amounts(
        scope::rows_in(all, detail::charged_this_month(account, now)),
    )
    &&& read.balance == history::balance_of(store.balances@, account.source_id.id@, account.id@)
    &&& read.last_sync == synced_at(
        ingests,
        account.source_id.id@,
        account.id@,
        account.last_synced_at,
    )
}

/// `reads` is what the page asks of the store.
pub open spec fn reads_accounts(
    reads: AccountsReads,
    store: Store,
    all: Seq<NormalizedRow>,
    now: Timestamp,
) -> bool {
    let accounts = store.accounts@.filter(db::source_known());
    let charges = ranked::untagged_charges(all, month::this_month(now), BUSINESS_LINE_TAG@);
    &&& reads.accounts@.len() == accounts.len()
    &&& forall|i: int|
        #![trigger reads.accounts@[i]]
        0 <= i < accounts.len() ==> reads_account(
            reads.accounts@[i],
            accounts[i],
            reads.ingests@,
            store,
            all,
            now,
        )
    &&& history::ingests_of(reads.ingests@, store.periods@)
    &&& flows::gathered(
        reads.untagged@,
        untagged_items(
            ranked::first(
                ranked::sorted_by_amount(charges, ranked::untagged_amounts(charges)),
                usize::MAX as nat,
            ),
        ),
    )
    &&& reads.used == store.periods@.filter(history::fetched_in(month::this_month(now))).len()
}

/// Ask the store for the page.
pub fn accounts_reads(store: &Store, all: &Vec<NormalizedRow>, now: Timestamp) -> (res: Result<
    AccountsReads,
    Error,
>)
    requires
        now.valid(),
        store.periods@.len() <= i64::MAX,
    ensures
        res is Ok,
        reads_accounts(res->Ok_0, *store, all@, now),
{
    let period = BillingPeriod::containing(now);
    let accounts = match db::get_all_accounts(store) {
        Ok(accounts) => accounts,
        Err(e) => {
            return Err(e);
        },
    };
    let ingests = history::last_ingests(store);
    let mut reads: Vec<AccountRead> = Vec::new();
    let mut i: usize = 0;
    while i < accounts.len()
        invariant
            i <= accounts.len(),
            period.valid(),
            period == calendar::period_of(now),
            reads@.len() == i,
            forall|k: int|
                #![trigger reads@[k]]
                0 <= k < i ==> reads_account(
                    reads@[k],
                    accounts@[k],
                    ingests@,
                    *store,
                    all@,
                    now,
                ),
        decreases accounts.len() - i,
    {
        let account = &accounts[i];
        let provider = account.source_id.as_str();
        let mtd = query::period_total(all, &period_key(account, &period));
        let balance = history::latest_balance(store, provider, &account.id);
        let synced = last_sync(&ingests, provider, account);
        reads.push(AccountRead { account: account.clone(), mtd, balance, last_sync: synced });
        i = i + 1;
    }
    let label = period.label();
    let charges = ranked::untagged_detail(all, &label, BUSINESS_LINE_TAG, usize::MAX);
    let untagged = untagged_usage_by_provider(&charges);
    let used = history::api_fetches_this_month(store, now);
    Ok(AccountsReads { accounts: reads, ingests, untagged, used })
}

/// What only arithmetic adds to what was read of an account.
#[derive(Clone, Copy, Debug)]
pub struct AccountFigures {
    /// What its bill of the month comes to.
    pub mtd: Amount,
    /// The untagged usage of its source over that.
    pub untagged_share: Amount,
}

/// `row` shows what was read of an account.
pub open spec fn shows_read(
    row: AccountRowData,
    read: AccountRead,
    figures: AccountFigures,
    open: Seq<AlertView>,
    threshold: Amount,
) -> bool {
    let source = cloud::source_of(read.account.source_id.id@)->0;
    shows_account(
        row,
        read.account,
        source,
        figures.mtd,
        read.balance,
        read.last_sync,
        state_of(
            read.account.id@,
            source.reporting == Reporting::Snapshot,
            source.id,
            open,
            figures.mtd,
            figures.untagged_share,
            threshold,
        ),
    )
}

/// Being read of an account of a registered source.
pub open spec fn sourced() -> spec_fn((AccountRead, AccountFigures)) -> bool {
    |read: (AccountRead, AccountFigures)| cloud::source_of(read.0.account.source_id.id@) is Some
}

/// What was read of every account, with its figures.
pub open spec fn with_figures(
    reads: Seq<AccountRead>,
    figures: Seq<AccountFigures>,
) -> Seq<(AccountRead, AccountFigures)> {
    Seq::new(reads.len(), |i: int| (reads[i], figures[i]))
}

fn rows_of_reads(
    reads: &Vec<AccountRead>,
    figures: &Vec<AccountFigures>,
    open: &Vec<AlertView>,
    threshold: Amount,
) -> (res: Vec<AccountRowData>)
    requires
        figures@.len() == reads@.len(),
    ensures
        ({
            let known = with_figures(reads@, figures@).filter(sourced());
            &&& res@.len() == known.len()
            &&& forall|i: int|
                #![trigger res@[i]]
                0 <= i < known.len() ==> shows_read(
                    res@[i],
                    known[i].0,
                    known[i].1,
                    open@,
                    threshold,
                )
        }),
{
    let ghost all = with_figures(reads@, figures@);
    let mut rows: Vec<AccountRowData> = Vec::new();
    let mut i: usize = 0;
    proof {
        reveal(Seq::filter);
        assert(all.take(0).filter(sourced()) =~= Seq::empty());
    }
    while i < reads.len()
        invariant
            i <= reads.len(),
            figures@.len() == reads@.len(),
            all == with_figures(reads@, figures@),
            rows@.len() == all.take(i as int).filter(sourced()).len(),
            forall|k: int|
                #![trigger rows@[k]]
                0 <= k < rows@.len() ==> shows_read(
                    rows@[k],
                    all.take(i as int).filter(sourced())[k].0,
                    all.take(i as int).filter(sourced())[k].1,
                    open@,
                    threshold,
                ),
        decreases reads.len() - i,
    {
        proof {
            reveal(Seq::filter);
            assert(all.take(i + 1).drop_last() =~= all.take(i as int));
            assert(all.take(i + 1).last() == (reads@[i as int], figures@[i as int]));
        }
        let read = &reads[i];
        if let Some(source) = read.account.descriptor() {
            let state = account_state(
                &read.account,
                source.is_snapshot(),
                source.id,
                open,
                figures[i].mtd,
                figures[i].untagged_share,
                threshold,
            );
            let balance = match &read.balance {
                Some(balance) => Some(balance.clone()),
                None => None,
            };
            if let Some(row) = account_row(
                &read.account,
                figures[i].mtd,
                balance,
                read.last_sync,
                state,
            ) {
                rows.push(row);
            }
        }
        i = i + 1;
    }
    proof {
        assert(all.take(i as int) =~= all);
    }
    rows
}

/// The page, from what was read and added up: a row for every account of a
/// registered source, the card of paid fetches, of which `spent` is the cost,
/// and the card of raw payloads.
pub fn load_accounts(
    reads: &AccountsReads,
    figures: &Vec<AccountFigures>,
    open: &Vec<AlertView>,
    threshold: Amount,
    currency: String,
    spent: Amount,
    raw: RawPayloadsData,
) -> (res: AccountsData)
    requires
        figures@.len() == reads.accounts@.len(),
    ensures
        res.currency == currency,
        ({
            let known = with_figures(reads.accounts@, figures@).filter(sourced());
            &&& res.accounts@.len() == known.len()
            &&& forall|i: int|
                #![trigger res.accounts@[i]]
                0 <= i < known.len() ==> shows_read(
                    res.accounts@[i],
                    known[i].0,
                    known[i].1,
                    open@,
                    threshold,
                )
        }),
        res.budget.used == reads.used,
        res.budget.ceiling == 100,
        res.budget.spent == spent,
        res.raw == raw,
{
    let accounts = rows_of_reads(&reads.accounts, figures, open, threshold);
    AccountsData {
        currency,
        accounts,
        budget: BudgetCardData { used: reads.used, ceiling: API_CALL_CEILING, spent },
        raw,
    }
}

// ==================== Names ====================

/// Id and name of every account, for the pickers.
pub fn account_names(store: &Store) -> (res: Result<Vec<(String, String)>, Error>)
    ensures
        res is Ok,
        res->Ok_0@ == store.accounts@.filter(db::source_known()).map_values(
            |a: CloudAccount| (a.id, a.name),
        ),
{
    let mut names: Vec<(String, String)> = Vec::new();
    let accounts = match db::get_all_accounts(store) {
        Ok(accounts) => accounts,
        Err(e) => {
            return Err(e);
        },
    };
    let mut i: usize = 0;
    while i < accounts.len()
        invariant
            i <= accounts.len(),
            names@.len() == i,
            forall|k: int| 0 <= k < i ==> #[trigger] names@[k] == (accounts@[k].id, accounts@[k].name),
        decreases accounts.len() - i,
    {
        names.push((accounts[i].id.clone(), accounts[i].name.clone()));
        i = i + 1;
    }
    proof {
        assert(names@ =~= store.accounts@.filter(db::source_known()).map_values(
            |a: CloudAccount| (a.id, a.name),
        ));
    }
    Ok(names)
}

// ==================== Freshness of everything ====================

/// The sync summary in the status bar.
#[derive(Clone, Copy, Debug)]
pub struct SyncStatus {
    /// The freshest ingest across all accounts, if any.
    pub last_synced_at: Option<Timestamp>,
    /// How many accounts are configured.
    pub source_count: usize,
    /// When the next automatic fetch is due; `None` before the first sync.
    pub next_fetch_at: Option<Timestamp>,
}

/// The latest of the ingests.
pub open spec fn latest_ingest(ingests: Seq<(String, String, Timestamp)>) -> Option<Timestamp>
    decreases ingests.len(),
{
    if ingests.len() == 0 {
        None
    } else {
        match latest_ingest(ingests.drop_last()) {
            Some(at) => Some(at.later_of(ingests.last().2)),
            None => Some(ingests.last().2),
        }
    }
}

/// The latest of the ingests is one of them, and none is later.
pub proof fn latest_ingest_is_latest(ingests: Seq<(String, String, Timestamp)>)
    ensures
        match latest_ingest(ingests) {
            Some(at) => {
                &&& exists|i: int| 0 <= i < ingests.len() && (#[trigger] ingests[i]).2 == at
                &&& forall|i: int| 0 <= i < ingests.len() ==> !at.before((#[trigger] ingests[i]).2)
            },
            None => ingests.len() == 0,
        },
    decreases ingests.len(),
{
    if ingests.len() > 0 {
        let rest = ingests.drop_last();
        latest_ingest_is_latest(rest);
        assert forall|i: int| 0 <= i < rest.len() implies rest[i] == #[trigger] ingests[i] by {}
        match latest_ingest(rest) {
            Some(at) => {
                let k = choose|k: int| 0 <= k < rest.len() && (#[trigger] rest[k]).2 == at;
                assert(ingests[k].2 == at);
                assert(ingests[ingests.len() - 1] == ingests.last());
            },
            None => {
                assert(ingests[0] == ingests.last());
            },
        }
    }
}

/// The next fetch lies within the calendar.
pub open spec fn fetch_reaches(last: Option<Timestamp>, hours: u32) -> bool {
    match last {
        Some(at) => at.valid() && at.seconds + hours * 3600 <= crate::calendar::MAX_SECONDS,
        None => true,
    }
}

/// The sync summary: the freshest ingest, how many accounts there are, and when
/// the next fetch is due, `hours` after the freshest ingest.
pub fn load_sync_status(
    accounts: &Vec<CloudAccount>,
    ingests: &Vec<(String, String, Timestamp)>,
    hours: u32,
) -> (res: SyncStatus)
    requires
        fetch_reaches(latest_ingest(ingests@), hours),
    ensures
        res.last_synced_at == latest_ingest(ingests@),
        res.source_count == accounts@.len(),
        match latest_ingest(ingests@) {
            Some(at) => {
                &&& res.next_fetch_at is Some
                &&& res.next_fetch_at->0.seconds == at.seconds + hours * 3600
                &&& res.next_fetch_at->0.nanos == at.nanos
            },
            None => res.next_fetch_at is None,
        },
{
    let mut last: Option<Timestamp> = None;
    let mut i: usize = 0;
    while i < ingests.len()
        invariant
            i <= ingests.len(),
            last == latest_ingest(ingests@.take(i as int)),
        decreases ingests.len() - i,
    {
        proof {
            assert(ingests@.take(i + 1).drop_last() =~= ingests@.take(i as int));
            assert(ingests@.take(i + 1).last() == ingests@[i as int]);
        }
        last = match last {
            Some(at) => Some(at.max(ingests[i].2)),
            None => Some(ingests[i].2),
        };
        i = i + 1;
    }
    proof {
        assert(ingests@.take(i as int) =~= ingests@);
    }
    let next_fetch_at = match last {
        Some(at) => Some(at.plus_hours(hours as i64)),
        None => None,
    };
    SyncStatus { last_synced_at: last, source_count: accounts.len(), next_fetch_at }
}

// ==================== Fetching ====================

/// Bring one account's ledger up to date.
pub fn refresh_account(account: &CloudAccount, force: bool) -> (res: Result<RefreshOutcome, Error>)
    ensures
        res is Ok,
        res->Ok_0.ingested@.len() == 0,
        res->Ok_0.skipped_fresh@.len() == 0,
{
    ingest::refresh_account(account, force)
}

/// Re-normalize every stored payload without fetching anything.
pub fn replay_normalization() -> (res: Result<ReplayOutcome, Error>)
    ensures
        res is Ok,
        res->Ok_0.periods == 0,
        res->Ok_0.charges == 0,
{
    ingest::replay_all()
}

/// The currency that amounts are read in: the configured one, or `fallback`
/// where the configuration cannot be read.
pub fn reporting_currency(configured: Result<String, Error>, fallback: &str) -> (res: String)
    ensures
        match configured {
            Ok(currency) => res@ == currency@,
            Err(_) => res@ == fallback@,
        },
{
    match configured {
        Ok(currency) => currency,
        Err(_) => fallback.to_owned(),
    }
}

} // verus!
