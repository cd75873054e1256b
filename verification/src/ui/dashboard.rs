//! The dashboard: the month's totals, a card for every account, and the daily
//! charges behind the card that is expanded.
use vstd::prelude::*;

use super::fmt;
use crate::amount;
use crate::amount::Amount;
use crate::cloud;
use crate::cloud::SourceDescriptor;
use crate::error::Error;
use crate::ledger::ranked::copy_totals;
use crate::list;
use crate::model::CloudAccount;
use crate::order;
use crate::text;
use crate::text::{concat2, concat3, decimal_text, same_text};

verus! {

/// What one account reports.
#[derive(Debug)]
pub struct AccountReport {
    pub account_id: String,
    pub account_name: String,
    pub short_name: String,
    /// The account reports a balance rather than a cost.
    pub snapshot: bool,
    pub currency: String,
    pub amount: Amount,
    /// The change in percent, where there is something to compare with.
    pub month_over_month_change: Option<Amount>,
    pub services: Vec<(String, Amount)>,
}

/// Everything the page shows.
#[derive(Debug)]
pub struct DashboardReport {
    pub reporting_currency: String,
    pub current_month: Amount,
    pub last_month: Amount,
    pub month_over_month_change: Amount,
    /// Charges that are in no total, for want of a rate.
    pub unconverted_charges: u64,
    pub accounts: Vec<AccountReport>,
}

/// What one day charged.
#[derive(Debug)]
pub struct DailyCost {
    pub day: String,
    pub amount: Amount,
}

/// The daily charges of one account.
#[derive(Debug)]
pub struct CostTrend {
    pub account_id: String,
    pub days: Vec<DailyCost>,
}

/// The page.
#[derive(Debug)]
pub struct DashboardView {
    pub report: Option<DashboardReport>,
    pub loading: bool,
    pub error: Option<String>,
    /// The account whose card is expanded.
    pub expanded_account: Option<String>,
    /// The daily charges that were read, each account's once.
    pub cost_trends: Vec<CostTrend>,
    /// The accounts whose daily charges are being read.
    pub loading_trends: Vec<String>,
}

/// What the page shows under its header.
#[derive(Clone, Copy, PartialEq, Eq, Structural, Debug)]
pub enum DashboardBody {
    Loading,
    Failed,
    Summary,
}

/// What the trend of an expanded card shows.
#[derive(Clone, Copy, PartialEq, Eq, Structural, Debug)]
pub enum TrendBody {
    Loading,
    /// The daily charges at this position.
    Chart(usize),
    Prompt,
}

impl TrendBody {
    /// What is said where there is no chart.
    pub fn caption(self) -> (res: Option<&'static str>)
        ensures
            cloud::label_view(res) == (match self {
                TrendBody::Loading => Some("Loading trend data..."@),
                TrendBody::Chart(_) => None,
                TrendBody::Prompt => Some("Trend data will load automatically when expanded"@),
            }),
    {
        match self {
            TrendBody::Loading => Some("Loading trend data..."),
            TrendBody::Chart(_) => None,
            TrendBody::Prompt => Some("Trend data will load automatically when expanded"),
        }
    }
}

/// Being the daily charges of an account.
pub open spec fn trend_of(account_id: Seq<char>) -> spec_fn(CostTrend) -> bool {
    |trend: CostTrend| trend.account_id@ == account_id
}

/// Being a given id.
pub open spec fn is_id(id: Seq<char>) -> spec_fn(String) -> bool {
    |other: String| other@ == id
}

// ==================== Loads ====================

/// Being fetched on a refresh.
pub open spec fn is_enabled() -> spec_fn(CloudAccount) -> bool {
    |account: CloudAccount| account.enabled
}

/// The accounts that a refresh fetches: those that are enabled.
pub fn accounts_to_refresh(accounts: &Vec<CloudAccount>) -> (res: Vec<CloudAccount>)
    ensures
        res@ == accounts@.filter(is_enabled()),
{
    let mut res: Vec<CloudAccount> = Vec::new();
    let mut i: usize = 0;
    proof {
        reveal(Seq::filter);
        assert(accounts@.take(0).filter(is_enabled()) =~= Seq::empty());
    }
    while i < accounts.len()
        invariant
            i <= accounts.len(),
            res@ == accounts@.take(i as int).filter(is_enabled()),
        decreases accounts.len() - i,
    {
        proof {
            reveal(Seq::filter);
            assert(accounts@.take(i + 1).drop_last() =~= accounts@.take(i as int));
            assert(accounts@.take(i + 1).last() == accounts@[i as int]);
        }
        if accounts[i].enabled {
            res.push(accounts[i].clone());
        }
        i = i + 1;
    }
    proof {
        assert(accounts@.take(i as int) =~= accounts@);
    }
    res
}

/// What is said where the accounts cannot be read.
pub fn accounts_failure(error: &Error) -> (res: String)
    ensures
        res@ == "Failed to load data: "@ + error.message@,
{
    concat2("Failed to load data: ", &error.message)
}

/// What is said where the ledger cannot be read.
pub fn ledger_failure(error: &Error) -> (res: String)
    ensures
        res@ == "Failed to read the ledger: "@ + error.message@,
{
    concat2("Failed to read the ledger: ", &error.message)
}

/// How many days of charges to read for an account's trend: `days` is what its
/// source offers. A source that is not known, or that keeps no history, has
/// none.
pub fn trend_window(account: &CloudAccount, days: Option<u32>) -> (res: Result<u32, String>)
    ensures
        match cloud::source_of(account.source_id.id@) {
            None => res is Err && res->Err_0@ == "Unknown billing source"@,
            Some(source) => match days {
                Some(days) => res == Ok::<u32, String>(days),
                None => res is Err && res->Err_0@ == source.display_name
                    + " does not provide usage history"@,
            },
        },
{
    let descriptor = match account.descriptor() {
        Some(descriptor) => descriptor,
        None => {
            return Err("Unknown billing source".to_owned());
        },
    };
    match days {
        Some(days) => Ok(days),
        None => Err(concat2(descriptor.display_name, " does not provide usage history")),
    }
}

/// What is said where an account's trend cannot be read.
pub fn trend_failure(source: &SourceDescriptor, error: &Error) -> (res: String)
    ensures
        res@ == "Failed to read "@ + source.short_name@ + " trend data: "@ + error.message@,
{
    let mut message = concat3("Failed to read ", source.short_name, " trend data: ");
    message.append(&error.message);
    message
}

impl DashboardView {
    /// An empty page, its first load on the way.
    pub fn new() -> (res: DashboardView)
        ensures
            res.report is None,
            res.loading,
            res.error is None,
            res.expanded_account is None,
            res.cost_trends@.len() == 0,
            res.loading_trends@.len() == 0,
    {
        DashboardView {
            report: None,
            loading: true,
            error: None,
            expanded_account: None,
            cost_trends: Vec::new(),
            loading_trends: Vec::new(),
        }
    }

    /// A load starts. What is shown stays until it lands.
    pub fn refresh(&mut self)
        ensures
            *final(self) == (DashboardView { loading: true, error: None, ..*old(self) }),
    {
        self.loading = true;
        self.error = None;
    }

    /// A load starts that fetches everything anew; the daily charges that were
    /// read are read again.
    pub fn force_refresh(&mut self)
        ensures
            *final(self) == (DashboardView {
                loading: true,
                error: None,
                cost_trends: final(self).cost_trends,
                ..*old(self)
            }),
            final(self).cost_trends@.len() == 0,
    {
        self.cost_trends = Vec::new();
        self.refresh();
    }

    /// A load came back. A failure leaves what was shown.
    pub fn loaded(&mut self, result: Result<DashboardReport, String>)
        ensures
            match result {
                Ok(report) => *final(self) == (DashboardView {
                    report: Some(report),
                    loading: false,
                    error: None,
                    ..*old(self)
                }),
                Err(message) => *final(self) == (DashboardView {
                    loading: false,
                    error: Some(message),
                    ..*old(self)
                }),
            },
    {
        self.loading = false;
        match result {
            Ok(report) => {
                self.report = Some(report);
                self.error = None;
            },
            Err(message) => {
                self.error = Some(message);
            },
        }
    }

    /// What the page shows under its header.
    pub fn body(&self) -> (res: DashboardBody)
        ensures
            res == (if self.loading {
                DashboardBody::Loading
            } else if self.error is Some {
                DashboardBody::Failed
            } else {
                DashboardBody::Summary
            }),
    {
        if self.loading {
            DashboardBody::Loading
        } else if self.error.is_some() {
            DashboardBody::Failed
        } else {
            DashboardBody::Summary
        }
    }

    // ==================== Trends ====================

    pub open spec fn is_expanded(self, account_id: Seq<char>) -> bool {
        self.expanded_account is Some && self.expanded_account->0@ == account_id
    }

    pub open spec fn has_trend(self, account_id: Seq<char>) -> bool {
        list::first_index(self.cost_trends@, trend_of(account_id)) is Some
    }

    /// Where an account's daily charges are.
    fn trend_position(&self, account_id: &str) -> (res: Option<usize>)
        ensures
            match list::first_index(self.cost_trends@, trend_of(account_id@)) {
                Some(i) => res is Some && res->0 == i && i < self.cost_trends@.len(),
                None => res is None,
            },
    {
        proof {
            list::first_index_is_first(self.cost_trends@, trend_of(account_id@));
        }
        let accepts = |trend: &CostTrend| -> (b: bool)
            ensures
                b == (trend.account_id@ == account_id@)
        { same_text(&trend.account_id, account_id) };
        list::position(&self.cost_trends, accepts, Ghost(trend_of(account_id@)))
    }

    /// Expand an account's card, or collapse it; whether its daily charges are
    /// now to be read.
    pub fn toggle_account_expand(&mut self, account_id: &str) -> (res: bool)
        ensures
            *final(self) == (DashboardView {
                expanded_account: final(self).expanded_account,
                loading_trends: final(self).loading_trends,
                ..*old(self)
            }),
            order::part_view(final(self).expanded_account) == (if old(self).is_expanded(
                account_id@,
            ) {
                None
            } else {
                Some(account_id@)
            }),
            res == (!old(self).is_expanded(account_id@) && !old(self).has_trend(account_id@)
                && !order::lists(old(self).loading_trends@, account_id@)),
            res ==> order::lists(final(self).loading_trends@, account_id@),
            res ==> final(self).loading_trends@.drop_last() == old(self).loading_trends@,
            !res ==> final(self).loading_trends == old(self).loading_trends,
    {
        if let Some(expanded) = &self.expanded_account {
            if same_text(expanded, account_id) {
                self.expanded_account = None;
                return false;
            }
        }
        self.expanded_account = Some(account_id.to_owned());
        if self.trend_position(account_id).is_some() || order::is_listed(
            &self.loading_trends,
            account_id,
        ) {
            return false;
        }
        let ghost before = self.loading_trends@;
        self.loading_trends.push(account_id.to_owned());
        proof {
            assert(self.loading_trends@.drop_last() =~= before);
            assert(self.loading_trends@[before.len() as int]@ == account_id@);
        }
        true
    }

    /// An account's daily charges came back, or could not be read.
    pub fn trend_loaded(&mut self, account_id: String, result: Option<Vec<DailyCost>>)
        ensures
            *final(self) == (DashboardView {
                cost_trends: final(self).cost_trends,
                loading_trends: final(self).loading_trends,
                ..*old(self)
            }),
            final(self).loading_trends@ == list::without(
                old(self).loading_trends@,
                is_id(account_id@),
            ),
            match result {
                Some(days) => final(self).cost_trends@ == list::upserted(
                    old(self).cost_trends@,
                    trend_of(account_id@),
                    (CostTrend { account_id, days }),
                ),
                None => final(self).cost_trends == old(self).cost_trends,
            },
    {
        list::drop_where(
            &mut self.loading_trends,
            |other: &String| -> (b: bool)
                ensures
                    b == (other@ == account_id@)
                { same_text(other, &account_id) },
            Ghost(is_id(account_id@)),
        );
        if let Some(days) = result {
            let key = account_id.clone();
            list::upsert(
                &mut self.cost_trends,
                CostTrend { account_id, days },
                |trend: &CostTrend| -> (b: bool)
                    ensures
                        b == (trend.account_id@ == key@)
                    { same_text(&trend.account_id, &key) },
                Ghost(trend_of(key@)),
            );
        }
    }

    /// What the trend of an expanded card shows: that it is being read, the
    /// charges that were read, or that they will be.
    pub open spec fn shows_trend(self, account_id: Seq<char>, body: TrendBody) -> bool {
        if order::lists(self.loading_trends@, account_id) {
            body == TrendBody::Loading
        } else {
            match list::first_index(self.cost_trends@, trend_of(account_id)) {
                Some(i) => body == TrendBody::Chart(i as usize) && i < self.cost_trends@.len(),
                None => body == TrendBody::Prompt,
            }
        }
    }

    /// What the trend of an expanded card shows.
    pub fn trend_chart(&self, account_id: &str) -> (res: TrendBody)
        ensures
            self.shows_trend(account_id@, res),
    {
        if order::is_listed(&self.loading_trends, account_id) {
            return TrendBody::Loading;
        }
        match self.trend_position(account_id) {
            Some(i) => TrendBody::Chart(i),
            None => TrendBody::Prompt,
        }
    }

    // ==================== Cards ====================

    /// The totals and the cards, or nothing where there is no account to show.
    /// `symbol` is the sign of the reporting currency, `symbols` those of the
    /// accounts' own currencies.
    pub fn summary(&self, symbol: &str, symbols: &Vec<String>) -> (res: Option<SummaryCards>)
        requires
            self.report is Some ==> symbols@.len() == self.report->0.accounts@.len(),
        ensures
            res is Some <==> self.report is Some && self.report->0.accounts@.len() > 0,
            res is Some ==> {
                let report = self.report->0;
                &&& is_stats(res->0.stats@, report, symbol@)
                &&& order::part_view(res->0.unconverted) == (if report.unconverted_charges > 0 {
                    Some(
                        text::decimal(report.unconverted_charges as nat)
                            + " charge(s) are not included: no exchange rate to "@
                            + report.reporting_currency@,
                    )
                } else {
                    None
                })
                &&& res->0.cost_title@ == "Cost Details by Account"@
                &&& res->0.balance_title@ == "Balance Details by Account"@
                &&& are_cards(
                    res->0.cost@,
                    places(report.accounts@, false),
                    report.accounts@,
                    symbols@,
                    *self,
                )
                &&& are_cards(
                    res->0.balance@,
                    places(report.accounts@, true),
                    report.accounts@,
                    symbols@,
                    *self,
                )
            },
    {
        let report = match &self.report {
            Some(report) => report,
            None => {
                return None;
            },
        };
        if report.accounts.len() == 0 {
            return None;
        }
        let unconverted = if report.unconverted_charges > 0 {
            Some(
                concat3(
                    &decimal_text(report.unconverted_charges),
                    " charge(s) are not included: no exchange rate to ",
                    &report.reporting_currency,
                ),
            )
        } else {
            None
        };
        Some(
            SummaryCards {
                stats: stat_cards(report, symbol),
                unconverted,
                cost_title: "Cost Details by Account",
                cost: self.account_cards(&report.accounts, symbols, false),
                balance_title: "Balance Details by Account",
                balance: self.account_cards(&report.accounts, symbols, true),
            },
        )
    }

    /// The cards of the accounts that report a cost, or of those that report a
    /// balance.
    fn account_cards(
        &self,
        accounts: &Vec<AccountReport>,
        symbols: &Vec<String>,
        snapshot: bool,
    ) -> (res: Vec<AccountCard>)
        requires
            symbols@.len() == accounts@.len(),
        ensures
            are_cards(res@, places(accounts@, snapshot), accounts@, symbols@, *self),
    {
        let mut cards: Vec<AccountCard> = Vec::new();
        let mut i: usize = 0;
        while i < accounts.len()
            invariant
                i <= accounts.len(),
                symbols@.len() == accounts@.len(),
                are_cards(
                    cards@,
                    places(accounts@.take(i as int), snapshot),
                    accounts@,
                    symbols@,
                    *self,
                ),
            decreases accounts.len() - i,
        {
            proof {
                assert(accounts@.take(i + 1).drop_last() =~= accounts@.take(i as int));
                assert(accounts@.take(i + 1).last() == accounts@[i as int]);
            }
            if accounts[i].snapshot == snapshot {
                cards.push(self.account_card(&accounts[i], &symbols[i]));
            }
            i = i + 1;
        }
        proof {
            assert(accounts@.take(i as int) =~= accounts@);
        }
        cards
    }

    /// One account's card. `symbol` is the sign of the account's own currency.
    pub fn account_card(&self, account: &AccountReport, symbol: &str) -> (res: AccountCard)
        ensures
            is_card(res, *account, symbol@, *self),
    {
        let expanded = match &self.expanded_account {
            Some(id) => same_text(id, &account.account_id),
            None => false,
        };
        let (change, direction) = match account.month_over_month_change {
            Some(change) => (
                fmt::change_pct(change),
                if change.less_than(Amount::zero()) {
                    Some(false)
                } else {
                    Some(true)
                },
            ),
            None => ("—".to_owned(), None),
        };
        let details = if expanded {
            Some(
                CardDetails {
                    services_title: "Service Cost Breakdown (This Month)",
                    services: copy_totals(&account.services),
                    trend_title: "Cost Trend",
                    trend: self.trend_chart(&account.account_id),
                },
            )
        } else {
            None
        };
        AccountCard {
            account_id: account.account_id.clone(),
            name: account.account_name.clone(),
            marker: if expanded {
                "▼"
            } else {
                "▶"
            },
            expanded,
            short_name: account.short_name.clone(),
            amount_label: if account.snapshot {
                "Balance"
            } else {
                "This Month"
            },
            amount: concat2(symbol, &fmt::two_decimals(account.amount)),
            change_label: "MoM Change",
            change,
            rises: direction,
            details,
        }
    }
}

/// One figure at the top of the page.
#[derive(Debug)]
pub struct StatCard {
    pub title: &'static str,
    pub value: String,
    /// Whether the figure rises, where it is a change.
    pub rises: Option<bool>,
}

/// What an expanded card shows below its figures.
#[derive(Debug)]
pub struct CardDetails {
    pub services_title: &'static str,
    /// What each service cost, as the chart and its legend show it.
    pub services: Vec<(String, Amount)>,
    pub trend_title: &'static str,
    pub trend: TrendBody,
}

/// One account's card.
#[derive(Debug)]
pub struct AccountCard {
    pub account_id: String,
    pub name: String,
    pub marker: &'static str,
    pub expanded: bool,
    pub short_name: String,
    pub amount_label: &'static str,
    pub amount: String,
    pub change_label: &'static str,
    pub change: String,
    /// Whether the account's cost rises; nothing where there is nothing to
    /// compare with.
    pub rises: Option<bool>,
    /// What the card shows while it is expanded.
    pub details: Option<CardDetails>,
}

/// The totals and the cards.
#[derive(Debug)]
pub struct SummaryCards {
    pub stats: Vec<StatCard>,
    /// How many charges no rate covers.
    pub unconverted: Option<String>,
    pub cost_title: &'static str,
    pub cost: Vec<AccountCard>,
    pub balance_title: &'static str,
    /// Shown with its title only where there are any.
    pub balance: Vec<AccountCard>,
}

/// What is said where there is no account to show.
pub fn empty_prompt() -> (res: &'static str)
    ensures
        res@ == "No data available, please add a cloud account first"@,
{
    "No data available, please add a cloud account first"
}

/// Where the accounts are that report a balance, or those that do not.
pub open spec fn places(accounts: Seq<AccountReport>, snapshot: bool) -> Seq<int>
    decreases accounts.len(),
{
    if accounts.len() == 0 {
        Seq::empty()
    } else {
        let rest = places(accounts.drop_last(), snapshot);
        if accounts.last().snapshot == snapshot {
            rest.push(accounts.len() - 1)
        } else {
            rest
        }
    }
}

/// Every account has its place in one of the two sections, and no account in
/// both.
pub proof fn sections_share_out_the_accounts(accounts: Seq<AccountReport>, at: int)
    requires
        0 <= at < accounts.len(),
    ensures
        places(accounts, accounts[at].snapshot).contains(at),
        !places(accounts, !accounts[at].snapshot).contains(at),
        places(accounts, true).len() + places(accounts, false).len() == accounts.len(),
    decreases accounts.len(),
{
    let last = accounts.len() - 1;
    let rest = accounts.drop_last();
    let own = places(rest, accounts[at].snapshot);
    let other = places(rest, !accounts[at].snapshot);
    let away = places(accounts, !accounts[at].snapshot);
    if rest.len() > 0 {
        sections_share_out_the_accounts(rest, if at < last { at } else { 0 });
    }
    lemma_places_below(rest, true);
    lemma_places_below(rest, false);
    if at < last {
        assert(rest[at].snapshot == accounts[at].snapshot);
        let k = choose|k: int| 0 <= k < own.len() && own[k] == at;
        assert(places(accounts, accounts[at].snapshot)[k] == at);
        assert forall|j: int| 0 <= j < away.len() implies #[trigger] away[j] != at by {
            if j < other.len() {
                assert(other[j] != at);
            }
        }
    } else {
        assert(places(accounts, accounts[at].snapshot)[own.len() as int] == at);
        assert forall|j: int| 0 <= j < away.len() implies #[trigger] away[j] != at by {
            assert(other[j] < rest.len());
        }
    }
}

proof fn lemma_places_below(accounts: Seq<AccountReport>, snapshot: bool)
    ensures
        forall|k: int|
            0 <= k < places(accounts, snapshot).len() ==> 0 <= #[trigger] places(
                accounts,
                snapshot,
            )[k] < accounts.len(),
    decreases accounts.len(),
{
    if accounts.len() > 0 {
        let rest = places(accounts.drop_last(), snapshot);
        lemma_places_below(accounts.drop_last(), snapshot);
        assert forall|k: int| 0 <= k < places(accounts, snapshot).len() implies 0
            <= #[trigger] places(accounts, snapshot)[k] < accounts.len() by {
            if k < rest.len() {
                assert(rest[k] < accounts.drop_last().len());
            }
        }
    }
}

pub open spec fn is_card(
    card: AccountCard,
    account: AccountReport,
    symbol: Seq<char>,
    view: DashboardView,
) -> bool {
    let expanded = view.is_expanded(account.account_id@);
    &&& card.account_id@ == account.account_id@
    &&& card.name@ == account.account_name@
    &&& card.expanded == expanded
    &&& card.marker@ == (if expanded {
        "▼"@
    } else {
        "▶"@
    })
    &&& card.short_name@ == account.short_name@
    &&& card.amount_label@ == (if account.snapshot {
        "Balance"@
    } else {
        "This Month"@
    })
    &&& card.amount@ == symbol + fmt::plain_text(account.amount)
    &&& card.change_label@ == "MoM Change"@
    &&& match account.month_over_month_change {
        Some(change) => {
            &&& card.change@ == fmt::change_text(change)
            &&& card.rises == Some(!change.lt(Amount { bits: 0 }))
        },
        None => card.change@ == "—"@ && card.rises is None,
    }
    &&& card.details is Some <==> expanded
    &&& card.details is Some ==> {
        let details = card.details->0;
        &&& details.services_title@ == "Service Cost Breakdown (This Month)"@
        &&& details.services@ == account.services@
        &&& details.trend_title@ == "Cost Trend"@
        &&& view.shows_trend(account.account_id@, details.trend)
    }
}

/// Cards of the accounts at `at`, in that order.
pub open spec fn are_cards(
    cards: Seq<AccountCard>,
    at: Seq<int>,
    accounts: Seq<AccountReport>,
    symbols: Seq<String>,
    view: DashboardView,
) -> bool {
    &&& cards.len() == at.len()
    &&& forall|k: int|
        0 <= k < cards.len() ==> is_card(
            #[trigger] cards[k],
            accounts[at[k]],
            symbols[at[k]]@,
            view,
        )
}

/// The four figures at the top of the page.
pub open spec fn is_stats(stats: Seq<StatCard>, report: DashboardReport, symbol: Seq<char>) -> bool {
    &&& stats.len() == 4
    &&& stats[0].title@ == "Current Month"@
    &&& stats[0].value@ == symbol + fmt::plain_text(report.current_month)
    &&& stats[0].rises is None
    &&& stats[1].title@ == "Last Month"@
    &&& stats[1].value@ == symbol + fmt::plain_text(report.last_month)
    &&& stats[1].rises is None
    &&& stats[2].title@ == "Month-over-Month"@
    &&& stats[2].value@ == fmt::change_text(report.month_over_month_change)
    &&& stats[2].rises == Some((Amount { bits: 0 }).le(report.month_over_month_change))
    &&& stats[3].title@ == "Active Accounts"@
    &&& stats[3].value@ == text::decimal(report.accounts@.len())
    &&& stats[3].rises is None
}

/// The four figures at the top of the page.
pub fn stat_cards(report: &DashboardReport, symbol: &str) -> (res: Vec<StatCard>)
    ensures
        is_stats(res@, *report, symbol@),
{
    let mut stats: Vec<StatCard> = Vec::new();
    stats.push(
        StatCard {
            title: "Current Month",
            value: concat2(symbol, &fmt::two_decimals(report.current_month)),
            rises: None,
        },
    );
    stats.push(
        StatCard {
            title: "Last Month",
            value: concat2(symbol, &fmt::two_decimals(report.last_month)),
            rises: None,
        },
    );
    stats.push(
        StatCard {
            title: "Month-over-Month",
            value: fmt::change_pct(report.month_over_month_change),
            rises: Some(Amount::zero().at_most(report.month_over_month_change)),
        },
    );
    stats.push(
        StatCard {
            title: "Active Accounts",
            value: decimal_text(report.accounts.len() as u64),
            rises: None,
        },
    );
    stats
}

// ==================== Statistics ====================

/// The figures under a trend.
#[derive(Clone, Copy, Debug)]
pub struct TrendStats {
    pub total: Amount,
    pub average: Amount,
    pub max: Amount,
    pub min: Amount,
}

/// The largest of daily charges, nothing where none is above nothing.
pub open spec fn largest(days: Seq<DailyCost>) -> Amount
    decreases days.len(),
{
    if days.len() == 0 {
        Amount { bits: 0 }
    } else {
        largest(days.drop_last()).max_of(days.last().amount)
    }
}

/// The smallest of daily charges and the largest finite number.
pub open spec fn smallest(days: Seq<DailyCost>) -> Amount
    decreases days.len(),
{
    if days.len() == 0 {
        Amount { bits: amount::LARGEST }
    } else {
        smallest(days.drop_last()).min_of(days.last().amount)
    }
}

/// The figures under a trend: `total` is the sum of its days, and `average`
/// that sum over their number, which is read only where there are days.
pub fn trend_stats(days: &Vec<DailyCost>, total: Amount, average: Amount) -> (res: TrendStats)
    ensures
        res.total == total,
        res.average == (if days@.len() > 0 {
            average
        } else {
            Amount { bits: 0 }
        }),
        res.max == largest(days@),
        res.min == (if smallest(days@).bits == amount::LARGEST {
            Amount { bits: 0 }
        } else {
            smallest(days@)
        }),
{
    let mut max = Amount::zero();
    let mut min = Amount { bits: amount::LARGEST };
    let mut i: usize = 0;
    proof {
        assert(days@.take(0) =~= Seq::empty());
    }
    while i < days.len()
        invariant
            i <= days.len(),
            max == largest(days@.take(i as int)),
            min == smallest(days@.take(i as int)),
        decreases days.len() - i,
    {
        proof {
            assert(days@.take(i + 1).drop_last() =~= days@.take(i as int));
            assert(days@.take(i + 1).last() == days@[i as int]);
        }
        max = max.max(days[i].amount);
        min = min.min(days[i].amount);
        i = i + 1;
    }
    proof {
        assert(days@.take(i as int) =~= days@);
    }
    TrendStats {
        total,
        average: if days.len() > 0 {
            average
        } else {
            Amount::zero()
        },
        max,
        min: if min.bits == amount::LARGEST {
            Amount::zero()
        } else {
            min
        },
    }
}

/// The largest of daily charges is no less than any of them that is a number.
pub proof fn no_day_exceeds_the_largest(days: Seq<DailyCost>, at: int)
    requires
        0 <= at < days.len(),
        !days[at].amount.is_nan(),
    ensures
        !largest(days).is_nan(),
        days[at].amount.rank() <= largest(days).rank(),
    decreases days.len(),
{
    let rest = days.drop_last();
    lemma_largest_is_number(rest);
    if at < rest.len() {
        no_day_exceeds_the_largest(rest, at);
    }
}

proof fn lemma_largest_is_number(days: Seq<DailyCost>)
    ensures
        !largest(days).is_nan(),
    decreases days.len(),
{
    if days.len() > 0 {
        lemma_largest_is_number(days.drop_last());
    }
}

} // verus!
