//! Application state: accounts, budgets, dismissals, alert rules and their
//! events.
//!
//! Rows are upserted by primary key and an update keeps a row's place; rules
//! come in the order they were first stored, events newest first; and a live
//! event is one that is open or snoozed.
use vstd::prelude::*;

use crate::alerts::{AlertEvent, AlertRule, AlertStatus, RULE_BUDGET};
use crate::amount::Amount;
use crate::calendar;
use crate::calendar::{BillingPeriod, Timestamp};
use crate::cloud;
use crate::cloud::{SourceContext, SourceDescriptor};
use crate::error::Error;
use crate::ingest;
use crate::ledger::query;
use crate::ledger::scope;
use crate::list;
use crate::list::{drop_where, position, upsert};
use crate::memory;
use crate::memory::{NormalizedRow, Store};
use crate::model::{BudgetInfo, BudgetStatus, CloudAccount};
use crate::order;
use crate::secret_store;
use crate::text;

verus! {

/// There is nothing to open: the store exists from the start.
pub fn init_database() -> (res: Result<(), Error>)
    ensures
        res is Ok,
{
    Ok(())
}

// ==================== Accounts ====================

/// Being the account with an id.
pub open spec fn account_id(id: Seq<char>) -> spec_fn(CloudAccount) -> bool {
    |account: CloudAccount| account.id@ == id
}

/// Nothing but the accounts differs.
pub open spec fn same_but_accounts(after: Store, before: Store) -> bool {
    &&& after.budgets == before.budgets
    &&& after.alert_rules == before.alert_rules
    &&& after.alert_events == before.alert_events
    &&& after.dismissed_quality_keys == before.dismissed_quality_keys
    &&& after.periods == before.periods
    &&& after.balances == before.balances
    &&& after.reporting_currency == before.reporting_currency
}

/// An account as it is stored: its own row, with the hint of the key it was
/// saved with in place of the one it carried.
pub open spec fn with_hint(account: CloudAccount, hint: Option<Seq<char>>, stored: CloudAccount) -> bool {
    &&& order::part_view(stored.access_key_hint) == hint
    &&& stored == (CloudAccount { access_key_hint: stored.access_key_hint, ..account })
}

/// The hint an account is stored with: none without an access key.
pub open spec fn hint_for(access_key_id: Seq<char>, key_hint: Seq<char>) -> Option<Seq<char>> {
    if access_key_id.len() == 0 {
        None
    } else {
        Some(key_hint)
    }
}

/// Save a cloud account: the credentials to the secret store, everything else
/// to the store. `key_hint` is the hint of `access_key_id`.
///
/// The hint is that of the key given here rather than the one in `account`, so
/// the stored row cannot end up describing a key it was not saved with. An
/// account with no access key keeps no hint.
pub fn save_account(
    store: &mut Store,
    account: &CloudAccount,
    access_key_id: &str,
    secret_access_key: &str,
    key_hint: &str,
) -> (res: Result<(), Error>)
    ensures
        res is Ok,
        same_but_accounts(*final(store), *old(store)),
        exists|stored: CloudAccount|
            {
                &&& #[trigger] with_hint(*account, hint_for(access_key_id@, key_hint@), stored)
                &&& final(store).accounts@ == list::upserted(
                    old(store).accounts@,
                    account_id(account.id@),
                    stored,
                )
            },
        old(store).ids_distinct() ==> final(store).ids_distinct(),
{
    let hint: Option<String> = if access_key_id.is_empty() {
        None
    } else {
        match secret_store::store_account_secrets(&account.id, access_key_id, secret_access_key) {
            Ok(()) => {},
            Err(error) => {
                return Err(error);
            },
        }
        Some(key_hint.to_owned())
    };
    let mut stored = account.clone();
    stored.access_key_hint = hint;
    proof {
        assert(with_hint(*account, hint_for(access_key_id@, key_hint@), stored));
    }
    proof {
        if old(store).ids_distinct() {
            list::upserting_keeps_keys_distinct(
                old(store).accounts@,
                memory::account_key(),
                account_id(account.id@),
                stored,
            );
        }
    }
    upsert(
        &mut store.accounts,
        stored,
        |existing: &CloudAccount| -> (same: bool)
            ensures
                same == account_id(account.id@)(*existing)
            { text::same_text(&existing.id, &account.id) },
        Ghost(account_id(account.id@)),
    );
    Ok(())
}

/// What to say where no credentials were stored.
pub open spec fn no_credentials(name: Seq<char>) -> Seq<char> {
    "No credentials stored for account "@ + name + "; they have to be re-entered"@
}

/// The credentials for an account, read at the moment they are needed. None
/// are ever stored, so this says that they have to be re-entered.
pub fn account_context(
    store: &mut Store,
    account: &CloudAccount,
    descriptor: &SourceDescriptor,
    key_hint: &str,
) -> (res: Result<SourceContext, Error>)
    ensures
        res is Err,
        res->Err_0.message@ == no_credentials(account.name@),
        *final(store) == *old(store),
{
    match secret_store::get_account_secrets(&account.id) {
        Ok(secrets) => context_of(store, account, descriptor, secrets, key_hint),
        Err(error) => Err(error),
    }
}

/// An account with the hint of its key recorded.
pub open spec fn hinted(accounts: Seq<CloudAccount>, id: Seq<char>, after: Seq<CloudAccount>, hint: Seq<char>) -> bool {
    match list::first_index(accounts, account_id(id)) {
        Some(i) => {
            &&& after.len() == accounts.len()
            &&& with_hint(accounts[i], Some(hint), after[i])
            &&& forall|j: int| 0 <= j < accounts.len() && j != i ==> after[j] == accounts[j]
        },
        None => after == accounts,
    }
}

/// The context that stored secrets make up. An account stored before the hint
/// was recorded has none; it is written now, from a key that has just been read
/// anyway.
pub fn context_of(
    store: &mut Store,
    account: &CloudAccount,
    descriptor: &SourceDescriptor,
    secrets: Option<(String, String)>,
    key_hint: &str,
) -> (res: Result<SourceContext, Error>)
    ensures
        same_but_accounts(*final(store), *old(store)),
        match secrets {
            Some((access_key_id, secret_access_key)) => {
                &&& res is Ok
                &&& res->Ok_0.access_key_id == access_key_id
                &&& res->Ok_0.secret_access_key == secret_access_key
                &&& res->Ok_0.export_uri == account.export_uri
                &&& order::part_view(res->Ok_0.region) == (match account.region {
                    Some(region) => Some(region@),
                    None => cloud::label_view(descriptor.default_region),
                })
                &&& if account.access_key_hint is None {
                    hinted(
                        old(store).accounts@,
                        account.id@,
                        final(store).accounts@,
                        key_hint@,
                    )
                } else {
                    final(store).accounts == old(store).accounts
                }
            },
            None => {
                &&& res is Err
                &&& res->Err_0.message@ == no_credentials(account.name@)
                &&& *final(store) == *old(store)
            },
        },
        old(store).ids_distinct() ==> final(store).ids_distinct(),
{
    match secrets {
        Some((access_key_id, secret_access_key)) => {
            if account.access_key_hint.is_none() {
                set_access_key_hint(store, &account.id, key_hint);
            }
            Ok(
                SourceContext {
                    access_key_id,
                    secret_access_key,
                    region: descriptor.region_or_default(order::clone_text(&account.region)),
                    export_uri: order::clone_text(&account.export_uri),
                },
            )
        },
        None => Err(
            Error::of(
                text::concat3(
                    "No credentials stored for account ",
                    &account.name,
                    "; they have to be re-entered",
                ),
            ),
        ),
    }
}

/// Record the hint of an account's access key on its row, for a list that must
/// not read the key itself.
fn set_access_key_hint(store: &mut Store, id: &str, key_hint: &str)
    ensures
        same_but_accounts(*final(store), *old(store)),
        hinted(old(store).accounts@, id@, final(store).accounts@, key_hint@),
        old(store).ids_distinct() ==> final(store).ids_distinct(),
{
    let found = position(
        &store.accounts,
        |account: &CloudAccount| -> (same: bool)
            ensures
                same == account_id(id@)(*account)
            { text::same_text(&account.id, id) },
        Ghost(account_id(id@)),
    );
    if let Some(i) = found {
        let mut account = store.accounts[i].clone();
        account.access_key_hint = Some(key_hint.to_owned());
        proof {
            if old(store).ids_distinct() {
                list::updating_keeps_keys_distinct(
                    old(store).accounts@,
                    memory::account_key(),
                    i as int,
                    account,
                );
            }
        }
        store.accounts.set(i, account);
    }
}

/// Being an account of a source that is registered.
pub open spec fn source_known() -> spec_fn(CloudAccount) -> bool {
    |account: CloudAccount| cloud::source_of(account.source_id.id@) is Some
}

/// All cloud accounts. An id with no descriptor comes from a build that knew a
/// source this one does not: its row is skipped, for filing its costs under
/// another source would be worse than leaving it out.
pub fn get_all_accounts(store: &Store) -> (res: Result<Vec<CloudAccount>, Error>)
    ensures
        res is Ok,
        res->Ok_0@ == store.accounts@.filter(source_known()),
{
    let mut res: Vec<CloudAccount> = Vec::new();
    let ghost all = store.accounts@;
    let mut i: usize = 0;
    proof {
        reveal(Seq::filter);
        assert(all.take(0) =~= Seq::empty());
    }
    while i < store.accounts.len()
        invariant
            i <= store.accounts.len(),
            all == store.accounts@,
            res@ == all.take(i as int).filter(source_known()),
        decreases store.accounts.len() - i,
    {
        proof {
            reveal(Seq::filter);
            assert(all.take(i + 1).drop_last() =~= all.take(i as int));
            assert(all.take(i + 1).last() == all[i as int]);
        }
        if store.accounts[i].descriptor().is_some() {
            res.push(store.accounts[i].clone());
        }
        i = i + 1;
    }
    proof {
        assert(all.take(i as int) =~= all);
    }
    Ok(res)
}

/// Being the budget of an account.
pub open spec fn budget_of(id: Seq<char>) -> spec_fn(BudgetInfo) -> bool {
    |budget: BudgetInfo| budget.account_id@ == id
}

/// Delete a cloud account, and the budget that only meant anything with it. The
/// alerts fired for it stay.
pub fn delete_account(store: &mut Store, id: &str) -> (res: Result<(), Error>)
    ensures
        res is Ok,
        final(store).accounts@ == list::without(old(store).accounts@, account_id(id@)),
        final(store).budgets@ == list::without(old(store).budgets@, budget_of(id@)),
        final(store).alert_rules == old(store).alert_rules,
        final(store).alert_events == old(store).alert_events,
        final(store).dismissed_quality_keys == old(store).dismissed_quality_keys,
        final(store).periods == old(store).periods,
        final(store).balances == old(store).balances,
        final(store).reporting_currency == old(store).reporting_currency,
        old(store).ids_distinct() ==> final(store).ids_distinct(),
{
    drop_where(
        &mut store.budgets,
        |budget: &BudgetInfo| -> (same: bool)
            ensures
                same == budget_of(id@)(*budget)
            { text::same_text(&budget.account_id, id) },
        Ghost(budget_of(id@)),
    );
    drop_where(
        &mut store.accounts,
        |account: &CloudAccount| -> (same: bool)
            ensures
                same == account_id(id@)(*account)
            { text::same_text(&account.id, id) },
        Ghost(account_id(id@)),
    );
    proof {
        if old(store).ids_distinct() {
            list::dropping_keeps_keys_distinct(
                old(store).accounts@,
                memory::account_key(),
                account_id(id@),
            );
            list::dropping_keeps_keys_distinct(
                old(store).budgets@,
                memory::budget_key(),
                budget_of(id@),
            );
        }
    }
    // A credential that could not be deleted does not keep the account.
    let _ = secret_store::delete_account_secrets(id);
    Ok(())
}

/// An account that was synced at an instant.
pub open spec fn synced(account: CloudAccount, at: Timestamp) -> CloudAccount {
    CloudAccount { last_synced_at: Some(at), ..account }
}

/// Record that an account was successfully refreshed.
pub fn mark_account_synced(store: &mut Store, id: &str, at: Timestamp) -> (res: Result<(), Error>)
    ensures
        res is Ok,
        same_but_accounts(*final(store), *old(store)),
        final(store).accounts@ == (match list::first_index(old(store).accounts@, account_id(id@)) {
            Some(i) => old(store).accounts@.update(i, synced(old(store).accounts@[i], at)),
            None => old(store).accounts@,
        }),
        old(store).ids_distinct() ==> final(store).ids_distinct(),
{
    let found = position(
        &store.accounts,
        |account: &CloudAccount| -> (same: bool)
            ensures
                same == account_id(id@)(*account)
            { text::same_text(&account.id, id) },
        Ghost(account_id(id@)),
    );
    if let Some(i) = found {
        let mut account = store.accounts[i].clone();
        account.last_synced_at = Some(at);
        proof {
            if old(store).ids_distinct() {
                list::updating_keeps_keys_distinct(
                    old(store).accounts@,
                    memory::account_key(),
                    i as int,
                    account,
                );
            }
        }
        store.accounts.set(i, account);
    }
    Ok(())
}

// ==================== Budgets ====================

/// Nothing but the budgets differs.
pub open spec fn same_but_budgets(after: Store, before: Store) -> bool {
    &&& after.accounts == before.accounts
    &&& after.alert_rules == before.alert_rules
    &&& after.alert_events == before.alert_events
    &&& after.dismissed_quality_keys == before.dismissed_quality_keys
    &&& after.periods == before.periods
    &&& after.balances == before.balances
    &&& after.reporting_currency == before.reporting_currency
}

/// Save or update an account's budget. An update keeps the row's place: budgets
/// are listed in the order they were added.
pub fn save_budget(store: &mut Store, budget: &BudgetInfo) -> (res: Result<(), Error>)
    ensures
        res is Ok,
        same_but_budgets(*final(store), *old(store)),
        final(store).budgets@ == list::upserted(
            old(store).budgets@,
            budget_of(budget.account_id@),
            *budget,
        ),
        old(store).ids_distinct() ==> final(store).ids_distinct(),
{
    upsert(
        &mut store.budgets,
        budget.clone(),
        |existing: &BudgetInfo| -> (same: bool)
            ensures
                same == budget_of(budget.account_id@)(*existing)
            { text::same_text(&existing.account_id, &budget.account_id) },
        Ghost(budget_of(budget.account_id@)),
    );
    proof {
        if old(store).ids_distinct() {
            list::upserting_keeps_keys_distinct(
                old(store).budgets@,
                memory::budget_key(),
                budget_of(budget.account_id@),
                *budget,
            );
        }
    }
    Ok(())
}

/// The budget of an account, if it has one.
pub fn get_budget(store: &Store, id: &str) -> (res: Result<Option<BudgetInfo>, Error>)
    ensures
        res is Ok,
        res->Ok_0 == (match list::first_index(store.budgets@, budget_of(id@)) {
            Some(i) => Some(store.budgets@[i]),
            None => None,
        }),
{
    let found = position(
        &store.budgets,
        |budget: &BudgetInfo| -> (same: bool)
            ensures
                same == budget_of(id@)(*budget)
            { text::same_text(&budget.account_id, id) },
        Ghost(budget_of(id@)),
    );
    match found {
        Some(i) => Ok(Some(store.budgets[i].clone())),
        None => Ok(None),
    }
}

/// All budgets, in the order they were added.
pub fn get_all_budgets(store: &Store) -> (res: Result<Vec<BudgetInfo>, Error>)
    ensures
        res is Ok,
        res->Ok_0@ == store.budgets@,
{
    let mut res: Vec<BudgetInfo> = Vec::new();
    let mut i: usize = 0;
    while i < store.budgets.len()
        invariant
            i <= store.budgets.len(),
            res@ == store.budgets@.take(i as int),
        decreases store.budgets.len() - i,
    {
        res.push(store.budgets[i].clone());
        i = i + 1;
        proof {
            assert(store.budgets@.take(i as int) =~= store.budgets@.take(i - 1).push(
                store.budgets@[i - 1],
            ));
        }
    }
    proof {
        assert(store.budgets@.take(i as int) =~= store.budgets@);
    }
    Ok(res)
}

/// Delete the budget of an account.
pub fn delete_budget(store: &mut Store, id: &str) -> (res: Result<(), Error>)
    ensures
        res is Ok,
        same_but_budgets(*final(store), *old(store)),
        final(store).budgets@ == list::without(old(store).budgets@, budget_of(id@)),
        old(store).ids_distinct() ==> final(store).ids_distinct(),
{
    drop_where(
        &mut store.budgets,
        |budget: &BudgetInfo| -> (same: bool)
            ensures
                same == budget_of(id@)(*budget)
            { text::same_text(&budget.account_id, id) },
        Ghost(budget_of(id@)),
    );
    proof {
        if old(store).ids_distinct() {
            list::dropping_keeps_keys_distinct(
                old(store).budgets@,
                memory::budget_key(),
                budget_of(id@),
            );
        }
    }
    Ok(())
}

// ==================== Budget consumption ====================

/// What a budget's status is decided from.
#[derive(Debug)]
pub struct BudgetQuestion {
    pub budget: BudgetInfo,
    pub account_name: String,
    /// The amounts that the month's cost adds up, in the reporting currency.
    pub charges: Vec<Amount>,
    /// Whether a budget rule's alert for the account stands open or snoozed.
    pub live_alert: bool,
}

/// What is computed from a budget and the month's cost.
#[derive(Clone, Copy, Debug)]
pub struct BudgetFigures {
    /// The month's cost.
    pub current_cost: Amount,
    /// The cost as a percentage of the budget; read only for a budget above
    /// zero.
    pub ratio_pct: Amount,
    /// The budget less the cost.
    pub remaining: Amount,
}

/// What the dedupe keys of an account's budget alerts begin with.
pub open spec fn budget_prefix(id: Seq<char>) -> Seq<char> {
    "budget|"@ + id + "|"@
}

/// A stored budget rule has an id.
pub open spec fn is_budget_rule(rules: Seq<AlertRule>, id: Seq<char>) -> bool {
    exists|r: int|
        0 <= r < rules.len() && #[trigger] rules[r].id@ == id && rules[r].kind@ == "budget"@
}

/// An event is a live alert of a stored budget rule for an account.
pub open spec fn budget_alert(event: AlertEvent, rules: Seq<AlertRule>, id: Seq<char>) -> bool {
    &&& text::begins_with(event.dedupe_key@, budget_prefix(id))
    &&& event.status.is_live()
    &&& is_budget_rule(rules, event.rule_id@)
}

/// An event of a budget rule stands open or snoozed for an account. An event
/// whose rule was deleted counts for nothing.
pub open spec fn live_budget_alert(store: Store, id: Seq<char>) -> bool {
    exists|e: int|
        0 <= e < store.alert_events@.len() && #[trigger] budget_alert(
            store.alert_events@[e],
            store.alert_rules@,
            id,
        )
}

fn budget_rule_exists(rules: &Vec<AlertRule>, id: &str) -> (res: bool)
    ensures
        res == is_budget_rule(rules@, id@),
{
    let mut i: usize = 0;
    while i < rules.len()
        invariant
            i <= rules.len(),
            forall|r: int|
                0 <= r < i ==> !(#[trigger] rules@[r].id@ == id@ && rules@[r].kind@ == "budget"@),
        decreases rules.len() - i,
    {
        if text::same_text(&rules[i].id, id) && text::same_text(&rules[i].kind, RULE_BUDGET) {
            return true;
        }
        i = i + 1;
    }
    false
}

/// Whether any open or snoozed budget-rule event names this account.
pub fn has_live_budget_alert(store: &Store, id: &str) -> (res: bool)
    ensures
        res == live_budget_alert(*store, id@),
{
    let prefix = text::concat3("budget|", id, "|");
    let mut i: usize = 0;
    while i < store.alert_events.len()
        invariant
            i <= store.alert_events.len(),
            prefix@ == budget_prefix(id@),
            forall|e: int|
                0 <= e < i ==> !#[trigger] budget_alert(
                    store.alert_events@[e],
                    store.alert_rules@,
                    id@,
                ),
        decreases store.alert_events.len() - i,
    {
        let event = &store.alert_events[i];
        if text::starts_with(&event.dedupe_key, &prefix) && event.status.live()
            && budget_rule_exists(&store.alert_rules, &event.rule_id) {
            proof {
                assert(budget_alert(store.alert_events@[i as int], store.alert_rules@, id@));
            }
            return true;
        }
        i = i + 1;
    }
    false
}

/// The bill of an account for a period.
pub open spec fn bill_of(account: CloudAccount, label: Seq<char>) -> scope::Selection {
    scope::of_account(account.source_id.id@, account.id@).in_period(label)
}

/// What a budget's status is decided from: the budget, the name of its account
/// and that account's charges of the month that `now` falls in.
pub open spec fn asks(
    question: BudgetQuestion,
    store: Store,
    rows: Seq<NormalizedRow>,
    budget: BudgetInfo,
    id: Seq<char>,
    now: Timestamp,
) -> bool {
    let known = store.accounts@.filter(source_known());
    let i = list::first_index(known, account_id(id));
    &&& question.budget == budget
    &&& i is Some
    &&& question.account_name == known[i->0].name
    &&& question.charges@ == scope::base_amounts(
        scope::rows_in(rows, bill_of(known[i->0], calendar::period_of(now).text())),
    )
    &&& question.live_alert == live_budget_alert(store, id)
}

/// What the status of an account's budget is decided from: nothing for an
/// account without a budget, an error for a budget whose account is not known.
pub fn budget_question(store: &Store, rows: &Vec<NormalizedRow>, id: &str, now: Timestamp) -> (res:
    Result<Option<BudgetQuestion>, Error>)
    requires
        now.valid(),
    ensures
        match list::first_index(store.budgets@, budget_of(id@)) {
            Some(b) => if list::first_index(
                store.accounts@.filter(source_known()),
                account_id(id@),
            ) is Some {
                &&& res is Ok
                &&& res->Ok_0 is Some
                &&& asks(res->Ok_0->0, *store, rows@, store.budgets@[b], id@, now)
            } else {
                &&& res is Err
                &&& res->Err_0.message@ == "Account not found"@
            },
            None => res is Ok && res->Ok_0 is None,
        },
{
    let budget = match get_budget(store, id) {
        Ok(Some(budget)) => budget,
        Ok(None) => {
            return Ok(None);
        },
        Err(error) => {
            return Err(error);
        },
    };
    let accounts = match get_all_accounts(store) {
        Ok(accounts) => accounts,
        Err(error) => {
            return Err(error);
        },
    };
    let found = position(
        &accounts,
        |account: &CloudAccount| -> (same: bool)
            ensures
                same == account_id(id@)(*account)
            { text::same_text(&account.id, id) },
        Ghost(account_id(id@)),
    );
    match found {
        Some(i) => {
            let account = &accounts[i];
            let period = BillingPeriod::containing(now);
            let key = ingest::period_key(account, &period);
            let charges = query::period_total(rows, &key);
            proof {
                assert(scope::of_key(key) == bill_of(*account, period.text()));
            }
            Ok(
                Some(
                    BudgetQuestion {
                        budget,
                        account_name: account.name.clone(),
                        charges,
                        live_alert: has_live_budget_alert(store, id),
                    },
                ),
            )
        },
        None => Err(Error::new("Account not found")),
    }
}

/// The percentage of a budget that is used: none of a budget of nothing.
pub open spec fn percentage_used(budget: BudgetInfo, figures: BudgetFigures) -> Amount {
    if budget.monthly_budget.is_positive() {
        figures.ratio_pct
    } else {
        Amount { bits: 0 }
    }
}

/// `status` answers a question with the figures that were added up. The badge
/// follows a live alert, and before the first evaluation the threshold itself.
pub open spec fn is_status(
    status: BudgetStatus,
    question: BudgetQuestion,
    figures: BudgetFigures,
) -> bool {
    &&& status.account_id == question.budget.account_id
    &&& status.account_name == question.account_name
    &&& status.monthly_budget == question.budget.monthly_budget
    &&& status.current_cost == figures.current_cost
    &&& status.currency == question.budget.currency
    &&& status.percentage_used == percentage_used(question.budget, figures)
    &&& status.remaining == figures.remaining
    &&& status.alert_triggered == (question.live_alert || question.budget.alert_threshold.le(
        percentage_used(question.budget, figures),
    ))
}

/// How much of a budget has been used. The badge follows a live alert, and
/// before the first evaluation the threshold itself.
pub fn get_budget_status(question: &BudgetQuestion, figures: BudgetFigures) -> (res: BudgetStatus)
    ensures
        is_status(res, *question, figures),
{
    let percentage = if question.budget.monthly_budget.positive() {
        figures.ratio_pct
    } else {
        Amount::zero()
    };
    BudgetStatus {
        account_id: question.budget.account_id.clone(),
        account_name: question.account_name.clone(),
        monthly_budget: question.budget.monthly_budget,
        current_cost: figures.current_cost,
        currency: question.budget.currency.clone(),
        percentage_used: percentage,
        remaining: figures.remaining,
        alert_triggered: question.live_alert || question.budget.alert_threshold.at_most(
            percentage,
        ),
    }
}

/// Every budget's account is known.
pub open spec fn budgets_have_accounts(store: Store) -> bool {
    forall|b: int|
        #![trigger store.budgets@[b]]
        0 <= b < store.budgets@.len() ==> list::first_index(
            store.accounts@.filter(source_known()),
            account_id(store.budgets@[b].account_id@),
        ) is Some
}

/// The budget that an account id finds, as the first one stored under it.
pub open spec fn found_budget(store: Store, id: Seq<char>) -> BudgetInfo {
    store.budgets@[list::first_index(store.budgets@, budget_of(id))->0]
}

/// Each budget is asked about as itself: where no account has two budgets, the
/// budget that a budget's account finds is that very budget.
pub proof fn a_budget_is_found_by_its_account(store: Store, b: int)
    requires
        store.ids_distinct(),
        0 <= b < store.budgets@.len(),
    ensures
        found_budget(store, store.budgets@[b].account_id@) == store.budgets@[b],
{
    list::a_key_finds_its_item(
        store.budgets@,
        memory::budget_key(),
        budget_of(store.budgets@[b].account_id@),
        b,
    );
}

/// What the statuses of all budgets are decided from, in the order the budgets
/// were added; an error as soon as one budget's account is not known.
pub fn budget_questions(store: &Store, rows: &Vec<NormalizedRow>, now: Timestamp) -> (res: Result<
    Vec<BudgetQuestion>,
    Error,
>)
    requires
        now.valid(),
    ensures
        res is Ok <==> budgets_have_accounts(*store),
        res is Err ==> res->Err_0.message@ == "Account not found"@,
        res is Ok ==> {
            &&& res->Ok_0@.len() == store.budgets@.len()
            &&& forall|b: int|
                #![trigger store.budgets@[b]]
                0 <= b < store.budgets@.len() ==> {
                    let id = store.budgets@[b].account_id@;
                    asks(res->Ok_0@[b], *store, rows@, found_budget(*store, id), id, now)
                }
        },
{
    let mut questions: Vec<BudgetQuestion> = Vec::new();
    let mut i: usize = 0;
    while i < store.budgets.len()
        invariant
            i <= store.budgets.len(),
            now.valid(),
            questions@.len() == i,
            forall|b: int|
                #![trigger store.budgets@[b]]
                0 <= b < i ==> {
                    let id = store.budgets@[b].account_id@;
                    &&& asks(questions@[b], *store, rows@, found_budget(*store, id), id, now)
                    &&& list::first_index(
                        store.accounts@.filter(source_known()),
                        account_id(id),
                    ) is Some
                },
        decreases store.budgets.len() - i,
    {
        let ghost id = store.budgets@[i as int].account_id@;
        proof {
            list::first_index_is_first(store.budgets@, budget_of(id));
            assert(budget_of(id)(store.budgets@[i as int]));
        }
        match budget_question(store, rows, &store.budgets[i].account_id, now) {
            Ok(Some(question)) => {
                questions.push(question);
            },
            Ok(None) => {},
            Err(error) => {
                return Err(error);
            },
        }
        i = i + 1;
    }
    Ok(questions)
}

/// The statuses of all budgets, each from its question and its figures.
pub fn get_all_budget_statuses(
    questions: &Vec<BudgetQuestion>,
    figures: &Vec<BudgetFigures>,
) -> (res: Vec<BudgetStatus>)
    requires
        figures@.len() == questions@.len(),
    ensures
        res@.len() == questions@.len(),
        forall|i: int|
            #![trigger res@[i]]
            0 <= i < res@.len() ==> is_status(res@[i], questions@[i], figures@[i]),
{
    let mut res: Vec<BudgetStatus> = Vec::new();
    let mut i: usize = 0;
    while i < questions.len()
        invariant
            i <= questions.len(),
            figures@.len() == questions@.len(),
            res@.len() == i,
            forall|k: int|
                #![trigger res@[k]]
                0 <= k < i ==> is_status(res@[k], questions@[k], figures@[k]),
        decreases questions.len() - i,
    {
        res.push(get_budget_status(&questions[i], figures[i]));
        i = i + 1;
    }
    res
}

// ==================== Dismissed quality issues ====================
//
// A finding is keyed by its kind and its billing period, so a dismissed finding
// stays hidden for its period while a new period or another kind still shows.

/// A key is among the dismissed.
pub open spec fn dismissed(keys: Seq<String>, key: Seq<char>) -> bool {
    exists|i: int| 0 <= i < keys.len() && #[trigger] keys[i]@ == key
}

/// Nothing but the dismissals differs.
pub open spec fn same_but_dismissals(after: Store, before: Store) -> bool {
    &&& after.accounts == before.accounts
    &&& after.budgets == before.budgets
    &&& after.alert_rules == before.alert_rules
    &&& after.alert_events == before.alert_events
    &&& after.periods == before.periods
    &&& after.balances == before.balances
    &&& after.reporting_currency == before.reporting_currency
}

/// Whether a key is among the dismissed.
pub fn is_dismissed(keys: &Vec<String>, key: &str) -> (res: bool)
    ensures
        res == dismissed(keys@, key@),
{
    let mut i: usize = 0;
    while i < keys.len()
        invariant
            i <= keys.len(),
            forall|j: int| 0 <= j < i ==> #[trigger] keys@[j]@ != key@,
        decreases keys.len() - i,
    {
        if text::same_text(&keys[i], key) {
            return true;
        }
        i = i + 1;
    }
    false
}

/// Record a dismissal. Dismissing a key again changes nothing.
pub fn dismiss_quality_issue(store: &mut Store, issue_key: &str) -> (res: Result<(), Error>)
    ensures
        res is Ok,
        same_but_dismissals(*final(store), *old(store)),
        if dismissed(old(store).dismissed_quality_keys@, issue_key@) {
            final(store).dismissed_quality_keys == old(store).dismissed_quality_keys
        } else {
            &&& final(store).dismissed_quality_keys@.len()
                == old(store).dismissed_quality_keys@.len() + 1
            &&& final(store).dismissed_quality_keys@.drop_last()
                == old(store).dismissed_quality_keys@
            &&& final(store).dismissed_quality_keys@.last()@ == issue_key@
        },
        old(store).ids_distinct() ==> final(store).ids_distinct(),
{
    if !is_dismissed(&store.dismissed_quality_keys, issue_key) {
        let ghost before = store.dismissed_quality_keys@;
        store.dismissed_quality_keys.push(issue_key.to_owned());
        proof {
            assert(store.dismissed_quality_keys@.drop_last() =~= before);
        }
    }
    Ok(())
}

/// Every dismissed key.
pub fn dismissed_quality_issue_keys(store: &Store) -> (res: Result<Vec<String>, Error>)
    ensures
        res is Ok,
        res->Ok_0@ == store.dismissed_quality_keys@,
{
    let keys = &store.dismissed_quality_keys;
    let mut res: Vec<String> = Vec::new();
    let mut i: usize = 0;
    while i < keys.len()
        invariant
            i <= keys.len(),
            res@ == keys@.take(i as int),
        decreases keys.len() - i,
    {
        res.push(keys[i].clone());
        i = i + 1;
        proof {
            assert(keys@.take(i as int) =~= keys@.take(i - 1).push(keys@[i - 1]));
        }
    }
    proof {
        assert(keys@.take(i as int) =~= keys@);
    }
    Ok(res)
}

/// Forget every dismissal: all findings resurface on the next load.
pub fn clear_dismissed_quality_issues(store: &mut Store) -> (res: Result<(), Error>)
    ensures
        res is Ok,
        same_but_dismissals(*final(store), *old(store)),
        final(store).dismissed_quality_keys@.len() == 0,
        old(store).ids_distinct() ==> final(store).ids_distinct(),
{
    store.dismissed_quality_keys.clear();
    Ok(())
}

// ==================== Alert rules ====================

/// Being the rule with an id.
pub open spec fn rule_id(id: Seq<char>) -> spec_fn(AlertRule) -> bool {
    |rule: AlertRule| rule.id@ == id
}

/// Nothing but the rules differs.
pub open spec fn same_but_rules(after: Store, before: Store) -> bool {
    &&& after.accounts == before.accounts
    &&& after.budgets == before.budgets
    &&& after.alert_events == before.alert_events
    &&& after.dismissed_quality_keys == before.dismissed_quality_keys
    &&& after.periods == before.periods
    &&& after.balances == before.balances
    &&& after.reporting_currency == before.reporting_currency
}

fn find_rule(rules: &Vec<AlertRule>, id: &str) -> (res: Option<usize>)
    ensures
        match list::first_index(rules@, rule_id(id@)) {
            Some(i) => res is Some && res->0 == i && 0 <= i < rules@.len(),
            None => res is None,
        },
{
    position(
        rules,
        |rule: &AlertRule| -> (same: bool)
            ensures
                same == rule_id(id@)(*rule)
            { text::same_text(&rule.id, id) },
        Ghost(rule_id(id@)),
    )
}

/// Save or update an alerting rule. An update keeps the rule where it was.
pub fn save_alert_rule(store: &mut Store, rule: &AlertRule) -> (res: Result<(), Error>)
    ensures
        res is Ok,
        same_but_rules(*final(store), *old(store)),
        final(store).alert_rules@ == list::upserted(
            old(store).alert_rules@,
            rule_id(rule.id@),
            *rule,
        ),
        old(store).ids_distinct() ==> final(store).ids_distinct(),
{
    match find_rule(&store.alert_rules, &rule.id) {
        Some(i) => {
            store.alert_rules.set(i, rule.clone());
        },
        None => {
            store.alert_rules.push(rule.clone());
        },
    }
    proof {
        if old(store).ids_distinct() {
            list::upserting_keeps_keys_distinct(
                old(store).alert_rules@,
                memory::rule_key(),
                rule_id(rule.id@),
                *rule,
            );
        }
    }
    Ok(())
}

/// Whether a rule with this id is already stored.
pub fn alert_rule_exists(store: &Store, id: &str) -> (res: Result<bool, Error>)
    ensures
        res is Ok,
        res->Ok_0 == (list::first_index(store.alert_rules@, rule_id(id@)) is Some),
{
    Ok(find_rule(&store.alert_rules, id).is_some())
}

/// Every alerting rule, in the order they were first stored.
pub fn get_alert_rules(store: &Store) -> (res: Result<Vec<AlertRule>, Error>)
    ensures
        res is Ok,
        res->Ok_0@ == store.alert_rules@,
{
    let rules = &store.alert_rules;
    let mut res: Vec<AlertRule> = Vec::new();
    let mut i: usize = 0;
    while i < rules.len()
        invariant
            i <= rules.len(),
            res@ == rules@.take(i as int),
        decreases rules.len() - i,
    {
        res.push(rules[i].clone());
        i = i + 1;
        proof {
            assert(rules@.take(i as int) =~= rules@.take(i - 1).push(rules@[i - 1]));
        }
    }
    proof {
        assert(rules@.take(i as int) =~= rules@);
    }
    Ok(res)
}

/// Enable or disable a rule. A disabled rule keeps its events but fires no new
/// ones.
pub fn set_alert_rule_enabled(store: &mut Store, id: &str, enabled: bool) -> (res: Result<
    (),
    Error,
>)
    ensures
        res is Ok,
        same_but_rules(*final(store), *old(store)),
        final(store).alert_rules@ == (match list::first_index(
            old(store).alert_rules@,
            rule_id(id@),
        ) {
            Some(i) => old(store).alert_rules@.update(
                i,
                AlertRule { enabled, ..old(store).alert_rules@[i] },
            ),
            None => old(store).alert_rules@,
        }),
        old(store).ids_distinct() ==> final(store).ids_distinct(),
{
    if let Some(i) = find_rule(&store.alert_rules, id) {
        let mut rule = store.alert_rules[i].clone();
        rule.enabled = enabled;
        proof {
            if old(store).ids_distinct() {
                list::updating_keeps_keys_distinct(
                    old(store).alert_rules@,
                    memory::rule_key(),
                    i as int,
                    rule,
                );
            }
        }
        store.alert_rules.set(i, rule);
    }
    Ok(())
}

/// Record when a rule last produced an event.
pub fn mark_rule_fired(store: &mut Store, id: &str, at: Timestamp) -> (res: Result<(), Error>)
    ensures
        res is Ok,
        same_but_rules(*final(store), *old(store)),
        final(store).alert_rules@ == (match list::first_index(
            old(store).alert_rules@,
            rule_id(id@),
        ) {
            Some(i) => old(store).alert_rules@.update(
                i,
                AlertRule { last_fired_at: Some(at), ..old(store).alert_rules@[i] },
            ),
            None => old(store).alert_rules@,
        }),
        old(store).ids_distinct() ==> final(store).ids_distinct(),
{
    if let Some(i) = find_rule(&store.alert_rules, id) {
        let mut rule = store.alert_rules[i].clone();
        rule.last_fired_at = Some(at);
        proof {
            if old(store).ids_distinct() {
                list::updating_keeps_keys_distinct(
                    old(store).alert_rules@,
                    memory::rule_key(),
                    i as int,
                    rule,
                );
            }
        }
        store.alert_rules.set(i, rule);
    }
    Ok(())
}

/// Delete an alerting rule. Its past events stay: they are history, not part of
/// the rule.
pub fn delete_alert_rule(store: &mut Store, id: &str) -> (res: Result<(), Error>)
    ensures
        res is Ok,
        same_but_rules(*final(store), *old(store)),
        final(store).alert_rules@ == list::without(old(store).alert_rules@, rule_id(id@)),
        old(store).ids_distinct() ==> final(store).ids_distinct(),
{
    drop_where(
        &mut store.alert_rules,
        |rule: &AlertRule| -> (same: bool)
            ensures
                same == rule_id(id@)(*rule)
            { text::same_text(&rule.id, id) },
        Ghost(rule_id(id@)),
    );
    proof {
        if old(store).ids_distinct() {
            list::dropping_keeps_keys_distinct(
                old(store).alert_rules@,
                memory::rule_key(),
                rule_id(id@),
            );
        }
    }
    Ok(())
}

// ==================== Alert events ====================

/// Being the event with an id.
pub open spec fn event_id(id: Seq<char>) -> spec_fn(AlertEvent) -> bool {
    |event: AlertEvent| event.id@ == id
}

/// Nothing but the events differs.
pub open spec fn same_but_events(after: Store, before: Store) -> bool {
    &&& after.accounts == before.accounts
    &&& after.budgets == before.budgets
    &&& after.alert_rules == before.alert_rules
    &&& after.dismissed_quality_keys == before.dismissed_quality_keys
    &&& after.periods == before.periods
    &&& after.balances == before.balances
    &&& after.reporting_currency == before.reporting_currency
}

/// Record a new alert event.
pub fn insert_alert_event(store: &mut Store, event: &AlertEvent) -> (res: Result<(), Error>)
    ensures
        res is Ok,
        same_but_events(*final(store), *old(store)),
        final(store).alert_events@ == list::upserted(
            old(store).alert_events@,
            event_id(event.id@),
            *event,
        ),
        old(store).ids_distinct() ==> final(store).ids_distinct(),
{
    upsert(
        &mut store.alert_events,
        event.clone(),
        |existing: &AlertEvent| -> (same: bool)
            ensures
                same == event_id(event.id@)(*existing)
            { text::same_text(&existing.id, &event.id) },
        Ghost(event_id(event.id@)),
    );
    proof {
        if old(store).ids_distinct() {
            list::upserting_keeps_keys_distinct(
                old(store).alert_events@,
                memory::event_key(),
                event_id(event.id@),
                *event,
            );
        }
    }
    Ok(())
}

/// Being in one of some states.
pub open spec fn in_one_of(statuses: Seq<AlertStatus>) -> spec_fn(AlertEvent) -> bool {
    |event: AlertEvent| statuses.contains(event.status)
}

/// When events were created, as ranks.
pub open spec fn creation_ranks(events: Seq<AlertEvent>) -> Seq<int> {
    events.map_values(|event: AlertEvent| event.created_at.rank())
}

/// Events from the newest to the oldest; those of one instant stay in the order
/// they were inserted.
pub open spec fn newest_first(events: Seq<AlertEvent>) -> Seq<AlertEvent> {
    order::arranged(events, order::ranking(creation_ranks(events)))
}

/// Events in one of the given states, newest first.
pub fn get_alert_events(store: &Store, statuses: &Vec<AlertStatus>) -> (res: Result<
    Vec<AlertEvent>,
    Error,
>)
    ensures
        res is Ok,
        res->Ok_0@ == newest_first(store.alert_events@.filter(in_one_of(statuses@))),
{
    let events = &store.alert_events;
    let ghost keep = in_one_of(statuses@);
    let mut matching: Vec<AlertEvent> = Vec::new();
    let mut keys: Vec<i128> = Vec::new();
    let mut i: usize = 0;
    proof {
        reveal(Seq::filter);
        assert(events@.take(0) =~= Seq::empty());
        assert(order::key_ints(keys@) =~= creation_ranks(matching@));
    }
    while i < events.len()
        invariant
            i <= events.len(),
            keep == in_one_of(statuses@),
            matching@ == events@.take(i as int).filter(keep),
            order::key_ints(keys@) == creation_ranks(matching@),
        decreases events.len() - i,
    {
        let ghost before = matching@;
        let ghost ranks = order::key_ints(keys@);
        proof {
            reveal(Seq::filter);
            assert(events@.take(i + 1).drop_last() =~= events@.take(i as int));
            assert(events@.take(i + 1).last() == events@[i as int]);
        }
        if has_status(statuses, events[i].status) {
            matching.push(events[i].clone());
            keys.push(events[i].created_at.time_rank());
            proof {
                assert(order::key_ints(keys@) =~= ranks.push(events@[i as int].created_at.rank()));
                assert(creation_ranks(matching@) =~= creation_ranks(before).push(
                    events@[i as int].created_at.rank(),
                ));
            }
        }
        i = i + 1;
    }
    proof {
        assert(events@.take(i as int) =~= events@);
    }
    let ranked = order::rank_descending(&keys);
    proof {
        order::lemma_ranked_positions(creation_ranks(matching@), ranked@);
    }
    Ok(order::arrange(matching, &ranked))
}

fn has_status(statuses: &Vec<AlertStatus>, status: AlertStatus) -> (res: bool)
    ensures
        res == statuses@.contains(status),
{
    let mut i: usize = 0;
    while i < statuses.len()
        invariant
            i <= statuses.len(),
            forall|j: int| 0 <= j < i ==> #[trigger] statuses@[j] != status,
        decreases statuses.len() - i,
    {
        if statuses[i] == status {
            return true;
        }
        i = i + 1;
    }
    false
}

/// An event stands open or snoozed under a dedupe key.
pub open spec fn live_under(event: AlertEvent, dedupe_key: Seq<char>) -> bool {
    event.dedupe_key@ == dedupe_key && event.status.is_live()
}

/// The position of the newest live event under a dedupe key, the last of them
/// where several were created at one instant.
pub open spec fn newest_live(events: Seq<AlertEvent>, dedupe_key: Seq<char>) -> Option<int>
    decreases events.len(),
{
    if events.len() == 0 {
        None
    } else {
        let earlier = newest_live(events.drop_last(), dedupe_key);
        if live_under(events.last(), dedupe_key) && (earlier is None
            || !events.last().created_at.before(events[earlier->0].created_at)) {
            Some(events.len() - 1)
        } else {
            earlier
        }
    }
}

/// A live event is found whenever there is one under the key, and none under
/// the key is newer.
pub proof fn newest_live_is_newest(events: Seq<AlertEvent>, dedupe_key: Seq<char>)
    ensures
        match newest_live(events, dedupe_key) {
            Some(i) => {
                &&& 0 <= i < events.len()
                &&& live_under(events[i], dedupe_key)
                &&& forall|j: int|
                    0 <= j < events.len() && live_under(#[trigger] events[j], dedupe_key)
                        ==> !events[i].created_at.before(events[j].created_at)
            },
            None => forall|j: int|
                0 <= j < events.len() ==> !live_under(#[trigger] events[j], dedupe_key),
        },
    decreases events.len(),
{
    if events.len() > 0 {
        newest_live_is_newest(events.drop_last(), dedupe_key);
        assert forall|j: int| 0 <= j < events.len() - 1 implies events.drop_last()[j]
            == #[trigger] events[j] by {}
    }
}

/// The open or snoozed event under a dedupe key, if there is one: the check
/// that keeps a condition from alerting twice while it still holds.
pub fn find_live_alert_event(store: &Store, dedupe_key: &str) -> (res: Result<
    Option<AlertEvent>,
    Error,
>)
    ensures
        res is Ok,
        res->Ok_0 == (match newest_live(store.alert_events@, dedupe_key@) {
            Some(i) => Some(store.alert_events@[i]),
            None => None,
        }),
{
    let events = &store.alert_events;
    let mut best: Option<usize> = None;
    let mut i: usize = 0;
    proof {
        assert(events@.take(0) =~= Seq::empty());
    }
    while i < events.len()
        invariant
            i <= events.len(),
            match newest_live(events@.take(i as int), dedupe_key@) {
                Some(k) => 0 <= k < i && best == Some(k as usize),
                None => best is None,
            },
        decreases events.len() - i,
    {
        proof {
            newest_live_is_newest(events@.take(i as int), dedupe_key@);
            assert(events@.take(i + 1).drop_last() =~= events@.take(i as int));
            assert(events@.take(i + 1).last() == events@[i as int]);
        }
        if text::same_text(&events[i].dedupe_key, dedupe_key) && events[i].status.live() {
            let newer: bool = match best {
                Some(k) => !events[i].created_at.earlier_than(events[k].created_at),
                None => true,
            };
            if newer {
                best = Some(i);
            }
        }
        i = i + 1;
    }
    proof {
        assert(events@.take(i as int) =~= events@);
    }
    match best {
        Some(k) => Ok(Some(events[k].clone())),
        None => Ok(None),
    }
}

/// An event moved to a new state.
pub open spec fn moved(
    event: AlertEvent,
    status: AlertStatus,
    snoozed_until: Option<Timestamp>,
    now: Timestamp,
) -> AlertEvent {
    AlertEvent {
        status,
        snoozed_until,
        resolved_at: if status.is_final() {
            Some(now)
        } else {
            None
        },
        ..event
    }
}

/// Move an event to a new state, as of `now`. `snoozed_until` matters only for
/// a snoozed event. Reaching a final state stamps when; leaving one clears the
/// stamp.
pub fn set_alert_event_status(
    store: &mut Store,
    id: &str,
    status: AlertStatus,
    snoozed_until: Option<Timestamp>,
    now: Timestamp,
) -> (res: Result<(), Error>)
    ensures
        res is Ok,
        same_but_events(*final(store), *old(store)),
        final(store).alert_events@ == (match list::first_index(
            old(store).alert_events@,
            event_id(id@),
        ) {
            Some(i) => old(store).alert_events@.update(
                i,
                moved(old(store).alert_events@[i], status, snoozed_until, now),
            ),
            None => old(store).alert_events@,
        }),
        old(store).ids_distinct() ==> final(store).ids_distinct(),
{
    let resolved_at = match status {
        AlertStatus::Resolved | AlertStatus::Dismissed => Some(now),
        _ => None,
    };
    let found = position(
        &store.alert_events,
        |event: &AlertEvent| -> (same: bool)
            ensures
                same == event_id(id@)(*event)
            { text::same_text(&event.id, id) },
        Ghost(event_id(id@)),
    );
    if let Some(i) = found {
        let mut event = store.alert_events[i].clone();
        event.status = status;
        event.snoozed_until = snoozed_until;
        event.resolved_at = resolved_at;
        proof {
            if old(store).ids_distinct() {
                list::updating_keeps_keys_distinct(
                    old(store).alert_events@,
                    memory::event_key(),
                    i as int,
                    event,
                );
            }
        }
        store.alert_events.set(i, event);
    }
    Ok(())
}

} // verus!
