//! Writing a demo bill into the ledger, and taking it out again.
use vstd::prelude::*;

use super::{record_balance, replace_period};
use crate::calendar::Timestamp;
use crate::db;
use crate::error::Error;
use crate::list;
use crate::list::drop_where;
use crate::memory::{Store, StoredPeriod};
use crate::model::{BalanceSnapshot, Channel, Charge, CloudAccount, PeriodKey};
use crate::text;

verus! {

// ==================== Seeding ====================

/// One account's demo bill for one period.
#[derive(Debug)]
pub struct DemoPeriod {
    pub key: PeriodKey,
    pub batch_id: String,
    pub charges: Vec<Charge>,
}

/// What a demo is made of.
#[derive(Debug)]
pub struct DemoBill {
    pub accounts: Vec<CloudAccount>,
    pub periods: Vec<DemoPeriod>,
    pub balances: Vec<BalanceSnapshot>,
}

/// Accounts with the demo's saved among them. A demo account signs no request,
/// so it keeps no key hint.
pub open spec fn accounts_saved(before: Seq<CloudAccount>, saved: Seq<CloudAccount>) -> Seq<
    CloudAccount,
>
    decreases saved.len(),
{
    if saved.len() == 0 {
        before
    } else {
        let account = saved.last();
        list::upserted(
            accounts_saved(before, saved.drop_last()),
            db::account_id(account.id@),
            CloudAccount { access_key_hint: None, ..account },
        )
    }
}

/// Accounts with the demo's marked as synced.
pub open spec fn accounts_synced(
    before: Seq<CloudAccount>,
    marked: Seq<CloudAccount>,
    at: Timestamp,
) -> Seq<CloudAccount>
    decreases marked.len(),
{
    if marked.len() == 0 {
        before
    } else {
        let accounts = accounts_synced(before, marked.drop_last(), at);
        match list::first_index(accounts, db::account_id(marked.last().id@)) {
            Some(i) => accounts.update(i, db::synced(accounts[i], at)),
            None => accounts,
        }
    }
}

/// One demo period put in place of what was stored under its key.
pub open spec fn period_seeded(
    before: Seq<StoredPeriod>,
    demo: DemoPeriod,
    after: Seq<StoredPeriod>,
    now: Timestamp,
) -> bool {
    &&& after.len() > 0
    &&& after.drop_last() == list::without(before, super::stored_under(demo.key))
    &&& super::stores(
        after.last(),
        demo.key,
        demo.batch_id@,
        demo.charges@,
        Channel::Api,
        now,
    )
}

/// Demo periods put in place one after another.
pub open spec fn periods_seeded(
    before: Seq<StoredPeriod>,
    demos: Seq<DemoPeriod>,
    after: Seq<StoredPeriod>,
    now: Timestamp,
) -> bool
    decreases demos.len(),
{
    if demos.len() == 0 {
        after == before
    } else {
        exists|between: Seq<StoredPeriod>|
            {
                &&& periods_seeded(before, demos.drop_last(), between, now)
                &&& #[trigger] period_seeded(between, demos.last(), after, now)
            }
    }
}

/// Balances with the demo's recorded among them.
pub open spec fn balances_recorded(
    before: Seq<BalanceSnapshot>,
    recorded: Seq<BalanceSnapshot>,
) -> Seq<BalanceSnapshot>
    decreases recorded.len(),
{
    if recorded.len() == 0 {
        before
    } else {
        list::without(
            balances_recorded(before, recorded.drop_last()),
            super::same_observation(recorded.last()),
        ).push(recorded.last())
    }
}

/// Every demo charge starts at an instant of the calendar.
pub open spec fn demos_dated(demos: Seq<DemoPeriod>) -> bool {
    forall|d: int| 0 <= d < demos.len() ==> super::all_dated((#[trigger] demos[d]).charges@)
}

/// How many charges demo periods hold.
pub open spec fn demo_charges(demos: Seq<DemoPeriod>) -> nat
    decreases demos.len(),
{
    if demos.len() == 0 {
        0
    } else {
        demo_charges(demos.drop_last()) + demos.last().charges@.len()
    }
}

proof fn lemma_demo_charges_grow(demos: Seq<DemoPeriod>, n: int)
    requires
        0 <= n <= demos.len(),
    ensures
        demo_charges(demos.take(n)) <= demo_charges(demos),
    decreases demos.len(),
{
    if n < demos.len() {
        lemma_demo_charges_grow(demos.drop_last(), n);
        assert(demos.drop_last().take(n) =~= demos.take(n));
    } else {
        assert(demos.take(n) =~= demos);
    }
}

proof fn lemma_seed_one_more(
    before: Seq<StoredPeriod>,
    demos: Seq<DemoPeriod>,
    between: Seq<StoredPeriod>,
    demo: DemoPeriod,
    after: Seq<StoredPeriod>,
    now: Timestamp,
)
    requires
        periods_seeded(before, demos, between, now),
        period_seeded(between, demo, after, now),
    ensures
        periods_seeded(before, demos.push(demo), after, now),
{
    let more = demos.push(demo);
    assert(more.drop_last() =~= demos);
    assert(period_seeded(between, more.last(), after, now));
}

/// Fill the ledger with the demo's accounts, charges and balances, replacing any
/// demo data already present. Says how many charges were written.
pub fn seed_demo(store: &mut Store, bill: &DemoBill, now: Timestamp) -> (res: Result<usize, Error>)
    requires
        demo_charges(bill.periods@) <= usize::MAX,
    ensures
        res is Ok,
        res->Ok_0 == demo_charges(bill.periods@),
        final(store).accounts@ == accounts_synced(
            accounts_saved(old(store).accounts@, bill.accounts@),
            bill.accounts@,
            now,
        ),
        periods_seeded(old(store).periods@, bill.periods@, final(store).periods@, now),
        old(store).charges_dated() && demos_dated(bill.periods@) ==> final(store).charges_dated(),
        final(store).balances@ == balances_recorded(old(store).balances@, bill.balances@),
        final(store).budgets == old(store).budgets,
        final(store).alert_rules == old(store).alert_rules,
        final(store).alert_events == old(store).alert_events,
        final(store).dismissed_quality_keys == old(store).dismissed_quality_keys,
        final(store).reporting_currency == old(store).reporting_currency,
        old(store).ids_distinct() ==> final(store).ids_distinct(),
{
    let ghost start = *store;
    let mut i: usize = 0;
    proof {
        assert(bill.accounts@.take(0) =~= Seq::empty());
    }
    while i < bill.accounts.len()
        invariant
            i <= bill.accounts.len(),
            start.ids_distinct() ==> store.ids_distinct(),
            db::same_but_accounts(*store, start),
            store.accounts@ == accounts_saved(start.accounts@, bill.accounts@.take(i as int)),
        decreases bill.accounts.len() - i,
    {
        let account = &bill.accounts[i];
        let ghost before = store.accounts@;
        proof {
            assert(bill.accounts@.take(i + 1).drop_last() =~= bill.accounts@.take(i as int));
            assert(bill.accounts@.take(i + 1).last() == *account);
            reveal_strlit("");
        }
        match db::save_account(store, account, "", "", "") {
            Ok(()) => {},
            Err(error) => {
                return Err(error);
            },
        }
        proof {
            let stored = choose|stored: CloudAccount|
                {
                    &&& #[trigger] db::with_hint(*account, db::hint_for(""@, ""@), stored)
                    &&& store.accounts@ == list::upserted(
                        before,
                        db::account_id(account.id@),
                        stored,
                    )
                };
            assert(db::with_hint(*account, db::hint_for(""@, ""@), stored));
            assert(stored == (CloudAccount { access_key_hint: None, ..*account }));
        }
        i = i + 1;
    }
    let ghost saved = store.accounts@;

    let mut charge_count: usize = 0;
    let mut p: usize = 0;
    proof {
        assert(bill.accounts@.take(i as int) =~= bill.accounts@);
        assert(bill.periods@.take(0) =~= Seq::empty());
    }
    while p < bill.periods.len()
        invariant
            p <= bill.periods.len(),
            start.ids_distinct() ==> store.ids_distinct(),
            demo_charges(bill.periods@) <= usize::MAX,
            charge_count == demo_charges(bill.periods@.take(p as int)),
            store.accounts@ == saved,
            store.budgets == start.budgets,
            store.alert_rules == start.alert_rules,
            store.alert_events == start.alert_events,
            store.dismissed_quality_keys == start.dismissed_quality_keys,
            store.balances == start.balances,
            store.reporting_currency == start.reporting_currency,
            periods_seeded(start.periods@, bill.periods@.take(p as int), store.periods@, now),
            start.charges_dated() && demos_dated(bill.periods@) ==> store.charges_dated(),
        decreases bill.periods.len() - p,
    {
        let demo = &bill.periods[p];
        let ghost before = store.periods@;
        proof {
            assert(bill.periods@.take(p + 1).drop_last() =~= bill.periods@.take(p as int));
            assert(bill.periods@.take(p + 1).last() == *demo);
            lemma_demo_charges_grow(bill.periods@, p + 1);
        }
        charge_count = charge_count + demo.charges.len();
        match replace_period(store, &demo.key, &demo.batch_id, &demo.charges, Channel::Api, now) {
            Ok(()) => {},
            Err(error) => {
                return Err(error);
            },
        }
        proof {
            lemma_seed_one_more(
                start.periods@,
                bill.periods@.take(p as int),
                before,
                *demo,
                store.periods@,
                now,
            );
            assert(bill.periods@.take(p as int).push(*demo) =~= bill.periods@.take(p + 1));
        }
        p = p + 1;
    }
    let ghost seeded = store.periods@;

    let mut b: usize = 0;
    proof {
        assert(bill.periods@.take(p as int) =~= bill.periods@);
        assert(bill.balances@.take(0) =~= Seq::empty());
    }
    while b < bill.balances.len()
        invariant
            b <= bill.balances.len(),
            start.ids_distinct() ==> store.ids_distinct(),
            store.accounts@ == saved,
            store.budgets == start.budgets,
            store.alert_rules == start.alert_rules,
            store.alert_events == start.alert_events,
            store.dismissed_quality_keys == start.dismissed_quality_keys,
            store.periods@ == seeded,
            store.reporting_currency == start.reporting_currency,
            store.balances@ == balances_recorded(
                start.balances@,
                bill.balances@.take(b as int),
            ),
        decreases bill.balances.len() - b,
    {
        proof {
            assert(bill.balances@.take(b + 1).drop_last() =~= bill.balances@.take(b as int));
            assert(bill.balances@.take(b + 1).last() == bill.balances@[b as int]);
        }
        match record_balance(store, &bill.balances[b]) {
            Ok(()) => {},
            Err(error) => {
                return Err(error);
            },
        }
        b = b + 1;
    }
    let ghost recorded = store.balances@;

    let mut k: usize = 0;
    proof {
        assert(bill.balances@.take(b as int) =~= bill.balances@);
        assert(bill.accounts@.take(0) =~= Seq::empty());
    }
    while k < bill.accounts.len()
        invariant
            k <= bill.accounts.len(),
            start.ids_distinct() ==> store.ids_distinct(),
            store.accounts@ == accounts_synced(saved, bill.accounts@.take(k as int), now),
            store.budgets == start.budgets,
            store.alert_rules == start.alert_rules,
            store.alert_events == start.alert_events,
            store.dismissed_quality_keys == start.dismissed_quality_keys,
            store.periods@ == seeded,
            store.balances@ == recorded,
            store.reporting_currency == start.reporting_currency,
        decreases bill.accounts.len() - k,
    {
        proof {
            assert(bill.accounts@.take(k + 1).drop_last() =~= bill.accounts@.take(k as int));
            assert(bill.accounts@.take(k + 1).last() == bill.accounts@[k as int]);
        }
        match db::mark_account_synced(store, &bill.accounts[k].id, now) {
            Ok(()) => {},
            Err(error) => {
                return Err(error);
            },
        }
        k = k + 1;
    }
    proof {
        assert(bill.accounts@.take(k as int) =~= bill.accounts@);
    }
    Ok(charge_count)
}

// ==================== Clearing ====================

/// Being an account of the demo: its id begins with the demo's prefix.
pub open spec fn demo_account(prefix: Seq<char>) -> spec_fn(CloudAccount) -> bool {
    |account: CloudAccount| text::begins_with(account.id@, prefix)
}

/// Being a period that a demo batch stored.
pub open spec fn demo_period(prefix: Seq<char>) -> spec_fn(StoredPeriod) -> bool {
    |period: StoredPeriod| text::begins_with(period.batch_id@, prefix)
}

/// Being a balance of a demo account.
pub open spec fn demo_balance(prefix: Seq<char>) -> spec_fn(BalanceSnapshot) -> bool {
    |snapshot: BalanceSnapshot| text::begins_with(snapshot.account_id@, prefix)
}

/// The demo accounts that the account list shows.
pub open spec fn demo_accounts(accounts: Seq<CloudAccount>, prefix: Seq<char>) -> Seq<CloudAccount> {
    accounts.filter(db::source_known()).filter(demo_account(prefix))
}

/// Accounts without those that share an id with one of `gone`.
pub open spec fn accounts_deleted(before: Seq<CloudAccount>, gone: Seq<CloudAccount>) -> Seq<
    CloudAccount,
>
    decreases gone.len(),
{
    if gone.len() == 0 {
        before
    } else {
        list::without(
            accounts_deleted(before, gone.drop_last()),
            db::account_id(gone.last().id@),
        )
    }
}

/// Budgets without those of the accounts in `gone`.
pub open spec fn budgets_deleted(
    before: Seq<crate::model::BudgetInfo>,
    gone: Seq<CloudAccount>,
) -> Seq<crate::model::BudgetInfo>
    decreases gone.len(),
{
    if gone.len() == 0 {
        before
    } else {
        list::without(
            budgets_deleted(before, gone.drop_last()),
            db::budget_of(gone.last().id@),
        )
    }
}

/// What a cleared demo is reported as.
pub open spec fn cleared_message(removed: nat) -> Seq<char> {
    "Removed "@ + text::decimal(removed) + " demo account(s) and their data"@
}

fn demo_accounts_of(accounts: &Vec<CloudAccount>, prefix: &str) -> (res: Vec<CloudAccount>)
    ensures
        res@ == accounts@.filter(demo_account(prefix@)),
{
    let mut res: Vec<CloudAccount> = Vec::new();
    let mut i: usize = 0;
    proof {
        reveal(Seq::filter);
        assert(accounts@.take(0) =~= Seq::empty());
    }
    while i < accounts.len()
        invariant
            i <= accounts.len(),
            res@ == accounts@.take(i as int).filter(demo_account(prefix@)),
        decreases accounts.len() - i,
    {
        proof {
            reveal(Seq::filter);
            assert(accounts@.take(i + 1).drop_last() =~= accounts@.take(i as int));
            assert(accounts@.take(i + 1).last() == accounts@[i as int]);
        }
        if text::starts_with(&accounts[i].id, prefix) {
            res.push(accounts[i].clone());
        }
        i = i + 1;
    }
    proof {
        assert(accounts@.take(i as int) =~= accounts@);
    }
    res
}

/// Remove every demo row and demo account. The prefix is what makes these prefix
/// deletes: a row that is not the demo's survives.
pub fn clear_demo(store: &mut Store, prefix: &str) -> (res: Result<String, Error>)
    ensures
        res is Ok,
        ({
            let gone = demo_accounts(old(store).accounts@, prefix@);
            &&& res->Ok_0@ == cleared_message(gone.len())
            &&& final(store).accounts@ == accounts_deleted(old(store).accounts@, gone)
            &&& final(store).budgets@ == budgets_deleted(old(store).budgets@, gone)
        }),
        final(store).periods@ == list::without(old(store).periods@, demo_period(prefix@)),
        old(store).charges_dated() ==> final(store).charges_dated(),
        final(store).balances@ == list::without(old(store).balances@, demo_balance(prefix@)),
        final(store).alert_rules == old(store).alert_rules,
        final(store).alert_events == old(store).alert_events,
        final(store).dismissed_quality_keys == old(store).dismissed_quality_keys,
        final(store).reporting_currency == old(store).reporting_currency,
        old(store).ids_distinct() ==> final(store).ids_distinct(),
{
    let ghost start = *store;
    let known = match db::get_all_accounts(store) {
        Ok(accounts) => accounts,
        Err(error) => {
            return Err(error);
        },
    };
    let gone = demo_accounts_of(&known, prefix);
    let removed: usize = gone.len();
    let mut i: usize = 0;
    proof {
        assert(gone@.take(0) =~= Seq::empty());
    }
    while i < gone.len()
        invariant
            i <= gone.len(),
            start.ids_distinct() ==> store.ids_distinct(),
            store.accounts@ == accounts_deleted(start.accounts@, gone@.take(i as int)),
            store.budgets@ == budgets_deleted(start.budgets@, gone@.take(i as int)),
            store.periods == start.periods,
            store.balances == start.balances,
            store.alert_rules == start.alert_rules,
            store.alert_events == start.alert_events,
            store.dismissed_quality_keys == start.dismissed_quality_keys,
            store.reporting_currency == start.reporting_currency,
        decreases gone.len() - i,
    {
        proof {
            assert(gone@.take(i + 1).drop_last() =~= gone@.take(i as int));
            assert(gone@.take(i + 1).last() == gone@[i as int]);
        }
        match db::delete_account(store, &gone[i].id) {
            Ok(()) => {},
            Err(error) => {
                return Err(error);
            },
        }
        i = i + 1;
    }
    proof {
        assert(gone@.take(i as int) =~= gone@);
    }
    drop_where(
        &mut store.periods,
        |period: &StoredPeriod| -> (same: bool)
            ensures
                same == demo_period(prefix@)(*period)
            { text::starts_with(&period.batch_id, prefix) },
        Ghost(demo_period(prefix@)),
    );
    drop_where(
        &mut store.balances,
        |snapshot: &BalanceSnapshot| -> (same: bool)
            ensures
                same == demo_balance(prefix@)(*snapshot)
            { text::starts_with(&snapshot.account_id, prefix) },
        Ghost(demo_balance(prefix@)),
    );
    proof {
        if old(store).charges_dated() {
            let count = store.periods@.len() as int;
            assert(store.periods@.take(count) =~= store.periods@);
            super::lemma_kept_dated(*old(store), *store, demo_period(prefix@), count);
        }
    }
    Ok(
        text::concat3(
            "Removed ",
            &text::decimal_text(removed as u64),
            " demo account(s) and their data",
        ),
    )
}

// ==================== Laws of the demo ====================

proof fn lemma_accounts_deleted(before: Seq<CloudAccount>, gone: Seq<CloudAccount>, one: CloudAccount)
    ensures
        accounts_deleted(before, gone).contains(one) <==> before.contains(one) && forall|g: int|
            0 <= g < gone.len() ==> one.id@ != (#[trigger] gone[g]).id@,
    decreases gone.len(),
{
    if gone.len() > 0 {
        lemma_accounts_deleted(before, gone.drop_last(), one);
        let test = db::account_id(gone.last().id@);
        list::without_drops_exactly(accounts_deleted(before, gone.drop_last()), test);
        assert(list::without(accounts_deleted(before, gone.drop_last()), test).contains(one)
            <==> accounts_deleted(before, gone.drop_last()).contains(one) && !test(one));
        assert forall|g: int| 0 <= g < gone.len() - 1 implies gone.drop_last()[g]
            == #[trigger] gone[g] by {}
        assert(gone.last() == gone[gone.len() - 1]);
    }
}

/// Clearing the demo deletes the demo's accounts and keeps every account whose
/// id does not begin with the demo's prefix.
pub proof fn clearing_the_demo_keeps_other_accounts(
    accounts: Seq<CloudAccount>,
    prefix: Seq<char>,
    one: CloudAccount,
)
    requires
        accounts.contains(one),
    ensures
        ({
            let left = accounts_deleted(accounts, demo_accounts(accounts, prefix));
            &&& !text::begins_with(one.id@, prefix) ==> left.contains(one)
            &&& text::begins_with(one.id@, prefix) && db::source_known()(one) ==> !left.contains(
                one,
            )
        }),
{
    let known = accounts.filter(db::source_known());
    let gone = demo_accounts(accounts, prefix);
    lemma_accounts_deleted(accounts, gone, one);
    assert forall|g: int| 0 <= g < gone.len() implies text::begins_with(
        (#[trigger] gone[g]).id@,
        prefix,
    ) by {
        known.lemma_filter_pred(demo_account(prefix), g);
    }
    if text::begins_with(one.id@, prefix) && db::source_known()(one) {
        let i = choose|i: int| 0 <= i < accounts.len() && accounts[i] == one;
        accounts.lemma_filter_contains(db::source_known(), i);
        let k = choose|k: int| 0 <= k < known.len() && known[k] == one;
        known.lemma_filter_contains(demo_account(prefix), k);
        let g = choose|g: int| 0 <= g < gone.len() && gone[g] == one;
        assert(gone[g].id@ == one.id@);
    }
}

/// Clearing the demo drops the periods that demo batches stored and keeps every
/// other one; and the same of balances.
pub proof fn clearing_the_demo_keeps_other_rows(
    periods: Seq<StoredPeriod>,
    balances: Seq<BalanceSnapshot>,
    prefix: Seq<char>,
    period: StoredPeriod,
    snapshot: BalanceSnapshot,
)
    ensures
        list::without(periods, demo_period(prefix)).contains(period) <==> periods.contains(period)
            && !text::begins_with(period.batch_id@, prefix),
        list::without(balances, demo_balance(prefix)).contains(snapshot) <==> balances.contains(
            snapshot,
        ) && !text::begins_with(snapshot.account_id@, prefix),
{
    list::without_drops_exactly(periods, demo_period(prefix));
    list::without_drops_exactly(balances, demo_balance(prefix));
    assert(demo_period(prefix)(period) == text::begins_with(period.batch_id@, prefix));
    assert(demo_balance(prefix)(snapshot) == text::begins_with(snapshot.account_id@, prefix));
}

} // verus!
