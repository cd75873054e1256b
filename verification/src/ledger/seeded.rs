//! What seeding the demo leaves behind, in terms of the bill it is given.
use vstd::prelude::*;

use super::demo;
use super::demo::DemoPeriod;
use crate::calendar::Timestamp;
use crate::db;
use crate::list;
use crate::memory::StoredPeriod;
use crate::model::{BalanceSnapshot, BudgetInfo, Channel, CloudAccount, PeriodKey};
use crate::records;

verus! {

// ==================== Periods ====================

/// Two bills are of the same account in the same month.
pub open spec fn same_bill(a: PeriodKey, b: PeriodKey) -> bool {
    a.provider@ == b.provider@ && a.account_id@ == b.account_id@ && a.billing_period@
        == b.billing_period@
}

/// A stored period is a demo period as it came from an API at an instant.
pub open spec fn is_seeded(period: StoredPeriod, demo: DemoPeriod, now: Timestamp) -> bool {
    &&& period.key == demo.key
    &&& period.batch_id@ == demo.batch_id@
    &&& period.charges@ == demo.charges@
    &&& period.channel == Channel::Api
    &&& period.completed_at == now
}

/// Some period is a demo period.
pub open spec fn has_seeded(periods: Seq<StoredPeriod>, demo: DemoPeriod, now: Timestamp) -> bool {
    exists|p: int| 0 <= p < periods.len() && #[trigger] is_seeded(periods[p], demo, now)
}

/// A period is one of the demo's.
pub open spec fn is_of_demo(period: StoredPeriod, demos: Seq<DemoPeriod>, now: Timestamp) -> bool {
    exists|d: int| 0 <= d < demos.len() && #[trigger] is_seeded(period, demos[d], now)
}

/// No demo period from a place on is of a bill.
pub open spec fn spares(demos: Seq<DemoPeriod>, from: int, key: PeriodKey) -> bool {
    forall|d: int| from <= d < demos.len() ==> !same_bill(key, (#[trigger] demos[d]).key)
}

proof fn lemma_spares(demos: Seq<DemoPeriod>, from: int, key: PeriodKey)
    requires
        0 <= from < demos.len(),
    ensures
        spares(demos, from, key) <==> spares(demos.drop_last(), from, key) && !same_bill(
            key,
            demos.last().key,
        ),
{
    let fewer = demos.drop_last();
    let last = demos.len() - 1;
    if spares(demos, from, key) {
        assert(!same_bill(key, demos[last].key));
        assert forall|d: int| from <= d < fewer.len() implies !same_bill(
            key,
            (#[trigger] fewer[d]).key,
        ) by {
            assert(fewer[d] == demos[d]);
        }
    }
    if spares(fewer, from, key) && !same_bill(key, demos.last().key) {
        assert forall|d: int| from <= d < demos.len() implies !same_bill(
            key,
            (#[trigger] demos[d]).key,
        ) by {
            if d < last {
                assert(fewer[d] == demos[d]);
            }
        }
    }
}

proof fn lemma_one_seeded(
    between: Seq<StoredPeriod>,
    demo: DemoPeriod,
    after: Seq<StoredPeriod>,
    now: Timestamp,
    period: StoredPeriod,
)
    requires
        demo::period_seeded(between, demo, after, now),
    ensures
        after.len() > 0,
        is_seeded(after.last(), demo, now),
        after.contains(period) <==> period == after.last() || (between.contains(period)
            && !same_bill(period.key, demo.key)),
{
    let test = super::stored_under(demo.key);
    let kept = after.drop_last();
    list::without_drops_exactly(between, test);
    assert(test(period) == same_bill(period.key, demo.key));
    assert(kept.contains(period) <==> between.contains(period) && !test(period));
    if kept.contains(period) {
        let k = choose|k: int| 0 <= k < kept.len() && kept[k] == period;
        assert(after[k] == period);
    }
    if after.contains(period) {
        let k = choose|k: int| 0 <= k < after.len() && after[k] == period;
        if k < kept.len() {
            assert(kept[k] == period);
        }
    }
    assert(after[after.len() - 1] == after.last());
}

/// Seeding stores every period of the demo that no later one replaces.
pub proof fn seeding_stores_every_period(
    before: Seq<StoredPeriod>,
    demos: Seq<DemoPeriod>,
    after: Seq<StoredPeriod>,
    now: Timestamp,
    d: int,
)
    requires
        demo::periods_seeded(before, demos, after, now),
        0 <= d < demos.len(),
        spares(demos, d + 1, demos[d].key),
    ensures
        has_seeded(after, demos[d], now),
    decreases demos.len(),
{
    let fewer = demos.drop_last();
    let last = demos.len() - 1;
    let between = choose|between: Seq<StoredPeriod>|
        demo::periods_seeded(before, fewer, between, now) && #[trigger] demo::period_seeded(
            between,
            demos.last(),
            after,
            now,
        );
    if d < last {
        lemma_spares(demos, d + 1, demos[d].key);
        assert(fewer[d] == demos[d]);
        seeding_stores_every_period(before, fewer, between, now, d);
        let p = choose|p: int|
            0 <= p < between.len() && #[trigger] is_seeded(between[p], demos[d], now);
        lemma_one_seeded(between, demos.last(), after, now, between[p]);
        assert(between.contains(between[p]));
        let k = choose|k: int| 0 <= k < after.len() && after[k] == between[p];
        assert(is_seeded(after[k], demos[d], now));
    } else {
        lemma_one_seeded(between, demos.last(), after, now, after.last());
        assert(is_seeded(after[after.len() - 1], demos[d], now));
    }
}

/// Seeding keeps the periods of every bill that the demo has none of, and stores
/// nothing but those and its own.
pub proof fn seeding_keeps_other_bills(
    before: Seq<StoredPeriod>,
    demos: Seq<DemoPeriod>,
    after: Seq<StoredPeriod>,
    now: Timestamp,
    period: StoredPeriod,
)
    requires
        demo::periods_seeded(before, demos, after, now),
    ensures
        before.contains(period) && spares(demos, 0, period.key) ==> after.contains(period),
        after.contains(period) ==> is_of_demo(period, demos, now) || (before.contains(period)
            && spares(demos, 0, period.key)),
    decreases demos.len(),
{
    if demos.len() > 0 {
        let fewer = demos.drop_last();
        let last = demos.len() - 1;
        let between = choose|between: Seq<StoredPeriod>|
            demo::periods_seeded(before, fewer, between, now) && #[trigger] demo::period_seeded(
                between,
                demos.last(),
                after,
                now,
            );
        seeding_keeps_other_bills(before, fewer, between, now, period);
        lemma_one_seeded(between, demos.last(), after, now, period);
        lemma_spares(demos, 0, period.key);
        if after.contains(period) {
            if period == after.last() {
                assert(is_seeded(period, demos[last], now));
            } else if is_of_demo(period, fewer, now) {
                let d = choose|d: int|
                    0 <= d < fewer.len() && #[trigger] is_seeded(period, fewer[d], now);
                assert(is_seeded(period, demos[d], now));
            }
        }
    }
}

/// The charges of a demo are counted once each: a demo in two parts counts what the
/// parts do, and one period what it has.
pub proof fn demo_charges_are_counted(one: Seq<DemoPeriod>, other: Seq<DemoPeriod>, period: DemoPeriod)
    ensures
        demo::demo_charges(one + other) == demo::demo_charges(one) + demo::demo_charges(other),
        demo::demo_charges(seq![period]) == period.charges@.len(),
        demo::demo_charges(Seq::empty()) == 0,
    decreases other.len(),
{
    assert(seq![period].drop_last() =~= Seq::<DemoPeriod>::empty());
    assert(demo::demo_charges(Seq::<DemoPeriod>::empty()) == 0);
    if other.len() == 0 {
        assert(one + other =~= one);
    } else {
        demo_charges_are_counted(one, other.drop_last(), period);
        assert((one + other).drop_last() =~= one + other.drop_last());
    }
}

// ==================== Accounts ====================

proof fn lemma_upserted(
    accounts: Seq<CloudAccount>,
    id: Seq<char>,
    account: CloudAccount,
    other: Seq<char>,
)
    requires
        account.id@ == id,
    ensures
        records::first_of(
            list::upserted(accounts, db::account_id(id), account),
            db::account_id(other),
        ) == (if other == id {
            Some(account)
        } else {
            records::first_of(accounts, db::account_id(other))
        }),
{
    let test = db::account_id(id);
    let asked = db::account_id(other);
    let after = list::upserted(accounts, test, account);
    list::first_index_is_first(accounts, test);
    list::first_index_is_first(accounts, asked);
    list::first_index_is_first(after, asked);
    match list::first_index(accounts, test) {
        Some(i) => {
            assert(test(accounts[i]));
            assert(asked(after[i]) == (other == id));
            assert forall|j: int| 0 <= j < accounts.len() && j != i implies #[trigger] after[j]
                == accounts[j] by {}
            if other != id {
                assert(!asked(accounts[i]));
            }
            match list::first_index(after, asked) {
                Some(k) => {
                    assert(asked(after[k]));
                    if other == id && k < i {
                        assert(!test(accounts[k]));
                    }
                    if other != id {
                        assert(asked(accounts[k]));
                    }
                },
                None => {
                    assert(!asked(after[i]));
                    match list::first_index(accounts, asked) {
                        Some(k) => {
                            assert(asked(accounts[k]));
                            assert(!asked(after[k]));
                        },
                        None => {},
                    }
                },
            }
            match (list::first_index(after, asked), list::first_index(accounts, asked)) {
                (Some(k), Some(l)) => {
                    if other != id {
                        assert(asked(accounts[l]) && asked(after[k]));
                        if k < l {
                            assert(!asked(accounts[k]));
                        } else if l < k {
                            assert(!asked(after[l]));
                        }
                    } else {
                        assert(!(i < k)) by {
                            if i < k {
                                assert(!asked(after[i]));
                            }
                        }
                    }
                },
                (Some(k), None) => {
                    if other == id {
                        assert(!asked(accounts[i]));
                    } else {
                        assert(!asked(accounts[k]));
                    }
                },
                _ => {},
            }
        },
        None => {
            let end = accounts.len() as int;
            assert(asked(after[end]) == (other == id));
            assert forall|j: int| 0 <= j < accounts.len() implies #[trigger] after[j]
                == accounts[j] by {}
            match list::first_index(after, asked) {
                Some(k) => {
                    assert(asked(after[k]));
                    if k < end {
                        assert(asked(accounts[k]));
                        if other == id {
                            assert(!test(accounts[k]));
                        }
                    }
                    match list::first_index(accounts, asked) {
                        Some(l) => {
                            assert(asked(after[l]));
                            if k < l {
                                assert(!asked(accounts[k]));
                            }
                        },
                        None => {
                            if k < end {
                                assert(!asked(accounts[k]));
                            }
                        },
                    }
                },
                None => {
                    assert(!asked(after[end]));
                    match list::first_index(accounts, asked) {
                        Some(l) => {
                            assert(asked(accounts[l]));
                            assert(!asked(after[l]));
                        },
                        None => {},
                    }
                },
            }
        },
    }
}

/// What is left of the last account with an id among those saved.
pub open spec fn is_last_with(saved: Seq<CloudAccount>, id: Seq<char>, s: int) -> bool {
    0 <= s < saved.len() && saved[s].id@ == id && forall|t: int|
        s < t < saved.len() ==> (#[trigger] saved[t]).id@ != id
}

proof fn lemma_saved(before: Seq<CloudAccount>, saved: Seq<CloudAccount>, id: Seq<char>)
    ensures
        forall|s: int| #[trigger]
            is_last_with(saved, id, s) ==> records::first_of(
                demo::accounts_saved(before, saved),
                db::account_id(id),
            ) == Some(CloudAccount { access_key_hint: None, ..saved[s] }),
        (forall|s: int| 0 <= s < saved.len() ==> (#[trigger] saved[s]).id@ != id)
            ==> records::first_of(demo::accounts_saved(before, saved), db::account_id(id))
            == records::first_of(before, db::account_id(id)),
    decreases saved.len(),
{
    if saved.len() > 0 {
        let fewer = saved.drop_last();
        let last = saved.len() - 1;
        lemma_saved(before, fewer, id);
        let account = CloudAccount { access_key_hint: None, ..saved.last() };
        lemma_upserted(demo::accounts_saved(before, fewer), saved.last().id@, account, id);
        assert forall|s: int| #[trigger] is_last_with(saved, id, s) implies records::first_of(
            demo::accounts_saved(before, saved),
            db::account_id(id),
        ) == Some(CloudAccount { access_key_hint: None, ..saved[s] }) by {
            if s < last {
                assert(saved[last].id@ != id);
                assert forall|t: int| s < t < fewer.len() implies (#[trigger] fewer[t]).id@
                    != id by {
                    assert(fewer[t] == saved[t]);
                }
                assert(fewer[s] == saved[s]);
                assert(is_last_with(fewer, id, s));
            }
        }
        if forall|s: int| 0 <= s < saved.len() ==> (#[trigger] saved[s]).id@ != id {
            assert(saved[last].id@ != id);
            assert forall|s: int| 0 <= s < fewer.len() implies (#[trigger] fewer[s]).id@ != id by {
                assert(fewer[s] == saved[s]);
            }
        }
    }
}

proof fn lemma_synced(
    accounts: Seq<CloudAccount>,
    marked: Seq<CloudAccount>,
    at: Timestamp,
    id: Seq<char>,
)
    ensures
        ({
            let found = records::first_of(accounts, db::account_id(id));
            let after = records::first_of(
                demo::accounts_synced(accounts, marked, at),
                db::account_id(id),
            );
            &&& found is None <==> after is None
            &&& (exists|m: int| 0 <= m < marked.len() && (#[trigger] marked[m]).id@ == id)
                && found is Some ==> after == Some(
                CloudAccount { last_synced_at: Some(at), ..found->0 },
            )
            &&& (forall|m: int| 0 <= m < marked.len() ==> (#[trigger] marked[m]).id@ != id)
                ==> after == found
        }),
    decreases marked.len(),
{
    if marked.len() > 0 {
        let fewer = marked.drop_last();
        let last = marked.len() - 1;
        lemma_synced(accounts, fewer, at, id);
        let before = demo::accounts_synced(accounts, fewer, at);
        let own = marked.last().id@;
        let test = db::account_id(own);
        list::first_index_is_first(before, test);
        match list::first_index(before, test) {
            Some(i) => {
                assert(test(before[i]));
                lemma_upserted(before, own, db::synced(before[i], at), id);
            },
            None => {},
        }
        if id != own {
            assert(marked[last].id@ != id);
            if exists|m: int| 0 <= m < marked.len() && (#[trigger] marked[m]).id@ == id {
                let m = choose|m: int| 0 <= m < marked.len() && (#[trigger] marked[m]).id@ == id;
                assert(fewer[m] == marked[m]);
            }
            if forall|m: int| 0 <= m < marked.len() ==> (#[trigger] marked[m]).id@ != id {
                assert forall|m: int| 0 <= m < fewer.len() implies (#[trigger] fewer[m]).id@
                    != id by {
                    assert(fewer[m] == marked[m]);
                }
            }
        } else {
            assert(marked[last].id@ == id);
            if exists|m: int| 0 <= m < fewer.len() && (#[trigger] fewer[m]).id@ == id {
            } else {
                assert forall|m: int| 0 <= m < fewer.len() implies (#[trigger] fewer[m]).id@
                    != id by {}
            }
        }
    }
}

/// Seeding saves every account of the demo as it is given, without a hint of a key
/// and as synced just now, and changes no other account.
pub proof fn seeding_saves_every_account(
    before: Seq<CloudAccount>,
    saved: Seq<CloudAccount>,
    at: Timestamp,
    id: Seq<char>,
)
    ensures
        ({
            let after = demo::accounts_synced(demo::accounts_saved(before, saved), saved, at);
            let found = records::first_of(after, db::account_id(id));
            &&& forall|s: int| #[trigger]
                is_last_with(saved, id, s) ==> {
                    &&& found is Some
                    &&& found->0.id == saved[s].id
                    &&& found->0.name == saved[s].name
                    &&& found->0.source_id == saved[s].source_id
                    &&& found->0.region == saved[s].region
                    &&& found->0.created_at == saved[s].created_at
                    &&& found->0.last_synced_at == Some(at)
                    &&& found->0.enabled == saved[s].enabled
                    &&& found->0.access_key_hint is None
                    &&& found->0.export_uri == saved[s].export_uri
                }
            &&& (forall|s: int| 0 <= s < saved.len() ==> (#[trigger] saved[s]).id@ != id)
                ==> found == records::first_of(before, db::account_id(id))
        }),
{
    lemma_saved(before, saved, id);
    lemma_synced(demo::accounts_saved(before, saved), saved, at, id);
    let after = demo::accounts_synced(demo::accounts_saved(before, saved), saved, at);
    let found = records::first_of(after, db::account_id(id));
    assert forall|s: int| #[trigger] is_last_with(saved, id, s) implies found == Some(
        CloudAccount { last_synced_at: Some(at), access_key_hint: None, ..saved[s] },
    ) by {
        assert(saved[s].id@ == id);
    }
}

// ==================== Balances ====================

/// Two snapshots are of one account at one instant in one currency.
pub open spec fn same_instant(a: BalanceSnapshot, b: BalanceSnapshot) -> bool {
    a.provider@ == b.provider@ && a.account_id@ == b.account_id@ && a.observed_at == b.observed_at
        && a.currency@ == b.currency@
}

/// Seeding records every balance of the demo that no later one of the same instant
/// replaces, keeps every other, and records nothing else.
pub proof fn seeding_records_every_balance(
    before: Seq<BalanceSnapshot>,
    recorded: Seq<BalanceSnapshot>,
    one: BalanceSnapshot,
)
    ensures
        demo::balances_recorded(before, recorded).contains(one) <==> (exists|r: int|
            #![trigger recorded[r]]
            0 <= r < recorded.len() && recorded[r] == one && forall|s: int|
                r < s < recorded.len() ==> !same_instant(one, #[trigger] recorded[s])) || (
        before.contains(one) && forall|s: int|
            0 <= s < recorded.len() ==> !same_instant(one, #[trigger] recorded[s])),
    decreases recorded.len(),
{
    if recorded.len() > 0 {
        let fewer = recorded.drop_last();
        let last = recorded.len() - 1;
        seeding_records_every_balance(before, fewer, one);
        let earlier = demo::balances_recorded(before, fewer);
        let test = super::same_observation(recorded.last());
        let kept = list::without(earlier, test);
        let after = demo::balances_recorded(before, recorded);
        list::without_drops_exactly(earlier, test);
        assert(test(one) == same_instant(one, recorded[last]));
        assert(after.contains(one) <==> kept.contains(one) || one == recorded[last]) by {
            if kept.contains(one) {
                let k = choose|k: int| 0 <= k < kept.len() && kept[k] == one;
                assert(after[k] == one);
            }
            assert(after[kept.len() as int] == recorded[last]);
            if after.contains(one) {
                let k = choose|k: int| 0 <= k < after.len() && after[k] == one;
                if k < kept.len() {
                    assert(kept[k] == one);
                }
            }
        }
        if one == recorded[last] {
            assert(forall|s: int|
                last < s < recorded.len() ==> !same_instant(one, #[trigger] recorded[s]));
        } else if same_instant(one, recorded[last]) {
            assert(!kept.contains(one));
        } else {
            if exists|r: int|
                #![trigger fewer[r]]
                0 <= r < fewer.len() && fewer[r] == one && forall|s: int|
                    r < s < fewer.len() ==> !same_instant(one, #[trigger] fewer[s]) {
                let r = choose|r: int|
                    #![trigger fewer[r]]
                    0 <= r < fewer.len() && fewer[r] == one && forall|s: int|
                        r < s < fewer.len() ==> !same_instant(one, #[trigger] fewer[s]);
                assert(recorded[r] == one);
                assert forall|s: int| r < s < recorded.len() implies !same_instant(
                    one,
                    #[trigger] recorded[s],
                ) by {
                    if s < last {
                        assert(fewer[s] == recorded[s]);
                    }
                }
            }
            if exists|r: int|
                #![trigger recorded[r]]
                0 <= r < recorded.len() && recorded[r] == one && forall|s: int|
                    r < s < recorded.len() ==> !same_instant(one, #[trigger] recorded[s]) {
                let r = choose|r: int|
                    #![trigger recorded[r]]
                    0 <= r < recorded.len() && recorded[r] == one && forall|s: int|
                        r < s < recorded.len() ==> !same_instant(one, #[trigger] recorded[s]);
                assert(fewer[r] == one);
                assert forall|s: int| r < s < fewer.len() implies !same_instant(
                    one,
                    #[trigger] fewer[s],
                ) by {
                    assert(fewer[s] == recorded[s]);
                }
            }
            if forall|s: int| 0 <= s < fewer.len() ==> !same_instant(one, #[trigger] fewer[s]) {
                assert forall|s: int| 0 <= s < recorded.len() implies !same_instant(
                    one,
                    #[trigger] recorded[s],
                ) by {
                    if s < last {
                        assert(fewer[s] == recorded[s]);
                    }
                }
            }
            if forall|s: int| 0 <= s < recorded.len() ==> !same_instant(
                one,
                #[trigger] recorded[s],
            ) {
                assert forall|s: int| 0 <= s < fewer.len() implies !same_instant(
                    one,
                    #[trigger] fewer[s],
                ) by {
                    assert(fewer[s] == recorded[s]);
                }
            }
        }
    }
}

// ==================== Clearing ====================

/// Clearing the demo drops the budgets of the accounts it deletes, and no other.
pub proof fn clearing_drops_the_budgets_of_its_accounts(
    before: Seq<BudgetInfo>,
    gone: Seq<CloudAccount>,
    budget: BudgetInfo,
)
    ensures
        demo::budgets_deleted(before, gone).contains(budget) <==> before.contains(budget)
            && forall|g: int|
            0 <= g < gone.len() ==> (#[trigger] gone[g]).id@ != budget.account_id@,
    decreases gone.len(),
{
    if gone.len() > 0 {
        let fewer = gone.drop_last();
        let last = gone.len() - 1;
        clearing_drops_the_budgets_of_its_accounts(before, fewer, budget);
        let test = db::budget_of(gone.last().id@);
        list::without_drops_exactly(demo::budgets_deleted(before, fewer), test);
        assert(test(budget) == (budget.account_id@ == gone[last].id@));
        assert((forall|g: int|
            0 <= g < gone.len() ==> (#[trigger] gone[g]).id@ != budget.account_id@) <==> (forall|
            g: int,
        |
            0 <= g < fewer.len() ==> (#[trigger] fewer[g]).id@ != budget.account_id@)
            && gone[last].id@ != budget.account_id@) by {
            if forall|g: int| 0 <= g < gone.len() ==> (#[trigger] gone[g]).id@
                != budget.account_id@ {
                assert forall|g: int| 0 <= g < fewer.len() implies (#[trigger] fewer[g]).id@
                    != budget.account_id@ by {
                    assert(fewer[g] == gone[g]);
                }
            }
            if (forall|g: int| 0 <= g < fewer.len() ==> (#[trigger] fewer[g]).id@
                != budget.account_id@) && gone[last].id@ != budget.account_id@ {
                assert forall|g: int| 0 <= g < gone.len() implies (#[trigger] gone[g]).id@
                    != budget.account_id@ by {
                    if g < last {
                        assert(fewer[g] == gone[g]);
                    }
                }
            }
        }
    }
}

} // verus!
