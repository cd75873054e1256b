//! The ledger: one account's charges for one billing period are replaced as a
//! whole, and read through the conversion into the reporting currency.
use vstd::prelude::*;

pub mod addends;
pub mod buckets;
pub mod compare;
pub mod conversion;
pub mod demo;
pub mod grouping;
pub mod history;
pub mod kept;
pub mod laws;
pub mod measured;
pub mod query;
pub mod ranked;
pub mod reach;
pub mod scope;
pub mod seeded;

use crate::calendar::Timestamp;
use crate::error::Error;
use crate::identity;
use crate::list;
use crate::list::drop_where;
use crate::memory::{Store, StoredPeriod};
use crate::model::{BalanceSnapshot, Channel, Charge, PeriodKey};
use crate::text;

verus! {

/// Record which currency amounts are read in; the store itself exists already.
pub fn init_ledger(store: &mut Store, reporting_currency: &str) -> (res: Result<(), Error>)
    ensures
        res is Ok,
        reads_in(*final(store), *old(store), reporting_currency@),
        old(store).ids_distinct() ==> final(store).ids_distinct(),
{
    set_reporting_currency(store, reporting_currency)
}

/// Only the reporting currency differs.
pub open spec fn reads_in(after: Store, before: Store, currency: Seq<char>) -> bool {
    &&& after.reporting_currency@ == currency
    &&& after.accounts == before.accounts
    &&& after.budgets == before.budgets
    &&& after.alert_rules == before.alert_rules
    &&& after.alert_events == before.alert_events
    &&& after.dismissed_quality_keys == before.dismissed_quality_keys
    &&& after.periods == before.periods
    &&& after.balances == before.balances
}

/// Read amounts in a different currency. Nothing is rewritten: charges keep the
/// currency they were billed in and are converted as they are read.
pub fn set_reporting_currency(store: &mut Store, currency: &str) -> (res: Result<(), Error>)
    ensures
        res is Ok,
        reads_in(*final(store), *old(store), currency@),
        old(store).ids_distinct() ==> final(store).ids_distinct(),
{
    store.reporting_currency = currency.to_owned();
    Ok(())
}

/// Identifier for one ingest, drawn at random.
pub fn new_batch_id() -> (res: String)
    ensures
        identity::is_uuid(res@),
{
    identity::new_uuid()
}

/// Being stored under a key.
pub open spec fn stored_under(key: PeriodKey) -> spec_fn(StoredPeriod) -> bool {
    |period: StoredPeriod| period.key.same_as(key)
}

/// Nothing but the periods differs.
pub open spec fn same_but_periods(after: Store, before: Store) -> bool {
    &&& after.accounts == before.accounts
    &&& after.budgets == before.budgets
    &&& after.alert_rules == before.alert_rules
    &&& after.alert_events == before.alert_events
    &&& after.dismissed_quality_keys == before.dismissed_quality_keys
    &&& after.balances == before.balances
    &&& after.reporting_currency == before.reporting_currency
}

/// A period as it is stored.
pub open spec fn stores(
    period: StoredPeriod,
    key: PeriodKey,
    batch_id: Seq<char>,
    charges: Seq<Charge>,
    channel: Channel,
    now: Timestamp,
) -> bool {
    &&& period.key == key
    &&& period.batch_id@ == batch_id
    &&& period.charges@ == charges
    &&& period.channel == channel
    &&& period.completed_at == now
}

/// Every charge starts at an instant of the calendar.
pub open spec fn all_dated(charges: Seq<Charge>) -> bool {
    forall|c: int| 0 <= c < charges.len() ==> #[trigger] charges[c].charge_period_start.valid()
}

/// Dropping periods leaves no undated charge.
pub proof fn lemma_kept_dated(
    before: Store,
    after: Store,
    test: spec_fn(StoredPeriod) -> bool,
    count: int,
)
    requires
        before.charges_dated(),
        0 <= count <= after.periods@.len(),
        after.periods@.take(count) == list::without(before.periods@, test),
    ensures
        forall|p: int, c: int|
            #![trigger after.periods@[p].charges@[c]]
            0 <= p < count && 0 <= c < after.periods@[p].charges@.len()
                ==> after.periods@[p].charges@[c].charge_period_start.valid(),
{
    let kept = list::without(before.periods@, test);
    list::without_drops_exactly(before.periods@, test);
    assert forall|p: int, c: int|
        #![trigger after.periods@[p].charges@[c]]
        0 <= p < count && 0 <= c
            < after.periods@[p].charges@.len() implies after.periods@[p].charges@[c].charge_period_start.valid() by {
        assert(after.periods@.take(count)[p] == after.periods@[p]);
        assert(kept.contains(kept[p]));
        let q = choose|q: int| 0 <= q < before.periods@.len() && before.periods@[q] == kept[p];
        assert(before.periods@[q].charges@[c].charge_period_start.valid());
    }
}

/// Replace everything stored for `key` with `charges`, as of `now`.
///
/// A provider re-issues a bill in full and retroactively corrects prior months,
/// so a row-by-row update would leave behind entries it has since deleted.
pub fn replace_period(
    store: &mut Store,
    key: &PeriodKey,
    batch_id: &str,
    charges: &Vec<Charge>,
    channel: Channel,
    now: Timestamp,
) -> (res: Result<(), Error>)
    ensures
        res is Ok,
        same_but_periods(*final(store), *old(store)),
        ({
            let kept = list::without(old(store).periods@, stored_under(*key));
            &&& final(store).periods@.len() == kept.len() + 1
            &&& final(store).periods@.drop_last() == kept
            &&& stores(final(store).periods@.last(), *key, batch_id@, charges@, channel, now)
        }),
        old(store).charges_dated() && all_dated(charges@) ==> final(store).charges_dated(),
        old(store).ids_distinct() ==> final(store).ids_distinct(),
{
    let mut copied: Vec<Charge> = Vec::new();
    let mut i: usize = 0;
    while i < charges.len()
        invariant
            i <= charges.len(),
            copied@ == charges@.take(i as int),
        decreases charges.len() - i,
    {
        copied.push(charges[i].clone());
        i = i + 1;
        proof {
            assert(charges@.take(i as int) =~= charges@.take(i - 1).push(charges@[i - 1]));
        }
    }
    proof {
        assert(charges@.take(i as int) =~= charges@);
    }
    drop_where(
        &mut store.periods,
        |period: &StoredPeriod| -> (same: bool)
            ensures
                same == stored_under(*key)(*period)
            { period.key.same(key) },
        Ghost(stored_under(*key)),
    );
    let ghost kept = store.periods@;
    store.periods.push(
        StoredPeriod {
            key: key.clone(),
            batch_id: batch_id.to_owned(),
            channel,
            charges: copied,
            completed_at: now,
        },
    );
    proof {
        assert(store.periods@.drop_last() =~= kept);
        if old(store).charges_dated() && all_dated(charges@) {
            assert(store.periods@.take(kept.len() as int) =~= kept);
            lemma_kept_dated(*old(store), *store, stored_under(*key), kept.len() as int);
            assert forall|p: int, c: int|
                #![trigger store.periods@[p].charges@[c]]
                0 <= p < store.periods@.len() && 0 <= c
                    < store.periods@[p].charges@.len() implies store.periods@[p].charges@[c].charge_period_start.valid() by {
                if p == kept.len() {
                    assert(store.periods@[p].charges@[c] == charges@[c]);
                }
            }
        }
    }
    Ok(())
}

/// Being the observation that another one overwrites: of the same account, at
/// the same instant and in the same currency.
pub open spec fn same_observation(snapshot: BalanceSnapshot) -> spec_fn(BalanceSnapshot) -> bool {
    |existing: BalanceSnapshot|
        existing.provider@ == snapshot.provider@ && existing.account_id@ == snapshot.account_id@
            && existing.observed_at == snapshot.observed_at && existing.currency@
            == snapshot.currency@
}

/// Nothing but the balances differs.
pub open spec fn same_but_balances(after: Store, before: Store) -> bool {
    &&& after.accounts == before.accounts
    &&& after.budgets == before.budgets
    &&& after.alert_rules == before.alert_rules
    &&& after.alert_events == before.alert_events
    &&& after.dismissed_quality_keys == before.dismissed_quality_keys
    &&& after.periods == before.periods
    &&& after.reporting_currency == before.reporting_currency
}

/// Record a balance observation. Re-observing the same instant overwrites, so a
/// repeated observation is not a second snapshot.
pub fn record_balance(store: &mut Store, snapshot: &BalanceSnapshot) -> (res: Result<(), Error>)
    ensures
        res is Ok,
        same_but_balances(*final(store), *old(store)),
        final(store).balances@ == list::without(
            old(store).balances@,
            same_observation(*snapshot),
        ).push(*snapshot),
        old(store).ids_distinct() ==> final(store).ids_distinct(),
{
    drop_where(
        &mut store.balances,
        |existing: &BalanceSnapshot| -> (same: bool)
            ensures
                same == same_observation(*snapshot)(*existing)
            {
                text::same_text(&existing.provider, &snapshot.provider) && text::same_text(
                    &existing.account_id,
                    &snapshot.account_id,
                ) && existing.observed_at == snapshot.observed_at && text::same_text(
                    &existing.currency,
                    &snapshot.currency,
                )
            },
        Ghost(same_observation(*snapshot)),
    );
    store.balances.push(snapshot.clone());
    Ok(())
}

/// Purchases derived from the balance history of one period: none, for the
/// derivation runs where bills are ingested.
pub fn top_up_charges(_key: &PeriodKey) -> (res: Result<Vec<Charge>, Error>)
    ensures
        res is Ok,
        res->Ok_0@.len() == 0,
{
    Ok(Vec::new())
}

// ==================== Laws of the write path ====================

/// Storing a period a second time leaves one period under its key, the second:
/// what the first replacement stored is dropped, and the rest of the ledger is
/// as the first replacement left it.
pub proof fn replacing_a_period_never_doubles_it(
    before: Seq<StoredPeriod>,
    once: Seq<StoredPeriod>,
    twice: Seq<StoredPeriod>,
    key: PeriodKey,
)
    requires
        once.len() > 0,
        once.drop_last() == list::without(before, stored_under(key)),
        once.last().key == key,
        twice.len() > 0,
        twice.drop_last() == list::without(once, stored_under(key)),
        twice.last().key == key,
    ensures
        twice.len() == once.len(),
        twice.drop_last() == once.drop_last(),
        forall|i: int| 0 <= i < twice.len() - 1 ==> !(#[trigger] twice[i]).key.same_as(key),
{
    reveal(Seq::filter);
    let test = stored_under(key);
    let kept = list::without(before, test);
    assert(once =~= kept.push(once.last()));
    assert(once.drop_last() == kept);
    assert(list::without(once, test) == list::without(kept, test));
    list::without_is_idempotent(before, test);
    assert forall|i: int| 0 <= i < twice.len() - 1 implies !(#[trigger] twice[i]).key.same_as(key) by {
        assert(twice.drop_last()[i] == twice[i]);
        before.lemma_filter_pred(list::refused(test), i);
    }
}

/// Replacing one period keeps every other period as it was.
pub proof fn replacing_a_period_keeps_the_others(
    before: Seq<StoredPeriod>,
    after: Seq<StoredPeriod>,
    key: PeriodKey,
    other: StoredPeriod,
)
    requires
        after.len() > 0,
        after.drop_last() == list::without(before, stored_under(key)),
        before.contains(other),
        !other.key.same_as(key),
    ensures
        after.contains(other),
{
    list::without_drops_exactly(before, stored_under(key));
    let kept = list::without(before, stored_under(key));
    assert(kept.contains(other));
    let i = choose|i: int| 0 <= i < kept.len() && kept[i] == other;
    assert(after.drop_last()[i] == after[i]);
}

/// Recording an observation twice leaves the balances as recording it once
/// does.
pub proof fn recording_a_balance_twice_changes_nothing(
    before: Seq<BalanceSnapshot>,
    snapshot: BalanceSnapshot,
)
    ensures
        ({
            let test = same_observation(snapshot);
            let once = list::without(before, test).push(snapshot);
            list::without(once, test).push(snapshot) == once
        }),
{
    reveal(Seq::filter);
    let test = same_observation(snapshot);
    let kept = list::without(before, test);
    let once = kept.push(snapshot);
    assert(once.drop_last() =~= kept);
    assert(test(snapshot));
    list::without_is_idempotent(before, test);
}

} // verus!
