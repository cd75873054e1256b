//! What the ledger gives back of what was written to it: bills, balances and when
//! they came in.
use vstd::prelude::*;

use super::conversion;
use super::history;
use super::history::Observation;
use super::scope;
use crate::amount::Amount;
use crate::calendar;
use crate::calendar::Timestamp;
use crate::list;
use crate::memory;
use crate::memory::{NormalizedRow, Store, StoredPeriod};
use crate::model::{Balance, BalanceSnapshot, Channel, PeriodKey};
use crate::order;

verus! {

// ==================== Bills ====================

/// Two keys name one bill: the same provider, account and period.
pub open spec fn one_bill(one: PeriodKey, other: PeriodKey) -> bool {
    one.provider@ == other.provider@ && one.account_id@ == other.account_id@
        && one.billing_period@ == other.billing_period@
}

proof fn lemma_rows_of_no_bill(
    periods: Seq<StoredPeriod>,
    reporting: Seq<char>,
    products: Seq<Vec<(Amount, Amount)>>,
    key: PeriodKey,
)
    requires
        forall|p: int| 0 <= p < periods.len() ==> !one_bill((#[trigger] periods[p]).key, key),
    ensures
        scope::rows_in(
            memory::converted_periods(periods, reporting, products),
            scope::of_key(key),
        ).len() == 0,
{
    let rows = memory::converted_periods(periods, reporting, products);
    let test = scope::scoped(scope::of_key(key));
    let kept = rows.filter(test);
    if kept.len() > 0 {
        rows.lemma_filter_pred(test, 0);
        assert(kept.contains(kept[0]));
        rows.lemma_filter_contains_rev(test, kept[0]);
        let r = choose|r: int| 0 <= r < rows.len() && rows[r] == kept[0];
        conversion::every_row_has_its_charge(rows, periods, reporting, products, r);
        let (p, c) = choose|p: int, c: int| #[trigger]
            conversion::stands_at(periods, p, c, r);
        conversion::a_row_tells_of_its_charge(rows, periods, reporting, products, p, c);
        assert(one_bill(periods[p].key, key));
    }
}

proof fn lemma_rows_of_one_bill(
    period: StoredPeriod,
    reporting: Seq<char>,
    products: Seq<(Amount, Amount)>,
    key: PeriodKey,
)
    requires
        one_bill(period.key, key),
    ensures
        scope::rows_in(
            memory::converted_period(period, reporting, products),
            scope::of_key(key),
        ) == memory::converted_period(period, reporting, products),
{
    let rows = memory::converted_period(period, reporting, products);
    let test = scope::scoped(scope::of_key(key));
    assert forall|i: int| 0 <= i < rows.len() implies test(#[trigger] rows[i]) by {
        assert(rows[i] == memory::converted(
            period.key,
            period.charges@[i],
            reporting,
            products[i],
        ));
    }
    lemma_all_kept(rows, test);
}

proof fn lemma_all_kept(rows: Seq<NormalizedRow>, test: spec_fn(NormalizedRow) -> bool)
    requires
        forall|i: int| 0 <= i < rows.len() ==> test(#[trigger] rows[i]),
    ensures
        rows.filter(test) == rows,
    decreases rows.len(),
{
    reveal(Seq::filter);
    if rows.len() > 0 {
        let fewer = rows.drop_last();
        assert forall|i: int| 0 <= i < fewer.len() implies test(#[trigger] fewer[i]) by {
            assert(fewer[i] == rows[i]);
        }
        lemma_all_kept(fewer, test);
        assert(test(rows[rows.len() - 1]));
        assert(rows.filter(test) =~= rows);
    } else {
        assert(rows.filter(test) =~= rows);
    }
}

proof fn lemma_filter_joins(
    one: Seq<NormalizedRow>,
    other: Seq<NormalizedRow>,
    test: spec_fn(NormalizedRow) -> bool,
)
    ensures
        (one + other).filter(test) == one.filter(test) + other.filter(test),
    decreases other.len(),
{
    reveal(Seq::filter);
    if other.len() == 0 {
        assert(one + other =~= one);
        assert(one.filter(test) + other.filter(test) =~= one.filter(test));
    } else {
        assert((one + other).drop_last() =~= one + other.drop_last());
        lemma_filter_joins(one, other.drop_last(), test);
        assert((one + other).filter(test) =~= one.filter(test) + other.filter(test));
    }
}

/// A bill that was replaced reads as the charges it was replaced with, one row
/// each and in their order, and nothing of what was stored under it before.
pub proof fn a_replaced_bill_is_read_back(
    before: Seq<StoredPeriod>,
    after: Seq<StoredPeriod>,
    key: PeriodKey,
    charges: Seq<crate::model::Charge>,
    channel: Channel,
    batch_id: Seq<char>,
    now: Timestamp,
    reporting: Seq<char>,
    products: Seq<Vec<(Amount, Amount)>>,
)
    requires
        after.len() == list::without(before, super::stored_under(key)).len() + 1,
        after.drop_last() == list::without(before, super::stored_under(key)),
        super::stores(after.last(), key, batch_id, charges, channel, now),
    ensures
        ({
            let rows = scope::rows_in(
                memory::converted_periods(after, reporting, products),
                scope::of_key(key),
            );
            &&& rows.len() == charges.len()
            &&& forall|c: int|
                #![trigger rows[c]]
                0 <= c < charges.len() ==> {
                    &&& rows[c].service_name == charges[c].service_name
                    &&& rows[c].region_id == charges[c].region_id
                    &&& rows[c].charge_category == charges[c].charge_category
                    &&& rows[c].charge_period_start == charges[c].charge_period_start
                    &&& rows[c].tags == charges[c].tags
                    &&& rows[c].billing_currency == charges[c].billing_currency
                    &&& rows[c].billed_cost == charges[c].billed_cost
                }
        }),
        after.last().channel == channel,
        after.last().completed_at == now,
        after.last().batch_id@ == batch_id,
        one_bill(after.last().key, key),
        forall|i: int| 0 <= i < after.len() - 1 ==> !one_bill((#[trigger] after[i]).key, key),
{
    let kept = after.drop_last();
    let test = scope::scoped(scope::of_key(key));
    list::without_drops_exactly(before, super::stored_under(key));
    assert forall|p: int| 0 <= p < kept.len() implies !one_bill((#[trigger] kept[p]).key, key) by {
        assert(kept.contains(kept[p]));
        assert(!super::stored_under(key)(kept[p]));
    }
    lemma_rows_of_no_bill(kept, reporting, products, key);
    let ahead = memory::converted_periods(kept, reporting, products);
    let own = memory::converted_period(
        after.last(),
        reporting,
        products[after.len() - 1]@,
    );
    lemma_filter_joins(ahead, own, test);
    lemma_rows_of_one_bill(after.last(), reporting, products[after.len() - 1]@, key);
    assert(ahead.filter(test) =~= Seq::empty());
    assert(scope::rows_in(
        memory::converted_periods(after, reporting, products),
        scope::of_key(key),
    ) =~= own);
    assert forall|i: int| 0 <= i < after.len() - 1 implies !one_bill(
        (#[trigger] after[i]).key,
        key,
    ) by {
        assert(kept[i] == after[i]);
    }
}

/// Replacing one bill leaves every other one stored as it was, in its order.
pub proof fn other_bills_stay(before: Seq<StoredPeriod>, key: PeriodKey)
    ensures
        list::without(before, super::stored_under(key)) == before.filter(
            |period: StoredPeriod|
                period.key.provider@ != key.provider@ || period.key.account_id@ != key.account_id@
                    || period.key.billing_period@ != key.billing_period@,
        ),
{
    assert(list::refused(super::stored_under(key)) =~= (|period: StoredPeriod|
        period.key.provider@ != key.provider@ || period.key.account_id@ != key.account_id@
            || period.key.billing_period@ != key.billing_period@));
}

/// Reading in another currency changes the currency and no record.
pub proof fn a_currency_change_rewrites_nothing(
    before: Store,
    after: Store,
    currency: Seq<char>,
)
    requires
        super::reads_in(after, before, currency),
    ensures
        after.reporting_currency@ == currency,
        after.periods == before.periods,
        after.balances == before.balances,
        after.accounts == before.accounts,
        after.budgets == before.budgets,
        after.alert_rules == before.alert_rules,
        after.alert_events == before.alert_events,
        after.dismissed_quality_keys == before.dismissed_quality_keys,
{
}

// ==================== When bills came in ====================

/// When a bill was last ingested: at the completion of a period under its key, and
/// none under it was completed later; never, where none is stored.
pub proof fn an_ingest_is_the_latest_of_its_bill(
    found: Option<Timestamp>,
    periods: Seq<StoredPeriod>,
    key: PeriodKey,
)
    requires
        found == history::ingested_at(periods, key),
    ensures
        match found {
            Some(at) => {
                &&& exists|p: int|
                    0 <= p < periods.len() && one_bill((#[trigger] periods[p]).key, key)
                        && periods[p].completed_at == at
                &&& forall|p: int|
                    0 <= p < periods.len() && one_bill((#[trigger] periods[p]).key, key)
                        ==> !at.before(periods[p].completed_at)
            },
            None => forall|p: int|
                0 <= p < periods.len() ==> !one_bill((#[trigger] periods[p]).key, key),
        },
    decreases periods.len(),
{
    if periods.len() > 0 {
        let fewer = periods.drop_last();
        let earlier = history::ingested_at(fewer, key);
        an_ingest_is_the_latest_of_its_bill(earlier, fewer, key);
        let last = periods.len() - 1;
        assert(periods[last] == periods.last());
        assert forall|p: int| 0 <= p < fewer.len() implies fewer[p] == #[trigger] periods[p] by {}
        if earlier is Some {
            let q = choose|q: int|
                0 <= q < fewer.len() && one_bill((#[trigger] fewer[q]).key, key)
                    && fewer[q].completed_at == earlier->0;
            assert(one_bill(periods[q].key, key) && periods[q].completed_at == earlier->0);
        }
        if one_bill(periods[last].key, key) {
            assert(periods[last].completed_at == periods.last().completed_at);
        }
    }
}

/// When the accounts were last ingested: each account that has a stored bill is
/// listed once, with the completion of one of its bills, and none of its bills was
/// completed later.
pub proof fn every_account_has_its_latest_ingest(
    ingests: Seq<(String, String, Timestamp)>,
    periods: Seq<StoredPeriod>,
)
    requires
        history::ingests_of(ingests, periods),
    ensures
        forall|i: int, p: int|
            #![trigger ingests[i], periods[p]]
            0 <= i < ingests.len() && 0 <= p < periods.len() && periods[p].key.provider@
                == ingests[i].0@ && periods[p].key.account_id@ == ingests[i].1@
                ==> !ingests[i].2.before(periods[p].completed_at),
        forall|i: int|
            #![trigger ingests[i]]
            0 <= i < ingests.len() ==> exists|p: int|
                0 <= p < periods.len() && (#[trigger] periods[p]).key.provider@ == ingests[i].0@
                    && periods[p].key.account_id@ == ingests[i].1@ && periods[p].completed_at
                    == ingests[i].2,
        forall|p: int|
            #![trigger periods[p]]
            0 <= p < periods.len() ==> exists|i: int|
                0 <= i < ingests.len() && (#[trigger] ingests[i]).0@ == periods[p].key.provider@
                    && ingests[i].1@ == periods[p].key.account_id@,
        forall|i: int, j: int|
            #![trigger ingests[i], ingests[j]]
            0 <= i < j < ingests.len() ==> ingests[i].0@ != ingests[j].0@ || ingests[i].1@
                != ingests[j].1@,
{
    let keys = history::ingest_keys(ingests);
    assert forall|i: int, p: int|
        #![trigger ingests[i], periods[p]]
        0 <= i < ingests.len() && 0 <= p < periods.len() && periods[p].key.provider@
            == ingests[i].0@ && periods[p].key.account_id@
            == ingests[i].1@ implies !ingests[i].2.before(periods[p].completed_at) by {
        lemma_account_ingest(periods, ingests[i].0@, ingests[i].1@);
        assert(history::account_ingested_at(periods, keys[i]) == Some(ingests[i].2));
    }
    assert forall|i: int| #![trigger ingests[i]] 0 <= i < ingests.len() implies exists|p: int|
        0 <= p < periods.len() && (#[trigger] periods[p]).key.provider@ == ingests[i].0@
            && periods[p].key.account_id@ == ingests[i].1@ && periods[p].completed_at
            == ingests[i].2 by {
        lemma_account_ingest(periods, ingests[i].0@, ingests[i].1@);
        assert(history::account_ingested_at(periods, keys[i]) == Some(ingests[i].2));
    }
    assert forall|p: int| #![trigger periods[p]] 0 <= p < periods.len() implies exists|i: int|
        0 <= i < ingests.len() && (#[trigger] ingests[i]).0@ == periods[p].key.provider@
            && ingests[i].1@ == periods[p].key.account_id@ by {
        let own = history::account_key(periods[p]);
        assert(keys.contains(own));
        let i = choose|i: int| 0 <= i < keys.len() && keys[i] == own;
        assert(keys[i][0] == own[0] && keys[i][1] == own[1]);
        assert(ingests[i].0@ == periods[p].key.provider@);
    }
    assert forall|i: int, j: int|
        #![trigger ingests[i], ingests[j]]
        0 <= i < j < ingests.len() implies ingests[i].0@ != ingests[j].0@ || ingests[i].1@
        != ingests[j].1@ by {
        assert(order::key_lt(keys[i], keys[j]));
        order::lemma_key_lt_asymmetric(keys[i], keys[j]);
        if ingests[i].0@ == ingests[j].0@ && ingests[i].1@ == ingests[j].1@ {
            assert(keys[i] =~= keys[j]);
        }
    }
}

proof fn lemma_account_ingest(
    periods: Seq<StoredPeriod>,
    provider: Seq<char>,
    account_id: Seq<char>,
)
    ensures
        match history::account_ingested_at(periods, seq![Some(provider), Some(account_id)]) {
            Some(at) => {
                &&& exists|p: int|
                    0 <= p < periods.len() && (#[trigger] periods[p]).key.provider@ == provider
                        && periods[p].key.account_id@ == account_id && periods[p].completed_at == at
                &&& forall|p: int|
                    0 <= p < periods.len() && (#[trigger] periods[p]).key.provider@ == provider
                        && periods[p].key.account_id@ == account_id ==> !at.before(
                        periods[p].completed_at,
                    )
            },
            None => true,
        },
        history::account_ingested_at(periods, seq![Some(provider), Some(account_id)]) is None
            ==> forall|p: int|
            0 <= p < periods.len() ==> (#[trigger] periods[p]).key.provider@ != provider
                || periods[p].key.account_id@ != account_id,
    decreases periods.len(),
{
    let account = seq![Some(provider), Some(account_id)];
    if periods.len() > 0 {
        let fewer = periods.drop_last();
        let earlier = history::account_ingested_at(fewer, account);
        lemma_account_ingest(fewer, provider, account_id);
        let last = periods.len() - 1;
        assert(periods[last] == periods.last());
        assert forall|p: int| 0 <= p < fewer.len() implies fewer[p] == #[trigger] periods[p] by {}
        let own = history::account_key(periods.last());
        assert(own[0] == Some(periods.last().key.provider@) && own[1] == Some(
            periods.last().key.account_id@,
        ));
        if periods.last().key.provider@ == provider && periods.last().key.account_id@
            == account_id {
            assert(own =~= account);
        } else {
            assert(own[0] != account[0] || own[1] != account[1]);
        }
        if earlier is Some {
            let q = choose|q: int|
                0 <= q < fewer.len() && (#[trigger] fewer[q]).key.provider@ == provider
                    && fewer[q].key.account_id@ == account_id && fewer[q].completed_at
                    == earlier->0;
            assert(periods[q].key.provider@ == provider && periods[q].completed_at == earlier->0);
        }
    }
}

/// The channel of a bill is that of the first period under its key, and the API's
/// where none is stored.
pub proof fn a_bill_has_the_channel_it_came_through(
    channel: Channel,
    periods: Seq<StoredPeriod>,
    key: PeriodKey,
)
    requires
        channel == (match history::first_stored(periods, key) {
            Some(i) => periods[i].channel,
            None => Channel::Api,
        }),
    ensures
        (forall|p: int| 0 <= p < periods.len() ==> !one_bill((#[trigger] periods[p]).key, key))
            ==> channel == Channel::Api,
        forall|p: int|
            0 <= p < periods.len() && one_bill((#[trigger] periods[p]).key, key) && (forall|q: int|
                0 <= q < p ==> !one_bill((#[trigger] periods[q]).key, key)) ==> channel
                == periods[p].channel,
{
    lemma_first_stored(periods, key);
}

proof fn lemma_first_stored(periods: Seq<StoredPeriod>, key: PeriodKey)
    ensures
        match history::first_stored(periods, key) {
            Some(i) => {
                &&& 0 <= i < periods.len()
                &&& one_bill(periods[i].key, key)
                &&& forall|q: int| 0 <= q < i ==> !one_bill((#[trigger] periods[q]).key, key)
            },
            None => forall|q: int|
                0 <= q < periods.len() ==> !one_bill((#[trigger] periods[q]).key, key),
        },
    decreases periods.len(),
{
    if periods.len() > 0 {
        let fewer = periods.drop_last();
        lemma_first_stored(fewer, key);
        assert forall|q: int| 0 <= q < fewer.len() implies fewer[q] == #[trigger] periods[q] by {}
    }
}

/// The fetches of a month are the stored bills of that month that came in through
/// the API.
pub proof fn fetches_are_counted_by_month(periods: Seq<StoredPeriod>, now: Timestamp)
    ensures
        periods.filter(history::fetched_in(calendar::period_of(now).text())) == periods.filter(
            |period: StoredPeriod|
                period.channel == Channel::Api && period.key.billing_period@
                    == calendar::month_label(
                    calendar::civil(now.seconds as int / 86_400).year as int,
                    calendar::civil(now.seconds as int / 86_400).month as int,
                ),
        ),
{
    assert(history::fetched_in(calendar::period_of(now).text()) =~= (|period: StoredPeriod|
        period.channel == Channel::Api && period.key.billing_period@ == calendar::month_label(
            calendar::civil(now.seconds as int / 86_400).year as int,
            calendar::civil(now.seconds as int / 86_400).month as int,
        )));
}

// ==================== Balances ====================

/// The balance of an account is that of one of its own snapshots, read whole, and
/// none of them was observed later; it has none only where it has no snapshot.
pub proof fn a_balance_is_the_newest_snapshot(
    found: Option<Balance>,
    balances: Seq<BalanceSnapshot>,
    provider: Seq<char>,
    account_id: Seq<char>,
)
    requires
        found == history::balance_of(balances, provider, account_id),
    ensures
        match found {
            Some(balance) => {
                &&& exists|i: int|
                    {
                        &&& 0 <= i < balances.len()
                        &&& (#[trigger] balances[i]).provider@ == provider
                        &&& balances[i].account_id@ == account_id
                        &&& balance.balance == balances[i].balance
                        &&& balance.granted_balance == balances[i].granted_balance
                        &&& balance.topped_up_balance == balances[i].topped_up_balance
                        &&& balance.currency == balances[i].currency
                        &&& balance.observed_at == balances[i].observed_at
                    }
                &&& forall|j: int|
                    0 <= j < balances.len() && (#[trigger] balances[j]).provider@ == provider
                        && balances[j].account_id@ == account_id ==> !balance.observed_at.before(
                        balances[j].observed_at,
                    )
            },
            None => forall|j: int|
                0 <= j < balances.len() ==> (#[trigger] balances[j]).provider@ != provider
                    || balances[j].account_id@ != account_id,
        },
{
    history::newest_snapshot_is_newest(balances, provider, account_id);
    match history::newest_snapshot(balances, provider, account_id) {
        Some(i) => {
            assert(balances[i].provider@ == provider);
            assert forall|j: int|
                0 <= j < balances.len() && (#[trigger] balances[j]).provider@ == provider
                    && balances[j].account_id@
                    == account_id implies !balances[i].observed_at.before(
                balances[j].observed_at,
            ) by {
                assert(history::is_of(balances[j], provider, account_id));
            }
        },
        None => {
            assert forall|j: int| 0 <= j < balances.len() implies (
            #[trigger] balances[j]).provider@ != provider || balances[j].account_id@
                != account_id by {
                assert(!history::is_of(balances[j], provider, account_id));
            }
        },
    }
}

/// A balance that was recorded, and that no other snapshot of the account is newer
/// than, is the balance the account reads.
pub proof fn a_recorded_balance_is_read_back(
    before: Seq<BalanceSnapshot>,
    after: Seq<BalanceSnapshot>,
    snapshot: BalanceSnapshot,
)
    requires
        after == list::without(before, super::same_observation(snapshot)).push(snapshot),
        forall|j: int|
            0 <= j < before.len() && (#[trigger] before[j]).provider@ == snapshot.provider@
                && before[j].account_id@ == snapshot.account_id@ ==> !snapshot.observed_at.before(
                before[j].observed_at,
            ),
    ensures
        history::balance_of(after, snapshot.provider@, snapshot.account_id@) is Some,
        ({
            let read = history::balance_of(after, snapshot.provider@, snapshot.account_id@)->0;
            &&& read.balance == snapshot.balance
            &&& read.granted_balance == snapshot.granted_balance
            &&& read.topped_up_balance == snapshot.topped_up_balance
            &&& read.currency == snapshot.currency
            &&& read.observed_at == snapshot.observed_at
        }),
{
    let kept = list::without(before, super::same_observation(snapshot));
    let earlier = history::newest_snapshot(kept, snapshot.provider@, snapshot.account_id@);
    assert(after.drop_last() =~= kept);
    assert(after.last() == snapshot);
    history::newest_snapshot_is_newest(kept, snapshot.provider@, snapshot.account_id@);
    if earlier is Some {
        let e = kept[earlier->0];
        list::without_drops_exactly(before, super::same_observation(snapshot));
        assert(kept.contains(e));
        let j = choose|j: int| 0 <= j < before.len() && before[j] == e;
        assert(before[j].provider@ == snapshot.provider@);
    }
}

/// An observation overwrites the one of the same account, instant and currency, and
/// no other.
pub proof fn an_observation_overwrites_its_like(
    before: Seq<BalanceSnapshot>,
    snapshot: BalanceSnapshot,
)
    ensures
        list::without(before, super::same_observation(snapshot)) == before.filter(
            |existing: BalanceSnapshot|
                existing.provider@ != snapshot.provider@ || existing.account_id@
                    != snapshot.account_id@ || existing.observed_at != snapshot.observed_at
                    || existing.currency@ != snapshot.currency@,
        ),
{
    assert(list::refused(super::same_observation(snapshot)) =~= (|existing: BalanceSnapshot|
        existing.provider@ != snapshot.provider@ || existing.account_id@ != snapshot.account_id@
            || existing.observed_at != snapshot.observed_at || existing.currency@
            != snapshot.currency@));
}

/// What a burn history keeps of a snapshot of an account.
pub open spec fn observed_of(
    provider: Seq<char>,
    account_id: Seq<char>,
) -> spec_fn(BalanceSnapshot) -> vstd::multiset::Multiset<Observation> {
    |snapshot: BalanceSnapshot|
        if snapshot.provider@ == provider && snapshot.account_id@ == account_id {
            vstd::multiset::Multiset::singleton(
                Observation {
                    observed_at: snapshot.observed_at,
                    balance: snapshot.balance,
                    currency: snapshot.currency,
                },
            )
        } else {
            vstd::multiset::Multiset::empty()
        }
}

/// A burn history holds every snapshot of its account once, with its own instant,
/// balance and currency, and no snapshot of another.
pub proof fn a_burn_history_holds_every_snapshot(
    balances: Seq<BalanceSnapshot>,
    provider: Seq<char>,
    account_id: Seq<char>,
)
    ensures
        history::burn_history(balances, provider, account_id).to_multiset() == list::pooled(
            balances,
            observed_of(provider, account_id),
        ),
    decreases balances.len(),
{
    broadcast use vstd::seq_lib::group_to_multiset_ensures;

    let part = observed_of(provider, account_id);
    let now = history::burn_history(balances, provider, account_id);
    if balances.len() > 0 {
        let fewer = balances.drop_last();
        a_burn_history_holds_every_snapshot(fewer, provider, account_id);
        let earlier = history::burn_history(fewer, provider, account_id);
        if history::is_of(balances.last(), provider, account_id) {
            lemma_observed_into(earlier, history::observation(balances.last()));
        }
        assert(now.to_multiset() =~= list::pooled(balances, part));
    } else {
        assert(now.to_multiset() =~= vstd::multiset::Multiset::empty());
    }
}

proof fn lemma_observed_into(history: Seq<Observation>, next: Observation)
    ensures
        history::observed_into(history, next).to_multiset() == history.to_multiset().insert(next),
    decreases history.len(),
{
    broadcast use vstd::seq_lib::group_to_multiset_ensures;

    if !(history.len() == 0 || !history::observed_ahead(next, history.last())) {
        lemma_observed_into(history.drop_last(), next);
        assert(history =~= history.drop_last().push(history.last()));
        assert(history::observed_into(history, next).to_multiset() =~= history.to_multiset().insert(
            next,
        ));
    }
}

} // verus!
