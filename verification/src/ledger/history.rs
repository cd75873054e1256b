//! Balances, ingests and the channels they came in through.
use vstd::prelude::*;

use crate::amount::Amount;
use crate::calendar;
use crate::calendar::{BillingPeriod, Timestamp};
use crate::memory::{Store, StoredPeriod};
use crate::model::{Balance, BalanceSnapshot, Channel, PeriodKey};
use crate::order;
use crate::order::BucketKey;
use crate::text;

verus! {

// ==================== Balances ====================

/// A snapshot is one of an account.
pub open spec fn is_of(snapshot: BalanceSnapshot, provider: Seq<char>, account_id: Seq<char>) -> bool {
    snapshot.provider@ == provider && snapshot.account_id@ == account_id
}

/// The position of an account's newest snapshot, the last of them where several
/// were observed at one instant.
pub open spec fn newest_snapshot(
    balances: Seq<BalanceSnapshot>,
    provider: Seq<char>,
    account_id: Seq<char>,
) -> Option<int>
    decreases balances.len(),
{
    if balances.len() == 0 {
        None
    } else {
        let earlier = newest_snapshot(balances.drop_last(), provider, account_id);
        if is_of(balances.last(), provider, account_id) && (earlier is None
            || !balances.last().observed_at.before(balances[earlier->0].observed_at)) {
            Some(balances.len() - 1)
        } else {
            earlier
        }
    }
}

/// No snapshot of the account was observed after its newest one.
pub proof fn newest_snapshot_is_newest(
    balances: Seq<BalanceSnapshot>,
    provider: Seq<char>,
    account_id: Seq<char>,
)
    ensures
        match newest_snapshot(balances, provider, account_id) {
            Some(i) => {
                &&& 0 <= i < balances.len()
                &&& is_of(balances[i], provider, account_id)
                &&& forall|j: int|
                    0 <= j < balances.len() && is_of(#[trigger] balances[j], provider, account_id)
                        ==> !balances[i].observed_at.before(balances[j].observed_at)
            },
            None => forall|j: int|
                0 <= j < balances.len() ==> !is_of(#[trigger] balances[j], provider, account_id),
        },
    decreases balances.len(),
{
    if balances.len() > 0 {
        newest_snapshot_is_newest(balances.drop_last(), provider, account_id);
        assert forall|j: int| 0 <= j < balances.len() - 1 implies balances.drop_last()[j]
            == #[trigger] balances[j] by {}
    }
}

/// The newest balance of an account.
pub open spec fn balance_of(
    balances: Seq<BalanceSnapshot>,
    provider: Seq<char>,
    account_id: Seq<char>,
) -> Option<Balance> {
    match newest_snapshot(balances, provider, account_id) {
        Some(i) => Some(
            Balance {
                balance: balances[i].balance,
                granted_balance: balances[i].granted_balance,
                topped_up_balance: balances[i].topped_up_balance,
                currency: balances[i].currency,
                observed_at: balances[i].observed_at,
            },
        ),
        None => None,
    }
}

/// The newest balance snapshot for an account, if it reports one. A balance is
/// what is left in an account, not an amount spent, so it is reported in the
/// currency it was observed in.
pub fn latest_balance(store: &Store, provider: &str, account_id: &str) -> (res: Option<Balance>)
    ensures
        res == balance_of(store.balances@, provider@, account_id@),
{
    let ghost all = store.balances@;
    let mut best: Option<usize> = None;
    let mut i: usize = 0;
    proof {
        assert(all.take(0) =~= Seq::empty());
    }
    while i < store.balances.len()
        invariant
            i <= store.balances.len(),
            all == store.balances@,
            match newest_snapshot(all.take(i as int), provider@, account_id@) {
                Some(k) => 0 <= k < i && best == Some(k as usize),
                None => best is None,
            },
        decreases store.balances.len() - i,
    {
        proof {
            newest_snapshot_is_newest(all.take(i as int), provider@, account_id@);
            assert(all.take(i + 1).drop_last() =~= all.take(i as int));
            assert(all.take(i + 1).last() == all[i as int]);
        }
        let snapshot = &store.balances[i];
        if text::same_text(&snapshot.provider, provider) && text::same_text(
            &snapshot.account_id,
            account_id,
        ) {
            let newer: bool = match best {
                Some(k) => !snapshot.observed_at.earlier_than(store.balances[k].observed_at),
                None => true,
            };
            if newer {
                best = Some(i);
            }
        }
        i = i + 1;
    }
    proof {
        assert(all.take(i as int) =~= all);
    }
    match best {
        Some(k) => {
            let snapshot = &store.balances[k];
            Some(
                Balance {
                    balance: snapshot.balance,
                    granted_balance: snapshot.granted_balance,
                    topped_up_balance: snapshot.topped_up_balance,
                    currency: snapshot.currency.clone(),
                    observed_at: snapshot.observed_at,
                },
            )
        },
        None => None,
    }
}

/// One observation of a balance.
#[derive(Debug)]
pub struct Observation {
    pub observed_at: Timestamp,
    pub balance: Amount,
    pub currency: String,
}

/// `a` is listed ahead of `b` in a burn history: by currency, then by time.
pub open spec fn observed_ahead(a: Observation, b: Observation) -> bool {
    order::text_lt(a.currency@, b.currency@) || (a.currency@ == b.currency@
        && a.observed_at.before(b.observed_at))
}

/// What a burn history keeps of a snapshot.
pub open spec fn observation(snapshot: BalanceSnapshot) -> Observation {
    Observation {
        observed_at: snapshot.observed_at,
        balance: snapshot.balance,
        currency: snapshot.currency,
    }
}

/// Where an observation belongs in a sorted history that holds those before it:
/// behind every one that it is not ahead of.
pub open spec fn observed_into(history: Seq<Observation>, next: Observation) -> Seq<Observation>
    decreases history.len(),
{
    if history.len() == 0 || !observed_ahead(next, history.last()) {
        history.push(next)
    } else {
        observed_into(history.drop_last(), next).push(history.last())
    }
}

/// The observations of an account by currency and time, those of one instant in
/// the order they were recorded.
pub open spec fn burn_history(
    balances: Seq<BalanceSnapshot>,
    provider: Seq<char>,
    account_id: Seq<char>,
) -> Seq<Observation>
    decreases balances.len(),
{
    if balances.len() == 0 {
        Seq::empty()
    } else {
        let before = burn_history(balances.drop_last(), provider, account_id);
        if is_of(balances.last(), provider, account_id) {
            observed_into(before, observation(balances.last()))
        } else {
            before
        }
    }
}

proof fn lemma_not_ahead_transitive(a: Observation, b: Observation, c: Observation)
    requires
        !observed_ahead(b, a),
        !observed_ahead(c, b),
        a.currency@ == b.currency@ || order::text_lt(a.currency@, b.currency@),
        b.currency@ == c.currency@ || order::text_lt(b.currency@, c.currency@),
    ensures
        !observed_ahead(c, a),
        a.currency@ == c.currency@ || order::text_lt(a.currency@, c.currency@),
{
    let x = vstd::utf8::encode_utf8(a.currency@);
    let y = vstd::utf8::encode_utf8(b.currency@);
    let z = vstd::utf8::encode_utf8(c.currency@);
    if order::bytes_lt(x, y) && order::bytes_lt(y, z) {
        order::lemma_bytes_lt_transitive(x, y, z);
    }
    if order::bytes_lt(x, z) {
        order::lemma_bytes_lt_asymmetric(x, z);
    }
    if order::bytes_lt(z, x) && a.currency@ == c.currency@ {
        order::lemma_bytes_lt_asymmetric(z, x);
    }
}

/// A history in order: by currency, then by time.
pub open spec fn in_burn_order(history: Seq<Observation>) -> bool {
    forall|i: int, j: int|
        #![trigger history[i], history[j]]
        0 <= i < j < history.len() ==> {
            &&& !observed_ahead(history[j], history[i])
            &&& history[i].currency@ == history[j].currency@ || order::text_lt(
                history[i].currency@,
                history[j].currency@,
            )
        }
}

proof fn lemma_observed_into(history: Seq<Observation>, next: Observation)
    requires
        in_burn_order(history),
    ensures
        in_burn_order(observed_into(history, next)),
        observed_into(history, next).len() == history.len() + 1,
        forall|i: int|
            #![trigger observed_into(history, next)[i]]
            0 <= i <= history.len() ==> observed_into(history, next)[i] == next
                || history.contains(observed_into(history, next)[i]),
    decreases history.len(),
{
    let res = observed_into(history, next);
    if history.len() == 0 || !observed_ahead(next, history.last()) {
        assert forall|i: int, j: int|
            #![trigger res[i], res[j]]
            0 <= i < j < res.len() implies !observed_ahead(res[j], res[i]) && (
        res[i].currency@ == res[j].currency@ || order::text_lt(res[i].currency@, res[j].currency@))
            by {
            if j < history.len() {
                assert(history[i] == res[i] && history[j] == res[j]);
            } else {
                order::lemma_text_total(history.last().currency@, next.currency@);
                if i < history.len() - 1 {
                    assert(history[i] == res[i]);
                    lemma_not_ahead_transitive(history[i], history[history.len() - 1], next);
                }
            }
        }
        assert forall|i: int| #![trigger res[i]] 0 <= i <= history.len() implies res[i] == next
            || history.contains(res[i]) by {
            if i < history.len() {
                assert(res[i] == history[i]);
            }
        }
    } else {
        let rest = history.drop_last();
        let last = history.last();
        assert forall|i: int, j: int|
            #![trigger rest[i], rest[j]]
            0 <= i < j < rest.len() implies !observed_ahead(rest[j], rest[i]) && (
        rest[i].currency@ == rest[j].currency@ || order::text_lt(
            rest[i].currency@,
            rest[j].currency@,
        )) by {
            assert(history[i] == rest[i] && history[j] == rest[j]);
        }
        lemma_observed_into(rest, next);
        let inner = observed_into(rest, next);
        assert forall|i: int| 0 <= i < inner.len() implies !observed_ahead(last, #[trigger] inner[i])
            && (inner[i].currency@ == last.currency@ || order::text_lt(
            inner[i].currency@,
            last.currency@,
        )) by {
            if inner[i] == next {
                let x = vstd::utf8::encode_utf8(next.currency@);
                let y = vstd::utf8::encode_utf8(last.currency@);
                if order::bytes_lt(x, y) {
                    order::lemma_bytes_lt_asymmetric(x, y);
                }
                if order::bytes_lt(y, x) {
                    order::lemma_bytes_lt_asymmetric(y, x);
                }
            } else {
                assert(rest.contains(inner[i]));
                let q = choose|q: int| 0 <= q < rest.len() && rest[q] == inner[i];
                assert(history[q] == inner[i]);
                assert(history[history.len() - 1] == last);
            }
        }
        assert forall|i: int, j: int|
            #![trigger res[i], res[j]]
            0 <= i < j < res.len() implies !observed_ahead(res[j], res[i]) && (
        res[i].currency@ == res[j].currency@ || order::text_lt(res[i].currency@, res[j].currency@))
            by {
            assert(res[i] == inner[i]);
            if j < inner.len() {
                assert(res[j] == inner[j]);
            }
        }
        assert forall|i: int| #![trigger res[i]] 0 <= i <= history.len() implies res[i] == next
            || history.contains(res[i]) by {
            if i < inner.len() {
                assert(res[i] == inner[i]);
                if inner[i] != next {
                    assert(rest.contains(inner[i]));
                    let q = choose|q: int| 0 <= q < rest.len() && rest[q] == inner[i];
                    assert(history[q] == inner[i]);
                }
            } else {
                assert(history[history.len() - 1] == last);
            }
        }
    }
}

/// A burn history lists the observations of each currency together, oldest
/// first.
pub proof fn burn_history_is_ordered(
    balances: Seq<BalanceSnapshot>,
    provider: Seq<char>,
    account_id: Seq<char>,
)
    ensures
        in_burn_order(burn_history(balances, provider, account_id)),
    decreases balances.len(),
{
    if balances.len() > 0 {
        burn_history_is_ordered(balances.drop_last(), provider, account_id);
        if is_of(balances.last(), provider, account_id) {
            lemma_observed_into(
                burn_history(balances.drop_last(), provider, account_id),
                observation(balances.last()),
            );
        }
    }
}

fn ahead(a: &Observation, b: &Observation) -> (res: bool)
    ensures
        res == observed_ahead(*a, *b),
{
    match order::text_side(&a.currency, &b.currency) {
        order::Side::Before => true,
        order::Side::Same => {
            a.observed_at.earlier_than(b.observed_at)
        },
        order::Side::After => false,
    }
}

/// The balance observations of an account, sorted by currency and then by time:
/// what its burn is measured from.
pub fn balance_observations(store: &Store, provider: &str, account_id: &str) -> (res: Vec<
    Observation,
>)
    ensures
        res@ == burn_history(store.balances@, provider@, account_id@),
{
    let ghost all = store.balances@;
    let mut history: Vec<Observation> = Vec::new();
    let mut i: usize = 0;
    proof {
        assert(all.take(0) =~= Seq::empty());
    }
    while i < store.balances.len()
        invariant
            i <= store.balances.len(),
            all == store.balances@,
            history@ == burn_history(all.take(i as int), provider@, account_id@),
        decreases store.balances.len() - i,
    {
        proof {
            assert(all.take(i + 1).drop_last() =~= all.take(i as int));
            assert(all.take(i + 1).last() == all[i as int]);
        }
        let snapshot = &store.balances[i];
        if text::same_text(&snapshot.provider, provider) && text::same_text(
            &snapshot.account_id,
            account_id,
        ) {
            let next = Observation {
                observed_at: snapshot.observed_at,
                balance: snapshot.balance,
                currency: snapshot.currency.clone(),
            };
            let ghost before = history@;
            let ghost placed = next;
            let mut p: usize = history.len();
            proof {
                assert(before.take(p as int) =~= before);
                assert(observed_into(before, placed) + before.skip(p as int) =~= observed_into(
                    before,
                    placed,
                ));
            }
            while p > 0 && ahead(&next, &history[p - 1])
                invariant
                    p <= history@.len(),
                    history@ == before,
                    placed == next,
                    observed_into(before, placed) == observed_into(before.take(p as int), placed)
                        + before.skip(p as int),
                decreases p,
            {
                proof {
                    let head = before.take(p as int);
                    assert(head.drop_last() =~= before.take(p - 1));
                    assert(head.last() == before[p - 1]);
                    assert(observed_into(head, placed) + before.skip(p as int) =~= observed_into(
                        before.take(p - 1),
                        placed,
                    ) + before.skip(p - 1));
                }
                p = p - 1;
            }
            proof {
                let head = before.take(p as int);
                if p > 0 {
                    assert(head.last() == before[p - 1]);
                }
                assert(observed_into(head, placed) =~= head.push(placed));
            }
            history.insert(p, next);
            proof {
                assert(history@ =~= before.take(p as int).push(placed) + before.skip(p as int));
            }
        }
        i = i + 1;
    }
    proof {
        assert(all.take(i as int) =~= all);
    }
    history
}

// ==================== Ingests ====================

/// The later of two instants, where either may be missing.
pub open spec fn latest(a: Option<Timestamp>, b: Timestamp) -> Option<Timestamp> {
    match a {
        Some(a) => Some(a.later_of(b)),
        None => Some(b),
    }
}

/// When a period was last ingested.
pub open spec fn ingested_at(periods: Seq<StoredPeriod>, key: PeriodKey) -> Option<Timestamp>
    decreases periods.len(),
{
    if periods.len() == 0 {
        None
    } else {
        let before = ingested_at(periods.drop_last(), key);
        if periods.last().key.same_as(key) {
            latest(before, periods.last().completed_at)
        } else {
            before
        }
    }
}

/// When a period was last ingested, if it ever was. The store keeps only the
/// batch whose rows are current, so a period's own completion is that instant.
pub fn last_ingest(store: &Store, key: &PeriodKey) -> (res: Option<Timestamp>)
    ensures
        res == ingested_at(store.periods@, *key),
{
    let ghost all = store.periods@;
    let mut best: Option<Timestamp> = None;
    let mut i: usize = 0;
    proof {
        assert(all.take(0) =~= Seq::empty());
    }
    while i < store.periods.len()
        invariant
            i <= store.periods.len(),
            all == store.periods@,
            best == ingested_at(all.take(i as int), *key),
        decreases store.periods.len() - i,
    {
        proof {
            assert(all.take(i + 1).drop_last() =~= all.take(i as int));
            assert(all.take(i + 1).last() == all[i as int]);
        }
        if store.periods[i].key.same(key) {
            best = match best {
                Some(at) => Some(at.max(store.periods[i].completed_at)),
                None => Some(store.periods[i].completed_at),
            };
        }
        i = i + 1;
    }
    proof {
        assert(all.take(i as int) =~= all);
    }
    best
}

/// The account a stored period belongs to, as a key.
pub open spec fn account_key(period: StoredPeriod) -> Seq<order::Part> {
    seq![Some(period.key.provider@), Some(period.key.account_id@)]
}

/// When an account was last ingested.
pub open spec fn account_ingested_at(
    periods: Seq<StoredPeriod>,
    account: Seq<order::Part>,
) -> Option<Timestamp>
    decreases periods.len(),
{
    if periods.len() == 0 {
        None
    } else {
        let before = account_ingested_at(periods.drop_last(), account);
        if account_key(periods.last()) == account {
            latest(before, periods.last().completed_at)
        } else {
            before
        }
    }
}

pub open spec fn ingest_keys(ingests: Seq<(String, String, Timestamp)>) -> Seq<Seq<order::Part>> {
    ingests.map_values(|t: (String, String, Timestamp)| seq![Some(t.0@), Some(t.1@)])
}

/// `ingests` lists every account with a stored period once, by provider and
/// account, with the latest completion among its periods.
pub open spec fn ingests_of(
    ingests: Seq<(String, String, Timestamp)>,
    periods: Seq<StoredPeriod>,
) -> bool {
    &&& order::ascending(ingest_keys(ingests))
    &&& forall|i: int|
        #![trigger ingests[i]]
        0 <= i < ingests.len() ==> account_ingested_at(periods, ingest_keys(ingests)[i]) == Some(
            ingests[i].2,
        )
    &&& forall|p: int|
        0 <= p < periods.len() ==> ingest_keys(ingests).contains(#[trigger] account_key(periods[p]))
}

/// The latest completion among the periods at some positions.
spec fn latest_of(periods: Seq<StoredPeriod>, positions: Seq<int>) -> Option<Timestamp>
    decreases positions.len(),
{
    if positions.len() == 0 {
        None
    } else {
        latest(
            latest_of(periods, positions.drop_last()),
            periods[positions.last()].completed_at,
        )
    }
}

spec fn account_keys(periods: Seq<StoredPeriod>) -> Seq<Seq<order::Part>> {
    periods.map_values(|p: StoredPeriod| account_key(p))
}

proof fn lemma_latest_of_fewer(periods: Seq<StoredPeriod>, positions: Seq<int>)
    requires
        periods.len() > 0,
        forall|i: int| 0 <= i < positions.len() ==> 0 <= #[trigger] positions[i] < periods.len() - 1,
    ensures
        latest_of(periods, positions) == latest_of(periods.drop_last(), positions),
    decreases positions.len(),
{
    if positions.len() > 0 {
        lemma_latest_of_fewer(periods, positions.drop_last());
        assert(positions.last() == positions[positions.len() - 1]);
    }
}

proof fn lemma_latest_of(periods: Seq<StoredPeriod>, account: Seq<order::Part>)
    ensures
        latest_of(periods, order::positions_of(account_keys(periods), account))
            == account_ingested_at(periods, account),
    decreases periods.len(),
{
    if periods.len() > 0 {
        let fewer = periods.drop_last();
        lemma_latest_of(fewer, account);
        assert(account_keys(periods).drop_last() =~= account_keys(fewer));
        let before = order::positions_of(account_keys(fewer), account);
        order::lemma_positions_of(account_keys(fewer), account);
        lemma_latest_of_fewer(periods, before);
        let all = order::positions_of(account_keys(periods), account);
        if account_key(periods.last()) == account {
            assert(all.drop_last() =~= before);
            assert(all.last() == periods.len() - 1);
        }
    }
}

/// When each account's rows were last ingested, as provider, account and
/// instant.
pub fn last_ingests(store: &Store) -> (res: Vec<(String, String, Timestamp)>)
    ensures
        ingests_of(res@, store.periods@),
{
    let ghost all = store.periods@;
    let mut keys: Vec<BucketKey> = Vec::new();
    let mut i: usize = 0;
    while i < store.periods.len()
        invariant
            i <= store.periods.len(),
            all == store.periods@,
            keys@.len() == i,
            forall|j: int| 0 <= j < i ==> #[trigger] keys@[j]@ == account_key(all[j]),
        decreases store.periods.len() - i,
    {
        let mut parts: Vec<Option<String>> = Vec::new();
        parts.push(Some(store.periods[i].key.provider.clone()));
        parts.push(Some(store.periods[i].key.account_id.clone()));
        let key = BucketKey { parts };
        proof {
            assert(key@ =~= account_key(all[i as int]));
        }
        keys.push(key);
        i = i + 1;
    }
    let groups = order::group_by_key(&keys);
    let ghost views = order::key_views(keys@);
    proof {
        assert(views =~= account_keys(all));
    }
    let mut res: Vec<(String, String, Timestamp)> = Vec::new();
    let mut g: usize = 0;
    while g < groups.len()
        invariant
            g <= groups.len(),
            all == store.periods@,
            views == account_keys(all),
            order::partitions(groups@, views),
            res@.len() == g,
            forall|j: int|
                #![trigger res@[j]]
                0 <= j < g ==> {
                    &&& seq![Some(res@[j].0@), Some(res@[j].1@)] == groups@[j].key@
                    &&& account_ingested_at(all, groups@[j].key@) == Some(res@[j].2)
                },
        decreases groups.len() - g,
    {
        let members = &groups[g].members;
        let ghost key = groups@[g as int].key@;
        let ghost positions = order::positions_of(views, key);
        proof {
            assert(order::member_positions(groups@[g as int]) == positions);
            order::lemma_positions_of(views, key);
            assert forall|m: int| 0 <= m < members@.len() implies #[trigger] members@[m] == positions[m]
                && members@[m] < all.len() by {
                assert(order::member_positions(groups@[g as int])[m] == members@[m]);
            }
            assert(positions.contains(positions[0]));
            assert(views[positions[0]] == key);
            assert(key =~= account_key(all[positions[0]]));
            lemma_latest_of(all, key);
            reveal_with_fuel(latest_of, 2);
            assert(positions.take(1).drop_last() =~= Seq::empty());
            assert(positions.take(1).last() == positions[0]);
        }
        let mut at = store.periods[members[0]].completed_at;
        let mut m: usize = 1;
        while m < members.len()
            invariant
                1 <= m <= members.len(),
                all == store.periods@,
                members@.len() == positions.len(),
                forall|k: int|
                    0 <= k < members@.len() ==> #[trigger] members@[k] == positions[k]
                        && members@[k] < all.len(),
                latest_of(all, positions.take(m as int)) == Some(at),
            decreases members.len() - m,
        {
            proof {
                assert(positions.take(m + 1).drop_last() =~= positions.take(m as int));
                assert(positions.take(m + 1).last() == members@[m as int]);
            }
            at = at.max(store.periods[members[m]].completed_at);
            m = m + 1;
        }
        proof {
            assert(positions.take(m as int) =~= positions);
        }
        let provider = store.periods[members[0]].key.provider.clone();
        let account_id = store.periods[members[0]].key.account_id.clone();
        proof {
            assert(seq![Some(provider@), Some(account_id@)] =~= key);
        }
        res.push((provider, account_id, at));
        g = g + 1;
    }
    proof {
        assert(ingest_keys(res@) =~= order::group_keys(groups@));
        assert forall|p: int| 0 <= p < all.len() implies ingest_keys(res@).contains(
            #[trigger] account_key(all[p]),
        ) by {
            assert(order::group_keys(groups@).contains(views[p]));
        }
    }
    res
}

/// The first period stored under a key.
pub open spec fn first_stored(periods: Seq<StoredPeriod>, key: PeriodKey) -> Option<int>
    decreases periods.len(),
{
    if periods.len() == 0 {
        None
    } else {
        let before = first_stored(periods.drop_last(), key);
        if before is None && periods.last().key.same_as(key) {
            Some(periods.len() - 1)
        } else {
            before
        }
    }
}

/// Which channel the rows of a period arrived through. A period that was never
/// ingested was never imported either.
pub fn channel_of(store: &Store, key: &PeriodKey) -> (res: Channel)
    ensures
        res == (match first_stored(store.periods@, *key) {
            Some(i) => store.periods@[i].channel,
            None => Channel::Api,
        }),
{
    let ghost all = store.periods@;
    let mut found: Option<Channel> = None;
    let mut i: usize = 0;
    proof {
        assert(all.take(0) =~= Seq::empty());
    }
    while i < store.periods.len()
        invariant
            i <= store.periods.len(),
            all == store.periods@,
            match first_stored(all.take(i as int), *key) {
                Some(k) => 0 <= k < i && found == Some(all[k].channel),
                None => found is None,
            },
        decreases store.periods.len() - i,
    {
        proof {
            assert(all.take(i + 1).drop_last() =~= all.take(i as int));
            assert(all.take(i + 1).last() == all[i as int]);
        }
        if found.is_none() && store.periods[i].key.same(key) {
            found = Some(store.periods[i].channel);
        }
        i = i + 1;
    }
    proof {
        assert(all.take(i as int) =~= all);
    }
    match found {
        Some(channel) => channel,
        None => Channel::Api,
    }
}

/// Being a batch of a period that came in through a billing API.
pub open spec fn fetched_in(billing_period: Seq<char>) -> spec_fn(StoredPeriod) -> bool {
    |period: StoredPeriod|
        period.key.billing_period@ == billing_period && period.channel == Channel::Api
}

/// How many batches arrived through a billing API in the billing period that
/// `now` falls in, as a proxy for what paid calls have cost so far.
pub fn api_fetches_this_month(store: &Store, now: Timestamp) -> (res: i64)
    requires
        now.valid(),
        store.periods@.len() <= i64::MAX,
    ensures
        res == store.periods@.filter(fetched_in(calendar::period_of(now).text())).len(),
{
    let current = BillingPeriod::containing(now).label();
    let ghost all = store.periods@;
    let ghost counted = fetched_in(current@);
    let mut count: i64 = 0;
    let mut i: usize = 0;
    proof {
        reveal(Seq::filter);
        assert(all.take(0) =~= Seq::empty());
    }
    while i < store.periods.len()
        invariant
            i <= store.periods.len(),
            all == store.periods@,
            counted == fetched_in(current@),
            all.len() <= i64::MAX,
            count == all.take(i as int).filter(counted).len(),
            0 <= count <= i,
        decreases store.periods.len() - i,
    {
        proof {
            reveal(Seq::filter);
            assert(all.take(i + 1).drop_last() =~= all.take(i as int));
            assert(all.take(i + 1).last() == all[i as int]);
        }
        if text::same_text(&store.periods[i].key.billing_period, &current)
            && store.periods[i].channel == Channel::Api {
            count = count + 1;
        }
        i = i + 1;
    }
    proof {
        assert(all.take(i as int) =~= all);
    }
    count
}

} // verus!
