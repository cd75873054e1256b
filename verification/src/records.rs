//! What the application state gives back of what was saved, and what a budget's
//! status shows of the ledger.
use vstd::prelude::*;

use crate::alerts::{AlertEvent, AlertRule, AlertStatus};
use crate::amount::Amount;
use crate::calendar;
use crate::calendar::Timestamp;
use crate::cloud;
use crate::db;
use crate::db::{BudgetFigures, BudgetQuestion};
use crate::ingest;
use crate::ingest::IngestOutcome;
use crate::ledger;
use crate::ledger::reach;
use crate::ledger::scope;
use crate::list;
use crate::memory::{NormalizedRow, Store};
use crate::model::{BudgetInfo, BudgetStatus, CloudAccount};
use crate::order;
use crate::text;
use crate::ui::data::quality;

verus! {

// ==================== Saving and reading ====================

/// The first item that a test accepts.
pub open spec fn first_of<T>(items: Seq<T>, test: spec_fn(T) -> bool) -> Option<T> {
    match list::first_index(items, test) {
        Some(i) => Some(items[i]),
        None => None,
    }
}


proof fn lemma_found<T>(
    items: Seq<T>,
    test: spec_fn(T) -> bool,
    key_of: spec_fn(T) -> Seq<char>,
    key: Seq<char>,
)
    requires
        forall|x: T| #[trigger] test(x) <==> key_of(x) == key,
    ensures
        match first_of(items, test) {
            Some(x) => key_of(x) == key && items.contains(x),
            None => forall|j: int| 0 <= j < items.len() ==> key_of(#[trigger] items[j]) != key,
        },
{
    list::first_index_is_first(items, test);
    match list::first_index(items, test) {
        Some(i) => {
            assert(test(items[i]));
        },
        None => {
            assert forall|j: int| 0 <= j < items.len() implies key_of(#[trigger] items[j])
                != key by {
                assert(!test(items[j]));
            }
        },
    }
}

/// What an upsert does to what is found under each key: the item itself under its
/// own, and under every other what was found before.
proof fn lemma_upsert_read_back<T>(
    items: Seq<T>,
    item: T,
    own: spec_fn(T) -> bool,
    test: spec_fn(T) -> bool,
    key_of: spec_fn(T) -> Seq<char>,
    key: Seq<char>,
)
    requires
        forall|x: T| #[trigger] own(x) <==> key_of(x) == key_of(item),
        forall|x: T| #[trigger] test(x) <==> key_of(x) == key,
    ensures
        first_of(list::upserted(items, own, item), test) == (if key == key_of(item) {
            Some(item)
        } else {
            first_of(items, test)
        }),
{
    let after = list::upserted(items, own, item);
    list::first_index_is_first(items, own);
    list::first_index_is_first(items, test);
    list::first_index_is_first(after, test);
    let found = list::first_index(after, test);
    let earlier = list::first_index(items, test);
    let at = list::first_index(items, own);
    let n = items.len() as int;
    if key == key_of(item) {
        match at {
            Some(i) => {
                assert(test(after[i]));
                match found {
                    Some(f) => {
                        if f < i {
                            assert(after[f] == items[f]);
                            assert(!own(items[f]));
                        } else if i < f {
                            assert(!test(after[i]));
                        }
                    },
                    None => {
                        assert(!test(after[i]));
                    },
                }
            },
            None => {
                assert(test(after[n]));
                match found {
                    Some(f) => {
                        if f < n {
                            assert(after[f] == items[f]);
                            assert(!own(items[f]));
                        }
                    },
                    None => {
                        assert(!test(after[n]));
                    },
                }
            },
        }
    } else {
        assert(!test(item));
        if at is Some {
            assert(own(items[at->0]));
            assert(!test(items[at->0]));
        }
        match found {
            Some(f) => {
                assert(test(after[f]));
                assert(f < n && after[f] == items[f]);
                match earlier {
                    Some(e) => {
                        if e < f {
                            assert(test(items[e]));
                            assert(after[e] == items[e]);
                            assert(!test(after[e]));
                        } else if f < e {
                            assert(!test(items[f]));
                        }
                    },
                    None => {
                        assert(!test(items[f]));
                    },
                }
            },
            None => {
                if earlier is Some {
                    assert(after[earlier->0] == items[earlier->0]);
                    assert(!test(after[earlier->0]));
                }
            },
        }
    }
}

/// What dropping does to what is found under each key.
proof fn lemma_drop_read_back<T>(
    items: Seq<T>,
    dropped: spec_fn(T) -> bool,
    test: spec_fn(T) -> bool,
    key_of: spec_fn(T) -> Seq<char>,
    gone: Seq<char>,
    key: Seq<char>,
)
    requires
        forall|x: T| #[trigger] dropped(x) <==> key_of(x) == gone,
        forall|x: T| #[trigger] test(x) <==> key_of(x) == key,
    ensures
        first_of(list::without(items, dropped), test) == (if key == gone {
            None
        } else {
            first_of(items, test)
        }),
    decreases items.len(),
{
    reveal(Seq::filter);
    let left = list::without(items, dropped);
    if items.len() > 0 {
        let fewer = items.drop_last();
        let last = items.last();
        lemma_drop_read_back(fewer, dropped, test, key_of, gone, key);
        list::first_index_is_first(fewer, test);
        list::first_index_is_first(list::without(fewer, dropped), test);
        if dropped(last) {
            assert(left == list::without(fewer, dropped));
            if key != gone {
                assert(!test(last));
            }
        } else {
            assert(left =~= list::without(fewer, dropped).push(last));
            assert(left.drop_last() =~= list::without(fewer, dropped));
        }
    }
}

/// A budget that was saved is what its account reads from then on, and the
/// budgets of other accounts read as before. What an account reads is a budget of
/// its own.
pub proof fn a_saved_budget_is_read_back(
    before: Store,
    after: Store,
    budget: BudgetInfo,
    id: Seq<char>,
)
    requires
        after.budgets@ == list::upserted(
            before.budgets@,
            db::budget_of(budget.account_id@),
            budget,
        ),
    ensures
        id == budget.account_id@ ==> first_of(after.budgets@, db::budget_of(id)) == Some(budget),
        id != budget.account_id@ ==> first_of(after.budgets@, db::budget_of(id)) == first_of(
            before.budgets@,
            db::budget_of(id),
        ),
        first_of(after.budgets@, db::budget_of(id)) is Some ==> first_of(
            after.budgets@,
            db::budget_of(id),
        )->0.account_id@ == id,
{
    let key_of = |b: BudgetInfo| b.account_id@;
    lemma_upsert_read_back(
        before.budgets@,
        budget,
        db::budget_of(budget.account_id@),
        db::budget_of(id),
        key_of,
        id,
    );
    lemma_found(after.budgets@, db::budget_of(id), key_of, id);
}

/// A budget that was deleted is gone for its account, and for no other.
pub proof fn a_deleted_budget_is_gone(
    before: Seq<BudgetInfo>,
    after: Seq<BudgetInfo>,
    gone: Seq<char>,
    id: Seq<char>,
)
    requires
        after == list::without(before, db::budget_of(gone)),
    ensures
        id == gone ==> first_of(after, db::budget_of(id)) is None,
        id != gone ==> first_of(after, db::budget_of(id)) == first_of(before, db::budget_of(id)),
        after == before.filter(|budget: BudgetInfo| budget.account_id@ != gone),
{
    let key_of = |b: BudgetInfo| b.account_id@;
    lemma_drop_read_back(before, db::budget_of(gone), db::budget_of(id), key_of, gone, id);
    assert(list::refused(db::budget_of(gone)) =~= (|budget: BudgetInfo| budget.account_id@
        != gone));
}

/// An account that was saved is found under its id with all it was saved with, but
/// for the hint: that of the key it was saved with, and none without a key. Other
/// accounts stay as they were.
pub proof fn a_saved_account_is_read_back(
    before: Seq<CloudAccount>,
    after: Seq<CloudAccount>,
    account: CloudAccount,
    stored: CloudAccount,
    access_key_id: Seq<char>,
    key_hint: Seq<char>,
    id: Seq<char>,
)
    requires
        db::with_hint(account, db::hint_for(access_key_id, key_hint), stored),
        after == list::upserted(before, db::account_id(account.id@), stored),
    ensures
        id == account.id@ ==> first_of(after, db::account_id(id)) == Some(stored),
        id != account.id@ ==> first_of(after, db::account_id(id)) == first_of(
            before,
            db::account_id(id),
        ),
        stored.id == account.id,
        stored.name == account.name,
        stored.source_id == account.source_id,
        stored.region == account.region,
        stored.created_at == account.created_at,
        stored.last_synced_at == account.last_synced_at,
        stored.enabled == account.enabled,
        stored.export_uri == account.export_uri,
        access_key_id.len() == 0 ==> stored.access_key_hint is None,
        access_key_id.len() > 0 ==> stored.access_key_hint is Some
            && stored.access_key_hint->0@ == key_hint,
        first_of(after, db::account_id(id)) is Some ==> first_of(
            after,
            db::account_id(id),
        )->0.id@ == id,
{
    let key_of = |a: CloudAccount| a.id@;
    lemma_upsert_read_back(
        before,
        stored,
        db::account_id(account.id@),
        db::account_id(id),
        key_of,
        id,
    );
    lemma_found(after, db::account_id(id), key_of, id);
}

/// Deleting an account drops the accounts and the budgets under its id, and no
/// others.
pub proof fn a_deleted_account_is_gone(
    accounts: Seq<CloudAccount>,
    budgets: Seq<BudgetInfo>,
    id: Seq<char>,
)
    ensures
        list::without(accounts, db::account_id(id)) == accounts.filter(
            |account: CloudAccount| account.id@ != id,
        ),
        list::without(budgets, db::budget_of(id)) == budgets.filter(
            |budget: BudgetInfo| budget.account_id@ != id,
        ),
{
    assert(list::refused(db::account_id(id)) =~= (|account: CloudAccount| account.id@ != id));
    assert(list::refused(db::budget_of(id)) =~= (|budget: BudgetInfo| budget.account_id@ != id));
}

/// Recording a sync changes when the account was last synced and nothing else of
/// it.
pub proof fn a_sync_changes_its_instant_alone(account: CloudAccount, at: Timestamp)
    ensures
        ({
            let after = db::synced(account, at);
            &&& after.last_synced_at == Some(at)
            &&& after.id == account.id
            &&& after.name == account.name
            &&& after.source_id == account.source_id
            &&& after.region == account.region
            &&& after.created_at == account.created_at
            &&& after.enabled == account.enabled
            &&& after.access_key_hint == account.access_key_hint
            &&& after.export_uri == account.export_uri
        }),
{
}

/// The accounts that are listed are those whose source is registered, in the order
/// they are stored in.
pub proof fn listed_accounts_have_a_source(store: Store)
    ensures
        store.accounts@.filter(db::source_known()) == store.accounts@.filter(
            |account: CloudAccount| cloud::source_of(account.source_id.id@) is Some,
        ),
{
    assert(db::source_known() =~= (|account: CloudAccount| cloud::source_of(
        account.source_id.id@,
    ) is Some));
}

/// A rule that was saved is found under its id, and other rules as before.
pub proof fn a_saved_rule_is_read_back(
    before: Seq<AlertRule>,
    after: Seq<AlertRule>,
    rule: AlertRule,
    id: Seq<char>,
)
    requires
        after == list::upserted(before, db::rule_id(rule.id@), rule),
    ensures
        id == rule.id@ ==> first_of(after, db::rule_id(id)) == Some(rule),
        id != rule.id@ ==> first_of(after, db::rule_id(id)) == first_of(before, db::rule_id(id)),
        list::first_index(after, db::rule_id(id)) is Some <==> exists|i: int|
            0 <= i < after.len() && (#[trigger] after[i]).id@ == id,
{
    let key_of = |r: AlertRule| r.id@;
    lemma_upsert_read_back(before, rule, db::rule_id(rule.id@), db::rule_id(id), key_of, id);
    list::first_index_is_first(after, db::rule_id(id));
    match list::first_index(after, db::rule_id(id)) {
        Some(i) => {
            assert(db::rule_id(id)(after[i]));
            assert(after[i].id@ == id);
        },
        None => {
            assert forall|i: int| 0 <= i < after.len() implies (#[trigger] after[i]).id@ != id by {
                assert(!db::rule_id(id)(after[i]));
            }
        },
    }
}

/// Deleting a rule drops the rules under its id and no others.
pub proof fn a_deleted_rule_is_gone(rules: Seq<AlertRule>, id: Seq<char>)
    ensures
        list::without(rules, db::rule_id(id)) == rules.filter(|rule: AlertRule| rule.id@ != id),
{
    assert(list::refused(db::rule_id(id)) =~= (|rule: AlertRule| rule.id@ != id));
}

// ==================== Alerts ====================

/// An alert that was recorded is found under its id, and others as before.
pub proof fn a_recorded_alert_is_read_back(
    before: Seq<AlertEvent>,
    after: Seq<AlertEvent>,
    event: AlertEvent,
    id: Seq<char>,
)
    requires
        after == list::upserted(before, db::event_id(event.id@), event),
    ensures
        id == event.id@ ==> first_of(after, db::event_id(id)) == Some(event),
        id != event.id@ ==> first_of(after, db::event_id(id)) == first_of(
            before,
            db::event_id(id),
        ),
{
    let key_of = |e: AlertEvent| e.id@;
    lemma_upsert_read_back(before, event, db::event_id(event.id@), db::event_id(id), key_of, id);
}

/// The alerts in some states are listed from the newest to the oldest: all that
/// are in one of the states and no others, each once, and none ahead of one that
/// was created after it.
pub proof fn alerts_are_listed_newest_first(
    listed: Seq<AlertEvent>,
    events: Seq<AlertEvent>,
    statuses: Seq<AlertStatus>,
)
    requires
        listed == db::newest_first(events.filter(db::in_one_of(statuses))),
    ensures
        listed.to_multiset() == events.filter(
            |event: AlertEvent| statuses.contains(event.status),
        ).to_multiset(),
        forall|i: int, j: int|
            #![trigger listed[i], listed[j]]
            0 <= i < j < listed.len() ==> listed[i].created_at.seconds
                > listed[j].created_at.seconds || (listed[i].created_at.seconds
                == listed[j].created_at.seconds && listed[i].created_at.nanos
                >= listed[j].created_at.nanos),
{
    let kept = events.filter(db::in_one_of(statuses));
    let ranks = db::creation_ranks(kept);
    let at = order::ranking(ranks);
    assert(db::in_one_of(statuses) =~= (|event: AlertEvent| statuses.contains(event.status)));
    order::ranking_is_stable_and_complete(ranks);
    order::ranked_items_are_the_items(kept, ranks);
    assert forall|i: int, j: int|
        #![trigger listed[i], listed[j]]
        0 <= i < j < listed.len() implies listed[i].created_at.seconds
        > listed[j].created_at.seconds || (listed[i].created_at.seconds
        == listed[j].created_at.seconds && listed[i].created_at.nanos
        >= listed[j].created_at.nanos) by {
        assert(order::ranks_ahead(ranks, at[i], at[j]));
        listed[i].created_at.rank_orders_instants(listed[j].created_at);
        assert(ranks[at[i]] == listed[i].created_at.rank());
        assert(ranks[at[j]] == listed[j].created_at.rank());
    }
}

/// The alert found under a dedupe key stands open or snoozed under that very key,
/// and none that does was created after it; none is found only where none does.
pub proof fn a_live_alert_is_found_by_its_key(
    found: Option<AlertEvent>,
    events: Seq<AlertEvent>,
    dedupe_key: Seq<char>,
)
    requires
        found == (match db::newest_live(events, dedupe_key) {
            Some(i) => Some(events[i]),
            None => None,
        }),
    ensures
        match found {
            Some(event) => {
                &&& events.contains(event)
                &&& event.dedupe_key@ == dedupe_key
                &&& event.status == AlertStatus::Open || event.status == AlertStatus::Snoozed
                &&& forall|j: int|
                    #![trigger events[j]]
                    0 <= j < events.len() && events[j].dedupe_key@ == dedupe_key && (
                    events[j].status == AlertStatus::Open || events[j].status
                        == AlertStatus::Snoozed) ==> !event.created_at.before(events[j].created_at)
            },
            None => forall|j: int|
                #![trigger events[j]]
                0 <= j < events.len() && events[j].dedupe_key@ == dedupe_key ==> events[j].status
                    != AlertStatus::Open && events[j].status != AlertStatus::Snoozed,
        },
{
    db::newest_live_is_newest(events, dedupe_key);
    match db::newest_live(events, dedupe_key) {
        Some(i) => {
            assert(db::live_under(events[i], dedupe_key));
            assert forall|j: int|
                #![trigger events[j]]
                0 <= j < events.len() && events[j].dedupe_key@ == dedupe_key && (events[j].status
                    == AlertStatus::Open || events[j].status
                    == AlertStatus::Snoozed) implies !events[i].created_at.before(
                events[j].created_at,
            ) by {
                assert(db::live_under(events[j], dedupe_key));
            }
        },
        None => {
            assert forall|j: int|
                #![trigger events[j]]
                0 <= j < events.len() && events[j].dedupe_key@ == dedupe_key implies events[j].status
                != AlertStatus::Open && events[j].status != AlertStatus::Snoozed by {
                assert(!db::live_under(events[j], dedupe_key));
            }
        },
    }
}

/// Moving an alert sets its state and until when it is snoozed; it is stamped as
/// resolved just where the state is resolved or dismissed, and its history stays.
pub proof fn a_moved_alert_keeps_its_history(
    event: AlertEvent,
    status: AlertStatus,
    snoozed_until: Option<Timestamp>,
    now: Timestamp,
)
    ensures
        ({
            let after = db::moved(event, status, snoozed_until, now);
            &&& after.status == status
            &&& after.snoozed_until == snoozed_until
            &&& after.resolved_at == (match status {
                AlertStatus::Open => None,
                AlertStatus::Snoozed => None,
                AlertStatus::Resolved => Some(now),
                AlertStatus::Dismissed => Some(now),
            })
            &&& after.id == event.id
            &&& after.rule_id == event.rule_id
            &&& after.dedupe_key == event.dedupe_key
            &&& after.created_at == event.created_at
            &&& after.context == event.context
        }),
{
}

// ==================== Budgets ====================

/// A budget rule's alert for an account stands open or snoozed: its dedupe key
/// begins with `budget|`, the account's id and `|`, and a stored rule of the
/// budget kind raised it.
pub open spec fn stands_alerted(store: Store, id: Seq<char>, e: int, r: int) -> bool {
    &&& 0 <= e < store.alert_events@.len()
    &&& 0 <= r < store.alert_rules@.len()
    &&& store.alert_events@[e].rule_id@ == store.alert_rules@[r].id@
    &&& store.alert_rules@[r].kind@ == "budget"@
    &&& store.alert_events@[e].status == AlertStatus::Open || store.alert_events@[e].status
        == AlertStatus::Snoozed
    &&& text::begins_with(store.alert_events@[e].dedupe_key@, "budget|"@ + id + "|"@)
}

/// The account that a budget belongs to: one under its id, of a registered source.
pub open spec fn is_account(store: Store, id: Seq<char>, a: int) -> bool {
    &&& 0 <= a < store.accounts@.len()
    &&& store.accounts@[a].id@ == id
    &&& cloud::source_of(store.accounts@[a].source_id.id@) is Some
}

proof fn lemma_known_account(store: Store, id: Seq<char>, i: int)
    requires
        list::first_index(store.accounts@.filter(db::source_known()), db::account_id(id)) == Some(
            i,
        ),
    ensures
        exists|a: int| #[trigger]
            is_account(store, id, a) && store.accounts@[a] == store.accounts@.filter(
                db::source_known(),
            )[i],
{
    let known = store.accounts@.filter(db::source_known());
    list::first_index_is_first(known, db::account_id(id));
    assert(db::account_id(id)(known[i]));
    store.accounts@.lemma_filter_pred(db::source_known(), i);
    assert(known.contains(known[i]));
    store.accounts@.lemma_filter_contains_rev(db::source_known(), known[i]);
    let a = choose|a: int| 0 <= a < store.accounts@.len() && store.accounts@[a] == known[i];
    assert(is_account(store, id, a));
}

/// Being billed to an account in a month.
pub open spec fn is_billed_to(
    account: CloudAccount,
    month: Seq<char>,
) -> spec_fn(NormalizedRow) -> bool {
    |row: NormalizedRow|
        row.provider@ == account.source_id.id@ && row.account_id@ == account.id@
            && row.billing_period@ == month
}

/// What a budget's status shows: as its cost, what the account was billed in the
/// month, all its charges added up; as what remains, the budget less that cost; as
/// what is used, the cost as a share of the budget, nothing of a budget of
/// nothing. It alerts where a budget rule's alert stands or the share reaches the
/// threshold. `sum`, `less` and `percent` are how amounts are added up,
/// subtracted and put in relation.
pub proof fn a_budget_status_shows_the_months_cost(
    status: BudgetStatus,
    question: BudgetQuestion,
    figures: BudgetFigures,
    store: Store,
    rows: Seq<NormalizedRow>,
    budget: BudgetInfo,
    now: Timestamp,
    sum: spec_fn(Seq<Amount>) -> Amount,
    less: spec_fn(Amount, Amount) -> Amount,
    percent: spec_fn(Amount, Amount) -> Amount,
)
    requires
        db::asks(question, store, rows, budget, budget.account_id@, now),
        db::is_status(status, question, figures),
        figures.current_cost == sum(question.charges@),
        figures.remaining == less(budget.monthly_budget, figures.current_cost),
        figures.ratio_pct == percent(figures.current_cost, budget.monthly_budget),
    ensures
        exists|a: int| #[trigger]
            is_account(store, budget.account_id@, a) && status.account_name
                == store.accounts@[a].name && status.current_cost == sum(
                reach::billed_amounts(
                    rows.filter(
                        is_billed_to(
                            store.accounts@[a],
                            calendar::month_label(
                                calendar::civil(now.seconds as int / 86_400).year as int,
                                calendar::civil(now.seconds as int / 86_400).month as int,
                            ),
                        ),
                    ),
                ),
            ),
        status.account_id == budget.account_id,
        status.currency == budget.currency,
        status.monthly_budget == budget.monthly_budget,
        status.remaining == less(status.monthly_budget, status.current_cost),
        status.percentage_used == (if budget.monthly_budget.is_positive() {
            percent(status.current_cost, status.monthly_budget)
        } else {
            Amount { bits: 0 }
        }),
        status.alert_triggered <==> (exists|e: int, r: int| #[trigger]
            stands_alerted(store, budget.account_id@, e, r)) || budget.alert_threshold.le(
            status.percentage_used,
        ),
{
    let id = budget.account_id@;
    let known = store.accounts@.filter(db::source_known());
    let i = list::first_index(known, db::account_id(id))->0;
    lemma_known_account(store, id, i);
    let a = choose|a: int| #[trigger]
        is_account(store, id, a) && store.accounts@[a] == known[i];
    let account = store.accounts@[a];
    let month = calendar::period_of(now).text();
    let own = is_billed_to(account, month);
    let bill = db::bill_of(account, month);
    assert forall|row: NormalizedRow| #[trigger] scope::scoped(bill)(row) == own(row) by {}
    assert(scope::scoped(bill) =~= own);
    reach::a_total_adds_up_billed_amounts(rows.filter(own));
    assert(question.charges@ == reach::billed_amounts(rows.filter(own)));
    if db::live_budget_alert(store, id) {
        let e = choose|e: int|
            0 <= e < store.alert_events@.len() && #[trigger] db::budget_alert(
                store.alert_events@[e],
                store.alert_rules@,
                id,
            );
        let rule = store.alert_events@[e].rule_id@;
        let r = choose|r: int|
            0 <= r < store.alert_rules@.len() && #[trigger] store.alert_rules@[r].id@ == rule
                && store.alert_rules@[r].kind@ == "budget"@;
        assert(stands_alerted(store, id, e, r));
    }
    if exists|e: int, r: int| #[trigger] stands_alerted(store, id, e, r) {
        let (e, r) = choose|e: int, r: int| #[trigger] stands_alerted(store, id, e, r);
        assert(store.alert_rules@[r].id@ == store.alert_events@[e].rule_id@);
        assert(db::budget_alert(store.alert_events@[e], store.alert_rules@, id));
    }
}

// ==================== What stays as it is ====================

/// One of the lists that the store holds.
pub ghost enum StoreList {
    Accounts,
    Budgets,
    Rules,
    Events,
    Dismissals,
    Periods,
    Balances,
}

/// Two stores have the same reporting currency and the same lists, but for one.
pub open spec fn rest_is_kept(after: Store, before: Store, changed: StoreList) -> bool {
    &&& changed is Accounts || after.accounts == before.accounts
    &&& changed is Budgets || after.budgets == before.budgets
    &&& changed is Rules || after.alert_rules == before.alert_rules
    &&& changed is Events || after.alert_events == before.alert_events
    &&& changed is Dismissals || after.dismissed_quality_keys == before.dismissed_quality_keys
    &&& changed is Periods || after.periods == before.periods
    &&& changed is Balances || after.balances == before.balances
    &&& after.reporting_currency == before.reporting_currency
}

/// A change to one list of the store leaves every other list, and the reporting
/// currency, as they are.
pub proof fn one_list_changes_alone(after: Store, before: Store)
    ensures
        db::same_but_accounts(after, before) ==> rest_is_kept(after, before, StoreList::Accounts),
        db::same_but_budgets(after, before) ==> rest_is_kept(after, before, StoreList::Budgets),
        db::same_but_rules(after, before) ==> rest_is_kept(after, before, StoreList::Rules),
        db::same_but_events(after, before) ==> rest_is_kept(after, before, StoreList::Events),
        db::same_but_dismissals(after, before) ==> rest_is_kept(
            after,
            before,
            StoreList::Dismissals,
        ),
        ledger::same_but_periods(after, before) ==> rest_is_kept(
            after,
            before,
            StoreList::Periods,
        ),
        ledger::same_but_balances(after, before) ==> rest_is_kept(
            after,
            before,
            StoreList::Balances,
        ),
{
}

/// A key's hint is noted on the first account with the id and nowhere else, and
/// nothing of that account changes but the hint.
pub proof fn a_hint_is_noted_on_its_account(
    before: Seq<CloudAccount>,
    id: Seq<char>,
    after: Seq<CloudAccount>,
    hint: Seq<char>,
    j: int,
)
    requires
        db::hinted(before, id, after, hint),
        0 <= j < before.len(),
    ensures
        after.len() == before.len(),
        before[j].id@ != id ==> after[j] == before[j],
        (exists|k: int| 0 <= k < j && (#[trigger] before[k]).id@ == id) ==> after[j] == before[j],
        before[j].id@ == id && (forall|k: int| 0 <= k < j ==> (#[trigger] before[k]).id@ != id) ==> {
            &&& after[j].access_key_hint is Some
            &&& after[j].access_key_hint->0@ == hint
            &&& after[j].id == before[j].id
            &&& after[j].name == before[j].name
            &&& after[j].source_id == before[j].source_id
            &&& after[j].region == before[j].region
            &&& after[j].created_at == before[j].created_at
            &&& after[j].last_synced_at == before[j].last_synced_at
            &&& after[j].enabled == before[j].enabled
            &&& after[j].export_uri == before[j].export_uri
        },
{
    let test = db::account_id(id);
    list::first_index_is_first(before, test);
    match list::first_index(before, test) {
        Some(i) => {
            assert(test(before[i]));
            if before[j].id@ == id {
                assert(test(before[j]));
                if i < j {
                    assert(before[i].id@ == id);
                }
            }
            if exists|k: int| 0 <= k < j && (#[trigger] before[k]).id@ == id {
                let k = choose|k: int| 0 <= k < j && (#[trigger] before[k]).id@ == id;
                assert(test(before[k]));
            }
        },
        None => {
            assert(!test(before[j]));
        },
    }
}

/// A finding that was dismissed stays so, and dismissing some dismisses no other.
pub proof fn dismissals_last(
    after: Seq<String>,
    before: Seq<String>,
    keys: Seq<String>,
    key: Seq<char>,
)
    requires
        quality::dismissals_added(after, before, keys),
    ensures
        (exists|i: int| 0 <= i < after.len() && (#[trigger] after[i])@ == key) <==> (exists|i: int|
            0 <= i < before.len() && (#[trigger] before[i])@ == key) || (exists|i: int|
            0 <= i < keys.len() && (#[trigger] keys[i])@ == key),
{
    lemma_dismissed(after, key);
    lemma_dismissed(before, key);
    assert(order::lists(keys, key) <==> exists|i: int|
        0 <= i < keys.len() && (#[trigger] keys[i])@ == key) by {
        if order::lists(keys, key) {
            let i = choose|i: int| 0 <= i < keys.len() && #[trigger] keys[i]@ == key;
            assert(keys[i]@ == key);
        }
        if exists|i: int| 0 <= i < keys.len() && (#[trigger] keys[i])@ == key {
            let i = choose|i: int| 0 <= i < keys.len() && (#[trigger] keys[i])@ == key;
            assert(keys[i]@ == key);
        }
    }
}

proof fn lemma_dismissed(keys: Seq<String>, key: Seq<char>)
    ensures
        db::dismissed(keys, key) <==> exists|i: int|
            0 <= i < keys.len() && (#[trigger] keys[i])@ == key,
{
    if db::dismissed(keys, key) {
        let i = choose|i: int| 0 <= i < keys.len() && #[trigger] keys[i]@ == key;
        assert(keys[i]@ == key);
    }
    if exists|i: int| 0 <= i < keys.len() && (#[trigger] keys[i])@ == key {
        let i = choose|i: int| 0 <= i < keys.len() && (#[trigger] keys[i])@ == key;
        assert(keys[i]@ == key);
    }
}

/// The charges of an import are counted over its periods: what two lists of periods
/// brought together is what each brought.
pub proof fn imported_charges_add_up(
    one: Seq<(String, IngestOutcome)>,
    other: Seq<(String, IngestOutcome)>,
    last: (String, IngestOutcome),
)
    ensures
        ingest::charges_of(one + other) == ingest::charges_of(one) + ingest::charges_of(other),
        ingest::charges_of(one.push(last)) == ingest::charges_of(one) + last.1.charges,
        ingest::charges_of(Seq::empty()) == 0,
    decreases other.len(),
{
    assert(one.push(last).drop_last() =~= one);
    if other.len() == 0 {
        assert(one + other =~= one);
    } else {
        imported_charges_add_up(one, other.drop_last(), last);
        assert((one + other).drop_last() =~= one + other.drop_last());
    }
}

} // verus!
