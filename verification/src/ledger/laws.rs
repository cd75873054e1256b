//! What holds of the ledger's reads taken together.
use vstd::prelude::*;

use super::buckets;
use super::buckets::{Grouping, ServiceTagTerms, ServiceTerms};
use super::compare;
use super::compare::QualityCounts;
use super::ranked;
use super::scope;
use crate::amount;
use crate::amount::Amount;
use crate::list;
use crate::memory;
use crate::memory::{NormalizedRow, StoredPeriod};
use crate::model::{BreakdownDim, Charge, ChargeCategory, PeriodKey, ServiceTagUsage};
use crate::order;

verus! {

// ==================== Breakdowns add up ====================

/// Everything that lists of amounts hold, together.
pub open spec fn together(terms: Seq<Seq<Amount>>) -> vstd::multiset::Multiset<Amount>
    decreases terms.len(),
{
    if terms.len() == 0 {
        vstd::multiset::Multiset::empty()
    } else {
        together(terms.drop_last()).add(terms.last().to_multiset())
    }
}

/// Having a converted amount.
spec fn converted() -> spec_fn(NormalizedRow) -> bool {
    |row: NormalizedRow| row.billed_cost_base is Some
}

/// The converted amount of a row that has one.
spec fn amount_of() -> spec_fn(NormalizedRow) -> Amount {
    |row: NormalizedRow| row.billed_cost_base->0
}

proof fn lemma_base_amounts(rows: Seq<NormalizedRow>)
    ensures
        scope::base_amounts(rows) == rows.filter(converted()).map_values(amount_of()),
    decreases rows.len(),
{
    reveal(Seq::filter);
    if rows.len() > 0 {
        lemma_base_amounts(rows.drop_last());
        let before = rows.drop_last().filter(converted());
        if rows.last().billed_cost_base is Some {
            assert(before.push(rows.last()).map_values(amount_of()) =~= before.map_values(
                amount_of(),
            ).push(rows.last().billed_cost_base->0));
        }
    } else {
        assert(rows.filter(converted()).map_values(amount_of()) =~= Seq::empty());
    }
}

/// Two filters may be applied in either order.
proof fn lemma_filters_commute(
    rows: Seq<NormalizedRow>,
    one: spec_fn(NormalizedRow) -> bool,
    other: spec_fn(NormalizedRow) -> bool,
)
    ensures
        rows.filter(one).filter(other) == rows.filter(other).filter(one),
    decreases rows.len(),
{
    reveal(Seq::filter);
    if rows.len() > 0 {
        let rest = rows.drop_last();
        let last = rows.last();
        lemma_filters_commute(rest, one, other);
        assert(rest.filter(one).push(last).drop_last() =~= rest.filter(one));
        assert(rest.filter(other).push(last).drop_last() =~= rest.filter(other));
    }
}

/// What buckets with these keys would hold, together.
proof fn lemma_together(
    keys: Seq<Seq<order::Part>>,
    terms: Seq<Seq<Amount>>,
    rows: Seq<NormalizedRow>,
    key_of: spec_fn(NormalizedRow) -> Seq<order::Part>,
)
    requires
        keys.len() == terms.len(),
        forall|b: int|
            0 <= b < keys.len() ==> #[trigger] terms[b] == scope::base_amounts(
                buckets::bucket_rows(rows, key_of, keys[b]),
            ),
    ensures
        together(terms) == list::collected(
            rows.filter(converted()),
            key_of,
            amount_of(),
            keys,
        ),
    decreases keys.len(),
{
    if keys.len() > 0 {
        let last = keys.len() - 1;
        assert forall|b: int| 0 <= b < keys.drop_last().len() implies #[trigger] terms.drop_last()[b]
            == scope::base_amounts(
            buckets::bucket_rows(rows, key_of, keys.drop_last()[b]),
        ) by {
            assert(terms.drop_last()[b] == terms[b]);
        }
        lemma_together(keys.drop_last(), terms.drop_last(), rows, key_of);
        let test = list::keyed_as(key_of, keys.last());
        assert(test =~= buckets::has_key(key_of, keys.last()));
        lemma_filters_commute(rows, converted(), test);
        lemma_base_amounts(rows.filter(test));
        assert(terms[last] == terms.last());
    }
}

/// Every breakdown adds up to the total of what it breaks down: the amounts of
/// its buckets together are the amounts of its rows, none lost and none counted
/// twice.
pub proof fn every_breakdown_adds_up(
    keys: Seq<Seq<order::Part>>,
    terms: Seq<Seq<Amount>>,
    rows: Seq<NormalizedRow>,
    key_of: spec_fn(NormalizedRow) -> Seq<order::Part>,
)
    requires
        buckets::buckets_by(keys, terms, rows, key_of),
    ensures
        together(terms) == scope::base_amounts(rows).to_multiset(),
{
    let kept = rows.filter(converted());
    assert forall|b: int| 0 <= b < keys.len() implies #[trigger] terms[b] == scope::base_amounts(
        buckets::bucket_rows(rows, key_of, keys[b]),
    ) by {
        assert(buckets::bucket_rows(rows, key_of, keys[b]).len() > 0);
    }
    lemma_together(keys, terms, rows, key_of);
    lemma_base_amounts(rows);
    assert(keys.no_duplicates()) by {
        assert forall|i: int, j: int|
            0 <= i < keys.len() && 0 <= j < keys.len() && i != j implies keys[i] != keys[j] by {
            if i < j {
                assert(order::key_lt(keys[i], keys[j]));
                order::lemma_key_lt_asymmetric(keys[i], keys[j]);
            } else {
                assert(order::key_lt(keys[j], keys[i]));
                order::lemma_key_lt_asymmetric(keys[j], keys[i]);
            }
        }
    }
    assert forall|i: int| 0 <= i < kept.len() implies keys.contains(key_of(#[trigger] kept[i])) by {
        rows.lemma_filter_contains_rev(converted(), kept[i]);
        let k = choose|k: int| 0 <= k < rows.len() && rows[k] == kept[i];
        assert(keys.contains(key_of(rows[k])));
    }
    list::splitting_keeps_every_item(kept, key_of, amount_of(), keys);
}

// ==================== One pass and many ====================

/// Filtering rows by one test and then by another filters them by both.
pub proof fn filters_combine(
    rows: Seq<NormalizedRow>,
    one: spec_fn(NormalizedRow) -> bool,
    other: spec_fn(NormalizedRow) -> bool,
    both: spec_fn(NormalizedRow) -> bool,
)
    requires
        forall|row: NormalizedRow| #[trigger] both(row) == (one(row) && other(row)),
    ensures
        rows.filter(one).filter(other) == rows.filter(both),
{
    lemma_filter_twice(rows, one, other, both);
}

proof fn lemma_filter_twice(
    rows: Seq<NormalizedRow>,
    one: spec_fn(NormalizedRow) -> bool,
    other: spec_fn(NormalizedRow) -> bool,
    both: spec_fn(NormalizedRow) -> bool,
)
    requires
        forall|row: NormalizedRow| #[trigger] both(row) == (one(row) && other(row)),
    ensures
        rows.filter(one).filter(other) == rows.filter(both),
    decreases rows.len(),
{
    reveal(Seq::filter);
    if rows.len() > 0 {
        let rest = rows.drop_last();
        lemma_filter_twice(rest, one, other, both);
        assert(rest.filter(one).push(rows.last()).drop_last() =~= rest.filter(one));
        assert(both(rows.last()) == (one(rows.last()) && other(rows.last())));
    }
}

/// The usage among the rows of a scope is the scope's usage.
pub proof fn usage_in_a_scope(all: Seq<NormalizedRow>, chosen: scope::Selection)
    ensures
        scope::usage_rows(scope::rows_in(all, chosen)) == scope::rows_in(all, chosen.usage()),
{
    lemma_filter_twice(
        all,
        scope::scoped(chosen),
        |row: NormalizedRow| scope::is_usage(row),
        scope::scoped(chosen.usage()),
    );
}

/// Usage by tag taken in one pass over all services is, service by service, the
/// usage by tag of that service alone.
pub proof fn one_pass_tags_are_each_services_tags(
    all: Seq<NormalizedRow>,
    billing_period: Seq<char>,
    provider: Seq<char>,
    service: Seq<char>,
    tag_key: &str,
    value: Seq<char>,
)
    ensures
        buckets::bucket_rows(
            scope::rows_in(all, scope::of_period(billing_period).usage()),
            buckets::keyed(Grouping::ProviderServiceTag(tag_key)),
            buckets::key3(provider, service, value),
        ) == buckets::bucket_rows(
            scope::rows_in(
                all,
                scope::of_service(provider, service).in_period(billing_period).usage(),
            ),
            buckets::keyed(Grouping::Tag(tag_key)),
            buckets::key1(value),
        ),
{
    let wide = scope::of_period(billing_period).usage();
    let narrow = scope::of_service(provider, service).in_period(billing_period).usage();
    let by_all = buckets::has_key(
        buckets::keyed(Grouping::ProviderServiceTag(tag_key)),
        buckets::key3(provider, service, value),
    );
    let by_tag = buckets::has_key(buckets::keyed(Grouping::Tag(tag_key)), buckets::key1(value));
    let both = |row: NormalizedRow| scope::in_scope(wide, row) && by_all(row);
    assert forall|row: NormalizedRow| #[trigger] both(row) == (scope::in_scope(narrow, row)
        && by_tag(row)) by {
        let own = buckets::key3(
            row.provider@,
            scope::service_name(row),
            buckets::row_tag(row, tag_key@),
        );
        let asked = buckets::key3(provider, service, value);
        assert(own[0] == Some(row.provider@) && asked[0] == Some(provider));
        assert(own[1] == Some(scope::service_name(row)) && asked[1] == Some(service));
        assert(own[2] == Some(buckets::row_tag(row, tag_key@)) && asked[2] == Some(value));
        let tag = buckets::key1(buckets::row_tag(row, tag_key@));
        assert(tag[0] == Some(buckets::row_tag(row, tag_key@)));
        assert(buckets::key1(value)[0] == Some(value));
    }
    lemma_filter_twice(all, |row: NormalizedRow| scope::in_scope(wide, row), by_all, both);
    lemma_filter_twice(all, |row: NormalizedRow| scope::in_scope(narrow, row), by_tag, both);
}

/// The totals of buckets by service and tag value, each added up by `sum`.
pub open spec fn tags_summed(
    buckets: Seq<ServiceTagTerms>,
    totals: Seq<ServiceTagUsage>,
    sum: spec_fn(Seq<Amount>) -> Amount,
) -> bool {
    &&& totals.len() == buckets.len()
    &&& forall|b: int|
        #![trigger totals[b]]
        0 <= b < totals.len() ==> {
            &&& totals[b].provider@ == buckets[b].provider@
            &&& totals[b].service@ == buckets[b].service@
            &&& totals[b].tag_value@ == buckets[b].tag_value@
            &&& totals[b].amount == sum(buckets[b].terms@)
        }
}

/// The totals of buckets by one column, each added up by `sum`.
pub open spec fn names_summed(
    buckets: Seq<(String, Vec<Amount>)>,
    totals: Seq<(String, Amount)>,
    sum: spec_fn(Seq<Amount>) -> Amount,
) -> bool {
    &&& totals.len() == buckets.len()
    &&& forall|b: int|
        #![trigger totals[b]]
        0 <= b < totals.len() ==> totals[b].0@ == buckets[b].0@ && totals[b].1 == sum(
            buckets[b].1@,
        )
}

/// Being usage of a service.
pub open spec fn usage_of(provider: Seq<char>, service: Seq<char>) -> spec_fn(ServiceTagUsage) -> bool {
    |usage: ServiceTagUsage| usage.provider@ == provider && usage.service@ == service
}

/// A tag value and its amount.
pub open spec fn tag_and_amount() -> spec_fn(ServiceTagUsage) -> (Seq<char>, Amount) {
    |usage: ServiceTagUsage| (usage.tag_value@, usage.amount)
}

/// A name and its amount.
pub open spec fn name_and_amount() -> spec_fn((String, Amount)) -> (Seq<char>, Amount) {
    |total: (String, Amount)| (total.0@, total.1)
}

/// The larger amount goes first, and of equal ones the one whose name precedes.
spec fn larger_first() -> spec_fn((Seq<char>, Amount), (Seq<char>, Amount)) -> bool {
    |a: (Seq<char>, Amount), b: (Seq<char>, Amount)|
        a.1.rank() > b.1.rank() || (a.1.rank() == b.1.rank() && order::text_lt(a.0, b.0))
}

/// The larger usage goes first, and of equal ones the one whose bucket precedes.
spec fn larger_usage_first() -> spec_fn(ServiceTagUsage, ServiceTagUsage) -> bool {
    |a: ServiceTagUsage, b: ServiceTagUsage|
        a.amount.rank() > b.amount.rank() || (a.amount.rank() == b.amount.rank() && order::key_lt(
            buckets::key3(a.provider@, a.service@, a.tag_value@),
            buckets::key3(b.provider@, b.service@, b.tag_value@),
        ))
}

proof fn lemma_usage_in_order(totals: Seq<ServiceTagUsage>)
    requires
        order::ascending(
            totals.map_values(
                |b: ServiceTagUsage| buckets::key3(b.provider@, b.service@, b.tag_value@),
            ),
        ),
    ensures
        list::in_order(
            ranked::positive_first(totals, ranked::tag_usage_amounts(totals)),
            larger_usage_first(),
        ),
{
    let amounts = ranked::tag_usage_amounts(totals);
    let keys = totals.map_values(
        |b: ServiceTagUsage| buckets::key3(b.provider@, b.service@, b.tag_value@),
    );
    let at = amount::positive_ranking(amounts);
    let listed = ranked::positive_first(totals, amounts);
    amount::positive_ranking_is_complete(amounts);
    assert forall|i: int, j: int|
        #![trigger listed[i], listed[j]]
        0 <= i < j < listed.len() implies larger_usage_first()(listed[i], listed[j]) by {
        assert(at.contains(at[i]) && at.contains(at[j]));
        assert(order::ranks_ahead(amount::ranks_of(amounts), at[i], at[j]));
        if at[i] < at[j] {
            assert(order::key_lt(keys[at[i]], keys[at[j]]));
        }
    }
}

/// The order of keys that differ in their last column alone is that of the
/// column.
proof fn lemma_last_column_decides(
    provider: Seq<char>,
    service: Seq<char>,
    a: Seq<char>,
    b: Seq<char>,
)
    requires
        order::key_lt(
            buckets::key3(provider, service, a),
            buckets::key3(provider, service, b),
        ),
    ensures
        order::text_lt(a, b),
{
    let one = buckets::key3(provider, service, a);
    let other = buckets::key3(provider, service, b);
    let k = choose|k: int| order::key_splits_at(one, other, k);
    assert(one[0] == other[0] && one[1] == other[1]);
    if k < 2 {
        order::lemma_part_lt_asymmetric(one[k], other[k]);
    }
    assert(k == 2);
}

proof fn lemma_column_decides(a: Seq<char>, b: Seq<char>)
    requires
        order::key_lt(buckets::key1(a), buckets::key1(b)),
    ensures
        order::text_lt(a, b),
{
    let k = choose|k: int|
        order::key_splits_at(buckets::key1(a), buckets::key1(b), k);
    assert(k == 0);
}

proof fn lemma_names_in_order(totals: Seq<(String, Amount)>)
    requires
        order::ascending(totals.map_values(|b: (String, Amount)| buckets::key1(b.0@))),
    ensures
        list::in_order(
            ranked::positive_first(totals, ranked::named_amounts(totals)).map_values(
                name_and_amount(),
            ),
            larger_first(),
        ),
{
    let amounts = ranked::named_amounts(totals);
    let keys = totals.map_values(|b: (String, Amount)| buckets::key1(b.0@));
    let at = amount::positive_ranking(amounts);
    let listed = ranked::positive_first(totals, amounts).map_values(name_and_amount());
    amount::positive_ranking_is_complete(amounts);
    assert forall|i: int, j: int|
        #![trigger listed[i], listed[j]]
        0 <= i < j < listed.len() implies larger_first()(listed[i], listed[j]) by {
        assert(at.contains(at[i]) && at.contains(at[j]));
        assert(order::ranks_ahead(amount::ranks_of(amounts), at[i], at[j]));
        if at[i] < at[j] {
            assert(order::key_lt(keys[at[i]], keys[at[j]]));
            lemma_column_decides(totals[at[i]].0@, totals[at[j]].0@);
        }
    }
}

/// An item is the total at a position, and above zero.
spec fn is_positive_total<T>(totals: Seq<T>, amounts: Seq<Amount>, p: int, item: T) -> bool {
    0 <= p < totals.len() && amounts[p].is_positive() && totals[p] == item
}

/// What a list of the totals above zero holds.
proof fn lemma_positive_members<T>(totals: Seq<T>, amounts: Seq<Amount>)
    requires
        totals.len() == amounts.len(),
    ensures
        forall|p: int|
            #![trigger totals[p]]
            0 <= p < totals.len() && amounts[p].is_positive() ==> ranked::positive_first(
                totals,
                amounts,
            ).contains(totals[p]),
        forall|item: T| #[trigger]
            ranked::positive_first(totals, amounts).contains(item) ==> exists|p: int| #[trigger]
                is_positive_total(totals, amounts, p, item),
{
    let at = amount::positive_ranking(amounts);
    let listed = ranked::positive_first(totals, amounts);
    amount::positive_ranking_is_complete(amounts);
    assert forall|p: int|
        #![trigger totals[p]]
        0 <= p < totals.len() && amounts[p].is_positive() implies listed.contains(totals[p]) by {
        assert(at.contains(p));
        let i = choose|i: int| 0 <= i < at.len() && at[i] == p;
        assert(listed[i] == totals[p]);
    }
    assert forall|item: T| #[trigger] listed.contains(item) implies exists|p: int| #[trigger]
        is_positive_total(totals, amounts, p, item) by {
        let i = choose|i: int| 0 <= i < listed.len() && listed[i] == item;
        assert(at.contains(at[i]));
        assert(is_positive_total(totals, amounts, at[i], item));
    }
}

/// A key that some row has is among the keys of buckets.
pub proof fn a_bucket_has_its_key(
    keys: Seq<Seq<order::Part>>,
    terms: Seq<Seq<Amount>>,
    rows: Seq<NormalizedRow>,
    key_of: spec_fn(NormalizedRow) -> Seq<order::Part>,
    key: Seq<order::Part>,
)
    requires
        buckets::buckets_by(keys, terms, rows, key_of),
        buckets::bucket_rows(rows, key_of, key).len() > 0,
    ensures
        keys.contains(key),
{
    let held = buckets::bucket_rows(rows, key_of, key);
    rows.lemma_filter_pred(buckets::has_key(key_of, key), 0);
    assert(held.contains(held[0]));
    rows.lemma_filter_contains_rev(buckets::has_key(key_of, key), held[0]);
    let r = choose|r: int| 0 <= r < rows.len() && rows[r] == held[0];
    assert(keys.contains(key_of(rows[r])));
}

/// The ranked usage by tag that one pass over all services gives lists, service
/// by service, what the service's own ranked breakdown lists: the same tag values
/// with the same amounts in the same order. `sum` is how amounts are added up.
pub proof fn one_pass_ranking_is_each_services_ranking(
    all: Seq<NormalizedRow>,
    billing_period: Seq<char>,
    provider: Seq<char>,
    service: Seq<char>,
    tag_key: &str,
    tagged: Seq<ServiceTagTerms>,
    totals: Seq<ServiceTagUsage>,
    own: Seq<(String, Vec<Amount>)>,
    own_totals: Seq<(String, Amount)>,
    sum: spec_fn(Seq<Amount>) -> Amount,
)
    requires
        buckets::service_tags_by(
            tagged,
            scope::rows_in(all, scope::of_period(billing_period).usage()),
            tag_key,
        ),
        buckets::named_by(
            own,
            scope::rows_in(
                all,
                scope::of_service(provider, service).in_period(billing_period).usage(),
            ),
            Grouping::Tag(tag_key),
        ),
        tags_summed(tagged, totals, sum),
        names_summed(own, own_totals, sum),
    ensures
        ranked::positive_first(totals, ranked::tag_usage_amounts(totals)).filter(
            usage_of(provider, service),
        ).map_values(tag_and_amount()) == ranked::positive_first(
            own_totals,
            ranked::named_amounts(own_totals),
        ).map_values(name_and_amount()),
{
    let wide = scope::rows_in(all, scope::of_period(billing_period).usage());
    let narrow = scope::rows_in(
        all,
        scope::of_service(provider, service).in_period(billing_period).usage(),
    );
    let by_all = buckets::keyed(Grouping::ProviderServiceTag(tag_key));
    let by_tag = buckets::keyed(Grouping::Tag(tag_key));
    let keys = tagged.map_values(
        |b: ServiceTagTerms| buckets::key3(b.provider@, b.service@, b.tag_value@),
    );
    let terms = tagged.map_values(|b: ServiceTagTerms| b.terms@);
    let amounts = ranked::tag_usage_amounts(totals);
    let own_amounts = ranked::named_amounts(own_totals);
    let listed = ranked::positive_first(totals, amounts);
    let mine = listed.filter(usage_of(provider, service));
    let one = mine.map_values(tag_and_amount());
    let own_listed = ranked::positive_first(own_totals, own_amounts);
    let other = own_listed.map_values(name_and_amount());

    // The two lists stand in the same order.
    assert(totals.map_values(
        |b: ServiceTagUsage| buckets::key3(b.provider@, b.service@, b.tag_value@),
    ) =~= keys);
    lemma_usage_in_order(totals);
    list::filtering_keeps_order(listed, larger_usage_first(), usage_of(provider, service));
    assert forall|i: int, j: int|
        #![trigger one[i], one[j]]
        0 <= i < j < one.len() implies larger_first()(one[i], one[j]) by {
        listed.lemma_filter_pred(usage_of(provider, service), i);
        listed.lemma_filter_pred(usage_of(provider, service), j);
        assert(larger_usage_first()(mine[i], mine[j]));
        if mine[i].amount.rank() == mine[j].amount.rank() {
            lemma_last_column_decides(provider, service, mine[i].tag_value@, mine[j].tag_value@);
        }
    }
    assert(own_totals.map_values(|b: (String, Amount)| buckets::key1(b.0@))
        =~= buckets::named_keys(own));
    lemma_names_in_order(own_totals);

    // They hold the same tag values and amounts.
    lemma_positive_members(totals, amounts);
    lemma_positive_members(own_totals, own_amounts);
    assert forall|item: (Seq<char>, Amount)| #[trigger]
        one.contains(item) <==> other.contains(item) by {
        one_pass_tags_are_each_services_tags(
            all,
            billing_period,
            provider,
            service,
            tag_key,
            item.0,
        );
        let wide_key = buckets::key3(provider, service, item.0);
        let tag = buckets::key1(item.0);
        assert(buckets::bucket_rows(wide, by_all, wide_key) == buckets::bucket_rows(
            narrow,
            by_tag,
            tag,
        ));
        if one.contains(item) {
            let i = choose|i: int| 0 <= i < one.len() && one[i] == item;
            listed.lemma_filter_pred(usage_of(provider, service), i);
            assert(mine.contains(mine[i]));
            listed.lemma_filter_contains_rev(usage_of(provider, service), mine[i]);
            let k = choose|k: int| 0 <= k < listed.len() && listed[k] == mine[i];
            assert(listed.contains(listed[k]));
            let p = choose|p: int| #[trigger] is_positive_total(totals, amounts, p, listed[k]);
            assert(keys[p] == wide_key);
            assert(buckets::bucket_rows(wide, by_all, keys[p]).len() > 0);
            assert(terms[p] == scope::base_amounts(buckets::bucket_rows(wide, by_all, keys[p])));
            a_bucket_has_its_key(
                buckets::named_keys(own),
                buckets::named_terms(own),
                narrow,
                by_tag,
                tag,
            );
            let q = choose|q: int|
                0 <= q < buckets::named_keys(own).len() && buckets::named_keys(own)[q] == tag;
            assert(buckets::named_keys(own)[q][0] == tag[0]);
            assert(buckets::bucket_rows(narrow, by_tag, buckets::named_keys(own)[q]).len() > 0);
            assert(buckets::named_terms(own)[q] == own[q].1@);
            assert(own_totals[q].0@ == item.0 && own_totals[q].1 == item.1);
            assert(own_listed.contains(own_totals[q]));
            let m = choose|m: int| 0 <= m < own_listed.len() && own_listed[m] == own_totals[q];
            assert(other[m] == item);
        }
        if other.contains(item) {
            let i = choose|i: int| 0 <= i < other.len() && other[i] == item;
            assert(own_listed.contains(own_listed[i]));
            let q = choose|q: int|
                #[trigger] is_positive_total(own_totals, own_amounts, q, own_listed[i]);
            assert(buckets::named_keys(own)[q] == tag);
            assert(buckets::bucket_rows(narrow, by_tag, buckets::named_keys(own)[q]).len() > 0);
            assert(buckets::named_terms(own)[q] == own[q].1@);
            a_bucket_has_its_key(keys, terms, wide, by_all, wide_key);
            let p = choose|p: int| 0 <= p < keys.len() && keys[p] == wide_key;
            assert(keys[p][0] == wide_key[0] && keys[p][1] == wide_key[1] && keys[p][2]
                == wide_key[2]);
            assert(buckets::bucket_rows(wide, by_all, keys[p]).len() > 0);
            assert(terms[p] == tagged[p].terms@);
            assert(totals[p].tag_value@ == item.0 && totals[p].amount == item.1);
            assert(listed.contains(totals[p]));
            let k = choose|k: int| 0 <= k < listed.len() && listed[k] == totals[p];
            listed.lemma_filter_contains(usage_of(provider, service), k);
            let m = choose|m: int| 0 <= m < mine.len() && mine[m] == totals[p];
            assert(one[m] == item);
        }
    }
    assert forall|a: (Seq<char>, Amount), b: (Seq<char>, Amount)| #[trigger]
        larger_first()(a, b) implies !larger_first()(b, a) by {
        if order::text_lt(a.0, b.0) {
            order::lemma_text_lt_asymmetric(a.0, b.0);
        }
    }
    list::ordered_lists_agree(one, other, larger_first());
}

/// A ranked list holds amounts above zero only, and none is larger than one
/// before it.
pub proof fn a_ranked_list_falls<T>(totals: Seq<T>, amounts: Seq<Amount>)
    requires
        totals.len() == amounts.len(),
    ensures
        ({
            let at = amount::positive_ranking(amounts);
            let listed = ranked::positive_first(totals, amounts);
            &&& listed.len() == at.len()
            &&& forall|i: int|
                #![trigger at[i]]
                0 <= i < at.len() ==> 0 <= at[i] < totals.len() && listed[i] == totals[at[i]]
                    && amounts[at[i]].is_positive()
            &&& forall|i: int, j: int|
                #![trigger at[i], at[j]]
                0 <= i < j < at.len() ==> amounts[at[j]].le(amounts[at[i]])
        }),
{
    let at = amount::positive_ranking(amounts);
    amount::positive_ranking_is_complete(amounts);
    assert forall|i: int|
        #![trigger at[i]]
        0 <= i < at.len() implies 0 <= at[i] < totals.len() && amounts[at[i]].is_positive() by {
        assert(at.contains(at[i]));
    }
    assert forall|i: int, j: int|
        #![trigger at[i], at[j]]
        0 <= i < j < at.len() implies amounts[at[j]].le(amounts[at[i]]) by {
        assert(order::ranks_ahead(amount::ranks_of(amounts), at[i], at[j]));
        assert(amounts[at[i]].is_positive() && amounts[at[j]].is_positive());
    }
}

/// A row has no value for a tag: no tags, no such member, or an empty one.
pub open spec fn has_no_value(row: NormalizedRow, tag_key: Seq<char>) -> bool {
    match row.tags {
        Some(tags) => match memory::json_member(tags@, tag_key) {
            Some(value) => value.len() == 0,
            None => true,
        },
        None => true,
    }
}

/// The ranked usage by service and tag that one pass gives. Its amounts are above
/// zero and none is larger than one before it; each is the sum of the usage rows
/// under its service and tag value; a row without a value for the tag goes under
/// "Unallocated"; and the rows of a service are, in order, the service's own
/// ranked breakdown.
pub proof fn the_one_pass_breakdown(
    all: Seq<NormalizedRow>,
    billing_period: Seq<char>,
    provider: Seq<char>,
    service: Seq<char>,
    tag_key: &str,
    tagged: Seq<ServiceTagTerms>,
    totals: Seq<ServiceTagUsage>,
    own: Seq<(String, Vec<Amount>)>,
    own_totals: Seq<(String, Amount)>,
    sum: spec_fn(Seq<Amount>) -> Amount,
)
    requires
        buckets::service_tags_by(
            tagged,
            scope::rows_in(all, scope::of_period(billing_period).usage()),
            tag_key,
        ),
        buckets::named_by(
            own,
            scope::rows_in(
                all,
                scope::of_service(provider, service).in_period(billing_period).usage(),
            ),
            Grouping::Tag(tag_key),
        ),
        tags_summed(tagged, totals, sum),
        names_summed(own, own_totals, sum),
    ensures
        ({
            let listed = ranked::positive_first(totals, ranked::tag_usage_amounts(totals));
            let used = scope::rows_in(all, scope::of_period(billing_period).usage());
            let by_all = buckets::keyed(Grouping::ProviderServiceTag(tag_key));
            &&& forall|i: int|
                #![trigger listed[i]]
                0 <= i < listed.len() ==> listed[i].amount.is_positive() && listed[i].amount == sum(
                    scope::base_amounts(
                        buckets::bucket_rows(
                            used,
                            by_all,
                            buckets::key3(
                                listed[i].provider@,
                                listed[i].service@,
                                listed[i].tag_value@,
                            ),
                        ),
                    ),
                )
            &&& forall|i: int, j: int|
                #![trigger listed[i], listed[j]]
                0 <= i < j < listed.len() ==> listed[j].amount.le(listed[i].amount)
            &&& forall|r: int|
                #![trigger used[r]]
                0 <= r < used.len() && has_no_value(used[r], tag_key@) ==> by_all(used[r])
                    == buckets::key3(
                    used[r].provider@,
                    scope::service_name(used[r]),
                    "Unallocated"@,
                )
            &&& listed.filter(usage_of(provider, service)).map_values(tag_and_amount())
                == ranked::positive_first(
                own_totals,
                ranked::named_amounts(own_totals),
            ).map_values(name_and_amount())
        }),
{
    let amounts = ranked::tag_usage_amounts(totals);
    let listed = ranked::positive_first(totals, amounts);
    let used = scope::rows_in(all, scope::of_period(billing_period).usage());
    let by_all = buckets::keyed(Grouping::ProviderServiceTag(tag_key));
    let keys = tagged.map_values(
        |b: ServiceTagTerms| buckets::key3(b.provider@, b.service@, b.tag_value@),
    );
    let at = amount::positive_ranking(amounts);
    a_ranked_list_falls(totals, amounts);
    assert forall|i: int|
        #![trigger listed[i]]
        0 <= i < listed.len() implies listed[i].amount.is_positive() && listed[i].amount == sum(
        scope::base_amounts(
            buckets::bucket_rows(
                used,
                by_all,
                buckets::key3(listed[i].provider@, listed[i].service@, listed[i].tag_value@),
            ),
        ),
    ) by {
        let b = at[i];
        assert(listed[i] == totals[b]);
        assert(totals[b].amount == sum(tagged[b].terms@));
        assert(buckets::bucket_rows(used, by_all, keys[b]).len() > 0);
        assert(tagged.map_values(|b: ServiceTagTerms| b.terms@)[b] == tagged[b].terms@);
    }
    assert forall|i: int, j: int|
        #![trigger listed[i], listed[j]]
        0 <= i < j < listed.len() implies listed[j].amount.le(listed[i].amount) by {
        assert(amounts[at[j]].le(amounts[at[i]]));
    }
    one_pass_ranking_is_each_services_ranking(
        all,
        billing_period,
        provider,
        service,
        tag_key,
        tagged,
        totals,
        own,
        own_totals,
        sum,
    );
}

/// A total that a ranked list names is the sum of the rows under its name, and
/// above zero.
pub proof fn a_ranked_total_is_its_rows(
    named: Seq<(String, Vec<Amount>)>,
    totals: Seq<(String, Amount)>,
    rows: Seq<NormalizedRow>,
    grouping: Grouping,
    sum: spec_fn(Seq<Amount>) -> Amount,
    i: int,
)
    requires
        buckets::named_by(named, rows, grouping),
        names_summed(named, totals, sum),
        0 <= i < ranked::positive_first(totals, ranked::named_amounts(totals)).len(),
    ensures
        ({
            let total = ranked::positive_first(totals, ranked::named_amounts(totals))[i];
            &&& total.1 == sum(
                scope::base_amounts(
                    buckets::bucket_rows(
                        rows,
                        buckets::keyed(grouping),
                        buckets::key1(total.0@),
                    ),
                ),
            )
            &&& total.1.is_positive()
        }),
{
    let amounts = ranked::named_amounts(totals);
    a_ranked_list_falls(totals, amounts);
    let b = amount::positive_ranking(amounts)[i];
    let keys = buckets::named_keys(named);
    assert(keys[b] == buckets::key1(named[b].0@));
    assert(buckets::bucket_rows(rows, buckets::keyed(grouping), keys[b]).len() > 0);
    assert(buckets::named_terms(named)[b] == named[b].1@);
    assert(totals[b].1 == sum(named[b].1@));
}

// ==================== Ranking loses no usage ====================

/// The amounts above zero among others.
pub open spec fn positive_part(amounts: vstd::multiset::Multiset<Amount>) -> vstd::multiset::Multiset<
    Amount,
> {
    amounts.filter(|a: Amount| a.is_positive())
}

/// Being a number that is not below zero.
pub open spec fn not_negative(a: Amount) -> bool {
    (Amount { bits: 0 }).le(a)
}

/// Adding up amounts none of which is negative gives more than nothing just where
/// one of them is.
pub open spec fn adds_up(sum: spec_fn(Seq<Amount>) -> Amount) -> bool {
    forall|terms: Seq<Amount>|
        (forall|i: int| 0 <= i < terms.len() ==> not_negative(#[trigger] terms[i])) ==> (
        (#[trigger] sum(terms)).is_positive() <==> exists|i: int|
            0 <= i < terms.len() && (#[trigger] terms[i]).is_positive())
}

/// No converted amount is negative.
pub open spec fn none_negative(rows: Seq<NormalizedRow>) -> bool {
    forall|i: int|
        0 <= i < rows.len() && (#[trigger] rows[i]).billed_cost_base is Some ==> not_negative(
            rows[i].billed_cost_base->0,
        )
}

/// The amounts of the buckets that a ranked list keeps, in its order.
pub open spec fn kept_terms(terms: Seq<Seq<Amount>>, totals: Seq<Amount>) -> Seq<Seq<Amount>> {
    ranked::positive_first(terms, totals)
}

proof fn lemma_base_amounts_of(rows: Seq<NormalizedRow>)
    requires
        none_negative(rows),
    ensures
        forall|i: int|
            0 <= i < scope::base_amounts(rows).len() ==> not_negative(
                #[trigger] scope::base_amounts(rows)[i],
            ),
    decreases rows.len(),
{
    if rows.len() > 0 {
        let rest = rows.drop_last();
        assert forall|i: int|
            0 <= i < rest.len() && (#[trigger] rest[i]).billed_cost_base is Some implies not_negative(
            rest[i].billed_cost_base->0,
        ) by {
            assert(rest[i] == rows[i]);
        }
        lemma_base_amounts_of(rest);
        let before = scope::base_amounts(rest);
        let after = scope::base_amounts(rows);
        assert forall|i: int| 0 <= i < after.len() implies not_negative(#[trigger] after[i]) by {
            if i < before.len() {
                assert(not_negative(before[i]));
            } else {
                assert(rows[rows.len() - 1].billed_cost_base is Some);
            }
        }
    }
}

/// Nothing in a bucket of rows none of which is negative is negative.
proof fn lemma_bucket_not_negative(
    rows: Seq<NormalizedRow>,
    key_of: spec_fn(NormalizedRow) -> Seq<order::Part>,
    key: Seq<order::Part>,
)
    requires
        none_negative(rows),
    ensures
        none_negative(buckets::bucket_rows(rows, key_of, key)),
{
    let held = buckets::bucket_rows(rows, key_of, key);
    let test = buckets::has_key(key_of, key);
    assert forall|i: int|
        0 <= i < held.len() && (#[trigger] held[i]).billed_cost_base is Some implies not_negative(
        held[i].billed_cost_base->0,
    ) by {
        assert(held.contains(held[i]));
        rows.lemma_filter_contains_rev(test, held[i]);
        let k = choose|k: int| 0 <= k < rows.len() && rows[k] == held[i];
        assert(rows[k].billed_cost_base is Some);
    }
}

/// Where no amount of the rows is negative, none of a bucket is.
pub proof fn a_bucket_is_not_negative(
    keys: Seq<Seq<order::Part>>,
    terms: Seq<Seq<Amount>>,
    rows: Seq<NormalizedRow>,
    key_of: spec_fn(NormalizedRow) -> Seq<order::Part>,
    b: int,
)
    requires
        buckets::buckets_by(keys, terms, rows, key_of),
        none_negative(rows),
        0 <= b < terms.len(),
    ensures
        forall|i: int| 0 <= i < terms[b].len() ==> not_negative(#[trigger] terms[b][i]),
{
    let held = buckets::bucket_rows(rows, key_of, keys[b]);
    assert(held.len() > 0);
    lemma_bucket_not_negative(rows, key_of, keys[b]);
    lemma_base_amounts_of(held);
}

/// The amounts of a bucket where its total is above zero.
spec fn kept_part() -> spec_fn((Seq<Amount>, Amount)) -> vstd::multiset::Multiset<Amount> {
    |bucket: (Seq<Amount>, Amount)|
        if bucket.1.is_positive() {
            bucket.0.to_multiset()
        } else {
            vstd::multiset::Multiset::empty()
        }
}

spec fn pairs(terms: Seq<Seq<Amount>>, totals: Seq<Amount>) -> Seq<(Seq<Amount>, Amount)> {
    Seq::new(terms.len(), |b: int| (terms[b], totals[b]))
}

/// Leaving out the positions of totals that are not above zero leaves out their
/// part.
proof fn lemma_kept_pooled(terms: Seq<Seq<Amount>>, totals: Seq<Amount>, at: Seq<int>)
    ensures
        together(order::arranged(terms, at.filter(amount::positive_at(totals)))) == list::pooled(
            Seq::new(at.len(), |i: int| (terms[at[i]], totals[at[i]])),
            kept_part(),
        ),
    decreases at.len(),
{
    reveal(Seq::filter);
    let keep = amount::positive_at(totals);
    let buckets = Seq::new(at.len(), |i: int| (terms[at[i]], totals[at[i]]));
    if at.len() > 0 {
        let rest = at.drop_last();
        lemma_kept_pooled(terms, totals, rest);
        assert(buckets.drop_last() =~= Seq::new(
            rest.len(),
            |i: int| (terms[rest[i]], totals[rest[i]]),
        ));
        let kept = order::arranged(terms, rest.filter(keep));
        if keep(at.last()) {
            let more = order::arranged(terms, at.filter(keep));
            assert(more.drop_last() =~= kept);
        } else {
            assert(list::pooled(buckets, kept_part()) =~= together(kept));
        }
    } else {
        assert(order::arranged(terms, at.filter(keep)) =~= Seq::empty());
    }
}

/// Buckets whose total is not above zero hold nothing above zero.
proof fn lemma_positive_pooled(terms: Seq<Seq<Amount>>, totals: Seq<Amount>)
    requires
        totals.len() == terms.len(),
        forall|b: int|
            #![trigger terms[b]]
            0 <= b < terms.len() && !totals[b].is_positive() ==> forall|i: int|
                0 <= i < terms[b].len() ==> !(#[trigger] terms[b][i]).is_positive(),
    ensures
        positive_part(list::pooled(pairs(terms, totals), kept_part())) == positive_part(
            together(terms),
        ),
    decreases terms.len(),
{
    let all = pairs(terms, totals);
    if terms.len() > 0 {
        let rest = terms.drop_last();
        let fewer = totals.drop_last();
        assert forall|b: int|
            #![trigger rest[b]]
            0 <= b < rest.len() && !fewer[b].is_positive() implies forall|i: int|
            0 <= i < rest[b].len() ==> !(#[trigger] rest[b][i]).is_positive() by {
            assert(terms[b] == rest[b]);
        }
        lemma_positive_pooled(rest, fewer);
        assert(all.drop_last() =~= pairs(rest, fewer));
        let last = terms.len() - 1;
        let one = list::pooled(all, kept_part());
        let other = together(terms);
        assert(one == list::pooled(pairs(rest, fewer), kept_part()).add(
            kept_part()((terms[last], totals[last])),
        ));
        assert(other == together(rest).add(terms[last].to_multiset()));
        assert forall|v: Amount| positive_part(one).count(v) == positive_part(other).count(v) by {
            assert(positive_part(list::pooled(pairs(rest, fewer), kept_part())).count(v)
                == positive_part(together(rest)).count(v));
            if v.is_positive() && !totals[last].is_positive() {
                if terms[last].to_multiset().count(v) > 0 {
                    broadcast use vstd::seq_lib::group_to_multiset_ensures;

                    assert(terms[last].contains(v));
                    let i = choose|i: int| 0 <= i < terms[last].len() && terms[last][i] == v;
                    assert(!terms[last][i].is_positive());
                }
            }
        }
        assert(positive_part(one) =~= positive_part(other));
    }
}

/// A ranked breakdown leaves no usage out: where no amount is negative, the
/// amounts above zero that its buckets hold are those of its rows. A bucket that
/// is absent from the list held none.
pub proof fn a_ranked_breakdown_keeps_the_usage(
    keys: Seq<Seq<order::Part>>,
    terms: Seq<Seq<Amount>>,
    rows: Seq<NormalizedRow>,
    key_of: spec_fn(NormalizedRow) -> Seq<order::Part>,
    totals: Seq<Amount>,
    sum: spec_fn(Seq<Amount>) -> Amount,
)
    requires
        buckets::buckets_by(keys, terms, rows, key_of),
        totals.len() == terms.len(),
        forall|b: int| 0 <= b < terms.len() ==> #[trigger] totals[b] == sum(terms[b]),
        adds_up(sum),
        none_negative(rows),
    ensures
        positive_part(together(kept_terms(terms, totals))) == positive_part(
            scope::base_amounts(rows).to_multiset(),
        ),
{
    every_breakdown_adds_up(keys, terms, rows, key_of);
    let ranks = amount::ranks_of(totals);
    let at = amount::largest_first(totals);
    order::ranking_is_stable_and_complete(ranks);
    lemma_kept_pooled(terms, totals, at);
    let all = pairs(terms, totals);
    order::ranked_items_are_the_items(all, ranks);
    assert(order::arranged(all, at) =~= Seq::new(at.len(), |i: int| (terms[at[i]], totals[at[i]])));
    list::pooling_ignores_order(order::arranged(all, at), all, kept_part());
    assert forall|b: int|
        #![trigger terms[b]]
        0 <= b < terms.len() && !totals[b].is_positive() implies forall|i: int|
        0 <= i < terms[b].len() ==> !(#[trigger] terms[b][i]).is_positive() by {
        assert(buckets::bucket_rows(rows, key_of, keys[b]).len() > 0);
        lemma_bucket_not_negative(rows, key_of, keys[b]);
        lemma_base_amounts_of(buckets::bucket_rows(rows, key_of, keys[b]));
        assert(totals[b] == sum(terms[b]));
    }
    lemma_positive_pooled(terms, totals);
}

/// The totals of buckets by service, each added up by `sum`.
pub open spec fn services_summed(
    buckets: Seq<ServiceTerms>,
    totals: Seq<(String, String, Amount)>,
    sum: spec_fn(Seq<Amount>) -> Amount,
) -> bool {
    &&& totals.len() == buckets.len()
    &&& forall|b: int|
        #![trigger totals[b]]
        0 <= b < totals.len() ==> {
            &&& totals[b].0@ == buckets[b].provider@
            &&& totals[b].1@ == buckets[b].service@
            &&& totals[b].2 == sum(buckets[b].terms@)
        }
}

/// A ranked list of services names each of them once.
pub proof fn ranked_services_are_named_once(
    buckets: Seq<ServiceTerms>,
    totals: Seq<(String, String, Amount)>,
    rows: Seq<NormalizedRow>,
    sum: spec_fn(Seq<Amount>) -> Amount,
)
    requires
        buckets::services_by(buckets, rows),
        services_summed(buckets, totals, sum),
    ensures
        ({
            let listed = ranked::positive_first(totals, ranked::service_amounts(totals));
            forall|i: int, j: int|
                #![trigger listed[i], listed[j]]
                0 <= i < j < listed.len() ==> listed[i].0@ != listed[j].0@ || listed[i].1@
                    != listed[j].1@
        }),
{
    let amounts = ranked::service_amounts(totals);
    let listed = ranked::positive_first(totals, amounts);
    let at = amount::positive_ranking(amounts);
    let keys = buckets.map_values(|b: ServiceTerms| buckets::key2(b.provider@, b.service@));
    amount::positive_ranking_is_complete(amounts);
    assert forall|i: int, j: int|
        #![trigger listed[i], listed[j]]
        0 <= i < j < listed.len() implies listed[i].0@ != listed[j].0@ || listed[i].1@
        != listed[j].1@ by {
        assert(at.contains(at[i]) && at.contains(at[j]));
        assert(order::ranks_ahead(amount::ranks_of(amounts), at[i], at[j]));
        assert(listed[i] == totals[at[i]] && listed[j] == totals[at[j]]);
        if at[i] < at[j] {
            assert(order::key_lt(keys[at[i]], keys[at[j]]));
            order::lemma_key_lt_asymmetric(keys[at[i]], keys[at[j]]);
        } else {
            assert(order::key_lt(keys[at[j]], keys[at[i]]));
            order::lemma_key_lt_asymmetric(keys[at[j]], keys[at[i]]);
        }
    }
}

/// The amounts of rows are those of the rows that have one.
proof fn lemma_amount_of_row(rows: Seq<NormalizedRow>, a: Amount)
    ensures
        scope::base_amounts(rows).contains(a) <==> exists|r: int|
            0 <= r < rows.len() && (#[trigger] rows[r]).billed_cost_base == Some(a),
{
    lemma_base_amounts(rows);
    let amounts = scope::base_amounts(rows);
    let kept = rows.filter(converted());
    if amounts.contains(a) {
        let i = choose|i: int| 0 <= i < amounts.len() && amounts[i] == a;
        rows.lemma_filter_pred(converted(), i);
        assert(kept.contains(kept[i]));
        rows.lemma_filter_contains_rev(converted(), kept[i]);
        let r = choose|r: int| 0 <= r < rows.len() && rows[r] == kept[i];
        assert(rows[r].billed_cost_base == Some(a));
    }
    if exists|r: int| 0 <= r < rows.len() && (#[trigger] rows[r]).billed_cost_base == Some(a) {
        let r = choose|r: int|
            0 <= r < rows.len() && (#[trigger] rows[r]).billed_cost_base == Some(a);
        rows.lemma_filter_contains(converted(), r);
        let i = choose|i: int| 0 <= i < kept.len() && kept[i] == rows[r];
        assert(amounts[i] == a);
    }
}

/// Usage by business line that a ranked list names is of a service that the
/// ranked list of services names too.
pub proof fn a_ranked_line_is_of_a_ranked_service(
    rows: Seq<NormalizedRow>,
    tag_key: &str,
    services: Seq<ServiceTerms>,
    service_totals: Seq<(String, String, Amount)>,
    tagged: Seq<ServiceTagTerms>,
    tag_totals: Seq<ServiceTagUsage>,
    sum: spec_fn(Seq<Amount>) -> Amount,
    t: int,
)
    requires
        buckets::services_by(services, rows),
        buckets::service_tags_by(tagged, rows, tag_key),
        services_summed(services, service_totals, sum),
        tags_summed(tagged, tag_totals, sum),
        adds_up(sum),
        none_negative(rows),
        0 <= t < ranked::positive_first(tag_totals, ranked::tag_usage_amounts(tag_totals)).len(),
    ensures
        ({
            let line = ranked::positive_first(
                tag_totals,
                ranked::tag_usage_amounts(tag_totals),
            )[t];
            let listed = ranked::positive_first(
                service_totals,
                ranked::service_amounts(service_totals),
            );
            exists|s: int|
                0 <= s < listed.len() && (#[trigger] listed[s]).0@ == line.provider@
                    && listed[s].1@ == line.service@
        }),
{
    let amounts = ranked::tag_usage_amounts(tag_totals);
    let lines = ranked::positive_first(tag_totals, amounts);
    let line = lines[t];
    let service_amounts = ranked::service_amounts(service_totals);
    let listed = ranked::positive_first(service_totals, service_amounts);
    lemma_positive_members(tag_totals, amounts);
    lemma_positive_members(service_totals, service_amounts);
    assert(lines.contains(line));
    let p = choose|p: int| #[trigger] is_positive_total(tag_totals, amounts, p, line);
    assert(tag_totals[p].amount == sum(tagged[p].terms@));

    // Some row of the line is above zero.
    let by_all = buckets::keyed(Grouping::ProviderServiceTag(tag_key));
    let keys = tagged.map_values(
        |b: ServiceTagTerms| buckets::key3(b.provider@, b.service@, b.tag_value@),
    );
    let held = buckets::bucket_rows(rows, by_all, keys[p]);
    assert(held.len() > 0);
    let terms = tagged[p].terms@;
    assert(tagged.map_values(|b: ServiceTagTerms| b.terms@)[p] == terms);
    assert(terms == scope::base_amounts(held));
    lemma_bucket_not_negative(rows, by_all, keys[p]);
    lemma_base_amounts_of(held);
    let i = choose|i: int| 0 <= i < terms.len() && (#[trigger] terms[i]).is_positive();
    let a = terms[i];
    assert(terms.contains(a));
    lemma_amount_of_row(held, a);
    let h = choose|h: int| 0 <= h < held.len() && (#[trigger] held[h]).billed_cost_base == Some(a);
    rows.lemma_filter_pred(buckets::has_key(by_all, keys[p]), h);
    assert(held.contains(held[h]));
    rows.lemma_filter_contains_rev(buckets::has_key(by_all, keys[p]), held[h]);
    let r = choose|r: int| 0 <= r < rows.len() && rows[r] == held[h];
    let row = rows[r];
    assert(by_all(row)[0] == keys[p][0] && by_all(row)[1] == keys[p][1]);
    assert(row.provider@ == line.provider@ && scope::service_name(row) == line.service@);

    // That row is its service's too.
    let by_service = buckets::keyed(Grouping::ProviderService);
    let service_keys = services.map_values(
        |b: ServiceTerms| buckets::key2(b.provider@, b.service@),
    );
    let own = by_service(row);
    assert(service_keys.contains(by_service(rows[r])));
    let b = choose|b: int| 0 <= b < service_keys.len() && service_keys[b] == own;
    assert(service_keys[b][0] == own[0] && service_keys[b][1] == own[1]);
    let of_service = buckets::bucket_rows(rows, by_service, service_keys[b]);
    assert(of_service.len() > 0);
    rows.lemma_filter_contains(buckets::has_key(by_service, service_keys[b]), r);
    let k = choose|k: int| 0 <= k < of_service.len() && of_service[k] == row;
    assert(of_service[k].billed_cost_base == Some(a));
    lemma_amount_of_row(of_service, a);
    let whole = services[b].terms@;
    assert(services.map_values(|b: ServiceTerms| b.terms@)[b] == whole);
    assert(whole == scope::base_amounts(of_service));
    let m = choose|m: int| 0 <= m < whole.len() && whole[m] == a;
    assert(whole[m].is_positive());
    lemma_bucket_not_negative(rows, by_service, service_keys[b]);
    lemma_base_amounts_of(of_service);
    assert(service_totals[b].2 == sum(whole));
    assert(service_amounts[b].is_positive());
    assert(listed.contains(service_totals[b]));
    let s = choose|s: int| 0 <= s < listed.len() && listed[s] == service_totals[b];
    assert(listed[s].0@ == line.provider@);
}

// ==================== Missing rates ====================

/// A charge that no rate converts is in no total: the amounts of rows are those
/// of the rows without it.
pub proof fn an_unconverted_charge_adds_nothing(
    rows: Seq<NormalizedRow>,
    billing_period: Seq<char>,
)
    ensures
        scope::base_amounts(rows) == scope::base_amounts(
            rows.filter(list::refused(ranked::unconverted(billing_period))),
        ),
    decreases rows.len(),
{
    reveal(Seq::filter);
    let keep = list::refused(ranked::unconverted(billing_period));
    if rows.len() > 0 {
        let rest = rows.drop_last();
        an_unconverted_charge_adds_nothing(rest, billing_period);
        assert(rest.filter(keep).push(rows.last()).drop_last() =~= rest.filter(keep));
    }
}

/// The charges of a billing period, in the order they are stored.
pub open spec fn charges_in(periods: Seq<StoredPeriod>, billing_period: Seq<char>) -> Seq<Charge>
    decreases periods.len(),
{
    if periods.len() == 0 {
        Seq::empty()
    } else if periods.last().key.billing_period@ == billing_period {
        charges_in(periods.drop_last(), billing_period) + periods.last().charges@
    } else {
        charges_in(periods.drop_last(), billing_period)
    }
}

/// Having a cost in another currency than the reporting one, which no rate dated
/// on or before the charge's day converts.
pub open spec fn lacks_rate(reporting: Seq<char>) -> spec_fn(Charge) -> bool {
    |charge: Charge|
        {
            &&& charge.billed_cost is Some
            &&& charge.billing_currency@ != reporting
            &&& forall|r: int|
                0 <= r < memory::builtin_rates().len() ==> !memory::covers(
                    #[trigger] memory::builtin_rates()[r],
                    charge.billing_currency@,
                    reporting,
                    charge.charge_period_start.day(),
                )
        }
}

/// A charge lacks a rate just where its converted row is unconverted.
proof fn lemma_lacks_rate(
    key: PeriodKey,
    charge: Charge,
    reporting: Seq<char>,
    products: (Amount, Amount),
)
    ensures
        lacks_rate(reporting)(charge) <==> ranked::unconverted(key.billing_period@)(
            memory::converted(key, charge, reporting, products),
        ),
{
    memory::newest_rate_is_newest(
        memory::builtin_rates(),
        charge.billing_currency@,
        reporting,
        charge.charge_period_start.day(),
    );
}

proof fn lemma_unconverted_in_period(
    period: StoredPeriod,
    reporting: Seq<char>,
    products: Seq<(Amount, Amount)>,
    billing_period: Seq<char>,
    n: int,
)
    requires
        0 <= n <= period.charges@.len(),
    ensures
        memory::converted_period(period, reporting, products).take(n).filter(
            ranked::unconverted(billing_period),
        ).len() == (if period.key.billing_period@ == billing_period {
            period.charges@.take(n).filter(lacks_rate(reporting)).len()
        } else {
            0
        }),
    decreases n,
{
    reveal(Seq::filter);
    let rows = memory::converted_period(period, reporting, products);
    if n > 0 {
        lemma_unconverted_in_period(period, reporting, products, billing_period, n - 1);
        lemma_lacks_rate(period.key, period.charges@[n - 1], reporting, products[n - 1]);
        assert(rows.take(n).drop_last() =~= rows.take(n - 1));
        assert(period.charges@.take(n).drop_last() =~= period.charges@.take(n - 1));
    }
}

/// The charges that are reported as unconverted are those of the period that
/// have a cost in another currency and no rate that covers them, and what they
/// cost is in no total of the period.
pub proof fn unconverted_charges_are_those_without_a_rate(
    periods: Seq<StoredPeriod>,
    reporting: Seq<char>,
    products: Seq<Vec<(Amount, Amount)>>,
    billing_period: Seq<char>,
)
    ensures
        ({
            let rows = memory::converted_periods(periods, reporting, products);
            let own = scope::rows_in(rows, scope::of_period(billing_period));
            &&& rows.filter(ranked::unconverted(billing_period)).len() == charges_in(
                periods,
                billing_period,
            ).filter(lacks_rate(reporting)).len()
            &&& scope::base_amounts(own) == scope::base_amounts(
                own.filter(list::refused(ranked::unconverted(billing_period))),
            )
        }),
    decreases periods.len(),
{
    let rows = memory::converted_periods(periods, reporting, products);
    let test = ranked::unconverted(billing_period);
    an_unconverted_charge_adds_nothing(
        scope::rows_in(rows, scope::of_period(billing_period)),
        billing_period,
    );
    if periods.len() == 0 {
        reveal(Seq::filter);
    } else {
        unconverted_charges_are_those_without_a_rate(
            periods.drop_last(),
            reporting,
            products,
            billing_period,
        );
        let before = memory::converted_periods(periods.drop_last(), reporting, products);
        let period = periods.last();
        let last = memory::converted_period(period, reporting, products[periods.len() - 1]@);
        let count = period.charges@.len() as int;
        lemma_unconverted_in_period(
            period,
            reporting,
            products[periods.len() - 1]@,
            billing_period,
            count,
        );
        assert(last.take(count) =~= last);
        assert(period.charges@.take(count) =~= period.charges@);
        Seq::filter_distributes_over_add(before, last, test);
        Seq::filter_distributes_over_add(
            charges_in(periods.drop_last(), billing_period),
            period.charges@,
            lacks_rate(reporting),
        );
        assert(rows == before + last);
    }
}

/// Nothing is to be found fault with in a row: its cost is converted, and usage
/// has a value for the tag and names a region.
pub open spec fn is_clean(row: NormalizedRow, tag_key: Seq<char>) -> bool {
    &&& row.billed_cost is Some ==> row.billed_cost_base is Some
    &&& row.charge_category == ChargeCategory::Usage ==> buckets::row_tag(row, tag_key)
        != "Unallocated"@ && row.region_id is Some
}

/// In a period whose rows are clean nothing is counted and no service is listed,
/// whatever other periods hold.
pub proof fn a_clean_period_counts_nothing(
    counts: QualityCounts,
    all: Seq<NormalizedRow>,
    billing_period: Seq<char>,
    tag_key: Seq<char>,
)
    requires
        compare::counts_quality(counts, all, billing_period, tag_key),
        forall|i: int|
            0 <= i < all.len() && (#[trigger] all[i]).billing_period@ == billing_period
                ==> is_clean(all[i], tag_key),
    ensures
        counts.unconverted == 0,
        counts.untagged_count == 0,
        counts.untagged@.len() == 0,
        counts.regionless@.len() == 0,
{
    lemma_none_kept(all, ranked::unconverted(billing_period));
    lemma_none_kept(all, ranked::untagged_usage(billing_period, tag_key));
    let chosen = scope::scoped(scope::of_period(billing_period));
    let rows = scope::rows_in(all, scope::of_period(billing_period));
    assert forall|i: int| 0 <= i < rows.len() implies !#[trigger] compare::without_region()(
        rows[i],
    ) by {
        all.lemma_filter_pred(chosen, i);
        assert(rows.contains(rows[i]));
        all.lemma_filter_contains_rev(chosen, rows[i]);
        let k = choose|k: int| 0 <= k < all.len() && all[k] == rows[i];
        assert(is_clean(all[k], tag_key));
    }
    lemma_none_kept(rows, compare::without_region());
    let held = rows.filter(compare::without_region());
    let keys = counts.regionless@.map_values(
        |r: compare::RegionlessTerms| buckets::key1(r.service@),
    );
    let key_of = buckets::keyed(Grouping::Dim(BreakdownDim::Service));
    if counts.regionless@.len() > 0 {
        reveal(Seq::filter);
        assert(buckets::bucket_rows(held, key_of, keys[0]).len() > 0);
    }
}

/// A test that refuses every item keeps none.
proof fn lemma_none_kept<T>(items: Seq<T>, test: spec_fn(T) -> bool)
    requires
        forall|i: int| 0 <= i < items.len() ==> !test(#[trigger] items[i]),
    ensures
        items.filter(test) == Seq::<T>::empty(),
    decreases items.len(),
{
    reveal(Seq::filter);
    if items.len() > 0 {
        let fewer = items.drop_last();
        assert forall|i: int| 0 <= i < fewer.len() implies !test(#[trigger] fewer[i]) by {
            assert(!test(items[i]));
        }
        lemma_none_kept(fewer, test);
        assert(!test(items[items.len() - 1]));
    }
}

/// A net total is the usage of its rows and their other charges together, so
/// reading usage apart loses nothing.
pub proof fn a_total_is_its_usage_and_the_rest(rows: Seq<NormalizedRow>)
    ensures
        scope::base_amounts(rows).to_multiset() == scope::base_amounts(
            rows.filter(in_usage()),
        ).to_multiset().add(scope::base_amounts(rows.filter(list::refused(in_usage()))).to_multiset()),
    decreases rows.len(),
{
    broadcast use vstd::seq_lib::group_to_multiset_ensures;

    reveal(Seq::filter);
    let usage = in_usage();
    let others = list::refused(usage);
    if rows.len() > 0 {
        let rest = rows.drop_last();
        a_total_is_its_usage_and_the_rest(rest);
        assert(rest.filter(usage).push(rows.last()).drop_last() =~= rest.filter(usage));
        assert(rest.filter(others).push(rows.last()).drop_last() =~= rest.filter(others));
    }
    assert(scope::base_amounts(rows).to_multiset() =~= scope::base_amounts(
        rows.filter(usage),
    ).to_multiset().add(scope::base_amounts(rows.filter(others)).to_multiset()));
}

/// Being usage.
pub open spec fn in_usage() -> spec_fn(NormalizedRow) -> bool {
    |row: NormalizedRow| row.charge_category == ChargeCategory::Usage
}

} // verus!
