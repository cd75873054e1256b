//! What forecasts, findings and rankings are measured from, in terms of the rows'
//! own columns.
use vstd::prelude::*;

use super::buckets;
use super::compare;
use super::compare::{QualityCounts, RegionlessTerms, RegionlessUsage, RunRate};
use super::grouping;
use super::laws;
use super::ranked;
use super::reach;
use super::scope;
use crate::amount;
use crate::amount::Amount;
use crate::calendar;
use crate::calendar::{Date, Timestamp};
use crate::memory::NormalizedRow;
use crate::model::{ChargeCategory, TopResource, UntaggedCharge, UntaggedServiceUsage};
use crate::order;

verus! {

// ==================== Rankings ====================

/// Standing at a position with an amount above zero.
pub open spec fn stands_positive<T>(
    items: Seq<T>,
    amounts: Seq<Amount>,
    p: int,
    item: T,
) -> bool {
    0 <= p < items.len() && items[p] == item && (Amount { bits: 0 }).lt(amounts[p])
}

/// A ranking of totals keeps just those above zero, the largest first; equal ones
/// stay in their order. `at` says where each kept total stood.
pub proof fn a_ranking_keeps_the_positive_totals<T>(items: Seq<T>, amounts: Seq<Amount>) -> (at: Seq<
    int,
>)
    requires
        items.len() == amounts.len(),
    ensures
        at.len() == ranked::positive_first(items, amounts).len(),
        at.no_duplicates(),
        forall|i: int|
            #![trigger at[i]]
            0 <= i < at.len() ==> stands_positive(
                items,
                amounts,
                at[i],
                ranked::positive_first(items, amounts)[i],
            ),
        forall|p: int|
            #![trigger amounts[p]]
            0 <= p < amounts.len() && (Amount { bits: 0 }).lt(amounts[p]) ==> at.contains(p),
        forall|i: int, j: int|
            #![trigger at[i], at[j]]
            0 <= i < j < at.len() ==> amounts[at[j]].le(amounts[at[i]]) && (amounts[at[i]]
                == amounts[at[j]] ==> at[i] < at[j]),
{
    let at = amount::positive_ranking(amounts);
    let kept = ranked::positive_first(items, amounts);
    amount::positive_ranking_is_complete(amounts);
    laws::a_ranked_list_falls(items, amounts);
    assert forall|i: int| #![trigger at[i]] 0 <= i < at.len() implies stands_positive(
        items,
        amounts,
        at[i],
        kept[i],
    ) by {
        assert(at.contains(at[i]));
        amounts[at[i]].positive_is_above_zero();
    }
    assert forall|p: int|
        #![trigger amounts[p]]
        0 <= p < amounts.len() && (Amount { bits: 0 }).lt(amounts[p]) implies at.contains(p) by {
        amounts[p].positive_is_above_zero();
    }
    assert forall|i: int, j: int| #![trigger at[i], at[j]] 0 <= i < j < at.len() implies amounts[at[j]].le(
        amounts[at[i]],
    ) && (amounts[at[i]] == amounts[at[j]] ==> at[i] < at[j]) by {
        assert(order::ranks_ahead(amount::ranks_of(amounts), at[i], at[j]));
        assert(at.contains(at[i]) && at.contains(at[j]));
    }
    assert(at.no_duplicates()) by {
        assert forall|i: int, j: int|
            0 <= i < at.len() && 0 <= j < at.len() && i != j implies at[i] != at[j] by {
            if i < j {
                assert(order::ranks_ahead(amount::ranks_of(amounts), at[i], at[j]));
            } else {
                assert(order::ranks_ahead(amount::ranks_of(amounts), at[j], at[i]));
            }
        }
    }
    at
}

/// A list sorted by amount holds the same items, the largest first.
pub proof fn a_sorted_list_falls<T>(items: Seq<T>, amounts: Seq<Amount>) -> (at: Seq<int>)
    requires
        items.len() == amounts.len(),
    ensures
        ranked::sorted_by_amount(items, amounts).to_multiset() == items.to_multiset(),
        at.len() == items.len(),
        ranked::sorted_by_amount(items, amounts).len() == items.len(),
        forall|i: int|
            #![trigger at[i]]
            0 <= i < at.len() ==> 0 <= at[i] < items.len() && ranked::sorted_by_amount(
                items,
                amounts,
            )[i] == items[at[i]],
        forall|i: int, j: int|
            #![trigger at[i], at[j]]
            0 <= i < j < at.len() ==> !amounts[at[i]].lt(amounts[at[j]]),
{
    let ranks = amount::ranks_of(amounts);
    let at = order::ranking(ranks);
    order::ranking_is_stable_and_complete(ranks);
    order::ranked_items_are_the_items(items, ranks);
    assert forall|i: int, j: int|
        #![trigger at[i], at[j]]
        0 <= i < j < at.len() implies !amounts[at[i]].lt(amounts[at[j]]) by {
        assert(order::ranks_ahead(ranks, at[i], at[j]));
        amounts[at[i]].rank_orders_numbers(amounts[at[j]]);
    }
    at
}

// ==================== Forecasts ====================

/// Starting before an instant.
pub open spec fn started_by(now: Timestamp) -> spec_fn(NormalizedRow) -> bool {
    |row: NormalizedRow| !reach::starts_from(row, now)
}

/// A run rate is measured from the charges that start before the instant: it adds
/// up what they were billed, and counts from the day of the earliest of them.
pub proof fn a_run_rate_counts_what_started(
    rate: RunRate,
    rows: Seq<NormalizedRow>,
    now: Timestamp,
)
    requires
        compare::run_rate_of(rate, rows, now),
    ensures
        ({
            let counted = rows.filter(started_by(now));
            &&& rate.month_to_date@ == reach::billed_amounts(counted)
            &&& rate.first_charge is None <==> counted.len() == 0
            &&& rate.first_charge is Some ==> exists|i: int|
                {
                    &&& 0 <= i < counted.len()
                    &&& rate.first_charge == Some(
                        calendar::civil(
                            (#[trigger] counted[i]).charge_period_start.seconds as int / 86_400,
                        ),
                    )
                    &&& forall|j: int|
                        0 <= j < counted.len() ==> !(
                        #[trigger] counted[j].charge_period_start).before(
                            counted[i].charge_period_start,
                        )
                }
        }),
{
    let counted = rows.filter(started_by(now));
    assert(started_by(now) =~= compare::starting_before(now));
    reach::a_total_adds_up_billed_amounts(counted);
    compare::earliest_start_is_earliest(counted);
    if let Some(at) = compare::earliest_start(counted) {
        let i = choose|i: int|
            0 <= i < counted.len() && #[trigger] counted[i].charge_period_start == at;
        assert(rate.first_charge == Some(at.on()));
        assert(rate.first_charge == Some(
            calendar::civil(counted[i].charge_period_start.seconds as int / 86_400),
        ));
    }
}

/// A trailing average is spread from the usage that starts on or after its first
/// day and before its end.
pub proof fn a_trailing_average_counts_usage_within(
    all: Seq<NormalizedRow>,
    first: Date,
    end: Date,
)
    ensures
        all.filter(compare::usage_within(first, end)) == all.filter(
            |row: NormalizedRow|
                row.charge_category == ChargeCategory::Usage && first.number() * 86_400
                    <= row.charge_period_start.seconds && row.charge_period_start.seconds
                    < end.number() * 86_400,
        ),
{
    let test = |row: NormalizedRow|
        row.charge_category == ChargeCategory::Usage && first.number() * 86_400
            <= row.charge_period_start.seconds && row.charge_period_start.seconds < end.number()
            * 86_400;
    assert forall|row: NormalizedRow| #[trigger]
        compare::usage_within(first, end)(row) == test(row) by {
        let s = row.charge_period_start.seconds as int;
        assert(s / 86_400 >= first.number() <==> s >= first.number() * 86_400);
        assert(s / 86_400 < end.number() <==> s < end.number() * 86_400);
    }
    assert(compare::usage_within(first, end) =~= test);
}

// ==================== Findings ====================

/// A row has no value for a tag.
pub open spec fn lacks_tag(row: NormalizedRow, tag_key: Seq<char>) -> bool {
    grouping::tag_text(row, tag_key) == "Unallocated"@
}

/// What the findings of a period count: its charges; those that have a cost and no
/// amount in the reporting currency; its usage; and its usage without a value for
/// the tag.
pub proof fn findings_count_the_periods_charges(
    counts: QualityCounts,
    all: Seq<NormalizedRow>,
    billing_period: Seq<char>,
    tag_key: Seq<char>,
)
    requires
        compare::counts_quality(counts, all, billing_period, tag_key),
    ensures
        counts.rows == all.filter(
            |row: NormalizedRow| row.billing_period@ == billing_period,
        ).len(),
        counts.unconverted == all.filter(
            |row: NormalizedRow|
                row.billing_period@ == billing_period && row.billed_cost is Some
                    && row.billed_cost_base is None,
        ).len(),
        counts.usage@ == reach::billed_amounts(
            all.filter(
                |row: NormalizedRow|
                    row.billing_period@ == billing_period && row.charge_category
                        == ChargeCategory::Usage,
            ),
        ),
        counts.untagged@ == reach::billed_amounts(
            all.filter(
                |row: NormalizedRow|
                    row.billing_period@ == billing_period && row.charge_category
                        == ChargeCategory::Usage && lacks_tag(row, tag_key),
            ),
        ),
        counts.untagged_count == all.filter(
            |row: NormalizedRow|
                row.billing_period@ == billing_period && row.charge_category
                    == ChargeCategory::Usage && lacks_tag(row, tag_key),
        ).len(),
{
    let rows = scope::rows_in(all, scope::of_period(billing_period));
    let of_period = |row: NormalizedRow| row.billing_period@ == billing_period;
    let usage = |row: NormalizedRow|
        row.billing_period@ == billing_period && row.charge_category == ChargeCategory::Usage;
    let untagged = |row: NormalizedRow|
        row.billing_period@ == billing_period && row.charge_category == ChargeCategory::Usage
            && lacks_tag(row, tag_key);
    let unconverted = |row: NormalizedRow|
        row.billing_period@ == billing_period && row.billed_cost is Some && row.billed_cost_base
            is None;
    reach::a_period_reaches_its_rows(all, billing_period, Timestamp { seconds: 0, nanos: 0 });
    assert(scope::scoped(scope::of_period(billing_period)) =~= of_period);
    laws::usage_in_a_scope(all, scope::of_period(billing_period));
    assert(scope::scoped(scope::of_period(billing_period).usage()) =~= usage);
    assert(ranked::untagged_usage(billing_period, tag_key) =~= untagged);
    assert(ranked::unconverted(billing_period) =~= unconverted);
    reach::a_total_adds_up_billed_amounts(all.filter(usage));
    reach::a_total_adds_up_billed_amounts(all.filter(untagged));
}

/// Being usage of a period that names no region, of a service.
pub open spec fn regionless(
    billing_period: Seq<char>,
    service: Seq<char>,
) -> spec_fn(NormalizedRow) -> bool {
    |row: NormalizedRow|
        row.billing_period@ == billing_period && row.charge_category == ChargeCategory::Usage
            && row.region_id is None && reach::counted_under(row, service)
}

/// The services without a region: each with what its usage of the period that names
/// none was billed, and how many charges that is.
pub proof fn services_without_a_region_are_counted(
    counts: QualityCounts,
    all: Seq<NormalizedRow>,
    billing_period: Seq<char>,
    tag_key: Seq<char>,
    b: int,
)
    requires
        compare::counts_quality(counts, all, billing_period, tag_key),
        0 <= b < counts.regionless@.len(),
    ensures
        counts.regionless@[b].charges == all.filter(
            regionless(billing_period, counts.regionless@[b].service@),
        ).len(),
        counts.regionless@[b].charges > 0,
        counts.regionless@[b].terms@ == reach::billed_amounts(
            all.filter(regionless(billing_period, counts.regionless@[b].service@)),
        ),
{
    let list = counts.regionless@;
    let service = list[b].service@;
    let rows = scope::rows_in(all, scope::of_period(billing_period));
    let held = rows.filter(compare::without_region());
    let key_of = buckets::keyed(buckets::Grouping::Dim(crate::model::BreakdownDim::Service));
    let keys = list.map_values(|r: RegionlessTerms| buckets::key1(r.service@));
    let terms = list.map_values(|r: RegionlessTerms| r.terms@);
    let test = buckets::has_key(key_of, buckets::key1(service));
    let both = |row: NormalizedRow| compare::without_region()(row) && test(row);
    assert(keys[b] == buckets::key1(service));
    assert(terms[b] == list[b].terms@);
    assert(buckets::bucket_rows(held, key_of, keys[b]).len() > 0);
    laws::filters_combine(rows, compare::without_region(), test, both);
    assert forall|row: NormalizedRow| #[trigger] regionless(billing_period, service)(row) == (
    scope::scoped(scope::of_period(billing_period))(row) && both(row)) by {
        let own = key_of(row);
        assert(own[0] == Some(buckets::dim_name(row, crate::model::BreakdownDim::Service)));
        assert(buckets::key1(service)[0] == Some(service));
        if buckets::dim_name(row, crate::model::BreakdownDim::Service) == service {
            assert(own =~= buckets::key1(service));
        }
    }
    laws::filters_combine(
        all,
        scope::scoped(scope::of_period(billing_period)),
        both,
        regionless(billing_period, service),
    );
    reach::a_total_adds_up_billed_amounts(all.filter(regionless(billing_period, service)));
}

/// A charge that the untagged list shows is one of the period that was billed an
/// amount above zero and has no value for the tag.
pub open spec fn lists_untagged(
    charge: UntaggedCharge,
    row: NormalizedRow,
    billing_period: Seq<char>,
    tag_key: Seq<char>,
) -> bool {
    &&& row.billing_period@ == billing_period
    &&& lacks_tag(row, tag_key)
    &&& row.billed_cost_base is Some
    &&& (Amount { bits: 0 }).lt(row.billed_cost_base->0)
    &&& charge.amount == row.billed_cost_base->0
    &&& charge.provider == row.provider
    &&& charge.service == row.service_name
    &&& charge.description == row.charge_description
}

/// A charge of the untagged list is one of the rows'.
pub open spec fn lists_some_untagged(
    charge: UntaggedCharge,
    all: Seq<NormalizedRow>,
    billing_period: Seq<char>,
    tag_key: Seq<char>,
) -> bool {
    exists|r: int|
        0 <= r < all.len() && lists_untagged(charge, #[trigger] all[r], billing_period, tag_key)
}

/// The untagged list shows charges of the period without a value for the tag, the
/// largest first and no more than asked for; where it is not full it shows all of
/// them.
pub proof fn the_untagged_list_shows_the_largest(
    listed: Seq<UntaggedCharge>,
    all: Seq<NormalizedRow>,
    billing_period: Seq<char>,
    tag_key: Seq<char>,
    limit: nat,
)
    requires
        ({
            let charges = ranked::untagged_charges(all, billing_period, tag_key);
            listed == ranked::first(
                ranked::sorted_by_amount(charges, ranked::untagged_amounts(charges)),
                limit,
            )
        }),
    ensures
        listed.len() <= limit,
        forall|i: int|
            #![trigger listed[i]]
            0 <= i < listed.len() ==> lists_some_untagged(
                listed[i],
                all,
                billing_period,
                tag_key,
            ),
        forall|i: int, j: int|
            #![trigger listed[i], listed[j]]
            0 <= i < j < listed.len() ==> !listed[i].amount.lt(listed[j].amount),
        listed.len() < limit ==> listed.len() == all.filter(
            |row: NormalizedRow|
                row.billing_period@ == billing_period && lacks_tag(row, tag_key)
                    && row.billed_cost_base is Some && (Amount { bits: 0 }).lt(
                    row.billed_cost_base->0,
                ),
        ).len(),
{
    let charges = ranked::untagged_charges(all, billing_period, tag_key);
    let amounts = ranked::untagged_amounts(charges);
    let test = ranked::untagged_charge(billing_period, tag_key);
    let kept = all.filter(test);
    let raw = |row: NormalizedRow|
        row.billing_period@ == billing_period && lacks_tag(row, tag_key) && row.billed_cost_base
            is Some && (Amount { bits: 0 }).lt(row.billed_cost_base->0);
    assert forall|row: NormalizedRow| #[trigger] test(row) == raw(row) by {
        if row.billed_cost_base is Some {
            row.billed_cost_base->0.positive_is_above_zero();
        }
    }
    assert(test =~= raw);
    let at = a_sorted_list_falls(charges, amounts);
    assert forall|i: int| #![trigger listed[i]] 0 <= i < listed.len() implies lists_some_untagged(
        listed[i],
        all,
        billing_period,
        tag_key,
    ) by {
        assert(listed[i] == charges[at[i]]);
        let row = kept[at[i]];
        all.lemma_filter_pred(test, at[i]);
        assert(kept.contains(row));
        all.lemma_filter_contains_rev(test, row);
        let r = choose|r: int| 0 <= r < all.len() && all[r] == row;
        assert(raw(row) == test(row));
        assert(lists_untagged(listed[i], all[r], billing_period, tag_key));
    }
    assert forall|i: int, j: int|
        #![trigger listed[i], listed[j]]
        0 <= i < j < listed.len() implies !listed[i].amount.lt(listed[j].amount) by {
        assert(listed[i] == charges[at[i]] && listed[j] == charges[at[j]]);
        assert(amounts[at[i]] == listed[i].amount && amounts[at[j]] == listed[j].amount);
    }
}

/// What the untagged usage of a period is: its usage rows without a value for the
/// tag.
pub proof fn untagged_usage_lacks_the_tag(
    all: Seq<NormalizedRow>,
    billing_period: Seq<char>,
    tag_key: Seq<char>,
)
    ensures
        all.filter(ranked::untagged_usage(billing_period, tag_key)) == all.filter(
            |row: NormalizedRow|
                row.billing_period@ == billing_period && row.charge_category
                    == ChargeCategory::Usage && lacks_tag(row, tag_key),
        ),
{
    assert(ranked::untagged_usage(billing_period, tag_key) =~= (|row: NormalizedRow|
        row.billing_period@ == billing_period && row.charge_category == ChargeCategory::Usage
            && lacks_tag(row, tag_key)));
}

/// A comparison of two periods takes the rows of each: the current period's, and
/// those of the previous one where that is another period.
pub proof fn a_comparison_takes_the_rows_of_both(
    all: Seq<NormalizedRow>,
    billing_period: Seq<char>,
    previous: Seq<char>,
)
    requires
        billing_period != previous,
    ensures
        all.filter(compare::billed_in(billing_period)) == all.filter(
            |row: NormalizedRow| row.billing_period@ == billing_period,
        ),
        all.filter(compare::billed_before(billing_period, previous)) == all.filter(
            |row: NormalizedRow| row.billing_period@ == previous,
        ),
{
    assert(compare::billed_in(billing_period) =~= (|row: NormalizedRow| row.billing_period@
        == billing_period));
    assert(compare::billed_before(billing_period, previous) =~= (|row: NormalizedRow|
        row.billing_period@ == previous));
}

// ==================== What is ranked by ====================

/// The costliest resources are those of the largest amounts: no more than asked for,
/// the largest first, and none that is left out above one that is not.
pub proof fn the_costliest_resources_come_first(resources: Seq<TopResource>, limit: nat)
    ensures
        ({
            let sorted = ranked::sorted_by_amount(resources, ranked::resource_amounts(resources));
            let listed = ranked::first(sorted, limit);
            &&& listed.len() <= limit
            &&& listed.len() == limit || listed.len() == resources.len()
            &&& sorted.to_multiset() == resources.to_multiset()
            &&& forall|i: int, j: int|
                #![trigger listed[i], sorted[j]]
                0 <= i < listed.len() && i < j < sorted.len() ==> !listed[i].amount.lt(
                    sorted[j].amount,
                )
        }),
{
    let amounts = ranked::resource_amounts(resources);
    let sorted = ranked::sorted_by_amount(resources, amounts);
    let listed = ranked::first(sorted, limit);
    let at = a_sorted_list_falls(resources, amounts);
    assert forall|i: int, j: int|
        #![trigger listed[i], sorted[j]]
        0 <= i < listed.len() && i < j < sorted.len() implies !listed[i].amount.lt(
        sorted[j].amount,
    ) by {
        assert(listed[i] == sorted[i]);
        assert(sorted[i] == resources[at[i]] && sorted[j] == resources[at[j]]);
        assert(amounts[at[i]] == sorted[i].amount && amounts[at[j]] == sorted[j].amount);
    }
}

/// The untagged services that stay are those of the largest amounts above zero.
pub proof fn the_largest_untagged_services_stay(services: Seq<UntaggedServiceUsage>, limit: nat)
    ensures
        ({
            let amounts = ranked::untagged_service_amounts(services);
            let sorted = ranked::positive_first(services, amounts);
            let listed = ranked::first(sorted, limit);
            &&& listed.len() <= limit
            &&& listed.len() == limit || listed.len() == sorted.len()
            &&& forall|p: int|
                #![trigger services[p]]
                0 <= p < services.len() && (Amount { bits: 0 }).lt(services[p].amount)
                    ==> sorted.contains(services[p])
            &&& forall|i: int|
                #![trigger sorted[i]]
                0 <= i < sorted.len() ==> services.contains(sorted[i]) && (Amount { bits: 0 }).lt(
                    sorted[i].amount,
                )
            &&& forall|i: int, j: int|
                #![trigger listed[i], sorted[j]]
                0 <= i < listed.len() && i < j < sorted.len() ==> sorted[j].amount.le(
                    listed[i].amount,
                )
        }),
{
    let amounts = ranked::untagged_service_amounts(services);
    let sorted = ranked::positive_first(services, amounts);
    let listed = ranked::first(sorted, limit);
    let at = a_ranking_keeps_the_positive_totals(services, amounts);
    assert forall|p: int|
        #![trigger services[p]]
        0 <= p < services.len() && (Amount { bits: 0 }).lt(
            services[p].amount,
        ) implies sorted.contains(services[p]) by {
        assert(amounts[p] == services[p].amount);
        assert(at.contains(p));
        let i = choose|i: int| 0 <= i < at.len() && at[i] == p;
        assert(stands_positive(services, amounts, at[i], sorted[i]));
    }
    assert forall|i: int| #![trigger sorted[i]] 0 <= i < sorted.len() implies services.contains(
        sorted[i],
    ) && (Amount { bits: 0 }).lt(sorted[i].amount) by {
        assert(stands_positive(services, amounts, at[i], sorted[i]));
        assert(services[at[i]] == sorted[i] && amounts[at[i]] == sorted[i].amount);
    }
    assert forall|i: int, j: int|
        #![trigger listed[i], sorted[j]]
        0 <= i < listed.len() && i < j < sorted.len() implies sorted[j].amount.le(
        listed[i].amount,
    ) by {
        assert(listed[i] == sorted[i]);
        assert(stands_positive(services, amounts, at[i], sorted[i]));
        assert(stands_positive(services, amounts, at[j], sorted[j]));
        assert(amounts[at[i]] == sorted[i].amount && amounts[at[j]] == sorted[j].amount);
    }
}

/// The services without a region are named largest first.
pub proof fn services_without_a_region_go_by_amount(totals: Seq<RegionlessUsage>, i: int, j: int)
    requires
        0 <= i < j < ranked::sorted_by_amount(totals, compare::regionless_amounts(totals)).len(),
    ensures
        ({
            let sorted = ranked::sorted_by_amount(totals, compare::regionless_amounts(totals));
            !sorted[i].amount.lt(sorted[j].amount)
        }),
{
    let amounts = compare::regionless_amounts(totals);
    let sorted = ranked::sorted_by_amount(totals, amounts);
    let at = a_sorted_list_falls(totals, amounts);
    assert(sorted[i] == totals[at[i]] && sorted[j] == totals[at[j]]);
    assert(amounts[at[i]] == sorted[i].amount && amounts[at[j]] == sorted[j].amount);
}

} // verus!
