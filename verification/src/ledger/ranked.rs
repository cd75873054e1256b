//! Rankings: totals put in order, and the charges and resources behind them.
use vstd::prelude::*;

use super::buckets;
use super::buckets::{totals_by_named_service, Grouping, ResourceTerms, UntaggedServiceTerms};
use super::scope;
use super::scope::{selected, Scope};
use crate::amount;
use crate::amount::{rank_by_amount, rank_positive, Amount};
use crate::memory;
use crate::memory::NormalizedRow;
use crate::model::{
    ChargeCategory, PeriodKey, ServiceTagUsage, TopResource, UntaggedCharge, UntaggedServiceUsage,
};
use crate::order;
use crate::text;

verus! {

// ==================== Putting rows in order ====================

/// The items whose amount is above zero, largest first.
pub open spec fn positive_first<T>(items: Seq<T>, amounts: Seq<Amount>) -> Seq<T> {
    order::arranged(items, amount::positive_ranking(amounts))
}

/// The items, largest amount first.
pub open spec fn sorted_by_amount<T>(items: Seq<T>, amounts: Seq<Amount>) -> Seq<T> {
    order::arranged(items, amount::largest_first(amounts))
}

/// The first `limit` items.
pub open spec fn first<T>(items: Seq<T>, limit: nat) -> Seq<T> {
    if limit < items.len() {
        items.take(limit as int)
    } else {
        items
    }
}

/// Keep the items whose amount is above zero, largest first.
pub fn keep_positive<T>(items: Vec<T>, amounts: &Vec<Amount>) -> (res: Vec<T>)
    requires
        items@.len() == amounts@.len(),
    ensures
        res@ == positive_first(items@, amounts@),
{
    let ranked = rank_positive(amounts);
    order::arrange(items, &ranked)
}

/// Sort items by amount, largest first; equal amounts keep their order.
pub fn sort_by_amount<T>(items: Vec<T>, amounts: &Vec<Amount>) -> (res: Vec<T>)
    requires
        items@.len() == amounts@.len(),
    ensures
        res@ == sorted_by_amount(items@, amounts@),
{
    let ranked = rank_by_amount(amounts);
    order::arrange(items, &ranked)
}

/// Cut a list off behind its first `limit` items.
pub fn truncated<T>(items: Vec<T>, limit: usize) -> (res: Vec<T>)
    ensures
        res@ == first(items@, limit as nat),
{
    let mut res = items;
    res.truncate(limit);
    res
}

pub open spec fn named_amounts(totals: Seq<(String, Amount)>) -> Seq<Amount> {
    totals.map_values(|t: (String, Amount)| t.1)
}

pub open spec fn service_amounts(totals: Seq<(String, String, Amount)>) -> Seq<Amount> {
    totals.map_values(|t: (String, String, Amount)| t.2)
}

/// The amounts of named totals.
pub fn amounts_of(totals: &Vec<(String, Amount)>) -> (res: Vec<Amount>)
    ensures
        res@ == named_amounts(totals@),
{
    let mut amounts: Vec<Amount> = Vec::new();
    let mut i: usize = 0;
    while i < totals.len()
        invariant
            i <= totals.len(),
            amounts@ == named_amounts(totals@).take(i as int),
        decreases totals.len() - i,
    {
        amounts.push(totals[i].1);
        i = i + 1;
        proof {
            assert(amounts@ =~= named_amounts(totals@).take(i as int));
        }
    }
    proof {
        assert(amounts@ =~= named_amounts(totals@));
    }
    amounts
}

/// The same totals.
pub fn copy_totals(totals: &Vec<(String, Amount)>) -> (res: Vec<(String, Amount)>)
    ensures
        res@ == totals@,
{
    let mut res: Vec<(String, Amount)> = Vec::new();
    let mut i: usize = 0;
    while i < totals.len()
        invariant
            i <= totals.len(),
            res@ == totals@.take(i as int),
        decreases totals.len() - i,
    {
        res.push((totals[i].0.clone(), totals[i].1));
        i = i + 1;
        proof {
            assert(res@ =~= totals@.take(i as int));
        }
    }
    proof {
        assert(res@ =~= totals@);
    }
    res
}

/// The totals above zero, largest first: a bucket that nets to nothing is
/// absent, and buckets of equal amount keep their bucket order.
pub fn rank_totals(totals: Vec<(String, Amount)>) -> (res: Vec<(String, Amount)>)
    ensures
        res@ == positive_first(totals@, named_amounts(totals@)),
{
    let amounts = amounts_of(&totals);
    keep_positive(totals, &amounts)
}

/// [`rank_totals`] of totals by provider and service.
pub fn rank_services(totals: Vec<(String, String, Amount)>) -> (res: Vec<(String, String, Amount)>)
    ensures
        res@ == positive_first(totals@, service_amounts(totals@)),
{
    let mut amounts: Vec<Amount> = Vec::new();
    let mut i: usize = 0;
    while i < totals.len()
        invariant
            i <= totals.len(),
            amounts@ == service_amounts(totals@).take(i as int),
        decreases totals.len() - i,
    {
        amounts.push(totals[i].2);
        i = i + 1;
        proof {
            assert(amounts@ =~= service_amounts(totals@).take(i as int));
        }
    }
    proof {
        assert(amounts@ =~= service_amounts(totals@));
    }
    keep_positive(totals, &amounts)
}

pub open spec fn tag_usage_amounts(totals: Seq<ServiceTagUsage>) -> Seq<Amount> {
    totals.map_values(|t: ServiceTagUsage| t.amount)
}

/// Usage by provider, service and tag value, above zero and largest first, from
/// the totals of [`super::query::tag_usage_terms_by_service`].
pub fn tag_usage_breakdown_by_service(totals: Vec<ServiceTagUsage>) -> (res: Vec<ServiceTagUsage>)
    ensures
        res@ == positive_first(totals@, tag_usage_amounts(totals@)),
{
    let mut amounts: Vec<Amount> = Vec::new();
    let mut i: usize = 0;
    while i < totals.len()
        invariant
            i <= totals.len(),
            amounts@ == tag_usage_amounts(totals@).take(i as int),
        decreases totals.len() - i,
    {
        amounts.push(totals[i].amount);
        i = i + 1;
        proof {
            assert(amounts@ =~= tag_usage_amounts(totals@).take(i as int));
        }
    }
    proof {
        assert(amounts@ =~= tag_usage_amounts(totals@));
    }
    keep_positive(totals, &amounts)
}

// ==================== Resources ====================

/// Having a resource.
pub open spec fn has_resource() -> spec_fn(NormalizedRow) -> bool {
    |row: NormalizedRow| row.resource_id is Some
}

/// `resources` are the resources of `rows`: one per resource id, in the order of
/// the ids, each with its rows' amounts, named after the first of those rows. A
/// charge with no resource id is left out.
pub open spec fn resources_by(resources: Seq<ResourceTerms>, rows: Seq<NormalizedRow>) -> bool {
    let held = rows.filter(has_resource());
    let key_of = buckets::keyed(Grouping::Resource);
    &&& buckets::buckets_by(
        resources.map_values(|r: ResourceTerms| buckets::key1(r.resource_id@)),
        resources.map_values(|r: ResourceTerms| r.terms@),
        held,
        key_of,
    )
    &&& forall|r: int|
        #![trigger resources[r]]
        0 <= r < resources.len() ==> {
            let own = buckets::bucket_rows(held, key_of, buckets::key1(resources[r].resource_id@));
            &&& resources[r].resource_name == own[0].resource_name
            &&& resources[r].service@ == scope::service_name(own[0])
        }
}

/// The rows that belong to a resource.
fn rows_with_resource(rows: &Vec<NormalizedRow>) -> (res: Vec<NormalizedRow>)
    ensures
        res@ == rows@.filter(has_resource()),
        memory::rows_dated(rows@) ==> memory::rows_dated(res@),
        forall|i: int| 0 <= i < res@.len() ==> #[trigger] res@[i].resource_id is Some,
{
    let mut res: Vec<NormalizedRow> = Vec::new();
    let mut i: usize = 0;
    proof {
        reveal(Seq::filter);
        assert(rows@.take(0) =~= Seq::empty());
    }
    while i < rows.len()
        invariant
            i <= rows.len(),
            res@ == rows@.take(i as int).filter(has_resource()),
            memory::rows_dated(rows@) ==> memory::rows_dated(res@),
            forall|j: int| 0 <= j < res@.len() ==> #[trigger] res@[j].resource_id is Some,
        decreases rows.len() - i,
    {
        proof {
            reveal(Seq::filter);
            assert(rows@.take(i + 1).drop_last() =~= rows@.take(i as int));
            assert(rows@.take(i + 1).last() == rows@[i as int]);
        }
        if rows[i].resource_id.is_some() {
            res.push(rows[i].clone());
        }
        i = i + 1;
    }
    proof {
        assert(rows@.take(i as int) =~= rows@);
    }
    res
}

/// The resources of a period with what each adds up.
pub fn resource_terms(all: &Vec<NormalizedRow>, key: &PeriodKey) -> (res: Vec<ResourceTerms>)
    requires
        memory::rows_dated(all@),
    ensures
        resources_by(res@, scope::rows_in(all@, scope::of_key(*key))),
{
    let chosen = Scope {
        provider: Some(key.provider.as_str()),
        account_id: Some(key.account_id.as_str()),
        billing_period: Some(key.billing_period.as_str()),
        ..Scope::unfiltered()
    };
    let rows = rows_with_resource(&selected(all, &chosen));
    buckets::resources_of(&rows)
}

pub open spec fn resource_amounts(resources: Seq<TopResource>) -> Seq<Amount> {
    resources.map_values(|r: TopResource| r.amount)
}

/// The `limit` costliest resources, largest first, from the totals of
/// [`resource_terms`].
pub fn top_resources(totals: Vec<TopResource>, limit: usize) -> (res: Vec<TopResource>)
    ensures
        res@ == first(positive_first(totals@, resource_amounts(totals@)), limit as nat),
{
    let mut amounts: Vec<Amount> = Vec::new();
    let mut i: usize = 0;
    while i < totals.len()
        invariant
            i <= totals.len(),
            amounts@ == resource_amounts(totals@).take(i as int),
        decreases totals.len() - i,
    {
        amounts.push(totals[i].amount);
        i = i + 1;
        proof {
            assert(amounts@ =~= resource_amounts(totals@).take(i as int));
        }
    }
    proof {
        assert(amounts@ =~= resource_amounts(totals@));
    }
    truncated(keep_positive(totals, &amounts), limit)
}

// ==================== Untagged usage ====================

/// Being a charge of a period that has an amount above zero and no value for a
/// tag.
pub open spec fn untagged_charge(
    billing_period: Seq<char>,
    tag_key: Seq<char>,
) -> spec_fn(NormalizedRow) -> bool {
    |row: NormalizedRow|
        row.billing_period@ == billing_period && buckets::row_tag(row, tag_key) == "Unallocated"@
            && row.billed_cost_base is Some && row.billed_cost_base->0.is_positive()
}

/// What the untagged list shows of a charge.
pub open spec fn as_untagged(row: NormalizedRow) -> UntaggedCharge {
    UntaggedCharge {
        provider: row.provider,
        service: row.service_name,
        description: row.charge_description,
        amount: row.billed_cost_base->0,
    }
}

pub open spec fn untagged_charges(
    rows: Seq<NormalizedRow>,
    billing_period: Seq<char>,
    tag_key: Seq<char>,
) -> Seq<UntaggedCharge> {
    rows.filter(untagged_charge(billing_period, tag_key)).map_values(
        |row: NormalizedRow| as_untagged(row),
    )
}

pub open spec fn untagged_amounts(charges: Seq<UntaggedCharge>) -> Seq<Amount> {
    charges.map_values(|c: UntaggedCharge| c.amount)
}

/// The largest charges of a period that carry no value for `tag_key`, biggest
/// first.
pub fn untagged_detail(
    all: &Vec<NormalizedRow>,
    billing_period: &str,
    tag_key: &str,
    limit: usize,
) -> (res: Vec<UntaggedCharge>)
    ensures
        ({
            let charges = untagged_charges(all@, billing_period@, tag_key@);
            res@ == first(sorted_by_amount(charges, untagged_amounts(charges)), limit as nat)
        }),
{
    let mut charges: Vec<UntaggedCharge> = Vec::new();
    let mut amounts: Vec<Amount> = Vec::new();
    let ghost keep = untagged_charge(billing_period@, tag_key@);
    let mut i: usize = 0;
    proof {
        reveal(Seq::filter);
        assert(all@.take(0) =~= Seq::empty());
        assert(untagged_charges(all@.take(0), billing_period@, tag_key@) =~= Seq::empty());
    }
    while i < all.len()
        invariant
            i <= all.len(),
            keep == untagged_charge(billing_period@, tag_key@),
            charges@ == untagged_charges(all@.take(i as int), billing_period@, tag_key@),
            amounts@ == untagged_amounts(charges@),
        decreases all.len() - i,
    {
        let row = &all[i];
        let ghost before = charges@;
        proof {
            reveal(Seq::filter);
            assert(all@.take(i + 1).drop_last() =~= all@.take(i as int));
            assert(all@.take(i + 1).last() == *row);
        }
        if text::same_text(&row.billing_period, billing_period) && buckets::untagged(row, tag_key) {
            if let Some(amount) = row.billed_cost_base {
                if amount.positive() {
                    charges.push(
                        UntaggedCharge {
                            provider: row.provider.clone(),
                            service: order::clone_text(&row.service_name),
                            description: order::clone_text(&row.charge_description),
                            amount,
                        },
                    );
                    amounts.push(amount);
                    proof {
                        assert(keep(*row));
                        assert(amounts@ =~= untagged_amounts(charges@));
                    }
                }
            }
        }
        proof {
            assert(charges@ =~= untagged_charges(all@.take(i + 1), billing_period@, tag_key@));
        }
        i = i + 1;
    }
    proof {
        assert(all@.take(i as int) =~= all@);
    }
    truncated(sort_by_amount(charges, &amounts), limit)
}

/// Being a usage charge of a period that has no value for a tag.
pub open spec fn untagged_usage(
    billing_period: Seq<char>,
    tag_key: Seq<char>,
) -> spec_fn(NormalizedRow) -> bool {
    |row: NormalizedRow|
        row.billing_period@ == billing_period && row.charge_category == ChargeCategory::Usage
            && buckets::row_tag(row, tag_key) == "Unallocated"@
}

/// The usage rows of a period that have no value for a tag.
pub fn untagged_usage_rows(all: &Vec<NormalizedRow>, billing_period: &str, tag_key: &str) -> (res:
    Vec<NormalizedRow>)
    ensures
        res@ == all@.filter(untagged_usage(billing_period@, tag_key@)),
        memory::rows_dated(all@) ==> memory::rows_dated(res@),
{
    let mut res: Vec<NormalizedRow> = Vec::new();
    let mut i: usize = 0;
    proof {
        reveal(Seq::filter);
        assert(all@.take(0) =~= Seq::empty());
    }
    while i < all.len()
        invariant
            i <= all.len(),
            res@ == all@.take(i as int).filter(untagged_usage(billing_period@, tag_key@)),
            memory::rows_dated(all@) ==> memory::rows_dated(res@),
        decreases all.len() - i,
    {
        proof {
            reveal(Seq::filter);
            assert(all@.take(i + 1).drop_last() =~= all@.take(i as int));
            assert(all@.take(i + 1).last() == all@[i as int]);
        }
        if text::same_text(&all[i].billing_period, billing_period) && all[i].charge_category
            == ChargeCategory::Usage && buckets::untagged(&all[i], tag_key) {
            res.push(all[i].clone());
        }
        i = i + 1;
    }
    proof {
        assert(all@.take(i as int) =~= all@);
    }
    res
}

/// Untagged usage of a period grouped by provider and by the service the charge
/// names; a charge with no service stays a row of its own.
pub fn untagged_usage_terms_by_service(
    all: &Vec<NormalizedRow>,
    billing_period: &str,
    tag_key: &str,
) -> (res: Vec<UntaggedServiceTerms>)
    requires
        memory::rows_dated(all@),
    ensures
        buckets::untagged_services_by(
            res@,
            all@.filter(untagged_usage(billing_period@, tag_key@)),
        ),
{
    totals_by_named_service(&untagged_usage_rows(all, billing_period, tag_key))
}

pub open spec fn untagged_service_amounts(totals: Seq<UntaggedServiceUsage>) -> Seq<Amount> {
    totals.map_values(|t: UntaggedServiceUsage| t.amount)
}

/// The `limit` largest of untagged services, biggest first, from the totals of
/// [`untagged_usage_terms_by_service`]. A service that nets to nothing is absent.
pub fn untagged_usage_by_service(totals: Vec<UntaggedServiceUsage>, limit: usize) -> (res: Vec<
    UntaggedServiceUsage,
>)
    ensures
        res@ == first(positive_first(totals@, untagged_service_amounts(totals@)), limit as nat),
{
    let mut amounts: Vec<Amount> = Vec::new();
    let mut i: usize = 0;
    while i < totals.len()
        invariant
            i <= totals.len(),
            amounts@ == untagged_service_amounts(totals@).take(i as int),
        decreases totals.len() - i,
    {
        amounts.push(totals[i].amount);
        i = i + 1;
        proof {
            assert(amounts@ =~= untagged_service_amounts(totals@).take(i as int));
        }
    }
    proof {
        assert(amounts@ =~= untagged_service_amounts(totals@));
    }
    truncated(keep_positive(totals, &amounts), limit)
}

// ==================== Unconverted charges ====================

/// Being a charge of a period that has a cost and no rate to convert it.
pub open spec fn unconverted(billing_period: Seq<char>) -> spec_fn(NormalizedRow) -> bool {
    |row: NormalizedRow|
        row.billing_period@ == billing_period && row.billed_cost is Some
            && row.billed_cost_base is None
}

/// How many charges of a period could not be converted. They are missing from
/// every converted total.
pub fn unconverted_charges(all: &Vec<NormalizedRow>, billing_period: &str) -> (res: i64)
    requires
        all@.len() <= i64::MAX,
    ensures
        res == all@.filter(unconverted(billing_period@)).len(),
{
    let mut count: i64 = 0;
    let mut i: usize = 0;
    proof {
        reveal(Seq::filter);
        assert(all@.take(0) =~= Seq::empty());
    }
    while i < all.len()
        invariant
            i <= all.len(),
            all@.len() <= i64::MAX,
            count == all@.take(i as int).filter(unconverted(billing_period@)).len(),
            0 <= count <= i,
        decreases all.len() - i,
    {
        proof {
            reveal(Seq::filter);
            assert(all@.take(i + 1).drop_last() =~= all@.take(i as int));
            assert(all@.take(i + 1).last() == all@[i as int]);
        }
        if text::same_text(&all[i].billing_period, billing_period) && all[i].billed_cost.is_some()
            && all[i].billed_cost_base.is_none() {
            count = count + 1;
        }
        i = i + 1;
    }
    proof {
        assert(all@.take(i as int) =~= all@);
    }
    count
}

} // verus!
