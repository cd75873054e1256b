//! Rows grouped into buckets, each with the amounts it adds up.
use vstd::prelude::*;

use super::scope;
use super::scope::service_of;
use crate::amount::Amount;
use crate::calendar;
use crate::memory;
use crate::memory::NormalizedRow;
use crate::model::BreakdownDim;
use crate::order;
use crate::order::BucketKey;
use crate::text;

verus! {

// ==================== Buckets ====================

/// Being in the bucket of a key.
pub open spec fn has_key(
    key_of: spec_fn(NormalizedRow) -> Seq<order::Part>,
    key: Seq<order::Part>,
) -> spec_fn(NormalizedRow) -> bool {
    |row: NormalizedRow| key_of(row) == key
}

/// The rows that one bucket holds, in ledger order.
pub open spec fn bucket_rows(
    rows: Seq<NormalizedRow>,
    key_of: spec_fn(NormalizedRow) -> Seq<order::Part>,
    key: Seq<order::Part>,
) -> Seq<NormalizedRow> {
    rows.filter(has_key(key_of, key))
}

/// `keys` and `terms` are the buckets of `rows` under `key_of`: one per key that
/// occurs, in key order, each with the converted amounts of its rows in ledger
/// order.
pub open spec fn buckets_by(
    keys: Seq<Seq<order::Part>>,
    terms: Seq<Seq<Amount>>,
    rows: Seq<NormalizedRow>,
    key_of: spec_fn(NormalizedRow) -> Seq<order::Part>,
) -> bool {
    &&& terms.len() == keys.len()
    &&& order::ascending(keys)
    &&& forall|b: int|
        0 <= b < keys.len() ==> {
            &&& #[trigger] bucket_rows(rows, key_of, keys[b]).len() > 0
            &&& terms[b] == scope::base_amounts(bucket_rows(rows, key_of, keys[b]))
        }
    &&& forall|i: int| 0 <= i < rows.len() ==> keys.contains(#[trigger] key_of(rows[i]))
}

/// One bucket: its key, the amounts it adds up, and where its rows stand.
struct Bucket {
    key: BucketKey,
    members: Vec<usize>,
    terms: Vec<Amount>,
}

spec fn bucket_keys(buckets: Seq<Bucket>) -> Seq<Seq<order::Part>> {
    buckets.map_values(|b: Bucket| b.key@)
}

spec fn bucket_terms(buckets: Seq<Bucket>) -> Seq<Seq<Amount>> {
    buckets.map_values(|b: Bucket| b.terms@)
}

/// The members of each bucket are the positions of its rows.
spec fn members_held(
    buckets: Seq<Bucket>,
    rows: Seq<NormalizedRow>,
    key_of: spec_fn(NormalizedRow) -> Seq<order::Part>,
) -> bool {
    forall|b: int|
        #![trigger buckets[b]]
        0 <= b < buckets.len() ==> {
            &&& buckets[b].members@.len() == bucket_rows(rows, key_of, buckets[b].key@).len()
            &&& forall|m: int|
                0 <= m < buckets[b].members@.len() ==> #[trigger] buckets[b].members@[m]
                    < rows.len() && rows[buckets[b].members@[m] as int] == bucket_rows(
                    rows,
                    key_of,
                    buckets[b].key@,
                )[m]
        }
}

/// The rows at some positions.
spec fn rows_at(rows: Seq<NormalizedRow>, positions: Seq<int>) -> Seq<NormalizedRow> {
    positions.map_values(|p: int| rows[p])
}

spec fn keys_of_rows(
    rows: Seq<NormalizedRow>,
    key_of: spec_fn(NormalizedRow) -> Seq<order::Part>,
) -> Seq<Seq<order::Part>> {
    rows.map_values(|row: NormalizedRow| key_of(row))
}

proof fn lemma_bucket_rows(
    rows: Seq<NormalizedRow>,
    key_of: spec_fn(NormalizedRow) -> Seq<order::Part>,
    key: Seq<order::Part>,
)
    ensures
        rows_at(rows, order::positions_of(keys_of_rows(rows, key_of), key)) == bucket_rows(
            rows,
            key_of,
            key,
        ),
    decreases rows.len(),
{
    reveal(Seq::filter);
    let keys = keys_of_rows(rows, key_of);
    let picked = rows_at(rows, order::positions_of(keys, key));
    if rows.len() == 0 {
        assert(picked =~= bucket_rows(rows, key_of, key));
    } else {
        let fewer = rows.drop_last();
        lemma_bucket_rows(fewer, key_of, key);
        assert(keys.drop_last() =~= keys_of_rows(fewer, key_of));
        order::lemma_positions_of(keys_of_rows(fewer, key_of), key);
        let before = order::positions_of(keys_of_rows(fewer, key_of), key);
        assert(rows_at(rows, before) =~= rows_at(fewer, before));
        if keys.last() == key {
            assert(picked =~= rows_at(rows, before).push(rows.last()));
        } else {
            assert(picked =~= rows_at(rows, before));
        }
    }
}

/// Group rows by the keys beside them, and collect what each group adds up.
fn group_rows(
    rows: &Vec<NormalizedRow>,
    keys: &Vec<BucketKey>,
    Ghost(key_of): Ghost<spec_fn(NormalizedRow) -> Seq<order::Part>>,
) -> (res: Vec<Bucket>)
    requires
        keys@.len() == rows@.len(),
        forall|i: int| 0 <= i < rows@.len() ==> #[trigger] keys@[i]@ == key_of(rows@[i]),
    ensures
        buckets_by(bucket_keys(res@), bucket_terms(res@), rows@, key_of),
        members_held(res@, rows@, key_of),
{
    let groups = order::group_by_key(keys);
    let ghost views = order::key_views(keys@);
    let ghost all = groups@;
    proof {
        assert(views =~= keys_of_rows(rows@, key_of));
    }
    let mut res: Vec<Bucket> = Vec::new();
    let mut g: usize = 0;
    let total: usize = groups.len();
    while g < total
        invariant
            g <= total,
            total == all.len(),
            groups@ == all,
            views == keys_of_rows(rows@, key_of),
            order::partitions(all, views),
            res@.len() == g,
            forall|b: int|
                #![trigger res@[b]]
                0 <= b < g ==> {
                    &&& res@[b].key@ == all[b].key@
                    &&& res@[b].terms@ == scope::base_amounts(bucket_rows(rows@, key_of, all[b].key@))
                    &&& bucket_rows(rows@, key_of, all[b].key@).len() > 0
                    &&& res@[b].members@.len() == bucket_rows(rows@, key_of, all[b].key@).len()
                    &&& forall|m: int|
                        0 <= m < res@[b].members@.len() ==> #[trigger] res@[b].members@[m]
                            < rows@.len() && rows@[res@[b].members@[m] as int] == bucket_rows(
                            rows@,
                            key_of,
                            all[b].key@,
                        )[m]
                },
        decreases total - g,
    {
        let members = &groups[g].members;
        let ghost key = all[g as int].key@;
        let ghost held = bucket_rows(rows@, key_of, key);
        proof {
            lemma_bucket_rows(rows@, key_of, key);
            order::lemma_positions_of(views, key);
            assert(order::member_positions(all[g as int]) == order::positions_of(views, key));
            assert forall|m: int| 0 <= m < members@.len() implies #[trigger] members@[m]
                < rows@.len() && rows@[members@[m] as int] == held[m] by {
                assert(order::member_positions(all[g as int])[m] == members@[m]);
            }
        }
        let mut terms: Vec<Amount> = Vec::new();
        let mut copy: Vec<usize> = Vec::new();
        let mut m: usize = 0;
        proof {
            assert(held.take(0) =~= Seq::empty());
        }
        while m < members.len()
            invariant
                m <= members@.len(),
                members@.len() == held.len(),
                forall|k: int|
                    0 <= k < members@.len() ==> #[trigger] members@[k] < rows@.len()
                        && rows@[members@[k] as int] == held[k],
                terms@ == scope::base_amounts(held.take(m as int)),
                copy@ == members@.take(m as int),
            decreases members.len() - m,
        {
            proof {
                assert(held.take(m + 1).drop_last() =~= held.take(m as int));
                assert(held.take(m + 1).last() == held[m as int]);
                assert(members@.take(m + 1) =~= members@.take(m as int).push(members@[m as int]));
            }
            if let Some(amount) = rows[members[m]].billed_cost_base {
                terms.push(amount);
            }
            copy.push(members[m]);
            m = m + 1;
        }
        proof {
            assert(held.take(m as int) =~= held);
            assert(members@.take(m as int) =~= members@);
        }
        res.push(Bucket { key: groups[g].key.clone(), members: copy, terms });
        g = g + 1;
    }
    proof {
        assert(bucket_keys(res@) =~= order::group_keys(all));
        assert forall|i: int| 0 <= i < rows@.len() implies bucket_keys(res@).contains(
            #[trigger] key_of(rows@[i]),
        ) by {
            assert(order::group_keys(all).contains(views[i]));
        }
    }
    res
}

/// A key of one column.
pub open spec fn key1(a: Seq<char>) -> Seq<order::Part> {
    seq![Some(a)]
}

/// A key of two columns.
pub open spec fn key2(a: Seq<char>, b: Seq<char>) -> Seq<order::Part> {
    seq![Some(a), Some(b)]
}

/// A key of three columns.
pub open spec fn key3(a: Seq<char>, b: Seq<char>, c: Seq<char>) -> Seq<order::Part> {
    seq![Some(a), Some(b), Some(c)]
}

/// What rows are grouped by.
#[derive(Clone, Copy)]
pub enum Grouping<'a> {
    Dim(BreakdownDim),
    /// The charge's calendar day.
    Day,
    /// The billing period the ledger stores the charge under.
    Period,
    /// The month the charge's instant falls in.
    ChargeMonth,
    Category,
    /// The value of a tag.
    Tag(&'a str),
    ProviderService,
    ProviderServiceTag(&'a str),
    /// The provider, and the service as the charge names it, if it does.
    ProviderNamedService,
    DayProviderService,
    Resource,
}

/// A charge without the dimension reads as `Other`.
pub open spec fn dim_name(row: NormalizedRow, dim: BreakdownDim) -> Seq<char> {
    let value = match dim {
        BreakdownDim::Service => row.service_name,
        BreakdownDim::Region => row.region_id,
        BreakdownDim::ServiceCategory => row.service_category,
    };
    match value {
        Some(value) => value@,
        None => "Other"@,
    }
}

/// The tag value of a row.
pub open spec fn row_tag(row: NormalizedRow, tag_key: Seq<char>) -> Seq<char> {
    memory::tag_of(order::part_view(row.tags), tag_key)
}

/// The day of a row.
pub open spec fn row_day(row: NormalizedRow) -> Seq<char> {
    calendar::day_label(row.charge_period_start.on())
}

/// The month a row's instant falls in.
pub open spec fn row_month(row: NormalizedRow) -> Seq<char> {
    calendar::month_label(
        row.charge_period_start.on().year as int,
        row.charge_period_start.on().month as int,
    )
}

/// The bucket of a row.
pub open spec fn bucket_key(grouping: Grouping, row: NormalizedRow) -> Seq<order::Part> {
    match grouping {
        Grouping::Dim(dim) => key1(dim_name(row, dim)),
        Grouping::Day => key1(row_day(row)),
        Grouping::Period => key1(row.billing_period@),
        Grouping::ChargeMonth => key1(row_month(row)),
        Grouping::Category => key1(row.charge_category.name()),
        Grouping::Tag(tag_key) => key1(row_tag(row, tag_key@)),
        Grouping::ProviderService => key2(row.provider@, scope::service_name(row)),
        Grouping::ProviderServiceTag(tag_key) => key3(
            row.provider@,
            scope::service_name(row),
            row_tag(row, tag_key@),
        ),
        Grouping::ProviderNamedService => seq![
            Some(row.provider@),
            order::part_view(row.service_name),
        ],
        Grouping::DayProviderService => key3(row_day(row), row.provider@, scope::service_name(row)),
        Grouping::Resource => seq![order::part_view(row.resource_id)],
    }
}

/// The bucket that a grouping gives each row.
pub open spec fn keyed(grouping: Grouping) -> spec_fn(NormalizedRow) -> Seq<order::Part> {
    |row: NormalizedRow| bucket_key(grouping, row)
}

/// A grouping by one column that every row has a value in.
pub open spec fn names_buckets(grouping: Grouping) -> bool {
    match grouping {
        Grouping::Dim(_) => true,
        Grouping::Day => true,
        Grouping::Period => true,
        Grouping::ChargeMonth => true,
        Grouping::Category => true,
        Grouping::Tag(_) => true,
        _ => false,
    }
}

fn named_or_other(value: &Option<String>) -> (res: String)
    ensures
        res@ == (match *value {
            Some(value) => value@,
            None => "Other"@,
        }),
{
    match value {
        Some(value) => value.clone(),
        None => "Other".to_owned(),
    }
}

/// The bucket of a breakdown's dimension.
pub fn bucket_of(row: &NormalizedRow, dim: BreakdownDim) -> (res: String)
    ensures
        res@ == dim_name(*row, dim),
{
    match dim {
        BreakdownDim::Service => service_of(row).to_owned(),
        BreakdownDim::Region => named_or_other(&row.region_id),
        BreakdownDim::ServiceCategory => named_or_other(&row.service_category),
    }
}

fn tag_of_row(row: &NormalizedRow, tag_key: &str) -> (res: String)
    ensures
        res@ == row_tag(*row, tag_key@),
{
    match &row.tags {
        Some(tags) => memory::tag_value(Some(tags.as_str()), tag_key),
        None => memory::tag_value(None, tag_key),
    }
}

/// Whether a charge carries no value for `tag_key`.
pub fn untagged(row: &NormalizedRow, tag_key: &str) -> (res: bool)
    ensures
        res == (row_tag(*row, tag_key@) == "Unallocated"@),
{
    text::same_text(&tag_of_row(row, tag_key), memory::UNALLOCATED)
}

fn single(a: Option<String>) -> (res: BucketKey)
    ensures
        res@ == seq![order::part_view(a)],
{
    let mut parts: Vec<Option<String>> = Vec::new();
    parts.push(a);
    let res = BucketKey { parts };
    proof {
        assert(res@ =~= seq![order::part_view(a)]);
    }
    res
}

fn pair(a: String, b: Option<String>) -> (res: BucketKey)
    ensures
        res@ == seq![Some(a@), order::part_view(b)],
{
    let mut parts: Vec<Option<String>> = Vec::new();
    parts.push(Some(a));
    parts.push(b);
    let res = BucketKey { parts };
    proof {
        assert(res@ =~= seq![Some(a@), order::part_view(b)]);
    }
    res
}

fn triple(a: String, b: String, c: String) -> (res: BucketKey)
    ensures
        res@ == key3(a@, b@, c@),
{
    let mut parts: Vec<Option<String>> = Vec::new();
    parts.push(Some(a));
    parts.push(Some(b));
    parts.push(Some(c));
    let res = BucketKey { parts };
    proof {
        assert(res@ =~= key3(a@, b@, c@));
    }
    res
}

impl<'a> Grouping<'a> {
    fn key(self, row: &NormalizedRow) -> (res: BucketKey)
        requires
            row.charge_period_start.valid(),
        ensures
            res@ == bucket_key(self, *row),
    {
        match self {
            Grouping::Dim(dim) => single(Some(bucket_of(row, dim))),
            Grouping::Day => single(Some(memory::day_of(row.charge_period_start))),
            Grouping::Period => single(Some(row.billing_period.clone())),
            Grouping::ChargeMonth => single(Some(row.charge_period_start.date().month_label())),
            Grouping::Category => single(Some(row.charge_category.as_str().to_owned())),
            Grouping::Tag(tag_key) => single(Some(tag_of_row(row, tag_key))),
            Grouping::ProviderService => pair(
                row.provider.clone(),
                Some(service_of(row).to_owned()),
            ),
            Grouping::ProviderServiceTag(tag_key) => triple(
                row.provider.clone(),
                service_of(row).to_owned(),
                tag_of_row(row, tag_key),
            ),
            Grouping::ProviderNamedService => pair(
                row.provider.clone(),
                order::clone_text(&row.service_name),
            ),
            Grouping::DayProviderService => triple(
                memory::day_of(row.charge_period_start),
                row.provider.clone(),
                service_of(row).to_owned(),
            ),
            Grouping::Resource => single(order::clone_text(&row.resource_id)),
        }
    }
}

/// Group rows, and collect what each group adds up.
fn bucketed(rows: &Vec<NormalizedRow>, grouping: Grouping) -> (res: Vec<Bucket>)
    requires
        memory::rows_dated(rows@),
    ensures
        buckets_by(bucket_keys(res@), bucket_terms(res@), rows@, keyed(grouping)),
        members_held(res@, rows@, keyed(grouping)),
{
    let mut keys: Vec<BucketKey> = Vec::new();
    let mut i: usize = 0;
    while i < rows.len()
        invariant
            i <= rows.len(),
            memory::rows_dated(rows@),
            keys@.len() == i,
            forall|j: int| 0 <= j < i ==> #[trigger] keys@[j]@ == keyed(grouping)(rows@[j]),
        decreases rows.len() - i,
    {
        proof {
            assert(rows@[i as int].charge_period_start.valid());
        }
        keys.push(grouping.key(&rows[i]));
        i = i + 1;
    }
    group_rows(rows, &keys, Ghost(keyed(grouping)))
}

// ==================== Buckets by their columns ====================

/// The bucket names of a grouping by one column.
pub open spec fn named_keys(buckets: Seq<(String, Vec<Amount>)>) -> Seq<Seq<order::Part>> {
    buckets.map_values(|b: (String, Vec<Amount>)| key1(b.0@))
}

pub open spec fn named_terms(buckets: Seq<(String, Vec<Amount>)>) -> Seq<Seq<Amount>> {
    buckets.map_values(|b: (String, Vec<Amount>)| b.1@)
}

/// `buckets` are the buckets of `rows` under a one-column grouping.
pub open spec fn named_by(
    buckets: Seq<(String, Vec<Amount>)>,
    rows: Seq<NormalizedRow>,
    grouping: Grouping,
) -> bool {
    buckets_by(named_keys(buckets), named_terms(buckets), rows, keyed(grouping))
}

/// What one service adds up.
pub struct ServiceTerms {
    pub provider: String,
    pub service: String,
    pub terms: Vec<Amount>,
}

/// What one service adds up under one tag value.
pub struct ServiceTagTerms {
    pub provider: String,
    pub service: String,
    pub tag_value: String,
    pub terms: Vec<Amount>,
}

/// What the untagged charges of one service add up; `None` for charges that
/// name no service.
pub struct UntaggedServiceTerms {
    pub provider: String,
    pub service: Option<String>,
    pub terms: Vec<Amount>,
}

/// What one service adds up on one day.
pub struct ServiceDayTerms {
    pub provider: String,
    pub service: String,
    pub day: String,
    pub terms: Vec<Amount>,
}

/// What one resource adds up.
pub struct ResourceTerms {
    pub resource_id: String,
    pub resource_name: Option<String>,
    pub service: String,
    pub terms: Vec<Amount>,
}

/// `buckets` are the buckets of `rows` by provider and service.
pub open spec fn services_by(buckets: Seq<ServiceTerms>, rows: Seq<NormalizedRow>) -> bool {
    buckets_by(
        buckets.map_values(|b: ServiceTerms| key2(b.provider@, b.service@)),
        buckets.map_values(|b: ServiceTerms| b.terms@),
        rows,
        keyed(Grouping::ProviderService),
    )
}

/// `buckets` are the buckets of `rows` by provider, service and tag value.
pub open spec fn service_tags_by(
    buckets: Seq<ServiceTagTerms>,
    rows: Seq<NormalizedRow>,
    tag_key: &str,
) -> bool {
    buckets_by(
        buckets.map_values(|b: ServiceTagTerms| key3(b.provider@, b.service@, b.tag_value@)),
        buckets.map_values(|b: ServiceTagTerms| b.terms@),
        rows,
        keyed(Grouping::ProviderServiceTag(tag_key)),
    )
}

/// `buckets` are the buckets of `rows` by provider and by the service named.
pub open spec fn untagged_services_by(
    buckets: Seq<UntaggedServiceTerms>,
    rows: Seq<NormalizedRow>,
) -> bool {
    buckets_by(
        buckets.map_values(
            |b: UntaggedServiceTerms| seq![Some(b.provider@), order::part_view(b.service)],
        ),
        buckets.map_values(|b: UntaggedServiceTerms| b.terms@),
        rows,
        keyed(Grouping::ProviderNamedService),
    )
}

/// `buckets` are the buckets of `rows` by day, provider and service.
pub open spec fn service_days_by(buckets: Seq<ServiceDayTerms>, rows: Seq<NormalizedRow>) -> bool {
    buckets_by(
        buckets.map_values(|b: ServiceDayTerms| key3(b.day@, b.provider@, b.service@)),
        buckets.map_values(|b: ServiceDayTerms| b.terms@),
        rows,
        keyed(Grouping::DayProviderService),
    )
}

/// The text of a column that has a value.
fn column(key: &BucketKey, i: usize) -> (res: String)
    requires
        i < key@.len(),
        key@[i as int] is Some,
    ensures
        key@[i as int] == Some(res@),
{
    match &key.parts[i] {
        Some(text) => text.clone(),
        None => String::new(),
    }
}

/// The columns of a grouping's keys, and those that always have a value.
spec fn shaped(grouping: Grouping, key: Seq<order::Part>) -> bool {
    match grouping {
        Grouping::ProviderService => key.len() == 2 && key[0] is Some && key[1] is Some,
        Grouping::ProviderNamedService => key.len() == 2 && key[0] is Some,
        Grouping::ProviderServiceTag(_) => key.len() == 3 && key[0] is Some && key[1] is Some
            && key[2] is Some,
        Grouping::DayProviderService => key.len() == 3 && key[0] is Some && key[1] is Some
            && key[2] is Some,
        Grouping::Resource => key.len() == 1,
        _ => key.len() == 1 && key[0] is Some,
    }
}

/// Every bucket's key is the key of a row.
proof fn lemma_bucket_shape(
    buckets: Seq<Bucket>,
    rows: Seq<NormalizedRow>,
    grouping: Grouping,
    b: int,
)
    requires
        buckets_by(bucket_keys(buckets), bucket_terms(buckets), rows, keyed(grouping)),
        0 <= b < buckets.len(),
    ensures
        exists|row: NormalizedRow| #[trigger] bucket_key(grouping, row) == buckets[b].key@,
        shaped(grouping, buckets[b].key@),
        buckets[b].key.parts@.len() == buckets[b].key@.len(),
{
    assert(bucket_keys(buckets)[b] == buckets[b].key@);
    lemma_bucket_key(rows, keyed(grouping), buckets[b].key@);
    let row = choose|row: NormalizedRow| #[trigger] keyed(grouping)(row) == buckets[b].key@;
    assert(bucket_key(grouping, row) == buckets[b].key@);
}

/// Hand buckets of one column out by name.
fn into_named(buckets: &Vec<Bucket>, rows: &Vec<NormalizedRow>, grouping: Grouping) -> (res: Vec<
    (String, Vec<Amount>),
>)
    requires
        names_buckets(grouping),
        buckets_by(bucket_keys(buckets@), bucket_terms(buckets@), rows@, keyed(grouping)),
    ensures
        named_by(res@, rows@, grouping),
{
    let mut res: Vec<(String, Vec<Amount>)> = Vec::new();
    let mut i: usize = 0;
    while i < buckets.len()
        invariant
            i <= buckets.len(),
            names_buckets(grouping),
            buckets_by(bucket_keys(buckets@), bucket_terms(buckets@), rows@, keyed(grouping)),
            res@.len() == i,
            forall|b: int|
                #![trigger res@[b]]
                0 <= b < i ==> key1(res@[b].0@) == buckets@[b].key@ && res@[b].1@
                    == buckets@[b].terms@,
        decreases buckets.len() - i,
    {
        proof {
            lemma_bucket_shape(buckets@, rows@, grouping, i as int);
        }
        let name = column(&buckets[i].key, 0);
        proof {
            assert(key1(name@) =~= buckets@[i as int].key@);
        }
        res.push((name, copy_amounts(&buckets[i].terms)));
        i = i + 1;
    }
    proof {
        assert(named_keys(res@) =~= bucket_keys(buckets@));
        assert(named_terms(res@) =~= bucket_terms(buckets@));
    }
    res
}

/// A copy of a list of amounts.
pub fn copy_amounts(amounts: &Vec<Amount>) -> (res: Vec<Amount>)
    ensures
        res@ == amounts@,
{
    let mut res: Vec<Amount> = Vec::new();
    let mut i: usize = 0;
    while i < amounts.len()
        invariant
            i <= amounts.len(),
            res@ == amounts@.take(i as int),
        decreases amounts.len() - i,
    {
        res.push(amounts[i]);
        i = i + 1;
        proof {
            assert(amounts@.take(i as int) =~= amounts@.take(i - 1).push(amounts@[i - 1]));
        }
    }
    proof {
        assert(amounts@.take(i as int) =~= amounts@);
    }
    res
}

/// The buckets of `rows` under a one-column grouping, in bucket order.
pub fn totals_by_name(rows: &Vec<NormalizedRow>, grouping: Grouping) -> (res: Vec<
    (String, Vec<Amount>),
>)
    requires
        memory::rows_dated(rows@),
        names_buckets(grouping),
    ensures
        named_by(res@, rows@, grouping),
{
    let buckets = bucketed(rows, grouping);
    into_named(&buckets, rows, grouping)
}

/// The buckets of `rows` by provider and service.
pub fn totals_by_provider_service(rows: &Vec<NormalizedRow>) -> (res: Vec<ServiceTerms>)
    requires
        memory::rows_dated(rows@),
    ensures
        services_by(res@, rows@),
{
    let buckets = bucketed(rows, Grouping::ProviderService);
    let mut res: Vec<ServiceTerms> = Vec::new();
    let mut i: usize = 0;
    while i < buckets.len()
        invariant
            i <= buckets.len(),
            buckets_by(
                bucket_keys(buckets@),
                bucket_terms(buckets@),
                rows@,
                keyed(Grouping::ProviderService),
            ),
            res@.len() == i,
            forall|b: int|
                #![trigger res@[b]]
                0 <= b < i ==> key2(res@[b].provider@, res@[b].service@) == buckets@[b].key@
                    && res@[b].terms@ == buckets@[b].terms@,
        decreases buckets.len() - i,
    {
        proof {
            lemma_bucket_shape(buckets@, rows@, Grouping::ProviderService, i as int);
        }
        let provider = column(&buckets[i].key, 0);
        let service = column(&buckets[i].key, 1);
        proof {
            assert(key2(provider@, service@) =~= buckets@[i as int].key@);
        }
        res.push(ServiceTerms { provider, service, terms: copy_amounts(&buckets[i].terms) });
        i = i + 1;
    }
    proof {
        assert(res@.map_values(|b: ServiceTerms| key2(b.provider@, b.service@)) =~= bucket_keys(
            buckets@,
        ));
        assert(res@.map_values(|b: ServiceTerms| b.terms@) =~= bucket_terms(buckets@));
    }
    res
}

/// The buckets of `rows` by provider, service and tag value.
pub fn totals_by_provider_service_tag(rows: &Vec<NormalizedRow>, tag_key: &str) -> (res: Vec<
    ServiceTagTerms,
>)
    requires
        memory::rows_dated(rows@),
    ensures
        service_tags_by(res@, rows@, tag_key),
{
    let buckets = bucketed(rows, Grouping::ProviderServiceTag(tag_key));
    let mut res: Vec<ServiceTagTerms> = Vec::new();
    let mut i: usize = 0;
    while i < buckets.len()
        invariant
            i <= buckets.len(),
            buckets_by(
                bucket_keys(buckets@),
                bucket_terms(buckets@),
                rows@,
                keyed(Grouping::ProviderServiceTag(tag_key)),
            ),
            res@.len() == i,
            forall|b: int|
                #![trigger res@[b]]
                0 <= b < i ==> key3(res@[b].provider@, res@[b].service@, res@[b].tag_value@)
                    == buckets@[b].key@ && res@[b].terms@ == buckets@[b].terms@,
        decreases buckets.len() - i,
    {
        proof {
            lemma_bucket_shape(buckets@, rows@, Grouping::ProviderServiceTag(tag_key), i as int);
        }
        let provider = column(&buckets[i].key, 0);
        let service = column(&buckets[i].key, 1);
        let tag_value = column(&buckets[i].key, 2);
        proof {
            assert(key3(provider@, service@, tag_value@) =~= buckets@[i as int].key@);
        }
        res.push(
            ServiceTagTerms {
                provider,
                service,
                tag_value,
                terms: copy_amounts(&buckets[i].terms),
            },
        );
        i = i + 1;
    }
    proof {
        assert(res@.map_values(
            |b: ServiceTagTerms| key3(b.provider@, b.service@, b.tag_value@),
        ) =~= bucket_keys(buckets@));
        assert(res@.map_values(|b: ServiceTagTerms| b.terms@) =~= bucket_terms(buckets@));
    }
    res
}

/// The buckets of `rows` by provider and by the service named.
pub fn totals_by_named_service(rows: &Vec<NormalizedRow>) -> (res: Vec<UntaggedServiceTerms>)
    requires
        memory::rows_dated(rows@),
    ensures
        untagged_services_by(res@, rows@),
{
    let buckets = bucketed(rows, Grouping::ProviderNamedService);
    let mut res: Vec<UntaggedServiceTerms> = Vec::new();
    let mut i: usize = 0;
    while i < buckets.len()
        invariant
            i <= buckets.len(),
            buckets_by(
                bucket_keys(buckets@),
                bucket_terms(buckets@),
                rows@,
                keyed(Grouping::ProviderNamedService),
            ),
            res@.len() == i,
            forall|b: int|
                #![trigger res@[b]]
                0 <= b < i ==> seq![Some(res@[b].provider@), order::part_view(res@[b].service)]
                    == buckets@[b].key@ && res@[b].terms@ == buckets@[b].terms@,
        decreases buckets.len() - i,
    {
        proof {
            lemma_bucket_shape(buckets@, rows@, Grouping::ProviderNamedService, i as int);
        }
        let provider = column(&buckets[i].key, 0);
        let service = order::clone_text(&buckets[i].key.parts[1]);
        proof {
            let key = buckets@[i as int].key;
            assert(key@[1] == order::part_view(key.parts@[1]));
            assert(seq![Some(provider@), order::part_view(service)] =~= key@);
        }
        res.push(
            UntaggedServiceTerms { provider, service, terms: copy_amounts(&buckets[i].terms) },
        );
        i = i + 1;
    }
    proof {
        assert(res@.map_values(
            |b: UntaggedServiceTerms| seq![Some(b.provider@), order::part_view(b.service)],
        ) =~= bucket_keys(buckets@));
        assert(res@.map_values(|b: UntaggedServiceTerms| b.terms@) =~= bucket_terms(buckets@));
    }
    res
}

/// The buckets of `rows` by day, provider and service.
pub fn totals_by_service_day(rows: &Vec<NormalizedRow>) -> (res: Vec<ServiceDayTerms>)
    requires
        memory::rows_dated(rows@),
    ensures
        service_days_by(res@, rows@),
{
    let buckets = bucketed(rows, Grouping::DayProviderService);
    let mut res: Vec<ServiceDayTerms> = Vec::new();
    let mut i: usize = 0;
    while i < buckets.len()
        invariant
            i <= buckets.len(),
            buckets_by(
                bucket_keys(buckets@),
                bucket_terms(buckets@),
                rows@,
                keyed(Grouping::DayProviderService),
            ),
            res@.len() == i,
            forall|b: int|
                #![trigger res@[b]]
                0 <= b < i ==> key3(res@[b].day@, res@[b].provider@, res@[b].service@)
                    == buckets@[b].key@ && res@[b].terms@ == buckets@[b].terms@,
        decreases buckets.len() - i,
    {
        proof {
            lemma_bucket_shape(buckets@, rows@, Grouping::DayProviderService, i as int);
        }
        let day = column(&buckets[i].key, 0);
        let provider = column(&buckets[i].key, 1);
        let service = column(&buckets[i].key, 2);
        proof {
            assert(key3(day@, provider@, service@) =~= buckets@[i as int].key@);
        }
        res.push(ServiceDayTerms { provider, service, day, terms: copy_amounts(&buckets[i].terms) });
        i = i + 1;
    }
    proof {
        assert(res@.map_values(|b: ServiceDayTerms| key3(b.day@, b.provider@, b.service@))
            =~= bucket_keys(buckets@));
        assert(res@.map_values(|b: ServiceDayTerms| b.terms@) =~= bucket_terms(buckets@));
    }
    res
}

/// The key of a bucket that holds a row is that row's key.
proof fn lemma_bucket_key(
    rows: Seq<NormalizedRow>,
    key_of: spec_fn(NormalizedRow) -> Seq<order::Part>,
    key: Seq<order::Part>,
)
    requires
        bucket_rows(rows, key_of, key).len() > 0,
    ensures
        exists|row: NormalizedRow| #[trigger] key_of(row) == key,
{
    let held = bucket_rows(rows, key_of, key);
    rows.lemma_filter_pred(has_key(key_of, key), 0);
    assert(key_of(held[0]) == key);
}


/// The resources of rows that all have one: one per id, named after its first
/// row.
pub fn resources_of(rows: &Vec<NormalizedRow>) -> (res: Vec<ResourceTerms>)
    requires
        memory::rows_dated(rows@),
        forall|i: int| 0 <= i < rows@.len() ==> #[trigger] rows@[i].resource_id is Some,
    ensures
        buckets_by(
            res@.map_values(|r: ResourceTerms| key1(r.resource_id@)),
            res@.map_values(|r: ResourceTerms| r.terms@),
            rows@,
            keyed(Grouping::Resource),
        ),
        forall|r: int|
            #![trigger res@[r]]
            0 <= r < res@.len() ==> {
                let own = bucket_rows(
                    rows@,
                    keyed(Grouping::Resource),
                    key1(res@[r].resource_id@),
                );
                &&& res@[r].resource_name == own[0].resource_name
                &&& res@[r].service@ == scope::service_name(own[0])
            },
{
    let ghost key_of = keyed(Grouping::Resource);
    let buckets = bucketed(rows, Grouping::Resource);
    let mut res: Vec<ResourceTerms> = Vec::new();
    let mut i: usize = 0;
    while i < buckets.len()
        invariant
            i <= buckets.len(),
            key_of == keyed(Grouping::Resource),
            buckets_by(bucket_keys(buckets@), bucket_terms(buckets@), rows@, key_of),
            members_held(buckets@, rows@, key_of),
            forall|j: int| 0 <= j < rows@.len() ==> #[trigger] rows@[j].resource_id is Some,
            res@.len() == i,
            forall|r: int|
                #![trigger res@[r]]
                0 <= r < i ==> {
                    let own = bucket_rows(rows@, key_of, buckets@[r].key@);
                    &&& key1(res@[r].resource_id@) == buckets@[r].key@
                    &&& res@[r].terms@ == buckets@[r].terms@
                    &&& res@[r].resource_name == own[0].resource_name
                    &&& res@[r].service@ == scope::service_name(own[0])
                },
        decreases buckets.len() - i,
    {
        let bucket = &buckets[i];
        proof {
            lemma_bucket_shape(buckets@, rows@, Grouping::Resource, i as int);
            assert(bucket_keys(buckets@)[i as int] == bucket.key@);
            assert(bucket_rows(rows@, key_of, bucket.key@).len() > 0);
            assert(*bucket == buckets@[i as int]);
            assert(bucket.members@[0] < rows@.len());
            let own = bucket_rows(rows@, key_of, bucket.key@);
            rows@.lemma_filter_pred(has_key(key_of, bucket.key@), 0);
            assert(key_of(own[0]) == bucket.key@);
            assert(bucket.key@[0] is Some);
        }
        let first = &rows[bucket.members[0]];
        let resource_id = column(&bucket.key, 0);
        proof {
            assert(key1(resource_id@) =~= bucket.key@);
        }
        res.push(
            ResourceTerms {
                resource_id,
                resource_name: order::clone_text(&first.resource_name),
                service: service_of(first).to_owned(),
                terms: copy_amounts(&bucket.terms),
            },
        );
        i = i + 1;
    }
    proof {
        assert(res@.map_values(|r: ResourceTerms| key1(r.resource_id@)) =~= bucket_keys(buckets@));
        assert(res@.map_values(|r: ResourceTerms| r.terms@) =~= bucket_terms(buckets@));
    }
    res
}

} // verus!
