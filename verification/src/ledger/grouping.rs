//! What each grouping of the ledger tells apart, in terms of the rows' own
//! columns.
use vstd::prelude::*;

use super::buckets;
use super::buckets::{
    Grouping, ResourceTerms, ServiceDayTerms, ServiceTagTerms, ServiceTerms, UntaggedServiceTerms,
};
use super::compare;
use super::compare::TwoSided;
use super::ranked;
use super::scope;
use crate::amount::Amount;
use crate::calendar;
use crate::memory;
use crate::memory::NormalizedRow;
use crate::model::{BreakdownDim, ChargeCategory};
use crate::order;

verus! {

// ==================== One column ====================

/// Having a text in a column.
pub open spec fn with_text(
    column: spec_fn(NormalizedRow) -> Seq<char>,
    text: Seq<char>,
) -> spec_fn(NormalizedRow) -> bool {
    |row: NormalizedRow| column(row) == text
}

/// Being billed in a period, with a text in a column.
pub open spec fn billed_with_text(
    billing_period: Seq<char>,
    column: spec_fn(NormalizedRow) -> Seq<char>,
    text: Seq<char>,
) -> spec_fn(NormalizedRow) -> bool {
    |row: NormalizedRow| row.billing_period@ == billing_period && column(row) == text
}

/// A breakdown has a bucket of a name.
pub open spec fn names(buckets: Seq<(String, Vec<Amount>)>, text: Seq<char>) -> bool {
    exists|b: int| 0 <= b < buckets.len() && (#[trigger] buckets[b]).0@ == text
}

/// A breakdown splits rows by a column: one bucket per text that occurs in the
/// column, named after it, with the billed amounts of just the rows that have
/// that text, in ledger order.
pub open spec fn splits_by(
    buckets: Seq<(String, Vec<Amount>)>,
    rows: Seq<NormalizedRow>,
    column: spec_fn(NormalizedRow) -> Seq<char>,
) -> bool {
    &&& forall|b: int|
        #![trigger buckets[b]]
        0 <= b < buckets.len() ==> {
            let own = rows.filter(with_text(column, buckets[b].0@));
            own.len() > 0 && buckets[b].1@ == scope::base_amounts(own)
        }
    &&& forall|i: int, j: int|
        #![trigger buckets[i], buckets[j]]
        0 <= i < j < buckets.len() ==> order::text_lt(buckets[i].0@, buckets[j].0@)
            && buckets[i].0@ != buckets[j].0@
    &&& forall|r: int|
        #![trigger rows[r]]
        0 <= r < rows.len() ==> names(buckets, column(rows[r]))
}

proof fn lemma_one_column(a: Seq<char>, b: Seq<char>)
    ensures
        buckets::key1(a) == buckets::key1(b) <==> a == b,
        order::key_lt(buckets::key1(a), buckets::key1(b)) ==> order::text_lt(a, b) && a != b,
{
    assert(buckets::key1(a)[0] == Some(a) && buckets::key1(b)[0] == Some(b));
    if order::key_lt(buckets::key1(a), buckets::key1(b)) {
        let k = choose|k: int| order::key_splits_at(buckets::key1(a), buckets::key1(b), k);
        assert(k == 0);
        order::lemma_key_lt_asymmetric(buckets::key1(a), buckets::key1(b));
    }
}

proof fn lemma_splits_by(
    named: Seq<(String, Vec<Amount>)>,
    rows: Seq<NormalizedRow>,
    grouping: Grouping,
    column: spec_fn(NormalizedRow) -> Seq<char>,
)
    requires
        buckets::named_by(named, rows, grouping),
        forall|row: NormalizedRow| #[trigger]
            buckets::bucket_key(grouping, row) == buckets::key1(column(row)),
    ensures
        splits_by(named, rows, column),
{
    let keys = buckets::named_keys(named);
    let key_of = buckets::keyed(grouping);
    assert forall|b: int| #![trigger named[b]] 0 <= b < named.len() implies ({
        let own = rows.filter(with_text(column, named[b].0@));
        own.len() > 0 && named[b].1@ == scope::base_amounts(own)
    }) by {
        let test = with_text(column, named[b].0@);
        assert(buckets::bucket_rows(rows, key_of, keys[b]).len() > 0);
        assert(buckets::named_terms(named)[b] == named[b].1@);
        assert forall|row: NormalizedRow| #[trigger]
            buckets::has_key(key_of, keys[b])(row) == test(row) by {
            assert(key_of(row) == buckets::bucket_key(grouping, row));
            lemma_one_column(column(row), named[b].0@);
        }
        assert(buckets::has_key(key_of, keys[b]) =~= test);
    }
    assert forall|i: int, j: int|
        #![trigger named[i], named[j]]
        0 <= i < j < named.len() implies order::text_lt(named[i].0@, named[j].0@) && named[i].0@
        != named[j].0@ by {
        assert(order::key_lt(keys[i], keys[j]));
        lemma_one_column(named[i].0@, named[j].0@);
    }
    assert forall|r: int| #![trigger rows[r]] 0 <= r < rows.len() implies names(
        named,
        column(rows[r]),
    ) by {
        assert(keys.contains(key_of(rows[r])));
        let b = choose|b: int| 0 <= b < keys.len() && keys[b] == key_of(rows[r]);
        assert(buckets::bucket_key(grouping, rows[r]) == buckets::key1(column(rows[r])));
        lemma_one_column(named[b].0@, column(rows[r]));
        assert(named[b].0@ == column(rows[r]));
    }
}

/// A breakdown by service goes by the rows' service names alone; rows that name
/// none stand under "Other".
pub proof fn a_breakdown_by_service(named: Seq<(String, Vec<Amount>)>, rows: Seq<NormalizedRow>)
    requires
        buckets::named_by(named, rows, Grouping::Dim(BreakdownDim::Service)),
    ensures
        splits_by(
            named,
            rows,
            |row: NormalizedRow|
                match row.service_name {
                    Some(name) => name@,
                    None => "Other"@,
                },
        ),
{
    lemma_splits_by(
        named,
        rows,
        Grouping::Dim(BreakdownDim::Service),
        |row: NormalizedRow|
            match row.service_name {
                Some(name) => name@,
                None => "Other"@,
            },
    );
}

/// A breakdown by region goes by the rows' regions alone; rows that name none
/// stand under "Other".
pub proof fn a_breakdown_by_region(named: Seq<(String, Vec<Amount>)>, rows: Seq<NormalizedRow>)
    requires
        buckets::named_by(named, rows, Grouping::Dim(BreakdownDim::Region)),
    ensures
        splits_by(
            named,
            rows,
            |row: NormalizedRow|
                match row.region_id {
                    Some(name) => name@,
                    None => "Other"@,
                },
        ),
{
    lemma_splits_by(
        named,
        rows,
        Grouping::Dim(BreakdownDim::Region),
        |row: NormalizedRow|
            match row.region_id {
                Some(name) => name@,
                None => "Other"@,
            },
    );
}

/// A breakdown by service category goes by the rows' service categories alone,
/// whatever their services are; rows without one stand under "Other".
pub proof fn a_breakdown_by_service_category(
    named: Seq<(String, Vec<Amount>)>,
    rows: Seq<NormalizedRow>,
)
    requires
        buckets::named_by(named, rows, Grouping::Dim(BreakdownDim::ServiceCategory)),
    ensures
        splits_by(
            named,
            rows,
            |row: NormalizedRow|
                match row.service_category {
                    Some(name) => name@,
                    None => "Other"@,
                },
        ),
{
    lemma_splits_by(
        named,
        rows,
        Grouping::Dim(BreakdownDim::ServiceCategory),
        |row: NormalizedRow|
            match row.service_category {
                Some(name) => name@,
                None => "Other"@,
            },
    );
}

/// Two rows share the bucket of a dimension exactly where they agree in its
/// column: both name the same text there, or one names none and the other names
/// none or "Other".
pub proof fn rows_share_a_dimension(one: NormalizedRow, other: NormalizedRow)
    requires
        one.service_name is Some && other.service_name is Some,
        one.region_id is Some && other.region_id is Some,
        one.service_category is Some && other.service_category is Some,
    ensures
        buckets::dim_name(one, BreakdownDim::Service) == buckets::dim_name(
            other,
            BreakdownDim::Service,
        ) <==> one.service_name->0@ == other.service_name->0@,
        buckets::dim_name(one, BreakdownDim::Region) == buckets::dim_name(
            other,
            BreakdownDim::Region,
        ) <==> one.region_id->0@ == other.region_id->0@,
        buckets::dim_name(one, BreakdownDim::ServiceCategory) == buckets::dim_name(
            other,
            BreakdownDim::ServiceCategory,
        ) <==> one.service_category->0@ == other.service_category->0@,
{
}

/// The text a charge category goes by.
proof fn lemma_category_names()
    ensures
        forall|a: ChargeCategory, b: ChargeCategory| #[trigger]
            a.name() == #[trigger] b.name() <==> a == b,
{
    reveal_strlit("Usage");
    reveal_strlit("Credit");
    reveal_strlit("Adjustment");
    reveal_strlit("Purchase");
    reveal_strlit("Tax");
    assert("Usage"@.len() == 5 && "Credit"@.len() == 6 && "Adjustment"@.len() == 10
        && "Purchase"@.len() == 8 && "Tax"@.len() == 3);
}

/// A breakdown by charge category tells the categories apart and nothing else:
/// each of the five stands under its own name, with the billed amounts of just
/// the rows of that category.
pub proof fn a_breakdown_by_category(named: Seq<(String, Vec<Amount>)>, rows: Seq<NormalizedRow>)
    requires
        buckets::named_by(named, rows, Grouping::Category),
    ensures
        splits_by(
            named,
            rows,
            |row: NormalizedRow|
                match row.charge_category {
                    ChargeCategory::Usage => "Usage"@,
                    ChargeCategory::Credit => "Credit"@,
                    ChargeCategory::Adjustment => "Adjustment"@,
                    ChargeCategory::Purchase => "Purchase"@,
                    ChargeCategory::Tax => "Tax"@,
                },
        ),
{
    lemma_splits_by(
        named,
        rows,
        Grouping::Category,
        |row: NormalizedRow|
            match row.charge_category {
                ChargeCategory::Usage => "Usage"@,
                ChargeCategory::Credit => "Credit"@,
                ChargeCategory::Adjustment => "Adjustment"@,
                ChargeCategory::Purchase => "Purchase"@,
                ChargeCategory::Tax => "Tax"@,
            },
    );
}

/// Two rows share a bucket of the breakdown by charge category exactly where
/// their categories are equal, whatever their other columns hold.
pub proof fn rows_share_a_category(one: NormalizedRow, other: NormalizedRow)
    ensures
        buckets::bucket_key(Grouping::Category, one) == buckets::bucket_key(
            Grouping::Category,
            other,
        ) <==> one.charge_category == other.charge_category,
{
    lemma_category_names();
    lemma_one_column(one.charge_category.name(), other.charge_category.name());
}

/// A breakdown by day goes by the calendar day that a row's charge starts on.
pub proof fn a_breakdown_by_day(named: Seq<(String, Vec<Amount>)>, rows: Seq<NormalizedRow>)
    requires
        buckets::named_by(named, rows, Grouping::Day),
    ensures
        splits_by(
            named,
            rows,
            |row: NormalizedRow| calendar::day_label(calendar::civil(
                row.charge_period_start.seconds as int / 86_400,
            )),
        ),
{
    lemma_splits_by(
        named,
        rows,
        Grouping::Day,
        |row: NormalizedRow| calendar::day_label(calendar::civil(
            row.charge_period_start.seconds as int / 86_400,
        )),
    );
}

/// A breakdown by billing period goes by the period the ledger stores a row
/// under, not by the month its charge starts in.
pub proof fn a_breakdown_by_period(named: Seq<(String, Vec<Amount>)>, rows: Seq<NormalizedRow>)
    requires
        buckets::named_by(named, rows, Grouping::Period),
    ensures
        splits_by(named, rows, |row: NormalizedRow| row.billing_period@),
{
    lemma_splits_by(named, rows, Grouping::Period, |row: NormalizedRow| row.billing_period@);
}

/// A breakdown by month of charge goes by the month a row's charge starts in, not
/// by the period the ledger stores it under.
pub proof fn a_breakdown_by_charge_month(
    named: Seq<(String, Vec<Amount>)>,
    rows: Seq<NormalizedRow>,
)
    requires
        buckets::named_by(named, rows, Grouping::ChargeMonth),
    ensures
        splits_by(
            named,
            rows,
            |row: NormalizedRow|
                {
                    let day = calendar::civil(row.charge_period_start.seconds as int / 86_400);
                    calendar::month_label(day.year as int, day.month as int)
                },
        ),
{
    lemma_splits_by(
        named,
        rows,
        Grouping::ChargeMonth,
        |row: NormalizedRow|
            {
                let day = calendar::civil(row.charge_period_start.seconds as int / 86_400);
                calendar::month_label(day.year as int, day.month as int)
            },
    );
}

/// The value a row has for a tag, by the text that `serde_json` finds in its
/// tags; "Unallocated" where it finds none or an empty one.
pub open spec fn tag_text(row: NormalizedRow, tag_key: Seq<char>) -> Seq<char> {
    if row.tags is Some && memory::json_member(row.tags->0@, tag_key) is Some
        && memory::json_member(row.tags->0@, tag_key)->0.len() > 0 {
        memory::json_member(row.tags->0@, tag_key)->0
    } else {
        "Unallocated"@
    }
}

/// A breakdown by a tag goes by the rows' values for that tag; rows without one
/// stand under "Unallocated".
pub proof fn a_breakdown_by_tag(
    named: Seq<(String, Vec<Amount>)>,
    rows: Seq<NormalizedRow>,
    tag_key: &str,
)
    requires
        buckets::named_by(named, rows, Grouping::Tag(tag_key)),
    ensures
        splits_by(named, rows, |row: NormalizedRow| tag_text(row, tag_key@)),
{
    lemma_splits_by(
        named,
        rows,
        Grouping::Tag(tag_key),
        |row: NormalizedRow| tag_text(row, tag_key@),
    );
}

// ==================== Several columns ====================

/// The text of a column that may be empty.
pub open spec fn or_other(value: Option<String>) -> Seq<char> {
    if value is Some {
        value->0@
    } else {
        "Other"@
    }
}

proof fn lemma_distinct_keys(keys: Seq<Seq<order::Part>>)
    requires
        order::ascending(keys),
    ensures
        forall|i: int, j: int|
            #![trigger keys[i], keys[j]]
            0 <= i < j < keys.len() ==> keys[i] != keys[j],
{
    assert forall|i: int, j: int|
        #![trigger keys[i], keys[j]]
        0 <= i < j < keys.len() implies keys[i] != keys[j] by {
        assert(order::key_lt(keys[i], keys[j]));
        order::lemma_key_lt_asymmetric(keys[i], keys[j]);
    }
}

proof fn lemma_columns(key: Seq<order::Part>, other: Seq<order::Part>)
    requires
        key.len() == other.len() <= 3,
    ensures
        key == other <==> {
            &&& key.len() > 0 ==> key[0] == other[0]
            &&& key.len() > 1 ==> key[1] == other[1]
            &&& key.len() > 2 ==> key[2] == other[2]
        },
{
    if (key.len() > 0 ==> key[0] == other[0]) && (key.len() > 1 ==> key[1] == other[1]) && (
    key.len() > 2 ==> key[2] == other[2]) {
        assert(key =~= other);
    }
}

/// A service of a provider is listed.
pub open spec fn names_service(
    services: Seq<ServiceTerms>,
    provider: Seq<char>,
    service: Seq<char>,
) -> bool {
    exists|b: int|
        0 <= b < services.len() && (#[trigger] services[b]).provider@ == provider
            && services[b].service@ == service
}

/// Being a charge of a service of a provider.
pub open spec fn of_service(
    provider: Seq<char>,
    service: Seq<char>,
) -> spec_fn(NormalizedRow) -> bool {
    |row: NormalizedRow| row.provider@ == provider && or_other(row.service_name) == service
}

/// A breakdown splits rows by provider and service: one entry per pair that occurs,
/// with the billed amounts of just its rows.
pub open spec fn splits_by_service(
    services: Seq<ServiceTerms>,
    rows: Seq<NormalizedRow>,
) -> bool {
    &&& forall|b: int|
        #![trigger services[b]]
        0 <= b < services.len() ==> services[b].terms@ == scope::base_amounts(
            rows.filter(of_service(services[b].provider@, services[b].service@)),
        )
    &&& forall|i: int, j: int|
        #![trigger services[i], services[j]]
        0 <= i < j < services.len() ==> services[i].provider@ != services[j].provider@
            || services[i].service@ != services[j].service@
    &&& forall|r: int|
        #![trigger rows[r]]
        0 <= r < rows.len() ==> names_service(
            services,
            rows[r].provider@,
            or_other(rows[r].service_name),
        )
}

/// A breakdown by provider and service goes by those two columns of the rows.
pub proof fn a_breakdown_by_provider_and_service(
    services: Seq<ServiceTerms>,
    rows: Seq<NormalizedRow>,
)
    requires
        buckets::services_by(services, rows),
    ensures
        splits_by_service(services, rows),
{
    let keys = services.map_values(|b: ServiceTerms| buckets::key2(b.provider@, b.service@));
    let terms = services.map_values(|b: ServiceTerms| b.terms@);
    let key_of = buckets::keyed(Grouping::ProviderService);
    lemma_distinct_keys(keys);
    assert forall|b: int|
        #![trigger services[b]]
        0 <= b < services.len() implies services[b].terms@ == scope::base_amounts(
        rows.filter(of_service(services[b].provider@, services[b].service@)),
    ) by {
        let test = of_service(services[b].provider@, services[b].service@);
        assert(buckets::bucket_rows(rows, key_of, keys[b]).len() > 0);
        assert(terms[b] == services[b].terms@);
        assert forall|row: NormalizedRow| #[trigger]
            buckets::has_key(key_of, keys[b])(row) == test(row) by {
            lemma_columns(key_of(row), keys[b]);
        }
        assert(buckets::has_key(key_of, keys[b]) =~= test);
    }
    assert forall|i: int, j: int|
        #![trigger services[i], services[j]]
        0 <= i < j < services.len() implies services[i].provider@ != services[j].provider@
        || services[i].service@ != services[j].service@ by {
        assert(keys[i] != keys[j]);
    }
    assert forall|r: int| #![trigger rows[r]] 0 <= r < rows.len() implies names_service(
        services,
        rows[r].provider@,
        or_other(rows[r].service_name),
    ) by {
        assert(keys.contains(key_of(rows[r])));
        let b = choose|b: int| 0 <= b < keys.len() && keys[b] == key_of(rows[r]);
        lemma_columns(key_of(rows[r]), keys[b]);
        assert(services[b].provider@ == rows[r].provider@);
    }
}

/// Being a charge of a service of a provider with a value for a tag.
pub open spec fn of_service_and_tag(
    provider: Seq<char>,
    service: Seq<char>,
    tag_key: Seq<char>,
    value: Seq<char>,
) -> spec_fn(NormalizedRow) -> bool {
    |row: NormalizedRow|
        row.provider@ == provider && or_other(row.service_name) == service && tag_text(
            row,
            tag_key,
        ) == value
}

/// A service of a provider is listed with a tag value.
pub open spec fn names_tag(
    tagged: Seq<ServiceTagTerms>,
    provider: Seq<char>,
    service: Seq<char>,
    value: Seq<char>,
) -> bool {
    exists|b: int|
        0 <= b < tagged.len() && (#[trigger] tagged[b]).provider@ == provider
            && tagged[b].service@ == service && tagged[b].tag_value@ == value
}

/// A breakdown splits rows by provider, service and the value for a tag: one entry
/// per triple that occurs, with the billed amounts of just its rows.
pub open spec fn splits_by_service_and_tag(
    tagged: Seq<ServiceTagTerms>,
    rows: Seq<NormalizedRow>,
    tag_key: Seq<char>,
) -> bool {
    &&& forall|b: int|
        #![trigger tagged[b]]
        0 <= b < tagged.len() ==> tagged[b].terms@ == scope::base_amounts(
            rows.filter(
                of_service_and_tag(
                    tagged[b].provider@,
                    tagged[b].service@,
                    tag_key,
                    tagged[b].tag_value@,
                ),
            ),
        )
    &&& forall|i: int, j: int|
        #![trigger tagged[i], tagged[j]]
        0 <= i < j < tagged.len() ==> tagged[i].provider@ != tagged[j].provider@
            || tagged[i].service@ != tagged[j].service@ || tagged[i].tag_value@
            != tagged[j].tag_value@
    &&& forall|r: int|
        #![trigger rows[r]]
        0 <= r < rows.len() ==> names_tag(
            tagged,
            rows[r].provider@,
            or_other(rows[r].service_name),
            tag_text(rows[r], tag_key),
        )
}

/// A breakdown by provider, service and tag goes by those columns of the rows and
/// their values for the tag.
pub proof fn a_breakdown_by_service_and_tag(
    tagged: Seq<ServiceTagTerms>,
    rows: Seq<NormalizedRow>,
    tag_key: &str,
)
    requires
        buckets::service_tags_by(tagged, rows, tag_key),
    ensures
        splits_by_service_and_tag(tagged, rows, tag_key@),
{
    let keys = tagged.map_values(
        |b: ServiceTagTerms| buckets::key3(b.provider@, b.service@, b.tag_value@),
    );
    let terms = tagged.map_values(|b: ServiceTagTerms| b.terms@);
    let key_of = buckets::keyed(Grouping::ProviderServiceTag(tag_key));
    lemma_distinct_keys(keys);
    assert forall|b: int|
        #![trigger tagged[b]]
        0 <= b < tagged.len() implies tagged[b].terms@ == scope::base_amounts(
        rows.filter(of_service_and_tag(
            tagged[b].provider@,
            tagged[b].service@,
            tag_key@,
            tagged[b].tag_value@,
        )),
    ) by {
        let test = of_service_and_tag(
            tagged[b].provider@,
            tagged[b].service@,
            tag_key@,
            tagged[b].tag_value@,
        );
        assert(buckets::bucket_rows(rows, key_of, keys[b]).len() > 0);
        assert(terms[b] == tagged[b].terms@);
        assert forall|row: NormalizedRow| #[trigger]
            buckets::has_key(key_of, keys[b])(row) == test(row) by {
            lemma_columns(key_of(row), keys[b]);
        }
        assert(buckets::has_key(key_of, keys[b]) =~= test);
    }
    assert forall|i: int, j: int|
        #![trigger tagged[i], tagged[j]]
        0 <= i < j < tagged.len() implies tagged[i].provider@ != tagged[j].provider@
        || tagged[i].service@ != tagged[j].service@ || tagged[i].tag_value@
        != tagged[j].tag_value@ by {
        assert(keys[i] != keys[j]);
    }
    assert forall|r: int| #![trigger rows[r]] 0 <= r < rows.len() implies names_tag(
        tagged,
        rows[r].provider@,
        or_other(rows[r].service_name),
        tag_text(rows[r], tag_key@),
    ) by {
        assert(keys.contains(key_of(rows[r])));
        let b = choose|b: int| 0 <= b < keys.len() && keys[b] == key_of(rows[r]);
        lemma_columns(key_of(rows[r]), keys[b]);
        assert(tagged[b].provider@ == rows[r].provider@);
    }
}

/// A breakdown by provider and the service named keeps the rows that name no
/// service in an entry of their own, apart from a service called "Other".
pub proof fn a_breakdown_by_named_service(
    services: Seq<UntaggedServiceTerms>,
    rows: Seq<NormalizedRow>,
)
    requires
        buckets::untagged_services_by(services, rows),
    ensures
        forall|b: int|
            #![trigger services[b]]
            0 <= b < services.len() ==> services[b].terms@ == scope::base_amounts(
                rows.filter(
                    |row: NormalizedRow|
                        row.provider@ == services[b].provider@ && order::part_view(
                            row.service_name,
                        ) == order::part_view(services[b].service),
                ),
            ),
        forall|r: int|
            #![trigger rows[r]]
            0 <= r < rows.len() ==> exists|b: int|
                0 <= b < services.len() && (#[trigger] services[b]).provider@ == rows[r].provider@
                    && order::part_view(services[b].service) == order::part_view(
                    rows[r].service_name,
                ),
{
    let keys = services.map_values(
        |b: UntaggedServiceTerms| seq![Some(b.provider@), order::part_view(b.service)],
    );
    let terms = services.map_values(|b: UntaggedServiceTerms| b.terms@);
    let key_of = buckets::keyed(Grouping::ProviderNamedService);
    assert forall|b: int|
        #![trigger services[b]]
        0 <= b < services.len() implies services[b].terms@ == scope::base_amounts(
        rows.filter(
            |row: NormalizedRow|
                row.provider@ == services[b].provider@ && order::part_view(row.service_name)
                    == order::part_view(services[b].service),
        ),
    ) by {
        let test = |row: NormalizedRow|
            row.provider@ == services[b].provider@ && order::part_view(row.service_name)
                == order::part_view(services[b].service);
        assert(buckets::bucket_rows(rows, key_of, keys[b]).len() > 0);
        assert(terms[b] == services[b].terms@);
        assert forall|row: NormalizedRow| #[trigger]
            buckets::has_key(key_of, keys[b])(row) == test(row) by {
            lemma_columns(key_of(row), keys[b]);
        }
        assert(buckets::has_key(key_of, keys[b]) =~= test);
    }
    assert forall|r: int| #![trigger rows[r]] 0 <= r < rows.len() implies exists|b: int|
        0 <= b < services.len() && (#[trigger] services[b]).provider@ == rows[r].provider@
            && order::part_view(services[b].service) == order::part_view(
            rows[r].service_name,
        ) by {
        assert(keys.contains(key_of(rows[r])));
        let b = choose|b: int| 0 <= b < keys.len() && keys[b] == key_of(rows[r]);
        lemma_columns(key_of(rows[r]), keys[b]);
        assert(services[b].provider@ == rows[r].provider@);
    }
}

/// A daily breakdown by service goes by the day a charge starts on, its provider
/// and its service, and lists the days in their order.
pub proof fn a_breakdown_by_day_and_service(days: Seq<ServiceDayTerms>, rows: Seq<NormalizedRow>)
    requires
        buckets::service_days_by(days, rows),
    ensures
        forall|b: int|
            #![trigger days[b]]
            0 <= b < days.len() ==> days[b].terms@ == scope::base_amounts(
                rows.filter(
                    |row: NormalizedRow|
                        calendar::day_label(
                            calendar::civil(row.charge_period_start.seconds as int / 86_400),
                        ) == days[b].day@ && row.provider@ == days[b].provider@ && or_other(
                            row.service_name,
                        ) == days[b].service@,
                ),
            ),
        forall|r: int|
            #![trigger rows[r]]
            0 <= r < rows.len() ==> exists|b: int|
                0 <= b < days.len() && (#[trigger] days[b]).provider@ == rows[r].provider@
                    && days[b].service@ == or_other(rows[r].service_name) && days[b].day@
                    == calendar::day_label(
                    calendar::civil(rows[r].charge_period_start.seconds as int / 86_400),
                ),
{
    let keys = days.map_values(|b: ServiceDayTerms| buckets::key3(b.day@, b.provider@, b.service@));
    let terms = days.map_values(|b: ServiceDayTerms| b.terms@);
    let key_of = buckets::keyed(Grouping::DayProviderService);
    assert forall|b: int|
        #![trigger days[b]]
        0 <= b < days.len() implies days[b].terms@ == scope::base_amounts(
        rows.filter(
            |row: NormalizedRow|
                calendar::day_label(
                    calendar::civil(row.charge_period_start.seconds as int / 86_400),
                ) == days[b].day@ && row.provider@ == days[b].provider@ && or_other(
                    row.service_name,
                ) == days[b].service@,
        ),
    ) by {
        let test = |row: NormalizedRow|
            calendar::day_label(
                calendar::civil(row.charge_period_start.seconds as int / 86_400),
            ) == days[b].day@ && row.provider@ == days[b].provider@ && or_other(
                row.service_name,
            ) == days[b].service@;
        assert(buckets::bucket_rows(rows, key_of, keys[b]).len() > 0);
        assert(terms[b] == days[b].terms@);
        assert forall|row: NormalizedRow| #[trigger]
            buckets::has_key(key_of, keys[b])(row) == test(row) by {
            lemma_columns(key_of(row), keys[b]);
        }
        assert(buckets::has_key(key_of, keys[b]) =~= test);
    }
    assert forall|r: int| #![trigger rows[r]] 0 <= r < rows.len() implies exists|b: int|
        0 <= b < days.len() && (#[trigger] days[b]).provider@ == rows[r].provider@
            && days[b].service@ == or_other(rows[r].service_name) && days[b].day@
            == calendar::day_label(
            calendar::civil(rows[r].charge_period_start.seconds as int / 86_400),
        ) by {
        assert(keys.contains(key_of(rows[r])));
        let b = choose|b: int| 0 <= b < keys.len() && keys[b] == key_of(rows[r]);
        lemma_columns(key_of(rows[r]), keys[b]);
        assert(days[b].provider@ == rows[r].provider@);
    }
}

/// The costliest resources go by the rows' resource ids: one entry per id, with
/// the billed amounts of just its rows, and called what the first of those rows
/// calls it.
pub proof fn a_breakdown_by_resource(resources: Seq<ResourceTerms>, rows: Seq<NormalizedRow>)
    requires
        ranked::resources_by(resources, rows),
    ensures
        forall|b: int|
            #![trigger resources[b]]
            0 <= b < resources.len() ==> {
                let own = rows.filter(
                    |row: NormalizedRow|
                        row.resource_id is Some && row.resource_id->0@ == resources[b].resource_id@,
                );
                &&& own.len() > 0
                &&& resources[b].terms@ == scope::base_amounts(own)
                &&& resources[b].resource_name == own[0].resource_name
                &&& resources[b].service@ == or_other(own[0].service_name)
            },
{
    let keys = resources.map_values(|r: ResourceTerms| buckets::key1(r.resource_id@));
    let terms = resources.map_values(|r: ResourceTerms| r.terms@);
    let key_of = buckets::keyed(Grouping::Resource);
    let held = rows.filter(ranked::has_resource());
    assert forall|b: int| #![trigger resources[b]] 0 <= b < resources.len() implies ({
        let own = rows.filter(
            |row: NormalizedRow|
                row.resource_id is Some && row.resource_id->0@ == resources[b].resource_id@,
        );
        &&& own.len() > 0
        &&& resources[b].terms@ == scope::base_amounts(own)
        &&& resources[b].resource_name == own[0].resource_name
        &&& resources[b].service@ == or_other(own[0].service_name)
    }) by {
        let test = |row: NormalizedRow|
            row.resource_id is Some && row.resource_id->0@ == resources[b].resource_id@;
        assert(buckets::bucket_rows(held, key_of, keys[b]).len() > 0);
        assert(terms[b] == resources[b].terms@);
        assert forall|row: NormalizedRow| #[trigger]
            test(row) == (ranked::has_resource()(row) && buckets::has_key(key_of, keys[b])(
                row,
            )) by {
            lemma_columns(key_of(row), keys[b]);
        }
        super::laws::filters_combine(
            rows,
            ranked::has_resource(),
            buckets::has_key(key_of, keys[b]),
            test,
        );
    }
}

// ==================== Two periods ====================

/// A comparison of two periods splits both by a column: each entry holds, under
/// the text it is named after, the billed amounts of the current period's rows
/// and those of the previous period's rows that have that text.
pub open spec fn compares_by(
    sides: Seq<TwoSided>,
    rows: Seq<NormalizedRow>,
    billing_period: Seq<char>,
    previous: Seq<char>,
    column: spec_fn(NormalizedRow) -> Seq<char>,
) -> bool {
    &&& forall|b: int|
        #![trigger sides[b]]
        0 <= b < sides.len() ==> {
            &&& sides[b].current@ == scope::base_amounts(
                rows.filter(billed_with_text(billing_period, column, sides[b].name@)),
            )
            &&& billing_period != previous ==> sides[b].previous@ == scope::base_amounts(
                rows.filter(billed_with_text(previous, column, sides[b].name@)),
            )
            &&& billing_period == previous ==> sides[b].previous@.len() == 0
        }
    &&& forall|i: int, j: int|
        #![trigger sides[i], sides[j]]
        0 <= i < j < sides.len() ==> sides[i].name@ != sides[j].name@
    &&& forall|r: int|
        #![trigger rows[r]]
        0 <= r < rows.len() && (rows[r].billing_period@ == billing_period || rows[r].billing_period@
            == previous) ==> exists|b: int|
            0 <= b < sides.len() && (#[trigger] sides[b]).name@ == column(rows[r])
}

proof fn lemma_compares_by(
    sides: Seq<TwoSided>,
    rows: Seq<NormalizedRow>,
    billing_period: Seq<char>,
    previous: Seq<char>,
    grouping: Grouping,
    column: spec_fn(NormalizedRow) -> Seq<char>,
)
    requires
        compare::two_sided(sides, rows, billing_period, previous, grouping),
        forall|row: NormalizedRow| #[trigger]
            buckets::bucket_key(grouping, row) == buckets::key1(column(row)),
    ensures
        compares_by(sides, rows, billing_period, previous, column),
{
    let keys = sides.map_values(|s: TwoSided| buckets::key1(s.name@));
    let key_of = buckets::keyed(grouping);
    let either = rows.filter(compare::billed_in_either(billing_period, previous));
    lemma_distinct_keys(keys);
    assert forall|b: int| #![trigger sides[b]] 0 <= b < sides.len() implies ({
        &&& sides[b].current@ == scope::base_amounts(
            rows.filter(billed_with_text(billing_period, column, sides[b].name@)),
        )
        &&& billing_period != previous ==> sides[b].previous@ == scope::base_amounts(
            rows.filter(billed_with_text(previous, column, sides[b].name@)),
        )
        &&& billing_period == previous ==> sides[b].previous@.len() == 0
    }) by {
        let now = billed_with_text(billing_period, column, sides[b].name@);
        let before = billed_with_text(previous, column, sides[b].name@);
        let test = buckets::has_key(key_of, keys[b]);
        assert forall|row: NormalizedRow| #[trigger] now(row) == (compare::billed_in(
            billing_period,
        )(row) && test(row)) by {
            assert(key_of(row) == buckets::bucket_key(grouping, row));
            lemma_one_column(column(row), sides[b].name@);
        }
        super::laws::filters_combine(rows, compare::billed_in(billing_period), test, now);
        if billing_period != previous {
            assert forall|row: NormalizedRow| #[trigger] before(row) == (compare::billed_before(
                billing_period,
                previous,
            )(row) && test(row)) by {
                assert(key_of(row) == buckets::bucket_key(grouping, row));
                lemma_one_column(column(row), sides[b].name@);
            }
            super::laws::filters_combine(
                rows,
                compare::billed_before(billing_period, previous),
                test,
                before,
            );
        } else {
            let none = |row: NormalizedRow| false;
            assert forall|row: NormalizedRow| #[trigger] none(row) == (compare::billed_before(
                billing_period,
                previous,
            )(row) && test(row)) by {}
            super::laws::filters_combine(
                rows,
                compare::billed_before(billing_period, previous),
                test,
                none,
            );
            let kept = rows.filter(none);
            if kept.len() > 0 {
                rows.lemma_filter_pred(none, 0);
            }
            assert(kept =~= Seq::empty());
        }
    }
    assert forall|i: int, j: int|
        #![trigger sides[i], sides[j]]
        0 <= i < j < sides.len() implies sides[i].name@ != sides[j].name@ by {
        assert(keys[i] != keys[j]);
    }
    assert forall|r: int|
        #![trigger rows[r]]
        0 <= r < rows.len() && (rows[r].billing_period@ == billing_period || rows[r].billing_period@
            == previous) implies exists|b: int|
        0 <= b < sides.len() && (#[trigger] sides[b]).name@ == column(rows[r]) by {
        let test = compare::billed_in_either(billing_period, previous);
        rows.lemma_filter_contains(test, r);
        let e = choose|e: int| 0 <= e < either.len() && either[e] == rows[r];
        assert(keys.contains(key_of(either[e])));
        let b = choose|b: int| 0 <= b < keys.len() && keys[b] == key_of(rows[r]);
        assert(buckets::bucket_key(grouping, rows[r]) == buckets::key1(column(rows[r])));
        lemma_one_column(sides[b].name@, column(rows[r]));
        assert(sides[b].name@ == column(rows[r]));
    }
}

/// What a cost change is decomposed from: the two periods split by charge
/// category, each of the five under its own name, and split by service.
pub proof fn a_change_is_split_by_category_and_service(
    by_category: Seq<TwoSided>,
    by_service: Seq<TwoSided>,
    rows: Seq<NormalizedRow>,
    billing_period: Seq<char>,
    previous: Seq<char>,
)
    requires
        compare::two_sided(by_category, rows, billing_period, previous, Grouping::Category),
        compare::two_sided(
            by_service,
            rows,
            billing_period,
            previous,
            Grouping::Dim(BreakdownDim::Service),
        ),
    ensures
        compares_by(
            by_category,
            rows,
            billing_period,
            previous,
            |row: NormalizedRow|
                match row.charge_category {
                    ChargeCategory::Usage => "Usage"@,
                    ChargeCategory::Credit => "Credit"@,
                    ChargeCategory::Adjustment => "Adjustment"@,
                    ChargeCategory::Purchase => "Purchase"@,
                    ChargeCategory::Tax => "Tax"@,
                },
        ),
        compares_by(
            by_service,
            rows,
            billing_period,
            previous,
            |row: NormalizedRow|
                match row.service_name {
                    Some(name) => name@,
                    None => "Other"@,
                },
        ),
{
    lemma_compares_by(
        by_category,
        rows,
        billing_period,
        previous,
        Grouping::Category,
        |row: NormalizedRow|
            match row.charge_category {
                ChargeCategory::Usage => "Usage"@,
                ChargeCategory::Credit => "Credit"@,
                ChargeCategory::Adjustment => "Adjustment"@,
                ChargeCategory::Purchase => "Purchase"@,
                ChargeCategory::Tax => "Tax"@,
            },
    );
    lemma_compares_by(
        by_service,
        rows,
        billing_period,
        previous,
        Grouping::Dim(BreakdownDim::Service),
        |row: NormalizedRow|
            match row.service_name {
                Some(name) => name@,
                None => "Other"@,
            },
    );
}

} // verus!
