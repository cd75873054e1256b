//! What the columns of the attribution diagram carry: the same usage, none of it
//! lost where services merge.
use vstd::prelude::*;

use super::attribution;
use super::attribution::{SankeyData, SankeyNode, SankeyPlan};
use super::flows;
use super::flows::{MergedTotals, ServiceFlow, SourceFlows};
use crate::amount::Amount;
use crate::ledger::buckets;
use crate::ledger::buckets::{Grouping, ServiceTagTerms, ServiceTerms};
use crate::ledger::laws;
use crate::ledger::ranked;
use crate::ledger::scope;
use crate::list;
use crate::memory::NormalizedRow;
use crate::model::ServiceTagUsage;
use crate::order;

verus! {

// ==================== Merging keeps every business line ====================

/// What a flow brings the business lines.
pub open spec fn brought_by() -> spec_fn(ServiceFlow) -> vstd::multiset::Multiset<Amount> {
    |flow: ServiceFlow| ranked::named_amounts(flow.lines@).to_multiset()
}

/// What was gathered under a name.
pub open spec fn gathered_under() -> spec_fn(
    (String, Vec<Amount>),
) -> vstd::multiset::Multiset<Amount> {
    |group: (String, Vec<Amount>)| group.1@.to_multiset()
}

/// What the flows of a source bring the business lines, its own and the merged
/// ones together.
pub open spec fn brought_by_source() -> spec_fn(SourceFlows) -> vstd::multiset::Multiset<Amount> {
    |source: SourceFlows|
        list::pooled(source.own@, brought_by()).add(
            list::pooled(source.merged_lines@, gathered_under()),
        )
}

/// What a service of a source brings the business lines.
pub open spec fn brought_by_service(
    tags: Seq<ServiceTagUsage>,
    provider: Seq<char>,
) -> spec_fn((String, Amount)) -> vstd::multiset::Multiset<Amount> {
    |service: (String, Amount)|
        ranked::named_amounts(flows::lines_of(tags, provider, service.0@)).to_multiset()
}

/// What a service brings the business lines.
pub open spec fn brought_by_any(tags: Seq<ServiceTagUsage>) -> spec_fn(
    (String, String, Amount),
) -> vstd::multiset::Multiset<Amount> {
    |service: (String, String, Amount)|
        ranked::named_amounts(flows::lines_of(tags, service.0@, service.1@)).to_multiset()
}

proof fn lemma_gathered_parts(
    groups: Seq<(String, Vec<Amount>)>,
    items: Seq<(String, Amount)>,
    count: int,
)
    requires
        flows::gathered(groups, items),
        0 <= count <= groups.len(),
    ensures
        list::pooled(groups.take(count), gathered_under()) == list::collected(
            items,
            |i: (String, Amount)| i.0@,
            |i: (String, Amount)| i.1,
            flows::group_names(groups).map_values(|t: String| t@).take(count),
        ),
    decreases count,
{
    let keys = flows::group_names(groups).map_values(|t: String| t@);
    let key_of = |i: (String, Amount)| i.0@;
    let value_of = |i: (String, Amount)| i.1;
    if count > 0 {
        lemma_gathered_parts(groups, items, count - 1);
        assert(groups.take(count).drop_last() =~= groups.take(count - 1));
        assert(keys.take(count).drop_last() =~= keys.take(count - 1));
        let group = groups[count - 1];
        let test = list::keyed_as(key_of, keys[count - 1]);
        assert(test =~= flows::under_name(group.0@));
        assert(items.filter(test).map_values(value_of) =~= flows::amounts_under(items, group.0@));
    }
}

/// Gathering a list by name loses no amount and counts none twice.
pub proof fn gathering_keeps_every_amount(
    groups: Seq<(String, Vec<Amount>)>,
    items: Seq<(String, Amount)>,
)
    requires
        flows::gathered(groups, items),
    ensures
        list::pooled(groups, gathered_under()) == ranked::named_amounts(items).to_multiset(),
{
    let names = flows::group_names(groups);
    let keys = names.map_values(|t: String| t@);
    let key_of = |i: (String, Amount)| i.0@;
    let value_of = |i: (String, Amount)| i.1;
    order::lemma_ascending_once(names);
    assert forall|i: int| 0 <= i < items.len() implies keys.contains(
        key_of(#[trigger] items[i]),
    ) by {
        assert(flows::item_names(items)[i] == items[i].0);
        assert(order::lists(names, items[i].0@));
        let k = choose|k: int| 0 <= k < names.len() && (#[trigger] names[k])@ == items[i].0@;
        assert(keys[k] == items[i].0@);
    }
    list::splitting_keeps_every_item(items, key_of, value_of, keys);
    assert(items.map_values(value_of) =~= ranked::named_amounts(items));
    lemma_gathered_parts(groups, items, groups.len() as int);
    assert(groups.take(groups.len() as int) =~= groups);
    assert(keys.take(groups.len() as int) =~= keys);
}

proof fn lemma_lines_pooled(
    tags: Seq<ServiceTagUsage>,
    provider: Seq<char>,
    services: Seq<(String, Amount)>,
)
    ensures
        ranked::named_amounts(flows::lines_of_all(tags, provider, services)).to_multiset()
            == list::pooled(services, brought_by_service(tags, provider)),
    decreases services.len(),
{
    let lines = flows::lines_of_all(tags, provider, services);
    if services.len() == 0 {
        broadcast use vstd::seq_lib::group_to_multiset_ensures;

        assert(ranked::named_amounts(lines).to_multiset() =~= vstd::multiset::Multiset::empty());
    } else {
        lemma_lines_pooled(tags, provider, services.drop_last());
        let before = ranked::named_amounts(
            flows::lines_of_all(tags, provider, services.drop_last()),
        );
        let own = ranked::named_amounts(flows::lines_of(tags, provider, services.last().0@));
        assert(ranked::named_amounts(lines) =~= before + own);
        vstd::seq_lib::lemma_multiset_commutative(before, own);
    }
}

/// Merging services keeps every business-line amount: a source's own flows and
/// what it merges bring the business lines what its services do.
pub proof fn a_source_keeps_its_lines(
    source: SourceFlows,
    services: Seq<(String, String, Amount)>,
    tags: Seq<ServiceTagUsage>,
)
    requires
        flows::is_source(source, services, tags),
    ensures
        brought_by_source()(source) == list::pooled(
            flows::services_of(services, source.provider@),
            brought_by_service(tags, source.provider@),
        ),
{
    let provider = source.provider@;
    let part = brought_by_service(tags, provider);
    let own = flows::services_of(services, provider);
    let all = flows::ranked_services(services, provider);
    let keys = crate::amount::ranks_of(ranked::named_amounts(own));
    order::ranked_items_are_the_items(own, keys);
    list::pooling_ignores_order(all, own, part);
    let count = flows::own_count(all.len());
    assert forall|i: int| 0 <= i < source.own@.len() implies brought_by()(
        #[trigger] source.own@[i],
    ) == part(all.take(count)[i]) by {
        assert(flows::is_flow(source.own@[i], provider, all[i], tags));
    }
    list::pooling_agrees(source.own@, all.take(count), brought_by(), part);
    gathering_keeps_every_amount(
        source.merged_lines@,
        flows::lines_of_all(tags, provider, all.skip(count)),
    );
    lemma_lines_pooled(tags, provider, all.skip(count));
    assert(all.take(count) + all.skip(count) =~= all);
    list::pooling_splits(all.take(count), all.skip(count), part);
}

/// No service is listed twice.
pub open spec fn services_once(services: Seq<(String, String, Amount)>) -> bool {
    forall|i: int, j: int|
        #![trigger services[i], services[j]]
        0 <= i < j < services.len() ==> services[i].0@ != services[j].0@ || services[i].1@
            != services[j].1@
}

/// A service is listed.
pub open spec fn lists_service(
    services: Seq<(String, String, Amount)>,
    provider: Seq<char>,
    service: Seq<char>,
) -> bool {
    exists|s: int|
        0 <= s < services.len() && (#[trigger] services[s]).0@ == provider && services[s].1@
            == service
}

/// Every usage by business line is of a listed service.
pub open spec fn lines_listed(
    tags: Seq<ServiceTagUsage>,
    services: Seq<(String, String, Amount)>,
) -> bool {
    forall|t: int|
        0 <= t < tags.len() ==> lists_service(
            services,
            (#[trigger] tags[t]).provider@,
            tags[t].service@,
        )
}

/// The services bring the business lines every usage that is listed, each once.
proof fn lemma_services_bring_every_line(
    services: Seq<(String, String, Amount)>,
    tags: Seq<ServiceTagUsage>,
)
    requires
        services_once(services),
        lines_listed(tags, services),
    ensures
        list::pooled(services, brought_by_any(tags)) == ranked::tag_usage_amounts(
            tags,
        ).to_multiset(),
{
    let key_of = |t: ServiceTagUsage| (t.provider@, t.service@);
    let value_of = |t: ServiceTagUsage| t.amount;
    let part = |t: ServiceTagUsage| vstd::multiset::Multiset::singleton(value_of(t));
    let keys = services.map_values(|s: (String, String, Amount)| (s.0@, s.1@));
    assert(keys.no_duplicates()) by {
        assert forall|i: int, j: int|
            0 <= i < keys.len() && 0 <= j < keys.len() && i != j implies keys[i] != keys[j] by {
            if i < j {
                assert(services[i].0@ != services[j].0@ || services[i].1@ != services[j].1@);
            } else {
                assert(services[j].0@ != services[i].0@ || services[j].1@ != services[i].1@);
            }
        }
    }
    assert forall|t: int| 0 <= t < tags.len() implies keys.contains(
        key_of(#[trigger] tags[t]),
    ) by {
        assert(lists_service(services, tags[t].provider@, tags[t].service@));
        let s = choose|s: int|
            0 <= s < services.len() && (#[trigger] services[s]).0@ == tags[t].provider@
                && services[s].1@ == tags[t].service@;
        assert(keys[s] == key_of(tags[t]));
    }
    list::pooling_by_key_keeps_every_part(tags, key_of, part, keys);
    list::pooling_single_values(tags, value_of);
    assert(tags.map_values(value_of) =~= ranked::tag_usage_amounts(tags));
    assert forall|s: int| 0 <= s < services.len() implies brought_by_any(tags)(
        #[trigger] services[s],
    ) == list::pooled_under(tags, key_of, part)(keys[s]) by {
        let test = list::keyed_as(key_of, keys[s]);
        assert(test =~= flows::of_service(services[s].0@, services[s].1@));
        list::pooling_single_values(tags.filter(test), value_of);
        assert(tags.filter(test).map_values(value_of) =~= ranked::named_amounts(
            flows::lines_of(tags, services[s].0@, services[s].1@),
        ));
    }
    list::pooling_agrees(
        services,
        keys,
        brought_by_any(tags),
        list::pooled_under(tags, key_of, part),
    );
}

/// The flows of all sources bring the business lines every usage that is listed,
/// each once, whichever services merged.
pub proof fn merging_keeps_every_line(
    sources: Seq<SourceFlows>,
    services: Seq<(String, String, Amount)>,
    tags: Seq<ServiceTagUsage>,
)
    requires
        order::is_distinct(flows::source_names(sources), flows::provider_names(services)),
        forall|i: int|
            #![trigger sources[i]]
            0 <= i < sources.len() ==> flows::is_source(sources[i], services, tags),
        services_once(services),
        lines_listed(tags, services),
    ensures
        list::pooled(sources, brought_by_source()) == ranked::tag_usage_amounts(
            tags,
        ).to_multiset(),
{
    let key_of = |s: (String, String, Amount)| s.0@;
    let part = brought_by_any(tags);
    let names = flows::source_names(sources);
    let keys = names.map_values(|t: String| t@);
    order::lemma_ascending_once(names);
    assert forall|i: int| 0 <= i < services.len() implies keys.contains(
        key_of(#[trigger] services[i]),
    ) by {
        assert(flows::provider_names(services)[i] == services[i].0);
        assert(order::lists(names, services[i].0@));
        let k = choose|k: int| 0 <= k < names.len() && (#[trigger] names[k])@ == services[i].0@;
        assert(keys[k] == services[i].0@);
    }
    list::pooling_by_key_keeps_every_part(services, key_of, part, keys);
    assert forall|i: int| 0 <= i < sources.len() implies brought_by_source()(
        #[trigger] sources[i],
    ) == list::pooled_under(services, key_of, part)(keys[i]) by {
        let provider = sources[i].provider@;
        a_source_keeps_its_lines(sources[i], services, tags);
        let test = list::keyed_as(key_of, keys[i]);
        assert(keys[i] == provider);
        assert(test =~= flows::of_provider(provider));
        let held = services.filter(test);
        let own = flows::services_of(services, provider);
        assert forall|k: int| 0 <= k < own.len() implies brought_by_service(tags, provider)(
            #[trigger] own[k],
        ) == part(held[k]) by {
            services.lemma_filter_pred(test, k);
        }
        list::pooling_agrees(own, held, brought_by_service(tags, provider), part);
    }
    list::pooling_agrees(
        sources,
        keys,
        brought_by_source(),
        list::pooled_under(services, key_of, part),
    );
    lemma_services_bring_every_line(services, tags);
}

/// Every column of the diagram carries the month's usage, given that none of it
/// is negative. The services and the business lines that are listed hold the
/// same amounts above zero, those of the usage rows; the flows of the sources,
/// merged or not, take every service's usage and bring the business lines all of
/// theirs. `sum` is how amounts are added up.
pub proof fn every_column_carries_the_usage(
    rows: Seq<NormalizedRow>,
    tag_key: &str,
    services: Seq<ServiceTerms>,
    service_totals: Seq<(String, String, Amount)>,
    tagged: Seq<ServiceTagTerms>,
    tag_totals: Seq<ServiceTagUsage>,
    sources: Seq<SourceFlows>,
    sum: spec_fn(Seq<Amount>) -> Amount,
)
    requires
        buckets::services_by(services, rows),
        buckets::service_tags_by(tagged, rows, tag_key),
        laws::services_summed(services, service_totals, sum),
        laws::tags_summed(tagged, tag_totals, sum),
        laws::adds_up(sum),
        laws::none_negative(rows),
        ({
            let listed = ranked::positive_first(
                service_totals,
                ranked::service_amounts(service_totals),
            );
            let lines = ranked::positive_first(tag_totals, ranked::tag_usage_amounts(tag_totals));
            &&& order::is_distinct(flows::source_names(sources), flows::provider_names(listed))
            &&& forall|i: int|
                #![trigger sources[i]]
                0 <= i < sources.len() ==> flows::is_source(sources[i], listed, lines)
        }),
    ensures
        ({
            let listed = ranked::positive_first(
                service_totals,
                ranked::service_amounts(service_totals),
            );
            let lines = ranked::positive_first(tag_totals, ranked::tag_usage_amounts(tag_totals));
            let usage = laws::positive_part(scope::base_amounts(rows).to_multiset());
            &&& laws::positive_part(
                laws::together(
                    laws::kept_terms(
                        services.map_values(|b: ServiceTerms| b.terms@),
                        ranked::service_amounts(service_totals),
                    ),
                ),
            ) == usage
            &&& laws::positive_part(
                laws::together(
                    laws::kept_terms(
                        tagged.map_values(|b: ServiceTagTerms| b.terms@),
                        ranked::tag_usage_amounts(tag_totals),
                    ),
                ),
            ) == usage
            &&& flows::usage_of_all(sources) == ranked::service_amounts(listed).to_multiset()
            &&& list::pooled(sources, brought_by_source()) == ranked::tag_usage_amounts(
                lines,
            ).to_multiset()
        }),
{
    let amounts = ranked::service_amounts(service_totals);
    let tag_amounts = ranked::tag_usage_amounts(tag_totals);
    let listed = ranked::positive_first(service_totals, amounts);
    let lines = ranked::positive_first(tag_totals, tag_amounts);
    laws::a_ranked_breakdown_keeps_the_usage(
        services.map_values(|b: ServiceTerms| buckets::key2(b.provider@, b.service@)),
        services.map_values(|b: ServiceTerms| b.terms@),
        rows,
        buckets::keyed(Grouping::ProviderService),
        amounts,
        sum,
    );
    laws::a_ranked_breakdown_keeps_the_usage(
        tagged.map_values(
            |b: ServiceTagTerms| buckets::key3(b.provider@, b.service@, b.tag_value@),
        ),
        tagged.map_values(|b: ServiceTagTerms| b.terms@),
        rows,
        buckets::keyed(Grouping::ProviderServiceTag(tag_key)),
        tag_amounts,
        sum,
    );
    laws::ranked_services_are_named_once(services, service_totals, rows, sum);
    assert(lines_listed(lines, listed)) by {
        assert forall|t: int| 0 <= t < lines.len() implies lists_service(
            listed,
            (#[trigger] lines[t]).provider@,
            lines[t].service@,
        ) by {
            laws::a_ranked_line_is_of_a_ranked_service(
                rows,
                tag_key,
                services,
                service_totals,
                tagged,
                tag_totals,
                sum,
                t,
            );
        }
    }
    flows::flows_keep_every_usage(sources, listed, lines);
    merging_keeps_every_line(sources, listed, lines);
}

// ==================== The flows of the sources ====================

/// A merged flow stands just where services merged, given that every service
/// that is listed has usage above zero.
pub proof fn a_merged_flow_stands_where_services_merge(
    source: SourceFlows,
    services: Seq<(String, String, Amount)>,
    tags: Seq<ServiceTagUsage>,
    sum: spec_fn(Seq<Amount>) -> Amount,
)
    requires
        flows::is_source(source, services, tags),
        forall|i: int| 0 <= i < services.len() ==> (#[trigger] services[i]).2.is_positive(),
        laws::adds_up(sum),
    ensures
        sum(source.merged@).is_positive() <==> source.merged@.len() > 0,
{
    let provider = source.provider@;
    let own = flows::services_of(services, provider);
    let all = flows::ranked_services(services, provider);
    let ranks = crate::amount::ranks_of(ranked::named_amounts(own));
    let at = order::ranking(ranks);
    order::ranking_is_stable_and_complete(ranks);
    let count = flows::own_count(all.len());
    let merged = source.merged@;
    assert forall|i: int| 0 <= i < merged.len() implies (#[trigger] merged[i]).is_positive() by {
        let k = at[count + i];
        assert(all[count + i] == own[k]);
        let held = services.filter(flows::of_provider(provider));
        assert(held.contains(held[k]));
        services.lemma_filter_contains_rev(flows::of_provider(provider), held[k]);
        let s = choose|s: int| 0 <= s < services.len() && services[s] == held[k];
        assert(services[s].2.is_positive());
    }
    assert forall|i: int| 0 <= i < merged.len() implies laws::not_negative(
        #[trigger] merged[i],
    ) by {
        assert(merged[i].is_positive());
    }
    if merged.len() > 0 {
        assert(merged[0].is_positive());
    }
}

/// What the merged flow of a source brings the business lines, where it has one.
pub open spec fn brought_by_merged() -> spec_fn(MergedTotals) -> vstd::multiset::Multiset<Amount> {
    |total: MergedTotals|
        if total.amount.is_positive() {
            ranked::named_amounts(total.lines@).to_multiset()
        } else {
            vstd::multiset::Multiset::empty()
        }
}

/// What the own flows of a source bring the business lines.
pub open spec fn brought_by_own() -> spec_fn(SourceFlows) -> vstd::multiset::Multiset<Amount> {
    |source: SourceFlows| list::pooled(source.own@, brought_by())
}

proof fn lemma_strung_bring(
    string: Seq<ServiceFlow>,
    sources: Seq<SourceFlows>,
    totals: Seq<MergedTotals>,
)
    requires
        flows::strung(string, sources, totals),
        totals.len() == sources.len(),
    ensures
        list::pooled(string, brought_by()) == list::pooled(sources, brought_by_own()).add(
            list::pooled(totals, brought_by_merged()),
        ),
    decreases sources.len(),
{
    let part = brought_by();
    if sources.len() == 0 {
        assert(list::pooled(string, part) =~= list::pooled(sources, brought_by_own()).add(
            list::pooled(totals, brought_by_merged()),
        ));
    } else {
        let own = sources.last().own@;
        let more = if totals.last().amount.is_positive() {
            1int
        } else {
            0int
        };
        let from = string.len() - own.len() - more;
        let before = string.take(from);
        lemma_strung_bring(before, sources.drop_last(), totals.drop_last());
        list::pooling_splits(before, own, part);
        if more == 1 {
            assert(string.drop_last() =~= before + own);
            assert(part(string.last()) == brought_by_merged()(totals.last()));
        } else {
            assert(string =~= before + own);
        }
        assert(list::pooled(string, part) =~= list::pooled(sources, brought_by_own()).add(
            list::pooled(totals, brought_by_merged()),
        ));
    }
}

/// The business-line column of the diagram is brought what the sources' own flows
/// and their merged flows bring, each amount once.
pub proof fn the_lines_are_brought_what_the_flows_bring(
    plan: SankeyPlan,
    all: Seq<ServiceFlow>,
    sources: Seq<SourceFlows>,
    totals: Seq<MergedTotals>,
)
    requires
        attribution::lays_out(plan, all),
        flows::is_service_flows(all, sources, totals),
        totals.len() == sources.len(),
    ensures
        attribution::held_together(attribution::throughputs(plan.lines@)) == list::pooled(
            sources,
            brought_by_own(),
        ).add(list::pooled(totals, brought_by_merged())),
{
    attribution::columns_carry_every_flow(plan, all);
    lemma_line_items_pooled(all);
    let string = choose|string: Seq<ServiceFlow>|
        {
            &&& #[trigger] flows::strung(string, sources, totals)
            &&& all == ranked::sorted_by_amount(string, flows::flow_amounts(string))
        };
    order::ranked_items_are_the_items(
        string,
        crate::amount::ranks_of(flows::flow_amounts(string)),
    );
    list::pooling_ignores_order(all, string, brought_by());
    lemma_strung_bring(string, sources, totals);
}

proof fn lemma_line_items_pooled(all: Seq<ServiceFlow>)
    ensures
        attribution::line_items(all).map_values(|i: (Seq<char>, Amount)| i.1).to_multiset()
            == list::pooled(all, brought_by()),
    decreases all.len(),
{
    let value_of = |i: (Seq<char>, Amount)| i.1;
    let items = attribution::line_items(all);
    if all.len() == 0 {
        broadcast use vstd::seq_lib::group_to_multiset_ensures;

        assert(items.map_values(value_of).to_multiset() =~= vstd::multiset::Multiset::empty());
    } else {
        let flow = all.last();
        lemma_line_items_pooled(all.drop_last());
        let before = attribution::line_items(all.drop_last()).map_values(value_of);
        let own = attribution::line_items_of(flow).map_values(value_of);
        assert(items.map_values(value_of) =~= before + own);
        vstd::seq_lib::lemma_multiset_commutative(before, own);
        let amounts = ranked::named_amounts(flow.lines@);
        let ranks = crate::amount::ranks_of(amounts);
        order::ranked_items_are_the_items(amounts, ranks);
        order::ranking_is_stable_and_complete(ranks);
        assert(own =~= order::arranged(amounts, order::ranking(ranks)));
    }
}

// ==================== The shape of the columns ====================

/// Being the flow of a source.
pub open spec fn flow_of(provider: Seq<char>) -> spec_fn(ServiceFlow) -> bool {
    |flow: ServiceFlow| flow.provider@ == provider
}

/// A flow of a source, counted.
spec fn counted(provider: Seq<char>) -> spec_fn(ServiceFlow) -> vstd::multiset::Multiset<bool> {
    |flow: ServiceFlow|
        if flow.provider@ == provider {
            vstd::multiset::Multiset::singleton(true)
        } else {
            vstd::multiset::Multiset::empty()
        }
}

proof fn lemma_counted(all: Seq<ServiceFlow>, provider: Seq<char>)
    ensures
        list::pooled(all, counted(provider)).len() == all.filter(flow_of(provider)).len(),
        all.filter(flow_of(provider)).len() <= all.len(),
    decreases all.len(),
{
    reveal(Seq::filter);
    if all.len() > 0 {
        lemma_counted(all.drop_last(), provider);
    }
}

proof fn lemma_strung_counted(
    string: Seq<ServiceFlow>,
    sources: Seq<SourceFlows>,
    totals: Seq<MergedTotals>,
    provider: Seq<char>,
)
    requires
        flows::strung(string, sources, totals),
        totals.len() == sources.len(),
        forall|i: int, j: int|
            #![trigger sources[i], sources[j]]
            0 <= i < j < sources.len() ==> sources[i].provider@ != sources[j].provider@,
        forall|i: int|
            #![trigger sources[i]]
            0 <= i < sources.len() ==> sources[i].own@.len() <= 5 && forall|k: int|
                0 <= k < sources[i].own@.len() ==> (#[trigger] sources[i].own@[k]).provider@
                    == sources[i].provider@,
    ensures
        string.filter(flow_of(provider)).len() <= (if exists|i: int|
            0 <= i < sources.len() && (#[trigger] sources[i]).provider@ == provider {
            6int
        } else {
            0int
        }),
    decreases sources.len(),
{
    reveal(Seq::filter);
    if sources.len() > 0 {
        let last = sources.len() - 1;
        let source = sources[last];
        let own = source.own@;
        let more = if totals.last().amount.is_positive() {
            1int
        } else {
            0int
        };
        let from = string.len() - own.len() - more;
        let before = string.take(from);
        let tail = string.skip(from);
        let rest = sources.drop_last();
        assert forall|i: int, j: int|
            #![trigger rest[i], rest[j]]
            0 <= i < j < rest.len() implies rest[i].provider@ != rest[j].provider@ by {
            assert(sources[i].provider@ != sources[j].provider@);
        }
        assert forall|i: int|
            #![trigger rest[i]]
            0 <= i < rest.len() implies rest[i].own@.len() <= 5 && forall|k: int|
            0 <= k < rest[i].own@.len() ==> (#[trigger] rest[i].own@[k]).provider@
                == rest[i].provider@ by {
            assert(rest[i] == sources[i]);
        }
        lemma_strung_counted(before, rest, totals.drop_last(), provider);
        assert(string =~= before + tail);
        Seq::filter_distributes_over_add(before, tail, flow_of(provider));
        lemma_counted(tail, provider);
        assert forall|k: int| 0 <= k < tail.len() implies (#[trigger] tail[k]).provider@
            == source.provider@ by {
            if k < own.len() {
                assert(string.subrange(from, from + own.len())[k] == tail[k]);
                assert(own[k].provider@ == source.provider@);
            } else {
                assert(tail[k] == string.last());
            }
        }
        if source.provider@ == provider {
            assert(sources[last].provider@ == provider);
            if exists|i: int| 0 <= i < rest.len() && (#[trigger] rest[i]).provider@ == provider {
                let i = choose|i: int|
                    0 <= i < rest.len() && (#[trigger] rest[i]).provider@ == provider;
                assert(sources[i].provider@ != sources[last].provider@);
            }
        } else {
            lemma_none_counted(tail, provider);
            if exists|i: int| 0 <= i < rest.len() && (#[trigger] rest[i]).provider@ == provider {
                let i = choose|i: int|
                    0 <= i < rest.len() && (#[trigger] rest[i]).provider@ == provider;
                assert(sources[i].provider@ == provider);
            }
        }
    }
}

proof fn lemma_none_counted(all: Seq<ServiceFlow>, provider: Seq<char>)
    requires
        forall|k: int| 0 <= k < all.len() ==> (#[trigger] all[k]).provider@ != provider,
    ensures
        all.filter(flow_of(provider)).len() == 0,
    decreases all.len(),
{
    reveal(Seq::filter);
    if all.len() > 0 {
        let fewer = all.drop_last();
        assert forall|k: int| 0 <= k < fewer.len() implies (#[trigger] fewer[k]).provider@
            != provider by {
            assert(all[k].provider@ != provider);
        }
        lemma_none_counted(fewer, provider);
        assert(all[all.len() - 1].provider@ != provider);
    }
}

/// A source has at most six services in the diagram: its five largest and the one
/// that the others merge into.
pub proof fn a_source_has_at_most_six_services(
    all: Seq<ServiceFlow>,
    sources: Seq<SourceFlows>,
    totals: Seq<MergedTotals>,
    services: Seq<(String, String, Amount)>,
    tags: Seq<ServiceTagUsage>,
    provider: Seq<char>,
)
    requires
        flows::is_service_flows(all, sources, totals),
        totals.len() == sources.len(),
        order::is_distinct(flows::source_names(sources), flows::provider_names(services)),
        forall|i: int|
            #![trigger sources[i]]
            0 <= i < sources.len() ==> flows::is_source(sources[i], services, tags),
    ensures
        all.filter(flow_of(provider)).len() <= 6,
{
    let string = choose|string: Seq<ServiceFlow>|
        {
            &&& #[trigger] flows::strung(string, sources, totals)
            &&& all == ranked::sorted_by_amount(string, flows::flow_amounts(string))
        };
    order::ranked_items_are_the_items(
        string,
        crate::amount::ranks_of(flows::flow_amounts(string)),
    );
    list::pooling_ignores_order(all, string, counted(provider));
    lemma_counted(all, provider);
    lemma_counted(string, provider);
    let names = flows::source_names(sources);
    assert forall|i: int, j: int|
        #![trigger sources[i], sources[j]]
        0 <= i < j < sources.len() implies sources[i].provider@ != sources[j].provider@ by {
        assert(order::text_lt(names[i]@, names[j]@));
        order::lemma_text_lt_asymmetric(names[i]@, names[j]@);
    }
    assert forall|i: int|
        #![trigger sources[i]]
        0 <= i < sources.len() implies sources[i].own@.len() <= 5 && forall|k: int|
        0 <= k < sources[i].own@.len() ==> (#[trigger] sources[i].own@[k]).provider@
            == sources[i].provider@ by {
        assert(flows::is_source(sources[i], services, tags));
    }
    lemma_strung_counted(string, sources, totals, provider);
}

/// The values of nodes fall: none ranks above one before it.
pub open spec fn values_fall(nodes: Seq<SankeyNode>, from: int, to: int) -> bool {
    forall|i: int, j: int|
        #![trigger nodes[i], nodes[j]]
        from <= i < j < to ==> nodes[j].value.rank() <= nodes[i].value.rank()
}

/// Within each column the nodes stand largest first.
pub proof fn every_column_falls(
    data: SankeyData,
    plan: SankeyPlan,
    all: Seq<ServiceFlow>,
    flow_sources: Seq<SourceFlows>,
    totals: Seq<MergedTotals>,
    sources: Seq<Amount>,
    lines: Seq<Amount>,
)
    requires
        attribution::lays_out(plan, all),
        flows::is_service_flows(all, flow_sources, totals),
        sources.len() == plan.sources@.len(),
        lines.len() == plan.lines@.len(),
        attribution::nodes_of(data.nodes@, plan, sources, lines),
    ensures
        ({
            let s = plan.services@.len() as int;
            let t = s + sources.len();
            &&& values_fall(data.nodes@, 0, s)
            &&& values_fall(data.nodes@, s, t)
            &&& values_fall(data.nodes@, t, data.nodes@.len() as int)
        }),
{
    let nodes = data.nodes@;
    let s = plan.services@.len() as int;
    let t = s + sources.len();
    let string = choose|string: Seq<ServiceFlow>|
        {
            &&& #[trigger] flows::strung(string, flow_sources, totals)
            &&& all == ranked::sorted_by_amount(string, flows::flow_amounts(string))
        };
    let ranks = crate::amount::ranks_of(flows::flow_amounts(string));
    let at = order::ranking(ranks);
    order::ranking_is_stable_and_complete(ranks);
    assert forall|i: int, j: int|
        #![trigger nodes[i], nodes[j]]
        0 <= i < j < s implies nodes[j].value.rank() <= nodes[i].value.rank() by {
        assert(nodes.take(s)[i] == plan.services@[i] && nodes.take(s)[j] == plan.services@[j]);
        assert(attribution::is_service_node(plan.services@[i], all[i]));
        assert(attribution::is_service_node(plan.services@[j], all[j]));
        assert(order::ranks_ahead(ranks, at[i], at[j]));
    }
    let by_source = crate::amount::largest_first(sources);
    order::ranking_is_stable_and_complete(crate::amount::ranks_of(sources));
    assert forall|i: int, j: int|
        #![trigger nodes[i], nodes[j]]
        s <= i < j < t implies nodes[j].value.rank() <= nodes[i].value.rank() by {
        assert(nodes[s + (i - s)].value == sources[by_source[i - s]]);
        assert(nodes[s + (j - s)].value == sources[by_source[j - s]]);
        assert(order::ranks_ahead(
            crate::amount::ranks_of(sources),
            by_source[i - s],
            by_source[j - s],
        ));
    }
    let by_line = crate::amount::largest_first(lines);
    order::ranking_is_stable_and_complete(crate::amount::ranks_of(lines));
    assert forall|i: int, j: int|
        #![trigger nodes[i], nodes[j]]
        t <= i < j < nodes.len() implies nodes[j].value.rank() <= nodes[i].value.rank() by {
        assert(nodes[s + sources.len() + (i - t)].value == lines[by_line[i - t]]);
        assert(nodes[s + sources.len() + (j - t)].value == lines[by_line[j - t]]);
        assert(order::ranks_ahead(
            crate::amount::ranks_of(lines),
            by_line[i - t],
            by_line[j - t],
        ));
    }
}

/// Without usage the diagram is empty: neither a node nor a link.
pub proof fn no_usage_draws_nothing(
    data: SankeyData,
    plan: SankeyPlan,
    all: Seq<ServiceFlow>,
    flow_sources: Seq<SourceFlows>,
    totals: Seq<MergedTotals>,
    sources: Seq<Amount>,
    lines: Seq<Amount>,
)
    requires
        order::is_distinct(
            flows::source_names(flow_sources),
            flows::provider_names(Seq::<(String, String, Amount)>::empty()),
        ),
        flows::is_service_flows(all, flow_sources, totals),
        totals.len() == flow_sources.len(),
        attribution::lays_out(plan, all),
        sources.len() == plan.sources@.len(),
        lines.len() == plan.lines@.len(),
        data.links@ == plan.links@,
        attribution::nodes_of(data.nodes@, plan, sources, lines),
    ensures
        data.nodes@.len() == 0,
        data.links@.len() == 0,
{
    let names = flows::source_names(flow_sources);
    let none = flows::provider_names(Seq::<(String, String, Amount)>::empty());
    if names.len() > 0 {
        assert(order::lists(none, names[0]@));
    }
    let string = choose|string: Seq<ServiceFlow>|
        {
            &&& #[trigger] flows::strung(string, flow_sources, totals)
            &&& all == ranked::sorted_by_amount(string, flows::flow_amounts(string))
        };
    order::ranking_is_stable_and_complete(
        crate::amount::ranks_of(flows::flow_amounts(string)),
    );
    assert(all.len() == 0);
    assert(attribution::throughputs(plan.sources@).len() == 0);
    assert(attribution::throughputs(plan.lines@).len() == 0);
}

} // verus!
