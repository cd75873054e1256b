//! The finished attribution diagram: every column's values come from the same
//! usage rows.
use vstd::prelude::*;

use super::attribution;
use super::attribution::{
    AttributionData, AttributionReads, SankeyData, SankeyNode, SankeyPlan, Throughput,
};
use super::columns;
use super::flows;
use super::flows::{MergedTotals, ServiceFlow, SourceFlows};
use super::page::BUSINESS_LINE_TAG;
use crate::amount;
use crate::amount::Amount;
use crate::calendar;
use crate::calendar::Timestamp;
use crate::ledger::addends;
use crate::ledger::buckets;
use crate::ledger::buckets::{ServiceTagTerms, ServiceTerms};
use crate::ledger::laws;
use crate::ledger::ranked;
use crate::ledger::scope;
use crate::list;
use crate::memory::NormalizedRow;
use crate::model::ServiceTagUsage;
use crate::order;

verus! {

// ==================== Ranked totals ====================

proof fn lemma_pooled_together(groups: Seq<Seq<Amount>>)
    ensures
        list::pooled(groups, addends::terms_of()) == laws::together(groups),
    decreases groups.len(),
{
    if groups.len() > 0 {
        lemma_pooled_together(groups.drop_last());
    }
}

/// The totals that a ranked list keeps carry the amounts of their buckets.
proof fn lemma_ranked_carry(
    terms: Seq<Seq<Amount>>,
    totals: Seq<Amount>,
    sum: spec_fn(Seq<Amount>) -> Amount,
)
    requires
        totals.len() == terms.len(),
        forall|b: int| 0 <= b < terms.len() ==> #[trigger] totals[b] == sum(terms[b]),
    ensures
        addends::carry(
            ranked::positive_first(totals, totals).to_multiset(),
            laws::together(laws::kept_terms(terms, totals)),
            1,
            sum,
        ),
{
    let groups = laws::kept_terms(terms, totals);
    let sums = ranked::positive_first(totals, totals);
    let at = amount::positive_ranking(totals);
    amount::positive_ranking_is_complete(totals);
    assert forall|g: int| 0 <= g < groups.len() implies #[trigger] sums[g] == sum(groups[g]) by {
        assert(at.contains(at[g]));
        assert(totals[at[g]] == sum(terms[at[g]]));
    }
    addends::groups_carry_themselves(groups, sum);
    addends::sums_carry_their_groups(
        groups,
        sums,
        list::pooled(groups, addends::terms_of()),
        0,
        sum,
    );
    lemma_pooled_together(groups);
}

// ==================== The flows ====================

/// What the merged services of each source add up to, added up by `sum`.
pub open spec fn merged_summed(
    sources: Seq<SourceFlows>,
    totals: Seq<MergedTotals>,
    sum: spec_fn(Seq<Amount>) -> Amount,
) -> bool {
    &&& totals.len() == sources.len()
    &&& forall|i: int|
        #![trigger totals[i]]
        0 <= i < totals.len() ==> totals[i].amount == sum(sources[i].merged@)
            && laws::names_summed(sources[i].merged_lines@, totals[i].lines@, sum)
}

/// A source whose merged services carry nothing merges none.
spec fn merges_plainly(source: SourceFlows, total: MergedTotals) -> bool {
    &&& total.amount.is_positive() <==> source.merged@.len() > 0
    &&& source.merged@.len() == 0 ==> source.merged_lines@.len() == 0
}

proof fn lemma_flows_carry(
    string: Seq<ServiceFlow>,
    sources: Seq<SourceFlows>,
    totals: Seq<MergedTotals>,
    from: vstd::multiset::Multiset<Amount>,
    sum: spec_fn(Seq<Amount>) -> Amount,
)
    requires
        flows::strung(string, sources, totals),
        merged_summed(sources, totals, sum),
        forall|i: int|
            #![trigger sources[i]]
            0 <= i < sources.len() ==> merges_plainly(sources[i], totals[i]),
        addends::carry(flows::usage_of_all(sources), from, 1, sum),
    ensures
        addends::carry(flows::flow_amounts(string).to_multiset(), from, 2, sum),
    decreases sources.len(),
{
    broadcast use vstd::seq_lib::group_to_multiset_ensures;

    if sources.len() == 0 {
        addends::nothing_carries_no_more(from, 1, sum);
        assert(flows::flow_amounts(string).to_multiset() =~= vstd::multiset::Multiset::empty());
        addends::nothing_carries_nothing(2, sum);
    } else {
        let last = sources.len() - 1;
        let source = sources[last];
        let total = totals[last];
        let own = flows::flow_amounts(source.own@);
        let merged = source.merged@;
        let before = flows::usage_of_all(sources.drop_last());
        vstd::seq_lib::lemma_multiset_commutative(own, merged);
        assert(flows::usage_of_all(sources) =~= own.to_multiset().add(
            merged.to_multiset().add(before),
        ));
        let (own_from, left) = addends::carrying_split(
            own.to_multiset(),
            merged.to_multiset().add(before),
            from,
            1,
            sum,
        );
        let (merged_from, rest) = addends::carrying_split(
            merged.to_multiset(),
            before,
            left,
            1,
            sum,
        );
        addends::more_steps_carry_too(own.to_multiset(), own_from, 1, sum);
        let more = if total.amount.is_positive() {
            1int
        } else {
            0int
        };
        let at = string.len() - source.own@.len() - more;
        let ahead = string.take(at);
        assert(totals[last] == totals.last());
        assert forall|i: int|
            #![trigger totals.drop_last()[i]]
            0 <= i < totals.drop_last().len() implies totals.drop_last()[i].amount == sum(
            sources.drop_last()[i].merged@,
        ) && laws::names_summed(
            sources.drop_last()[i].merged_lines@,
            totals.drop_last()[i].lines@,
            sum,
        ) by {
            assert(totals[i] == totals.drop_last()[i]);
        }
        assert forall|i: int|
            #![trigger sources.drop_last()[i]]
            0 <= i < sources.drop_last().len() implies merges_plainly(
            sources.drop_last()[i],
            totals.drop_last()[i],
        ) by {
            assert(sources[i] == sources.drop_last()[i]);
        }
        lemma_flows_carry(ahead, sources.drop_last(), totals.drop_last(), rest, sum);
        let earlier = flows::flow_amounts(ahead);
        addends::carrying_together(
            earlier.to_multiset(),
            rest,
            own.to_multiset(),
            own_from,
            2,
            sum,
        );
        vstd::seq_lib::lemma_multiset_commutative(earlier, own);
        assert(merges_plainly(source, total));
        if more == 1 {
            addends::a_sum_carries_its_terms(merged, merged_from, 1, sum);
            addends::one_value_carries(total.amount, merged_from, 2, sum);
            addends::carrying_together(
                earlier.to_multiset().add(own.to_multiset()),
                rest.add(own_from),
                vstd::multiset::Multiset::singleton(total.amount),
                merged_from,
                2,
                sum,
            );
            assert(string =~= (ahead + source.own@).push(string.last()));
            assert(flows::flow_amounts(string) =~= (earlier + own).push(total.amount));
            assert(flows::flow_amounts(string).to_multiset() =~= earlier.to_multiset().add(
                own.to_multiset(),
            ).add(vstd::multiset::Multiset::singleton(total.amount)));
            assert(from =~= rest.add(own_from).add(merged_from));
        } else {
            assert(merged.to_multiset() =~= vstd::multiset::Multiset::empty());
            addends::nothing_carries_no_more(merged_from, 1, sum);
            assert(string =~= ahead + source.own@);
            assert(flows::flow_amounts(string) =~= earlier + own);
            assert(from =~= rest.add(own_from));
        }
    }
}

/// What was gathered, as the terms of each name.
spec fn gathered_terms(groups: Seq<(String, Vec<Amount>)>) -> Seq<Seq<Amount>> {
    groups.map_values(|g: (String, Vec<Amount>)| g.1@)
}

proof fn lemma_lines_carry(
    sources: Seq<SourceFlows>,
    totals: Seq<MergedTotals>,
    from: vstd::multiset::Multiset<Amount>,
    sum: spec_fn(Seq<Amount>) -> Amount,
)
    requires
        merged_summed(sources, totals, sum),
        forall|i: int|
            #![trigger sources[i]]
            0 <= i < sources.len() ==> merges_plainly(sources[i], totals[i]),
        addends::carry(list::pooled(sources, columns::brought_by_source()), from, 1, sum),
    ensures
        addends::carry(
            list::pooled(sources, columns::brought_by_own()).add(
                list::pooled(totals, columns::brought_by_merged()),
            ),
            from,
            2,
            sum,
        ),
    decreases sources.len(),
{
    broadcast use vstd::seq_lib::group_to_multiset_ensures;

    let none = vstd::multiset::Multiset::<Amount>::empty();
    if sources.len() == 0 {
        addends::nothing_carries_no_more(from, 1, sum);
        addends::nothing_carries_nothing(2, sum);
        assert(list::pooled(sources, columns::brought_by_own()).add(
            list::pooled(totals, columns::brought_by_merged()),
        ) =~= none);
    } else {
        let last = sources.len() - 1;
        let source = sources[last];
        let total = totals[last];
        let own = list::pooled(source.own@, columns::brought_by());
        let merged = list::pooled(source.merged_lines@, columns::gathered_under());
        let before = list::pooled(sources.drop_last(), columns::brought_by_source());
        assert(list::pooled(sources, columns::brought_by_source()) =~= own.add(
            merged.add(before),
        ));
        let (own_from, left) = addends::carrying_split(own, merged.add(before), from, 1, sum);
        let (merged_from, rest) = addends::carrying_split(merged, before, left, 1, sum);
        addends::more_steps_carry_too(own, own_from, 1, sum);
        assert forall|i: int|
            #![trigger totals.drop_last()[i]]
            0 <= i < totals.drop_last().len() implies totals.drop_last()[i].amount == sum(
            sources.drop_last()[i].merged@,
        ) && laws::names_summed(
            sources.drop_last()[i].merged_lines@,
            totals.drop_last()[i].lines@,
            sum,
        ) by {
            assert(totals[i] == totals.drop_last()[i]);
        }
        assert forall|i: int|
            #![trigger sources.drop_last()[i]]
            0 <= i < sources.drop_last().len() implies merges_plainly(
            sources.drop_last()[i],
            totals.drop_last()[i],
        ) by {
            assert(sources[i] == sources.drop_last()[i]);
        }
        lemma_lines_carry(sources.drop_last(), totals.drop_last(), rest, sum);
        let earlier_own = list::pooled(sources.drop_last(), columns::brought_by_own());
        let earlier_merged = list::pooled(totals.drop_last(), columns::brought_by_merged());
        addends::carrying_together(earlier_own.add(earlier_merged), rest, own, own_from, 2, sum);
        assert(merges_plainly(source, total));
        let groups = gathered_terms(source.merged_lines@);
        list::pooling_agrees(
            source.merged_lines@,
            groups,
            columns::gathered_under(),
            addends::terms_of(),
        );
        let sums = ranked::named_amounts(total.lines@);
        assert(laws::names_summed(source.merged_lines@, total.lines@, sum));
        assert forall|g: int| 0 <= g < groups.len() implies #[trigger] sums[g] == sum(
            groups[g],
        ) by {
            assert(total.lines@[g].1 == sum(source.merged_lines@[g].1@));
        }
        addends::sums_carry_their_groups(groups, sums, merged_from, 1, sum);
        let brought = columns::brought_by_merged()(total);
        if total.amount.is_positive() {
            assert(brought == sums.to_multiset());
        } else {
            assert(groups.len() == 0);
            assert(merged =~= none);
            addends::nothing_carries_no_more(merged_from, 1, sum);
            addends::nothing_carries_nothing(2, sum);
        }
        addends::carrying_together(
            earlier_own.add(earlier_merged).add(own),
            rest.add(own_from),
            brought,
            merged_from,
            2,
            sum,
        );
        assert(sources.last() == source && totals.last() == total);
        assert(columns::brought_by_own()(source) == own);
        assert(list::pooled(sources, columns::brought_by_own()).add(
            list::pooled(totals, columns::brought_by_merged()),
        ) =~= earlier_own.add(earlier_merged).add(own).add(brought));
        assert(from =~= rest.add(own_from).add(merged_from));
    }
}

// ==================== The columns ====================

/// Standing in a column.
pub open spec fn in_column(column: usize) -> spec_fn(SankeyNode) -> bool {
    |node: SankeyNode| node.column == column
}

/// The values of a column's nodes, in their order.
pub open spec fn column_values(nodes: Seq<SankeyNode>, column: usize) -> Seq<Amount> {
    nodes.filter(in_column(column)).map_values(|node: SankeyNode| node.value)
}

/// The values of a column are worked out, by adding up, of amounts whose positive
/// ones are `usage`, each used once.
pub open spec fn column_carries(
    nodes: Seq<SankeyNode>,
    column: usize,
    usage: vstd::multiset::Multiset<Amount>,
    sum: spec_fn(Seq<Amount>) -> Amount,
) -> bool {
    exists|from: vstd::multiset::Multiset<Amount>| #[trigger]
        addends::carry(column_values(nodes, column).to_multiset(), from, 3, sum)
            && laws::positive_part(from) == usage
}

/// What each throughput adds up to, added up by `sum`.
pub open spec fn throughputs_summed(
    values: Seq<Amount>,
    totals: Seq<Throughput>,
    sum: spec_fn(Seq<Amount>) -> Amount,
) -> bool {
    &&& values.len() == totals.len()
    &&& forall|k: int| 0 <= k < values.len() ==> #[trigger] values[k] == sum(totals[k].terms@)
}

proof fn lemma_held_pooled(totals: Seq<Throughput>)
    ensures
        list::pooled(totals.map_values(|t: Throughput| t.terms@), addends::terms_of())
            == attribution::held_together(attribution::throughputs(totals)),
    decreases totals.len(),
{
    let groups = totals.map_values(|t: Throughput| t.terms@);
    let views = attribution::throughputs(totals);
    if totals.len() > 0 {
        let fewer = totals.drop_last();
        lemma_held_pooled(fewer);
        assert(groups.drop_last() =~= fewer.map_values(|t: Throughput| t.terms@));
        assert(views.drop_last() =~= attribution::throughputs(fewer));
    }
}

/// What passes through carries what was noted.
proof fn lemma_throughputs_carry(
    values: Seq<Amount>,
    totals: Seq<Throughput>,
    noted: vstd::multiset::Multiset<Amount>,
    from: vstd::multiset::Multiset<Amount>,
    sum: spec_fn(Seq<Amount>) -> Amount,
)
    requires
        throughputs_summed(values, totals, sum),
        attribution::held_together(attribution::throughputs(totals)) == noted,
        addends::carry(noted, from, 2, sum),
    ensures
        addends::carry(values.to_multiset(), from, 3, sum),
{
    let groups = totals.map_values(|t: Throughput| t.terms@);
    lemma_held_pooled(totals);
    assert forall|g: int| 0 <= g < groups.len() implies #[trigger] values[g] == sum(
        groups[g],
    ) by {
        assert(values[g] == sum(totals[g].terms@));
    }
    addends::sums_carry_their_groups(groups, values, from, 2, sum);
}

/// A test that accepts just the items of a stretch keeps the stretch.
proof fn lemma_stretch_kept<T>(items: Seq<T>, test: spec_fn(T) -> bool, from: int, to: int)
    requires
        0 <= from <= to <= items.len(),
        forall|i: int| 0 <= i < items.len() ==> test(#[trigger] items[i]) == (from <= i < to),
    ensures
        items.filter(test) == items.subrange(from, to),
    decreases items.len(),
{
    reveal(Seq::filter);
    if items.len() == 0 {
        assert(items.filter(test) =~= items.subrange(from, to));
    } else {
        let fewer = items.drop_last();
        let last = items.len() - 1;
        assert(test(items[last]) == (from <= last < to));
        let end = if to > last {
            last
        } else {
            to
        };
        let start = if from > end {
            end
        } else {
            from
        };
        assert forall|i: int| 0 <= i < fewer.len() implies test(#[trigger] fewer[i]) == (start <= i
            < end) by {
            assert(test(items[i]) == (from <= i < to));
        }
        lemma_stretch_kept(fewer, test, start, end);
        if from <= last < to {
            assert(items.subrange(from, to) =~= fewer.subrange(start, end).push(items[last]));
        } else {
            assert(items.subrange(from, to) =~= fewer.subrange(start, end));
        }
    }
}

/// The columns hold the values of the flows, of the sources and of the business
/// lines.
proof fn lemma_columns_hold(
    nodes: Seq<SankeyNode>,
    plan: SankeyPlan,
    all: Seq<ServiceFlow>,
    sources: Seq<Amount>,
    lines: Seq<Amount>,
)
    requires
        attribution::lays_out(plan, all),
        attribution::nodes_of(nodes, plan, sources, lines),
        sources.len() == plan.sources@.len(),
        lines.len() == plan.lines@.len(),
    ensures
        column_values(nodes, 0).to_multiset() == sources.to_multiset(),
        column_values(nodes, 1) == flows::flow_amounts(all),
        column_values(nodes, 2).to_multiset() == lines.to_multiset(),
{
    let s = plan.services@.len() as int;
    let t = s + sources.len();
    let by_source = amount::largest_first(sources);
    let by_line = amount::largest_first(lines);
    order::ranking_is_stable_and_complete(amount::ranks_of(sources));
    order::ranking_is_stable_and_complete(amount::ranks_of(lines));
    assert forall|i: int| 0 <= i < nodes.len() implies (#[trigger] nodes[i]).column == (if i < s {
        1usize
    } else if i < t {
        0usize
    } else {
        2usize
    }) && nodes[i].value == (if i < s {
        all[i].amount
    } else if i < t {
        sources[by_source[i - s]]
    } else {
        lines[by_line[i - t]]
    }) by {
        if i < s {
            assert(nodes.take(s)[i] == plan.services@[i]);
            assert(attribution::is_service_node(plan.services@[i], all[i]));
        } else if i < t {
            assert(attribution::is_source_node(
                nodes[s + (i - s)],
                plan.sources@[by_source[i - s]].id@,
                sources[by_source[i - s]],
            ));
        } else {
            assert(attribution::is_line_node(
                nodes[s + sources.len() + (i - t)],
                plan.lines@[by_line[i - t]].id@,
                lines[by_line[i - t]],
            ));
        }
    }
    let end = nodes.len() as int;
    assert forall|i: int| 0 <= i < nodes.len() implies in_column(1)(#[trigger] nodes[i]) == (0 <= i
        < s) by {}
    lemma_stretch_kept(nodes, in_column(1), 0, s);
    assert forall|i: int| 0 <= i < nodes.len() implies in_column(0)(#[trigger] nodes[i]) == (s <= i
        < t) by {}
    lemma_stretch_kept(nodes, in_column(0), s, t);
    assert forall|i: int| 0 <= i < nodes.len() implies in_column(2)(#[trigger] nodes[i]) == (t <= i
        < end) by {}
    lemma_stretch_kept(nodes, in_column(2), t, end);
    assert(column_values(nodes, 1) =~= flows::flow_amounts(all));
    assert(column_values(nodes, 0) =~= order::arranged(sources, by_source));
    assert(column_values(nodes, 2) =~= order::arranged(lines, by_line));
    order::ranked_items_are_the_items(sources, amount::ranks_of(sources));
    order::ranked_items_are_the_items(lines, amount::ranks_of(lines));
}

// ==================== From the ledger to the diagram ====================

/// A diagram is drawn of usage rows: its services and business lines are added up
/// by `sum` and ranked, its flows strung and merged, and its nodes laid out, each
/// value added up by `sum` in turn.
pub open spec fn drawn(
    data: SankeyData,
    rows: Seq<NormalizedRow>,
    tag_key: &str,
    services: Seq<ServiceTerms>,
    service_totals: Seq<(String, String, Amount)>,
    tagged: Seq<ServiceTagTerms>,
    tag_totals: Seq<ServiceTagUsage>,
    sources: Seq<SourceFlows>,
    totals: Seq<MergedTotals>,
    all: Seq<ServiceFlow>,
    plan: SankeyPlan,
    source_values: Seq<Amount>,
    line_values: Seq<Amount>,
    sum: spec_fn(Seq<Amount>) -> Amount,
) -> bool {
    let listed = ranked::positive_first(service_totals, ranked::service_amounts(service_totals));
    let lines = ranked::positive_first(tag_totals, ranked::tag_usage_amounts(tag_totals));
    &&& buckets::services_by(services, rows)
    &&& buckets::service_tags_by(tagged, rows, tag_key)
    &&& laws::services_summed(services, service_totals, sum)
    &&& laws::tags_summed(tagged, tag_totals, sum)
    &&& order::is_distinct(flows::source_names(sources), flows::provider_names(listed))
    &&& forall|i: int|
        #![trigger sources[i]]
        0 <= i < sources.len() ==> flows::is_source(sources[i], listed, lines)
    &&& merged_summed(sources, totals, sum)
    &&& flows::is_service_flows(all, sources, totals)
    &&& attribution::lays_out(plan, all)
    &&& throughputs_summed(source_values, plan.sources@, sum)
    &&& throughputs_summed(line_values, plan.lines@, sum)
    &&& data.links@ == plan.links@
    &&& attribution::nodes_of(data.nodes@, plan, source_values, line_values)
}

/// A merged flow stands just where services merged, and lines merge with them.
proof fn lemma_merges_plainly(
    sources: Seq<SourceFlows>,
    totals: Seq<MergedTotals>,
    listed: Seq<(String, String, Amount)>,
    lines: Seq<ServiceTagUsage>,
    sum: spec_fn(Seq<Amount>) -> Amount,
)
    requires
        forall|i: int|
            #![trigger sources[i]]
            0 <= i < sources.len() ==> flows::is_source(sources[i], listed, lines),
        forall|i: int| 0 <= i < listed.len() ==> (#[trigger] listed[i]).2.is_positive(),
        merged_summed(sources, totals, sum),
        laws::adds_up(sum),
    ensures
        forall|i: int|
            #![trigger sources[i]]
            0 <= i < sources.len() ==> merges_plainly(sources[i], totals[i]),
{
    assert forall|i: int|
        #![trigger sources[i]]
        0 <= i < sources.len() implies merges_plainly(sources[i], totals[i]) by {
        let source = sources[i];
        columns::a_merged_flow_stands_where_services_merge(source, listed, lines, sum);
        assert(totals[i].amount == sum(source.merged@));
        if source.merged@.len() == 0 {
            let all = flows::ranked_services(listed, source.provider@);
            let rest = all.skip(flows::own_count(all.len()));
            assert(rest.len() == 0);
            let names = flows::group_names(source.merged_lines@);
            let items = flows::item_names(flows::lines_of_all(lines, source.provider@, rest));
            if names.len() > 0 {
                assert(order::lists(items, names[0]@));
            }
        }
    }
}

/// Where no amount is above zero, nothing is listed.
proof fn lemma_nothing_listed(
    services: Seq<ServiceTerms>,
    totals: Seq<(String, String, Amount)>,
    rows: Seq<NormalizedRow>,
    sum: spec_fn(Seq<Amount>) -> Amount,
)
    requires
        buckets::services_by(services, rows),
        laws::services_summed(services, totals, sum),
        laws::adds_up(sum),
        laws::none_negative(rows),
        laws::positive_part(scope::base_amounts(rows).to_multiset())
            == vstd::multiset::Multiset::<Amount>::empty(),
    ensures
        ranked::positive_first(totals, ranked::service_amounts(totals)).len() == 0,
{
    broadcast use vstd::seq_lib::group_to_multiset_ensures;

    let amounts = ranked::service_amounts(totals);
    let listed = ranked::positive_first(totals, amounts);
    let terms = services.map_values(|b: ServiceTerms| b.terms@);
    let kept = laws::kept_terms(terms, amounts);
    let at = amount::positive_ranking(amounts);
    amount::positive_ranking_is_complete(amounts);
    laws::a_ranked_breakdown_keeps_the_usage(
        services.map_values(|b: ServiceTerms| buckets::key2(b.provider@, b.service@)),
        terms,
        rows,
        buckets::keyed(buckets::Grouping::ProviderService),
        amounts,
        sum,
    );
    if listed.len() > 0 {
        assert(at.contains(at[0]));
        let b = at[0];
        assert(totals[b].2 == sum(services[b].terms@));
        laws::a_bucket_is_not_negative(
            services.map_values(|b: ServiceTerms| buckets::key2(b.provider@, b.service@)),
            terms,
            rows,
            buckets::keyed(buckets::Grouping::ProviderService),
            b,
        );
        let own = terms[b];
        let i = choose|i: int| 0 <= i < own.len() && (#[trigger] own[i]).is_positive();
        let a = own[i];
        assert(kept[0] == own);
        assert(own.contains(a));
        assert(own.to_multiset().count(a) > 0);
        lemma_together_holds(kept, 0, a);
        assert(laws::positive_part(laws::together(kept)).count(a) > 0);
    }
}

proof fn lemma_together_holds(groups: Seq<Seq<Amount>>, g: int, a: Amount)
    requires
        0 <= g < groups.len(),
        groups[g].to_multiset().count(a) > 0,
    ensures
        laws::together(groups).count(a) > 0,
    decreases groups.len(),
{
    if g < groups.len() - 1 {
        lemma_together_holds(groups.drop_last(), g, a);
    }
}

/// Every column of the finished diagram carries the usage it is drawn of, given
/// that none of it is negative: the values of the sources, of the services and of
/// the business lines are each worked out, by adding up, of the same amounts
/// above zero, those of the usage rows, every one used once in every column. The
/// columns fall, a source has at most six services, and without usage there is
/// neither a node nor a link.
pub proof fn the_diagram_carries_the_usage(
    data: SankeyData,
    rows: Seq<NormalizedRow>,
    tag_key: &str,
    services: Seq<ServiceTerms>,
    service_totals: Seq<(String, String, Amount)>,
    tagged: Seq<ServiceTagTerms>,
    tag_totals: Seq<ServiceTagUsage>,
    sources: Seq<SourceFlows>,
    totals: Seq<MergedTotals>,
    all: Seq<ServiceFlow>,
    plan: SankeyPlan,
    source_values: Seq<Amount>,
    line_values: Seq<Amount>,
    sum: spec_fn(Seq<Amount>) -> Amount,
    provider: Seq<char>,
)
    requires
        drawn(
            data,
            rows,
            tag_key,
            services,
            service_totals,
            tagged,
            tag_totals,
            sources,
            totals,
            all,
            plan,
            source_values,
            line_values,
            sum,
        ),
        laws::adds_up(sum),
        laws::none_negative(rows),
    ensures
        ({
            let usage = laws::positive_part(scope::base_amounts(rows).to_multiset());
            &&& column_carries(data.nodes@, 0, usage, sum)
            &&& column_carries(data.nodes@, 1, usage, sum)
            &&& column_carries(data.nodes@, 2, usage, sum)
            &&& usage == vstd::multiset::Multiset::<Amount>::empty() ==> data.nodes@.len() == 0
                && data.links@.len() == 0
        }),
        ({
            let s = plan.services@.len() as int;
            let t = s + source_values.len();
            &&& columns::values_fall(data.nodes@, 0, s)
            &&& columns::values_fall(data.nodes@, s, t)
            &&& columns::values_fall(data.nodes@, t, data.nodes@.len() as int)
        }),
        all.filter(columns::flow_of(provider)).len() <= 6,
{
    let amounts = ranked::service_amounts(service_totals);
    let tag_amounts = ranked::tag_usage_amounts(tag_totals);
    let listed = ranked::positive_first(service_totals, amounts);
    let lines = ranked::positive_first(tag_totals, tag_amounts);
    let service_terms = services.map_values(|b: ServiceTerms| b.terms@);
    let tag_terms = tagged.map_values(|b: ServiceTagTerms| b.terms@);
    let from = laws::together(laws::kept_terms(service_terms, amounts));
    let tag_from = laws::together(laws::kept_terms(tag_terms, tag_amounts));
    let usage = laws::positive_part(scope::base_amounts(rows).to_multiset());
    columns::every_column_carries_the_usage(
        rows,
        tag_key,
        services,
        service_totals,
        tagged,
        tag_totals,
        sources,
        sum,
    );

    // The listed totals carry the amounts of their buckets.
    assert forall|b: int| 0 <= b < service_terms.len() implies #[trigger] amounts[b] == sum(
        service_terms[b],
    ) by {
        assert(service_totals[b].2 == sum(services[b].terms@));
    }
    lemma_ranked_carry(service_terms, amounts, sum);
    assert forall|b: int| 0 <= b < tag_terms.len() implies #[trigger] tag_amounts[b] == sum(
        tag_terms[b],
    ) by {
        assert(tag_totals[b].amount == sum(tagged[b].terms@));
    }
    lemma_ranked_carry(tag_terms, tag_amounts, sum);
    laws::a_ranked_list_falls(service_totals, amounts);
    laws::a_ranked_list_falls(tag_totals, tag_amounts);
    let at = amount::positive_ranking(amounts);
    let tag_at = amount::positive_ranking(tag_amounts);
    assert forall|i: int| 0 <= i < listed.len() implies (#[trigger] listed[i]).2.is_positive() by {
        assert(listed[i] == service_totals[at[i]]);
    }
    assert(ranked::service_amounts(listed) =~= ranked::positive_first(amounts, amounts)) by {
        assert forall|i: int| 0 <= i < listed.len() implies #[trigger] ranked::service_amounts(
            listed,
        )[i] == ranked::positive_first(amounts, amounts)[i] by {
            assert(listed[i] == service_totals[at[i]]);
        }
    }
    assert(ranked::tag_usage_amounts(lines) =~= ranked::positive_first(tag_amounts, tag_amounts))
        by {
        assert forall|i: int| 0 <= i < lines.len() implies #[trigger] ranked::tag_usage_amounts(
            lines,
        )[i] == ranked::positive_first(tag_amounts, tag_amounts)[i] by {
            assert(lines[i] == tag_totals[tag_at[i]]);
        }
    }

    // So do the flows, and so do the columns.
    lemma_merges_plainly(sources, totals, listed, lines, sum);
    let string = choose|string: Seq<ServiceFlow>|
        {
            &&& #[trigger] flows::strung(string, sources, totals)
            &&& all == ranked::sorted_by_amount(string, flows::flow_amounts(string))
        };
    lemma_flows_carry(string, sources, totals, from, sum);
    let flowing = flows::flow_amounts(string);
    let ranks = amount::ranks_of(flowing);
    order::ranking_is_stable_and_complete(ranks);
    order::ranked_items_are_the_items(flowing, ranks);
    assert(flows::flow_amounts(all) =~= order::arranged(flowing, order::ranking(ranks)));
    lemma_lines_carry(sources, totals, tag_from, sum);
    attribution::columns_carry_every_flow(plan, all);
    columns::the_lines_are_brought_what_the_flows_bring(plan, all, sources, totals);
    lemma_throughputs_carry(
        source_values,
        plan.sources@,
        flows::flow_amounts(all).to_multiset(),
        from,
        sum,
    );
    lemma_throughputs_carry(
        line_values,
        plan.lines@,
        attribution::held_together(attribution::throughputs(plan.lines@)),
        tag_from,
        sum,
    );
    addends::more_steps_carry_too(flows::flow_amounts(all).to_multiset(), from, 2, sum);
    lemma_columns_hold(data.nodes@, plan, all, source_values, line_values);
    assert(addends::carry(column_values(data.nodes@, 0).to_multiset(), from, 3, sum));
    assert(addends::carry(column_values(data.nodes@, 1).to_multiset(), from, 3, sum));
    assert(addends::carry(column_values(data.nodes@, 2).to_multiset(), tag_from, 3, sum));

    // The shape of the columns.
    columns::every_column_falls(data, plan, all, sources, totals, source_values, line_values);
    columns::a_source_has_at_most_six_services(all, sources, totals, listed, lines, provider);
    if usage == vstd::multiset::Multiset::<Amount>::empty() {
        lemma_nothing_listed(services, service_totals, rows, sum);
        assert(flows::provider_names(listed) =~= flows::provider_names(
            Seq::<(String, String, Amount)>::empty(),
        ));
        columns::no_usage_draws_nothing(
            data,
            plan,
            all,
            sources,
            totals,
            source_values,
            line_values,
        );
    }
}

/// The attribution page carries the month's usage: each column of its diagram is
/// worked out of the amounts above zero that the month's gross usage adds up, and
/// without any the diagram is empty.
pub proof fn the_attribution_page_carries_the_usage(
    page: AttributionData,
    reads: AttributionReads,
    ledger: Seq<NormalizedRow>,
    now: Timestamp,
    service_totals: Seq<(String, String, Amount)>,
    tag_totals: Seq<ServiceTagUsage>,
    sources: Seq<SourceFlows>,
    totals: Seq<MergedTotals>,
    all: Seq<ServiceFlow>,
    plan: SankeyPlan,
    source_values: Seq<Amount>,
    line_values: Seq<Amount>,
    sum: spec_fn(Seq<Amount>) -> Amount,
)
    requires
        attribution::asks_of_lines(reads, ledger, now),
        drawn(
            page.sankey,
            scope::rows_in(ledger, scope::of_period(calendar::period_of(now).text()).usage()),
            BUSINESS_LINE_TAG,
            reads.services@,
            service_totals,
            reads.tags@,
            tag_totals,
            sources,
            totals,
            all,
            plan,
            source_values,
            line_values,
            sum,
        ),
        laws::adds_up(sum),
        laws::none_negative(
            scope::rows_in(ledger, scope::of_period(calendar::period_of(now).text()).usage()),
        ),
    ensures
        ({
            let usage = laws::positive_part(reads.usage@.to_multiset());
            &&& column_carries(page.sankey.nodes@, 0, usage, sum)
            &&& column_carries(page.sankey.nodes@, 1, usage, sum)
            &&& column_carries(page.sankey.nodes@, 2, usage, sum)
            &&& usage == vstd::multiset::Multiset::<Amount>::empty()
                ==> page.sankey.nodes@.len() == 0 && page.sankey.links@.len() == 0
        }),
{
    let month = scope::of_period(calendar::period_of(now).text());
    laws::usage_in_a_scope(ledger, month);
    the_diagram_carries_the_usage(
        page.sankey,
        scope::rows_in(ledger, month.usage()),
        BUSINESS_LINE_TAG,
        reads.services@,
        service_totals,
        reads.tags@,
        tag_totals,
        sources,
        totals,
        all,
        plan,
        source_values,
        line_values,
        sum,
        Seq::empty(),
    );
}

} // verus!
