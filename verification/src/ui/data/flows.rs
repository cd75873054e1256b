//! Where usage goes: from a source through a service to a business line.
//!
//! Per source, the largest services keep a flow of their own and the rest merge
//! into one "Other" flow, business lines included, so that no usage is lost on
//! the way.
use vstd::prelude::*;

use crate::amount::Amount;
use crate::ledger::ranked;
use crate::ledger::ranked::{amounts_of, copy_totals, sort_by_amount};
use crate::list;
use crate::model::ServiceTagUsage;
use crate::order;
use crate::order::distinct_texts;
use crate::text::same_text;

verus! {

/// How many services of a source keep a flow of their own.
pub const TOP_SERVICES_PER_PROVIDER: usize = 5;

/// What the flow is called that the other services of a source merge into.
pub const OTHER: &'static str = "Other";

// ==================== Amounts under names ====================

/// Being the amount of a name.
pub open spec fn under_name(name: Seq<char>) -> spec_fn((String, Amount)) -> bool {
    |item: (String, Amount)| item.0@ == name
}

/// The amounts that a list gives a name, in its order.
pub open spec fn amounts_under(items: Seq<(String, Amount)>, name: Seq<char>) -> Seq<Amount> {
    ranked::named_amounts(items.filter(under_name(name)))
}

pub open spec fn group_names(groups: Seq<(String, Vec<Amount>)>) -> Seq<String> {
    groups.map_values(|g: (String, Vec<Amount>)| g.0)
}

pub open spec fn item_names(items: Seq<(String, Amount)>) -> Seq<String> {
    items.map_values(|i: (String, Amount)| i.0)
}

/// `groups` gather a list by name: each name that occurs once and in text order,
/// with the amounts that the list gives it.
pub open spec fn gathered(groups: Seq<(String, Vec<Amount>)>, items: Seq<(String, Amount)>) -> bool {
    &&& order::is_distinct(group_names(groups), item_names(items))
    &&& forall|g: int|
        #![trigger groups[g]]
        0 <= g < groups.len() ==> groups[g].1@ == amounts_under(items, groups[g].0@)
}

fn collect_under(items: &Vec<(String, Amount)>, name: &str) -> (res: Vec<Amount>)
    ensures
        res@ == amounts_under(items@, name@),
{
    let mut res: Vec<Amount> = Vec::new();
    let mut i: usize = 0;
    proof {
        reveal(Seq::filter);
        assert(items@.take(0).filter(under_name(name@)) =~= Seq::empty());
        assert(amounts_under(items@.take(0), name@) =~= res@);
    }
    while i < items.len()
        invariant
            i <= items.len(),
            res@ == amounts_under(items@.take(i as int), name@),
        decreases items.len() - i,
    {
        proof {
            reveal(Seq::filter);
            assert(items@.take(i + 1).drop_last() =~= items@.take(i as int));
            assert(items@.take(i + 1).last() == items@[i as int]);
        }
        let ghost before = res@;
        if same_text(&items[i].0, name) {
            res.push(items[i].1);
        }
        i = i + 1;
        proof {
            assert(res@ =~= amounts_under(items@.take(i as int), name@));
        }
    }
    proof {
        assert(items@.take(i as int) =~= items@);
    }
    res
}

/// Gather a list by name.
pub fn gather(items: &Vec<(String, Amount)>) -> (res: Vec<(String, Vec<Amount>)>)
    ensures
        gathered(res@, items@),
{
    let mut names: Vec<String> = Vec::new();
    let mut i: usize = 0;
    while i < items.len()
        invariant
            i <= items.len(),
            names@ == item_names(items@).take(i as int),
        decreases items.len() - i,
    {
        names.push(items[i].0.clone());
        i = i + 1;
        proof {
            assert(names@ =~= item_names(items@).take(i as int));
        }
    }
    proof {
        assert(names@ =~= item_names(items@));
    }
    let distinct = distinct_texts(&names);
    let mut res: Vec<(String, Vec<Amount>)> = Vec::new();
    let mut d: usize = 0;
    while d < distinct.len()
        invariant
            d <= distinct.len(),
            res@.len() == d,
            forall|g: int|
                #![trigger res@[g]]
                0 <= g < d ==> res@[g].0 == distinct@[g] && res@[g].1@ == amounts_under(
                    items@,
                    distinct@[g]@,
                ),
        decreases distinct.len() - d,
    {
        let terms = collect_under(items, &distinct[d]);
        res.push((distinct[d].clone(), terms));
        d = d + 1;
    }
    proof {
        assert(group_names(res@) =~= distinct@);
    }
    res
}

// ==================== Flows ====================

/// What one service carries: its gross usage, and how that splits across the
/// business lines.
#[derive(Debug)]
pub struct ServiceFlow {
    pub provider: String,
    pub service: String,
    pub amount: Amount,
    pub lines: Vec<(String, Amount)>,
}

/// The flows of one source, the merged one still as what it adds up.
#[derive(Debug)]
pub struct SourceFlows {
    pub provider: String,
    /// The services with a flow of their own, largest first.
    pub own: Vec<ServiceFlow>,
    /// The usage of the services that merge, in their order.
    pub merged: Vec<Amount>,
    /// What the merged services bring each business line.
    pub merged_lines: Vec<(String, Vec<Amount>)>,
}

/// What the merged services of a source add up to.
#[derive(Debug)]
pub struct MergedTotals {
    pub amount: Amount,
    pub lines: Vec<(String, Amount)>,
}

/// Belonging to a source.
pub open spec fn of_provider(provider: Seq<char>) -> spec_fn((String, String, Amount)) -> bool {
    |s: (String, String, Amount)| s.0@ == provider
}

/// The services of a source with their usage, in the order of the list.
pub open spec fn services_of(
    services: Seq<(String, String, Amount)>,
    provider: Seq<char>,
) -> Seq<(String, Amount)> {
    services.filter(of_provider(provider)).map_values(|s: (String, String, Amount)| (s.1, s.2))
}

/// Being usage of a service of a source.
pub open spec fn of_service(
    provider: Seq<char>,
    service: Seq<char>,
) -> spec_fn(ServiceTagUsage) -> bool {
    |t: ServiceTagUsage| t.provider@ == provider && t.service@ == service
}

/// What a service brings each business line, in the order of the list.
pub open spec fn lines_of(
    tags: Seq<ServiceTagUsage>,
    provider: Seq<char>,
    service: Seq<char>,
) -> Seq<(String, Amount)> {
    tags.filter(of_service(provider, service)).map_values(
        |t: ServiceTagUsage| (t.tag_value, t.amount),
    )
}

/// What several services of a source bring the business lines, one service
/// after the other.
pub open spec fn lines_of_all(
    tags: Seq<ServiceTagUsage>,
    provider: Seq<char>,
    services: Seq<(String, Amount)>,
) -> Seq<(String, Amount)>
    decreases services.len(),
{
    if services.len() == 0 {
        Seq::empty()
    } else {
        lines_of_all(tags, provider, services.drop_last()) + lines_of(
            tags,
            provider,
            services.last().0@,
        )
    }
}

/// The services of a source, largest first.
pub open spec fn ranked_services(
    services: Seq<(String, String, Amount)>,
    provider: Seq<char>,
) -> Seq<(String, Amount)> {
    let own = services_of(services, provider);
    ranked::sorted_by_amount(own, ranked::named_amounts(own))
}

/// How many of `count` services keep a flow of their own.
pub open spec fn own_count(count: nat) -> int {
    if count < TOP_SERVICES_PER_PROVIDER {
        count as int
    } else {
        TOP_SERVICES_PER_PROVIDER as int
    }
}

/// `flow` is what a service carries.
pub open spec fn is_flow(
    flow: ServiceFlow,
    provider: Seq<char>,
    service: (String, Amount),
    tags: Seq<ServiceTagUsage>,
) -> bool {
    &&& flow.provider@ == provider
    &&& flow.service@ == service.0@
    &&& flow.amount == service.1
    &&& flow.lines@ == lines_of(tags, provider, service.0@)
}

/// `source` holds the flows of its source: the largest services with a flow of
/// their own, the others merged.
pub open spec fn is_source(
    source: SourceFlows,
    services: Seq<(String, String, Amount)>,
    tags: Seq<ServiceTagUsage>,
) -> bool {
    let all = ranked_services(services, source.provider@);
    let own = own_count(all.len());
    &&& source.own@.len() == own
    &&& forall|i: int|
        #![trigger source.own@[i]]
        0 <= i < own ==> is_flow(source.own@[i], source.provider@, all[i], tags)
    &&& source.merged@ == ranked::named_amounts(all.skip(own))
    &&& gathered(source.merged_lines@, lines_of_all(tags, source.provider@, all.skip(own)))
}

pub open spec fn source_names(sources: Seq<SourceFlows>) -> Seq<String> {
    sources.map_values(|s: SourceFlows| s.provider)
}

pub open spec fn provider_names(services: Seq<(String, String, Amount)>) -> Seq<String> {
    services.map_values(|s: (String, String, Amount)| s.0)
}

fn collect_services(services: &Vec<(String, String, Amount)>, provider: &str) -> (res: Vec<
    (String, Amount),
>)
    ensures
        res@ == services_of(services@, provider@),
{
    let mut res: Vec<(String, Amount)> = Vec::new();
    let mut i: usize = 0;
    proof {
        reveal(Seq::filter);
        assert(services_of(services@.take(0), provider@) =~= res@);
    }
    while i < services.len()
        invariant
            i <= services.len(),
            res@ == services_of(services@.take(i as int), provider@),
        decreases services.len() - i,
    {
        proof {
            reveal(Seq::filter);
            assert(services@.take(i + 1).drop_last() =~= services@.take(i as int));
            assert(services@.take(i + 1).last() == services@[i as int]);
        }
        if same_text(&services[i].0, provider) {
            res.push((services[i].1.clone(), services[i].2));
        }
        i = i + 1;
        proof {
            assert(res@ =~= services_of(services@.take(i as int), provider@));
        }
    }
    proof {
        assert(services@.take(i as int) =~= services@);
    }
    res
}

fn collect_lines(tags: &Vec<ServiceTagUsage>, provider: &str, service: &str) -> (res: Vec<
    (String, Amount),
>)
    ensures
        res@ == lines_of(tags@, provider@, service@),
{
    let mut res: Vec<(String, Amount)> = Vec::new();
    let mut i: usize = 0;
    proof {
        reveal(Seq::filter);
        assert(lines_of(tags@.take(0), provider@, service@) =~= res@);
    }
    while i < tags.len()
        invariant
            i <= tags.len(),
            res@ == lines_of(tags@.take(i as int), provider@, service@),
        decreases tags.len() - i,
    {
        proof {
            reveal(Seq::filter);
            assert(tags@.take(i + 1).drop_last() =~= tags@.take(i as int));
            assert(tags@.take(i + 1).last() == tags@[i as int]);
        }
        if same_text(&tags[i].provider, provider) && same_text(&tags[i].service, service) {
            res.push((tags[i].tag_value.clone(), tags[i].amount));
        }
        i = i + 1;
        proof {
            assert(res@ =~= lines_of(tags@.take(i as int), provider@, service@));
        }
    }
    proof {
        assert(tags@.take(i as int) =~= tags@);
    }
    res
}

/// The flows of one source.
fn flows_of_source(
    services: &Vec<(String, String, Amount)>,
    tags: &Vec<ServiceTagUsage>,
    provider: &String,
) -> (res: SourceFlows)
    ensures
        res.provider@ == provider@,
        is_source(res, services@, tags@),
{
    let rows = collect_services(services, provider);
    let amounts = amounts_of(&rows);
    let rows = sort_by_amount(rows, &amounts);
    let ghost all = ranked_services(services@, provider@);
    let ghost count = own_count(all.len());
    let mut own: Vec<ServiceFlow> = Vec::new();
    let mut i: usize = 0;
    while i < rows.len() && i < TOP_SERVICES_PER_PROVIDER
        invariant
            i <= rows.len(),
            i <= TOP_SERVICES_PER_PROVIDER,
            rows@ == all,
            own@.len() == i,
            forall|k: int|
                #![trigger own@[k]]
                0 <= k < i ==> is_flow(own@[k], provider@, all[k], tags@),
        decreases rows.len() - i,
    {
        own.push(
            ServiceFlow {
                provider: provider.clone(),
                service: rows[i].0.clone(),
                amount: rows[i].1,
                lines: collect_lines(tags, provider, &rows[i].0),
            },
        );
        i = i + 1;
    }
    let ghost rest = all.skip(count);
    let mut merged: Vec<Amount> = Vec::new();
    let mut lines: Vec<(String, Amount)> = Vec::new();
    let ghost from = i as int;
    proof {
        assert(lines@ =~= lines_of_all(tags@, provider@, rest.take(0)));
    }
    while i < rows.len()
        invariant
            count <= i <= rows.len(),
            rows@ == all,
            rest == all.skip(count),
            0 <= count <= all.len(),
            merged@ == ranked::named_amounts(rest.take(i - count)),
            lines@ == lines_of_all(tags@, provider@, rest.take(i - count)),
        decreases rows.len() - i,
    {
        proof {
            assert(rest.take(i + 1 - count).drop_last() =~= rest.take(i - count));
            assert(rest.take(i + 1 - count).last() == all[i as int]);
        }
        merged.push(rows[i].1);
        let mut own_lines = collect_lines(tags, provider, &rows[i].0);
        lines.append(&mut own_lines);
        i = i + 1;
        proof {
            assert(merged@ =~= ranked::named_amounts(rest.take(i - count)));
        }
    }
    proof {
        assert(rest.take(i - count) =~= rest);
    }
    let merged_lines = gather(&lines);
    SourceFlows { provider: provider.clone(), own, merged, merged_lines }
}

/// The flows of every source, from the period's usage by service and by service
/// and business line. What the merged services add up to is left to
/// [`service_flows`].
pub fn source_flows(services: &Vec<(String, String, Amount)>, tags: &Vec<ServiceTagUsage>) -> (res:
    Vec<SourceFlows>)
    ensures
        order::is_distinct(source_names(res@), provider_names(services@)),
        forall|i: int|
            #![trigger res@[i]]
            0 <= i < res@.len() ==> is_source(res@[i], services@, tags@),
{
    let mut names: Vec<String> = Vec::new();
    let mut i: usize = 0;
    while i < services.len()
        invariant
            i <= services.len(),
            names@ == provider_names(services@).take(i as int),
        decreases services.len() - i,
    {
        names.push(services[i].0.clone());
        i = i + 1;
        proof {
            assert(names@ =~= provider_names(services@).take(i as int));
        }
    }
    proof {
        assert(names@ =~= provider_names(services@));
    }
    let providers = distinct_texts(&names);
    let mut res: Vec<SourceFlows> = Vec::new();
    let mut p: usize = 0;
    while p < providers.len()
        invariant
            p <= providers.len(),
            res@.len() == p,
            forall|k: int|
                #![trigger res@[k]]
                0 <= k < p ==> res@[k].provider@ == providers@[k]@ && is_source(
                    res@[k],
                    services@,
                    tags@,
                ),
        decreases providers.len() - p,
    {
        res.push(flows_of_source(services, tags, &providers[p]));
        p = p + 1;
    }
    proof {
        lemma_same_names(source_names(res@), providers@, names@);
    }
    res
}

/// Lists of equal texts are distinct alike.
proof fn lemma_same_names(one: Seq<String>, other: Seq<String>, list: Seq<String>)
    requires
        one.len() == other.len(),
        forall|i: int| #![trigger one[i]] 0 <= i < one.len() ==> one[i]@ == other[i]@,
        order::is_distinct(other, list),
    ensures
        order::is_distinct(one, list),
{
    assert forall|i: int, j: int|
        #![trigger one[i], one[j]]
        0 <= i < j < one.len() implies order::text_lt(one[i]@, one[j]@) by {
        assert(order::text_lt(other[i]@, other[j]@));
    }
    assert forall|i: int| 0 <= i < one.len() implies order::lists(
        list,
        (#[trigger] one[i])@,
    ) by {
        assert(order::lists(list, other[i]@));
    }
    assert forall|i: int| 0 <= i < list.len() implies order::lists(one, (#[trigger] list[i])@) by {
        assert(order::lists(other, list[i]@));
        let k = choose|k: int| 0 <= k < other.len() && (#[trigger] other[k])@ == list[i]@;
        assert(one[k]@ == list[i]@);
    }
}

// ==================== Flows in order ====================

/// The flow that the other services of a source merge into.
pub open spec fn is_merged(flow: ServiceFlow, provider: Seq<char>, totals: MergedTotals) -> bool {
    &&& flow.provider@ == provider
    &&& flow.service@ == OTHER@
    &&& flow.amount == totals.amount
    &&& flow.lines@ == totals.lines@
}

/// `flows` are the flows of the sources, one source after the other: its own,
/// then the merged one where it carries anything.
pub open spec fn strung(
    flows: Seq<ServiceFlow>,
    sources: Seq<SourceFlows>,
    totals: Seq<MergedTotals>,
) -> bool
    decreases sources.len(),
{
    if sources.len() == 0 {
        flows.len() == 0
    } else {
        let own = sources.last().own@;
        let more = if totals.last().amount.is_positive() {
            1int
        } else {
            0int
        };
        let from = flows.len() - own.len() - more;
        &&& from >= 0
        &&& strung(flows.take(from), sources.drop_last(), totals.drop_last())
        &&& flows.subrange(from, from + own.len()) == own
        &&& more == 1 ==> is_merged(flows.last(), sources.last().provider@, totals.last())
    }
}

pub open spec fn flow_amounts(flows: Seq<ServiceFlow>) -> Seq<Amount> {
    flows.map_values(|f: ServiceFlow| f.amount)
}

/// The flows of all sources, largest first.
pub open spec fn is_service_flows(
    flows: Seq<ServiceFlow>,
    sources: Seq<SourceFlows>,
    totals: Seq<MergedTotals>,
) -> bool {
    exists|string: Seq<ServiceFlow>|
        {
            &&& #[trigger] strung(string, sources, totals)
            &&& flows == ranked::sorted_by_amount(string, flow_amounts(string))
        }
}

impl Clone for ServiceFlow {
    fn clone(&self) -> (res: Self)
        ensures
            res.provider == self.provider,
            res.service == self.service,
            res.amount == self.amount,
            res.lines@ == self.lines@,
    {
        ServiceFlow {
            provider: self.provider.clone(),
            service: self.service.clone(),
            amount: self.amount,
            lines: copy_totals(&self.lines),
        }
    }
}

/// The flows of all sources, largest first, so that every column of the diagram
/// stacks in a matching order. `totals` holds what the merged services of each
/// source add up to; a source whose merged services carry nothing has no merged
/// flow.
pub fn service_flows(sources: Vec<SourceFlows>, totals: &Vec<MergedTotals>) -> (res: Vec<
    ServiceFlow,
>)
    requires
        sources@.len() == totals@.len(),
    ensures
        is_service_flows(res@, sources@, totals@),
{
    let ghost all = sources@;
    let mut rest = sources;
    let mut flows: Vec<ServiceFlow> = Vec::new();
    let mut n: usize = 0;
    while rest.len() > 0
        invariant
            all.len() == totals@.len(),
            n <= totals.len(),
            n + rest@.len() == all.len(),
            forall|k: int| 0 <= k < rest@.len() ==> #[trigger] rest@[k] == all[n + k],
            strung(flows@, all.take(n as int), totals@.take(n as int)),
        decreases rest@.len(),
    {
        let ghost before = flows@;
        let source = rest.remove(0);
        let mut own = source.own;
        flows.append(&mut own);
        if totals[n].amount.positive() {
            flows.push(
                ServiceFlow {
                    provider: source.provider,
                    service: OTHER.to_owned(),
                    amount: totals[n].amount,
                    lines: copy_totals(&totals[n].lines),
                },
            );
        }
        proof {
            let sources = all.take(n + 1);
            let sums = totals@.take(n + 1);
            assert(sources.drop_last() =~= all.take(n as int));
            assert(sums.drop_last() =~= totals@.take(n as int));
            assert(sources.last() == all[n as int]);
            assert(flows@.take(before.len() as int) =~= before);
            assert(flows@.subrange(
                before.len() as int,
                (before.len() + all[n as int].own@.len()) as int,
            ) =~= all[n as int].own@);
            assert(strung(flows@, sources, sums));
        }
        n = n + 1;
    }
    proof {
        assert(all.take(n as int) =~= all);
        assert(totals@.take(n as int) =~= totals@);
    }
    let mut amounts: Vec<Amount> = Vec::new();
    let mut i: usize = 0;
    while i < flows.len()
        invariant
            i <= flows.len(),
            amounts@ == flow_amounts(flows@).take(i as int),
        decreases flows.len() - i,
    {
        amounts.push(flows[i].amount);
        i = i + 1;
        proof {
            assert(amounts@ =~= flow_amounts(flows@).take(i as int));
        }
    }
    proof {
        assert(amounts@ =~= flow_amounts(flows@));
        assert(strung(flows@, all, totals@));
    }
    sort_by_amount(flows, &amounts)
}

// ==================== Nothing is lost ====================

/// The usage of one source, its own flows and the merged ones together.
pub open spec fn usage_of(source: SourceFlows) -> Seq<Amount> {
    flow_amounts(source.own@) + source.merged@
}

/// A source's own flows and what it merges are the usage of its services: none
/// is lost and none counted twice.
pub proof fn a_source_keeps_its_usage(
    source: SourceFlows,
    services: Seq<(String, String, Amount)>,
    tags: Seq<ServiceTagUsage>,
)
    requires
        is_source(source, services, tags),
    ensures
        usage_of(source).to_multiset() == ranked::named_amounts(
            services_of(services, source.provider@),
        ).to_multiset(),
{
    let own = services_of(services, source.provider@);
    let all = ranked_services(services, source.provider@);
    let keys = crate::amount::ranks_of(ranked::named_amounts(own));
    let amounts = ranked::named_amounts(own);
    order::ranked_items_are_the_items(amounts, keys);
    assert(ranked::named_amounts(all) =~= order::arranged(amounts, order::ranking(keys))) by {
        order::ranking_is_stable_and_complete(keys);
    }
    order::ranking_is_stable_and_complete(keys);
    let count = own_count(all.len());
    assert(usage_of(source) =~= ranked::named_amounts(all)) by {
        assert forall|i: int| 0 <= i < usage_of(source).len() implies #[trigger] usage_of(source)[i]
            == ranked::named_amounts(all)[i] by {
            if i < count {
                assert(is_flow(source.own@[i], source.provider@, all[i], tags));
            } else {
                assert(source.merged@[i - count] == all.skip(count)[i - count].1);
            }
        }
    }
}

/// The usage of the sources, all together.
pub open spec fn usage_of_all(sources: Seq<SourceFlows>) -> vstd::multiset::Multiset<Amount>
    decreases sources.len(),
{
    if sources.len() == 0 {
        vstd::multiset::Multiset::empty()
    } else {
        usage_of_all(sources.drop_last()).add(usage_of(sources.last()).to_multiset())
    }
}

/// The flows of all sources are the usage of all services: none is lost and none
/// counted twice.
pub proof fn flows_keep_every_usage(
    sources: Seq<SourceFlows>,
    services: Seq<(String, String, Amount)>,
    tags: Seq<ServiceTagUsage>,
)
    requires
        order::is_distinct(source_names(sources), provider_names(services)),
        forall|i: int|
            #![trigger sources[i]]
            0 <= i < sources.len() ==> is_source(sources[i], services, tags),
    ensures
        usage_of_all(sources) == ranked::service_amounts(services).to_multiset(),
{
    let key_of = |s: (String, String, Amount)| s.0@;
    let value_of = |s: (String, String, Amount)| s.2;
    let names = source_names(sources);
    let keys = names.map_values(|t: String| t@);
    order::lemma_ascending_once(names);
    assert forall|i: int| 0 <= i < services.len() implies keys.contains(
        key_of(#[trigger] services[i]),
    ) by {
        assert(provider_names(services)[i] == services[i].0);
        assert(order::lists(names, services[i].0@));
        let k = choose|k: int| 0 <= k < names.len() && (#[trigger] names[k])@ == services[i].0@;
        assert(keys[k] == services[i].0@);
    }
    list::splitting_keeps_every_item(services, key_of, value_of, keys);
    assert(services.map_values(value_of) =~= ranked::service_amounts(services));
    lemma_usage_collected(sources, services, tags, key_of, value_of, sources.len() as int);
    assert(sources.take(sources.len() as int) =~= sources);
    assert(keys.take(sources.len() as int) =~= keys);
}

proof fn lemma_usage_collected(
    sources: Seq<SourceFlows>,
    services: Seq<(String, String, Amount)>,
    tags: Seq<ServiceTagUsage>,
    key_of: spec_fn((String, String, Amount)) -> Seq<char>,
    value_of: spec_fn((String, String, Amount)) -> Amount,
    count: int,
)
    requires
        0 <= count <= sources.len(),
        key_of == (|s: (String, String, Amount)| s.0@),
        value_of == (|s: (String, String, Amount)| s.2),
        forall|i: int|
            #![trigger sources[i]]
            0 <= i < sources.len() ==> is_source(sources[i], services, tags),
    ensures
        usage_of_all(sources.take(count)) == list::collected(
            services,
            key_of,
            value_of,
            source_names(sources).map_values(|t: String| t@).take(count),
        ),
    decreases count,
{
    let keys = source_names(sources).map_values(|t: String| t@);
    if count > 0 {
        lemma_usage_collected(sources, services, tags, key_of, value_of, count - 1);
        assert(sources.take(count).drop_last() =~= sources.take(count - 1));
        assert(keys.take(count).drop_last() =~= keys.take(count - 1));
        let source = sources[count - 1];
        a_source_keeps_its_usage(source, services, tags);
        let test = list::keyed_as(key_of, keys[count - 1]);
        assert(test =~= of_provider(source.provider@));
        assert(services.filter(test).map_values(value_of) =~= ranked::named_amounts(
            services_of(services, source.provider@),
        ));
    }
}

} // verus!
