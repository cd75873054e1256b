//! What the links of the attribution diagram carry: at every node, as much as
//! passes through it.
use vstd::prelude::*;

use super::attribution;
use super::attribution::{SankeyData, SankeyLink, SankeyNode, SankeyPlan};
use super::diagram;
use super::flows::ServiceFlow;
use crate::amount;
use crate::amount::Amount;
use crate::ledger::ranked;
use crate::list;
use crate::order;

verus! {

// ==================== What links carry ====================

/// An amount on its own, or none.
pub open spec fn where_so(so: bool, value: Amount) -> vstd::multiset::Multiset<Amount> {
    if so {
        vstd::multiset::Multiset::singleton(value)
    } else {
        vstd::multiset::Multiset::empty()
    }
}

/// What a link brings to a node.
pub open spec fn brought_to(id: Seq<char>) -> spec_fn(SankeyLink) -> vstd::multiset::Multiset<
    Amount,
> {
    |link: SankeyLink| where_so(link.to@ == id, link.value)
}

/// What a link takes from a node.
pub open spec fn taken_from(id: Seq<char>) -> spec_fn(SankeyLink) -> vstd::multiset::Multiset<
    Amount,
> {
    |link: SankeyLink| where_so(link.from@ == id, link.value)
}

/// What a link carries from one node to another.
pub open spec fn carried_between(
    from: Seq<char>,
    to: Seq<char>,
) -> spec_fn(SankeyLink) -> vstd::multiset::Multiset<Amount> {
    |link: SankeyLink| where_so(link.from@ == from && link.to@ == to, link.value)
}

/// What a node of a column holds under an id.
pub open spec fn held_under(
    column: usize,
    id: Seq<char>,
) -> spec_fn(SankeyNode) -> vstd::multiset::Multiset<Amount> {
    |node: SankeyNode| where_so(node.column == column && node.id@ == id, node.value)
}

/// What a service of a provider uses.
pub open spec fn used_of(provider: Seq<char>) -> spec_fn(ServiceFlow) -> vstd::multiset::Multiset<
    Amount,
> {
    |flow: ServiceFlow| where_so(flow.provider@ == provider, flow.amount)
}

/// What one business line gets of a service's lines.
pub open spec fn given_to(line: Seq<char>) -> spec_fn((String, Amount)) -> vstd::multiset::Multiset<
    Amount,
> {
    |own: (String, Amount)| where_so(own.0@ == line, own.1)
}

/// What one business line gets of a service.
pub open spec fn given_by(line: Seq<char>) -> spec_fn(ServiceFlow) -> vstd::multiset::Multiset<
    Amount,
> {
    |flow: ServiceFlow| list::pooled(flow.lines@, given_to(line))
}

proof fn lemma_nothing_pooled<T>(
    items: Seq<T>,
    part: spec_fn(T) -> vstd::multiset::Multiset<Amount>,
)
    requires
        forall|i: int|
            0 <= i < items.len() ==> part(#[trigger] items[i]) == vstd::multiset::Multiset::<
                Amount,
            >::empty(),
    ensures
        list::pooled(items, part) == vstd::multiset::Multiset::<Amount>::empty(),
    decreases items.len(),
{
    if items.len() > 0 {
        let fewer = items.drop_last();
        assert forall|i: int| 0 <= i < fewer.len() implies part(#[trigger] fewer[i])
            == vstd::multiset::Multiset::<Amount>::empty() by {
            assert(fewer[i] == items[i]);
        }
        lemma_nothing_pooled(fewer, part);
        assert(part(items[items.len() - 1]) == vstd::multiset::Multiset::<Amount>::empty());
        assert(list::pooled(items, part) =~= vstd::multiset::Multiset::<Amount>::empty());
    }
}

/// What the links of one flow give, by the ends and the value of each.
spec fn of_flow(
    part: spec_fn(Seq<char>, Seq<char>, Amount) -> vstd::multiset::Multiset<Amount>,
) -> spec_fn(ServiceFlow) -> vstd::multiset::Multiset<Amount> {
    |flow: ServiceFlow|
        list::pooled(flow.lines@, of_line(part, flow)).add(
            part(
                "src-"@ + flow.provider@,
                "svc-"@ + flow.provider@ + "-"@ + flow.service@,
                flow.amount,
            ),
        )
}

spec fn of_line(
    part: spec_fn(Seq<char>, Seq<char>, Amount) -> vstd::multiset::Multiset<Amount>,
    flow: ServiceFlow,
) -> spec_fn((String, Amount)) -> vstd::multiset::Multiset<Amount> {
    |line: (String, Amount)|
        part("svc-"@ + flow.provider@ + "-"@ + flow.service@, "line-"@ + line.0@, line.1)
}

spec fn of_link(
    part: spec_fn(Seq<char>, Seq<char>, Amount) -> vstd::multiset::Multiset<Amount>,
) -> spec_fn(SankeyLink) -> vstd::multiset::Multiset<Amount> {
    |link: SankeyLink| part(link.from@, link.to@, link.value)
}

/// The links of the flows give what the flows give.
proof fn lemma_links_pooled(
    links: Seq<SankeyLink>,
    all: Seq<ServiceFlow>,
    part: spec_fn(Seq<char>, Seq<char>, Amount) -> vstd::multiset::Multiset<Amount>,
)
    requires
        attribution::links_of_all(links, all),
    ensures
        list::pooled(links, of_link(part)) == list::pooled(all, of_flow(part)),
    decreases all.len(),
{
    if all.len() > 0 {
        let flow = all.last();
        let lines = attribution::ranked_lines(flow);
        let from = links.len() - lines.len() - 1;
        let own = links.skip(from);
        let ahead = own.drop_last();
        lemma_links_pooled(links.take(from), all.drop_last(), part);
        list::pooling_splits(links.take(from), own, of_link(part));
        assert(links.take(from) + own =~= links);
        assert forall|i: int| 0 <= i < ahead.len() implies of_link(part)(#[trigger] ahead[i])
            == of_line(part, flow)(lines[i]) by {
            assert(ahead[i] == own[i]);
        }
        list::pooling_agrees(ahead, lines, of_link(part), of_line(part, flow));
        let ranks = amount::ranks_of(ranked::named_amounts(flow.lines@));
        order::ranked_items_are_the_items(flow.lines@, ranks);
        list::pooling_ignores_order(lines, flow.lines@, of_line(part, flow));
        assert(list::pooled(own, of_link(part)) == of_flow(part)(flow));
    } else {
        assert(links.len() == 0);
    }
}

// ==================== Ids ====================

/// The ids of sources, services and business lines never coincide, and those of
/// two sources, or of two business lines, only where they are one.
proof fn lemma_ids(a: Seq<char>, b: Seq<char>)
    ensures
        "src-"@ + a != "svc-"@ + b,
        "line-"@ + a != "svc-"@ + b,
        "line-"@ + a != "src-"@ + b,
        "src-"@ + a == "src-"@ + b <==> a == b,
        "line-"@ + a == "line-"@ + b <==> a == b,
{
    reveal_strlit("src-");
    reveal_strlit("svc-");
    reveal_strlit("line-");
    assert(("src-"@ + a)[1] == 'r');
    assert(("svc-"@ + b)[1] == 'v');
    assert(("src-"@ + b)[0] == 's');
    assert(("svc-"@ + b)[0] == 's');
    assert(("line-"@ + a)[0] == 'l');
    if "src-"@ + a == "src-"@ + b {
        assert(("src-"@ + a).skip(4) =~= a);
        assert(("src-"@ + b).skip(4) =~= b);
    }
    if "line-"@ + a == "line-"@ + b {
        assert(("line-"@ + a).skip(5) =~= a);
        assert(("line-"@ + b).skip(5) =~= b);
    }
}

proof fn lemma_service_id(flow: ServiceFlow)
    ensures
        "svc-"@ + flow.provider@ + "-"@ + flow.service@ == "svc-"@ + (flow.provider@ + "-"@
            + flow.service@),
{
    assert("svc-"@ + flow.provider@ + "-"@ + flow.service@ =~= "svc-"@ + (flow.provider@ + "-"@
        + flow.service@));
}

// ==================== Tallies ====================

/// What is noted under an id.
spec fn noted_under(id: Seq<char>) -> spec_fn((Seq<char>, Amount)) -> vstd::multiset::Multiset<
    Amount,
> {
    |item: (Seq<char>, Amount)| where_so(item.0 == id, item.1)
}

/// A tally holds, under each of its ids, what was noted under it, and lists no id
/// twice.
proof fn lemma_tallied(items: Seq<(Seq<char>, Amount)>)
    ensures
        forall|k: int|
            #![trigger attribution::tallied(items)[k]]
            0 <= k < attribution::tallied(items).len() ==> attribution::tallied(
                items,
            )[k].1.to_multiset() == list::pooled(
                items,
                noted_under(attribution::tallied(items)[k].0),
            ),
        forall|k: int, l: int|
            #![trigger attribution::tallied(items)[k], attribution::tallied(items)[l]]
            0 <= k < l < attribution::tallied(items).len() ==> attribution::tallied(items)[k].0
                != attribution::tallied(items)[l].0,
    decreases items.len(),
{
    broadcast use vstd::seq_lib::group_to_multiset_ensures;

    if items.len() > 0 {
        let rest = items.drop_last();
        let (id, value) = items.last();
        let before = attribution::tallied(rest);
        let after = attribution::tallied(items);
        lemma_tallied(rest);
        list::first_index_is_first(before, attribution::under_id(id));
        let found = list::first_index(before, attribution::under_id(id));
        if found is Some {
            assert(before[found->0].0 == id);
        } else {
            attribution::tallying_keeps_every_amount(rest);
            assert forall|i: int| 0 <= i < rest.len() implies noted_under(id)(#[trigger] rest[i])
                == vstd::multiset::Multiset::<Amount>::empty() by {
                let k = choose|k: int|
                    0 <= k < before.len() && (#[trigger] before[k]).0 == rest[i].0;
                assert(!attribution::under_id(id)(before[k]));
            }
            lemma_nothing_pooled(rest, noted_under(id));
            assert(seq![value] =~= Seq::<Amount>::empty().push(value));
        }
        assert forall|k: int| #![trigger after[k]] 0 <= k < after.len() implies after[k].1.to_multiset()
            == list::pooled(items, noted_under(after[k].0)) by {
            if k < before.len() {
                assert(before[k].1.to_multiset() == list::pooled(rest, noted_under(before[k].0)));
                if found is Some && found->0 == k {
                    assert(after[k].1 == before[k].1.push(value));
                    assert(after[k].1.to_multiset() =~= list::pooled(
                        items,
                        noted_under(after[k].0),
                    ));
                } else {
                    assert(after[k] == before[k]);
                    if before[k].0 == id {
                        if found is Some {
                            assert(before[found->0].0 == before[k].0);
                            if found->0 < k {
                                assert(before[found->0].0 != before[k].0);
                            } else {
                                assert(before[k].0 != before[found->0].0);
                            }
                        } else {
                            assert(!attribution::under_id(id)(before[k]));
                        }
                    }
                    assert(after[k].1.to_multiset() =~= list::pooled(
                        items,
                        noted_under(after[k].0),
                    ));
                }
            } else {
                assert(after[k].1.to_multiset() =~= list::pooled(items, noted_under(after[k].0)));
            }
        }
        assert forall|k: int, l: int|
            #![trigger after[k], after[l]]
            0 <= k < l < after.len() implies after[k].0 != after[l].0 by {
            assert(after[k].0 == before[k].0);
            if l < before.len() {
                assert(after[l].0 == before[l].0);
                assert(before[k].0 != before[l].0);
            } else {
                assert(!attribution::under_id(id)(before[k]));
            }
        }
    }
}

/// An id begins with a prefix.
spec fn prefixed(prefix: Seq<char>, id: Seq<char>) -> bool {
    exists|rest: Seq<char>| id == #[trigger] (prefix + rest)
}

/// A tally lists ids that were noted.
proof fn lemma_tallied_ids(items: Seq<(Seq<char>, Amount)>, prefix: Seq<char>)
    requires
        forall|i: int| 0 <= i < items.len() ==> prefixed(prefix, (#[trigger] items[i]).0),
    ensures
        forall|k: int|
            0 <= k < attribution::tallied(items).len() ==> prefixed(
                prefix,
                (#[trigger] attribution::tallied(items)[k]).0,
            ),
    decreases items.len(),
{
    if items.len() > 0 {
        let rest = items.drop_last();
        let before = attribution::tallied(rest);
        let after = attribution::tallied(items);
        assert forall|i: int| 0 <= i < rest.len() implies prefixed(
            prefix,
            (#[trigger] rest[i]).0,
        ) by {
            assert(rest[i] == items[i]);
        }
        lemma_tallied_ids(rest, prefix);
        assert(prefixed(prefix, items[items.len() - 1].0));
        list::first_index_is_first(before, attribution::under_id(items.last().0));
        assert forall|k: int| 0 <= k < after.len() implies prefixed(
            prefix,
            (#[trigger] after[k]).0,
        ) by {
            if k < before.len() {
                assert(prefixed(prefix, before[k].0));
            }
        }
    }
}

proof fn lemma_source_ids(all: Seq<ServiceFlow>)
    ensures
        forall|i: int|
            0 <= i < attribution::source_items(all).len() ==> prefixed(
                "src-"@,
                (#[trigger] attribution::source_items(all)[i]).0,
            ),
{
    let items = attribution::source_items(all);
    assert forall|i: int| 0 <= i < items.len() implies prefixed(
        "src-"@,
        (#[trigger] items[i]).0,
    ) by {
        assert(items[i].0 == "src-"@ + all[i].provider@);
    }
}

proof fn lemma_line_ids(all: Seq<ServiceFlow>)
    ensures
        forall|i: int|
            0 <= i < attribution::line_items(all).len() ==> prefixed(
                "line-"@,
                (#[trigger] attribution::line_items(all)[i]).0,
            ),
    decreases all.len(),
{
    if all.len() > 0 {
        lemma_line_ids(all.drop_last());
        let items = attribution::line_items(all);
        let ahead = attribution::line_items(all.drop_last());
        let own = attribution::line_items_of(all.last());
        assert forall|i: int| 0 <= i < items.len() implies prefixed(
            "line-"@,
            (#[trigger] items[i]).0,
        ) by {
            if i < ahead.len() {
                assert(items[i] == ahead[i]);
            } else {
                let l = i - ahead.len();
                assert(items[i] == own[l]);
                assert(own[l].0 == "line-"@ + attribution::ranked_lines(all.last())[l].0@);
            }
        }
    }
}

// ==================== The law ====================

/// A diagram as it is drawn of flows: laid out as links, service nodes and what
/// passes through the others, and the nodes' values added up by `sum`.
pub open spec fn drawn_of(
    data: SankeyData,
    plan: SankeyPlan,
    all: Seq<ServiceFlow>,
    sources: Seq<Amount>,
    lines: Seq<Amount>,
    sum: spec_fn(Seq<Amount>) -> Amount,
) -> bool {
    &&& attribution::lays_out(plan, all)
    &&& diagram::throughputs_summed(sources, plan.sources@, sum)
    &&& diagram::throughputs_summed(lines, plan.lines@, sum)
    &&& data.links@ == plan.links@
    &&& attribution::nodes_of(data.nodes@, plan, sources, lines)
}

/// Which node stands where: the services first, as their flows say, then the
/// sources and then the business lines.
pub proof fn the_nodes_tell_of_the_flows(
    data: SankeyData,
    plan: SankeyPlan,
    all: Seq<ServiceFlow>,
    sources: Seq<Amount>,
    lines: Seq<Amount>,
    sum: spec_fn(Seq<Amount>) -> Amount,
    n: int,
)
    requires
        drawn_of(data, plan, all, sources, lines, sum),
        0 <= n < data.nodes@.len(),
    ensures
        n < all.len() ==> {
            &&& data.nodes@[n].column == 1
            &&& data.nodes@[n].id@ == "svc-"@ + all[n].provider@ + "-"@ + all[n].service@
            &&& data.nodes@[n].label@ == all[n].service@
            &&& data.nodes@[n].value == all[n].amount
        },
        n >= all.len() ==> data.nodes@[n].column == 0 || data.nodes@[n].column == 2,
{
    let s = plan.services@.len() as int;
    let by_source = amount::largest_first(sources);
    let by_line = amount::largest_first(lines);
    if n < s {
        assert(data.nodes@.take(s)[n] == plan.services@[n]);
        assert(attribution::is_service_node(plan.services@[n], all[n]));
    } else if n < s + sources.len() {
        assert(attribution::is_source_node(
            data.nodes@[s + (n - s)],
            plan.sources@[by_source[n - s]].id@,
            sources[by_source[n - s]],
        ));
    } else {
        let m = n - s - sources.len();
        assert(attribution::is_line_node(
            data.nodes@[s + sources.len() + m],
            plan.lines@[by_line[m]].id@,
            lines[by_line[m]],
        ));
    }
}

/// What the links bring to a service is what its node shows: where no two services
/// share an id, one link from its source with the whole of its usage, tagged or
/// not. In general, what they bring to an id is what the service nodes under that
/// id hold.
pub proof fn a_service_is_brought_all_it_uses(
    data: SankeyData,
    plan: SankeyPlan,
    all: Seq<ServiceFlow>,
    sources: Seq<Amount>,
    lines: Seq<Amount>,
    sum: spec_fn(Seq<Amount>) -> Amount,
    n: int,
)
    requires
        drawn_of(data, plan, all, sources, lines, sum),
        0 <= n < data.nodes@.len(),
        data.nodes@[n].column == 1,
    ensures
        list::pooled(data.links@, brought_to(data.nodes@[n].id@)) == list::pooled(
            data.nodes@,
            held_under(1, data.nodes@[n].id@),
        ),
        (forall|m: int|
            0 <= m < data.nodes@.len() && m != n && data.nodes@[m].column == 1
                ==> (#[trigger] data.nodes@[m]).id@ != data.nodes@[n].id@) ==> list::pooled(
            data.links@,
            brought_to(data.nodes@[n].id@),
        ) == vstd::multiset::Multiset::singleton(data.nodes@[n].value),
{
    let nodes = data.nodes@;
    let id = nodes[n].id@;
    let s = all.len() as int;
    let part = |from: Seq<char>, to: Seq<char>, value: Amount| where_so(to == id, value);
    let empty = vstd::multiset::Multiset::<Amount>::empty();
    the_nodes_tell_of_the_flows(data, plan, all, sources, lines, sum, n);
    lemma_service_id(all[n]);
    let rest = all[n].provider@ + "-"@ + all[n].service@;
    assert(id == "svc-"@ + rest);
    lemma_links_pooled(data.links@, all, part);
    assert(of_link(part) =~= brought_to(id));
    let services = nodes.take(s);
    let others = nodes.skip(s);
    assert(nodes =~= services + others);
    list::pooling_splits(services, others, held_under(1, id));
    assert forall|i: int| 0 <= i < others.len() implies held_under(1, id)(#[trigger] others[i])
        == empty by {
        the_nodes_tell_of_the_flows(data, plan, all, sources, lines, sum, s + i);
    }
    lemma_nothing_pooled(others, held_under(1, id));
    assert forall|i: int| 0 <= i < all.len() implies of_flow(part)(#[trigger] all[i])
        == held_under(1, id)(services[i]) by {
        let flow = all[i];
        the_nodes_tell_of_the_flows(data, plan, all, sources, lines, sum, i);
        assert forall|l: int| 0 <= l < flow.lines@.len() implies of_line(part, flow)(
            #[trigger] flow.lines@[l],
        ) == empty by {
            lemma_ids(flow.lines@[l].0@, rest);
        }
        lemma_nothing_pooled(flow.lines@, of_line(part, flow));
        assert(of_flow(part)(flow) =~= held_under(1, id)(services[i]));
    }
    list::pooling_agrees(all, services, of_flow(part), held_under(1, id));
    assert(list::pooled(nodes, held_under(1, id)) =~= list::pooled(services, held_under(1, id)));
    if forall|m: int|
        0 <= m < nodes.len() && m != n && nodes[m].column == 1 ==> (#[trigger] nodes[m]).id@
            != id {
        let ahead = nodes.take(n);
        let behind = nodes.skip(n + 1);
        assert(nodes =~= ahead + seq![nodes[n]] + behind);
        list::pooling_splits(ahead + seq![nodes[n]], behind, held_under(1, id));
        list::pooling_splits(ahead, seq![nodes[n]], held_under(1, id));
        assert forall|i: int| 0 <= i < ahead.len() implies held_under(1, id)(#[trigger] ahead[i])
            == empty by {
            assert(ahead[i] == nodes[i]);
        }
        assert forall|i: int| 0 <= i < behind.len() implies held_under(1, id)(
            #[trigger] behind[i],
        ) == empty by {
            assert(behind[i] == nodes[n + 1 + i]);
        }
        lemma_nothing_pooled(ahead, held_under(1, id));
        lemma_nothing_pooled(behind, held_under(1, id));
        let one = seq![nodes[n]];
        assert(one.drop_last() =~= Seq::<SankeyNode>::empty());
        assert(list::pooled(one.drop_last(), held_under(1, id)) == empty);
        assert(list::pooled(one, held_under(1, id)) =~= vstd::multiset::Multiset::singleton(
            nodes[n].value,
        ));
        assert(list::pooled(nodes, held_under(1, id)) =~= vstd::multiset::Multiset::singleton(
            nodes[n].value,
        ));
    }
}

/// What the links take from a provider is the usage of its services, each amount
/// once, whole.
pub proof fn a_source_gives_what_its_services_use(
    data: SankeyData,
    plan: SankeyPlan,
    all: Seq<ServiceFlow>,
    sources: Seq<Amount>,
    lines: Seq<Amount>,
    sum: spec_fn(Seq<Amount>) -> Amount,
    provider: Seq<char>,
)
    requires
        drawn_of(data, plan, all, sources, lines, sum),
    ensures
        list::pooled(data.links@, taken_from("src-"@ + provider)) == list::pooled(
            all,
            used_of(provider),
        ),
{
    let id = "src-"@ + provider;
    let part = |from: Seq<char>, to: Seq<char>, value: Amount| where_so(from == id, value);
    let empty = vstd::multiset::Multiset::<Amount>::empty();
    lemma_links_pooled(data.links@, all, part);
    assert(of_link(part) =~= taken_from(id));
    assert forall|i: int| 0 <= i < all.len() implies of_flow(part)(#[trigger] all[i]) == used_of(
        provider,
    )(all[i]) by {
        let flow = all[i];
        lemma_service_id(flow);
        lemma_ids(provider, flow.provider@ + "-"@ + flow.service@);
        lemma_ids(flow.provider@, provider);
        assert forall|l: int| 0 <= l < flow.lines@.len() implies of_line(part, flow)(
            #[trigger] flow.lines@[l],
        ) == empty by {}
        lemma_nothing_pooled(flow.lines@, of_line(part, flow));
        assert(of_flow(part)(flow) =~= used_of(provider)(flow));
    }
    list::pooling_agrees(all, all, of_flow(part), used_of(provider));
}

/// What the links bring to a business line is what the services give it, each
/// amount once.
pub proof fn a_line_is_brought_what_services_give_it(
    data: SankeyData,
    plan: SankeyPlan,
    all: Seq<ServiceFlow>,
    sources: Seq<Amount>,
    lines: Seq<Amount>,
    sum: spec_fn(Seq<Amount>) -> Amount,
    line: Seq<char>,
)
    requires
        drawn_of(data, plan, all, sources, lines, sum),
    ensures
        list::pooled(data.links@, brought_to("line-"@ + line)) == list::pooled(all, given_by(line)),
{
    let id = "line-"@ + line;
    let part = |from: Seq<char>, to: Seq<char>, value: Amount| where_so(to == id, value);
    lemma_links_pooled(data.links@, all, part);
    assert(of_link(part) =~= brought_to(id));
    assert forall|i: int| 0 <= i < all.len() implies of_flow(part)(#[trigger] all[i]) == given_by(
        line,
    )(all[i]) by {
        let flow = all[i];
        lemma_service_id(flow);
        lemma_ids(line, flow.provider@ + "-"@ + flow.service@);
        assert forall|l: int| 0 <= l < flow.lines@.len() implies of_line(part, flow)(
            #[trigger] flow.lines@[l],
        ) == given_to(line)(flow.lines@[l]) by {
            lemma_ids(flow.lines@[l].0@, line);
        }
        list::pooling_agrees(flow.lines@, flow.lines@, of_line(part, flow), given_to(line));
        assert(of_flow(part)(flow) =~= given_by(line)(flow));
    }
    list::pooling_agrees(all, all, of_flow(part), given_by(line));
}

/// What the links carry from a service to a business line is what the service's
/// usage under that line is.
pub proof fn a_link_to_a_line_carries_its_share(
    data: SankeyData,
    plan: SankeyPlan,
    all: Seq<ServiceFlow>,
    sources: Seq<Amount>,
    lines: Seq<Amount>,
    sum: spec_fn(Seq<Amount>) -> Amount,
    i: int,
    line: Seq<char>,
)
    requires
        drawn_of(data, plan, all, sources, lines, sum),
        0 <= i < all.len(),
        forall|j: int|
            0 <= j < all.len() && j != i ==> "svc-"@ + (#[trigger] all[j]).provider@ + "-"@
                + all[j].service@ != "svc-"@ + all[i].provider@ + "-"@ + all[i].service@,
    ensures
        list::pooled(
            data.links@,
            carried_between(
                "svc-"@ + all[i].provider@ + "-"@ + all[i].service@,
                "line-"@ + line,
            ),
        ) == list::pooled(all[i].lines@, given_to(line)),
{
    let from_id = "svc-"@ + all[i].provider@ + "-"@ + all[i].service@;
    let to_id = "line-"@ + line;
    let part = |from: Seq<char>, to: Seq<char>, value: Amount| where_so(
        from == from_id && to == to_id,
        value,
    );
    let empty = vstd::multiset::Multiset::<Amount>::empty();
    lemma_links_pooled(data.links@, all, part);
    assert(of_link(part) =~= carried_between(from_id, to_id));
    assert forall|j: int| 0 <= j < all.len() implies of_flow(part)(#[trigger] all[j]) == (if j == i {
        list::pooled(all[i].lines@, given_to(line))
    } else {
        empty
    }) by {
        let flow = all[j];
        lemma_service_id(flow);
        lemma_service_id(all[i]);
        lemma_ids(line, flow.provider@ + "-"@ + flow.service@);
        lemma_ids(flow.provider@, all[i].provider@ + "-"@ + all[i].service@);
        if j == i {
            assert forall|l: int| 0 <= l < flow.lines@.len() implies of_line(part, flow)(
                #[trigger] flow.lines@[l],
            ) == given_to(line)(flow.lines@[l]) by {
                lemma_ids(flow.lines@[l].0@, line);
            }
            list::pooling_agrees(flow.lines@, flow.lines@, of_line(part, flow), given_to(line));
            assert(of_flow(part)(flow) =~= list::pooled(all[i].lines@, given_to(line)));
        } else {
            assert forall|l: int| 0 <= l < flow.lines@.len() implies of_line(part, flow)(
                #[trigger] flow.lines@[l],
            ) == empty by {}
            lemma_nothing_pooled(flow.lines@, of_line(part, flow));
            assert(of_flow(part)(flow) =~= empty);
        }
    }
    let ahead = all.take(i);
    let behind = all.skip(i + 1);
    let one = seq![all[i]];
    assert(all =~= ahead + one + behind);
    list::pooling_splits(ahead + one, behind, of_flow(part));
    list::pooling_splits(ahead, one, of_flow(part));
    assert forall|k: int| 0 <= k < ahead.len() implies of_flow(part)(#[trigger] ahead[k])
        == empty by {
        assert(ahead[k] == all[k]);
    }
    assert forall|k: int| 0 <= k < behind.len() implies of_flow(part)(#[trigger] behind[k])
        == empty by {
        assert(behind[k] == all[i + 1 + k]);
    }
    lemma_nothing_pooled(ahead, of_flow(part));
    lemma_nothing_pooled(behind, of_flow(part));
    assert(one.drop_last() =~= Seq::<ServiceFlow>::empty());
    assert(list::pooled(one.drop_last(), of_flow(part)) == empty);
    assert(list::pooled(one, of_flow(part)) =~= of_flow(part)(all[i]));
    assert(list::pooled(all, of_flow(part)) =~= list::pooled(all[i].lines@, given_to(line)));
}

/// A node's value is added up of what some amounts are.
pub open spec fn adds_up_to(
    value: Amount,
    amounts: vstd::multiset::Multiset<Amount>,
    sum: spec_fn(Seq<Amount>) -> Amount,
) -> bool {
    exists|terms: Seq<Amount>| #[trigger] sum(terms) == value && terms.to_multiset() == amounts
}

/// The value of a source is what the links take from it, added up; that of a
/// business line what they bring to it.
pub proof fn the_ends_show_what_their_links_carry(
    data: SankeyData,
    plan: SankeyPlan,
    all: Seq<ServiceFlow>,
    sources: Seq<Amount>,
    lines: Seq<Amount>,
    sum: spec_fn(Seq<Amount>) -> Amount,
    n: int,
)
    requires
        drawn_of(data, plan, all, sources, lines, sum),
        0 <= n < data.nodes@.len(),
    ensures
        data.nodes@[n].column == 0 ==> adds_up_to(
            data.nodes@[n].value,
            list::pooled(data.links@, taken_from(data.nodes@[n].id@)),
            sum,
        ),
        data.nodes@[n].column == 2 ==> adds_up_to(
            data.nodes@[n].value,
            list::pooled(data.links@, brought_to(data.nodes@[n].id@)),
            sum,
        ),
{
    let s = plan.services@.len() as int;
    let by_source = amount::largest_first(sources);
    let by_line = amount::largest_first(lines);
    order::ranking_is_stable_and_complete(amount::ranks_of(sources));
    order::ranking_is_stable_and_complete(amount::ranks_of(lines));
    the_nodes_tell_of_the_flows(data, plan, all, sources, lines, sum, n);
    if s <= n < s + sources.len() {
        let k = by_source[n - s];
        let items = attribution::source_items(all);
        assert(attribution::is_source_node(
            data.nodes@[s + (n - s)],
            plan.sources@[k].id@,
            sources[k],
        ));
        lemma_tallied(items);
        assert(attribution::throughputs(plan.sources@)[k] == plan.sources@[k]@);
        assert(attribution::tallied(items)[k] == plan.sources@[k]@);
        let terms = plan.sources@[k].terms@;
        let id = plan.sources@[k].id@;
        assert(terms.to_multiset() == list::pooled(items, noted_under(id)));
        lemma_source_ids(all);
        lemma_tallied_ids(items, "src-"@);
        lemma_source_noted(data.links@, all, id);
        assert(sum(terms) == data.nodes@[n].value);
    } else if s + sources.len() <= n {
        let m = n - s - sources.len();
        let k = by_line[m];
        let items = attribution::line_items(all);
        assert(attribution::is_line_node(
            data.nodes@[s + sources.len() + m],
            plan.lines@[k].id@,
            lines[k],
        ));
        lemma_tallied(items);
        assert(attribution::throughputs(plan.lines@)[k] == plan.lines@[k]@);
        assert(attribution::tallied(items)[k] == plan.lines@[k]@);
        let terms = plan.lines@[k].terms@;
        let id = plan.lines@[k].id@;
        assert(terms.to_multiset() == list::pooled(items, noted_under(id)));
        lemma_line_ids(all);
        lemma_tallied_ids(items, "line-"@);
        lemma_line_noted(data.links@, all, id);
        assert(sum(terms) == data.nodes@[n].value);
    }
}

proof fn lemma_source_noted(links: Seq<SankeyLink>, all: Seq<ServiceFlow>, id: Seq<char>)
    requires
        attribution::links_of_all(links, all),
        prefixed("src-"@, id),
    ensures
        list::pooled(attribution::source_items(all), noted_under(id)) == list::pooled(
            links,
            taken_from(id),
        ),
{
    let items = attribution::source_items(all);
    let p = choose|p: Seq<char>| id == #[trigger] ("src-"@ + p);
    let part = |from: Seq<char>, to: Seq<char>, value: Amount| where_so(from == id, value);
    let empty = vstd::multiset::Multiset::<Amount>::empty();
    lemma_links_pooled(links, all, part);
    assert(of_link(part) =~= taken_from(id));
    assert forall|i: int| 0 <= i < all.len() implies of_flow(part)(#[trigger] all[i])
        == noted_under(id)(items[i]) by {
        let flow = all[i];
        lemma_service_id(flow);
        lemma_ids(p, flow.provider@ + "-"@ + flow.service@);
        assert forall|l: int| 0 <= l < flow.lines@.len() implies of_line(part, flow)(
            #[trigger] flow.lines@[l],
        ) == empty by {}
        lemma_nothing_pooled(flow.lines@, of_line(part, flow));
        assert(of_flow(part)(flow) =~= noted_under(id)(items[i]));
    }
    list::pooling_agrees(all, items, of_flow(part), noted_under(id));
}

/// What is noted under the id of a business line, flow by flow.
spec fn noted_of_flow(id: Seq<char>) -> spec_fn(ServiceFlow) -> vstd::multiset::Multiset<Amount> {
    |flow: ServiceFlow| list::pooled(attribution::line_items_of(flow), noted_under(id))
}

proof fn lemma_line_items_pooled(all: Seq<ServiceFlow>, id: Seq<char>)
    ensures
        list::pooled(attribution::line_items(all), noted_under(id)) == list::pooled(
            all,
            noted_of_flow(id),
        ),
    decreases all.len(),
{
    if all.len() > 0 {
        lemma_line_items_pooled(all.drop_last(), id);
        list::pooling_splits(
            attribution::line_items(all.drop_last()),
            attribution::line_items_of(all.last()),
            noted_under(id),
        );
    }
}

proof fn lemma_line_noted(links: Seq<SankeyLink>, all: Seq<ServiceFlow>, id: Seq<char>)
    requires
        attribution::links_of_all(links, all),
        prefixed("line-"@, id),
    ensures
        list::pooled(attribution::line_items(all), noted_under(id)) == list::pooled(
            links,
            brought_to(id),
        ),
{
    let x = choose|x: Seq<char>| id == #[trigger] ("line-"@ + x);
    let part = |from: Seq<char>, to: Seq<char>, value: Amount| where_so(to == id, value);
    lemma_links_pooled(links, all, part);
    lemma_line_items_pooled(all, id);
    assert(of_link(part) =~= brought_to(id));
    assert forall|i: int| 0 <= i < all.len() implies of_flow(part)(#[trigger] all[i])
        == noted_of_flow(id)(all[i]) by {
        let flow = all[i];
        let lines = attribution::ranked_lines(flow);
        let items = attribution::line_items_of(flow);
        lemma_service_id(flow);
        lemma_ids(x, flow.provider@ + "-"@ + flow.service@);
        assert forall|l: int| 0 <= l < items.len() implies noted_under(id)(#[trigger] items[l])
            == of_line(part, flow)(lines[l]) by {}
        list::pooling_agrees(items, lines, noted_under(id), of_line(part, flow));
        let ranks = amount::ranks_of(ranked::named_amounts(flow.lines@));
        order::ranked_items_are_the_items(flow.lines@, ranks);
        list::pooling_ignores_order(lines, flow.lines@, of_line(part, flow));
        assert(of_flow(part)(flow) =~= noted_of_flow(id)(flow));
    }
    list::pooling_agrees(all, all, of_flow(part), noted_of_flow(id));
}

} // verus!
