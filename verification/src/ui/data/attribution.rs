//! The attribution page: usage as a diagram of three columns, and what reaches
//! no business line.
//!
//! Every flow is gross usage, not net: a net flow can be negative, which has no
//! meaning in the diagram.
use vstd::prelude::*;

use super::flows;
use super::flows::ServiceFlow;
use super::page::BUSINESS_LINE_TAG;
use crate::amount::Amount;
use crate::calendar;
use crate::calendar::{BillingPeriod, Timestamp};
use crate::cloud;
use crate::ledger::buckets;
use crate::ledger::buckets::{Grouping, ServiceTagTerms, ServiceTerms, UntaggedServiceTerms};
use crate::ledger::query;
use crate::ledger::ranked;
use crate::ledger::ranked::{
    amounts_of, copy_totals, sort_by_amount, untagged_usage_by_service,
};
use crate::ledger::scope;
use crate::list;
use crate::memory;
use crate::memory::{NormalizedRow, UNALLOCATED};
use crate::model::UntaggedServiceUsage;
use crate::order;
use crate::text;
use crate::text::{concat2, same_text, trim_start_matches};

verus! {

/// How many services without a business line the card names.
pub const TOP_UNALLOCATED_SERVICES: usize = 3;

/// One step of the path that usage takes, the heading of a column.
#[derive(Debug)]
pub struct PathStep {
    pub label: String,
}

impl Clone for PathStep {
    fn clone(&self) -> (res: Self)
        ensures
            res == *self,
    {
        PathStep {
            label: self.label.clone(),
        }
    }
}

/// A node of the diagram. Column 0 holds the sources, 1 the services, 2 the
/// business lines.
#[derive(Debug)]
pub struct SankeyNode {
    pub id: String,
    pub label: String,
    pub column: usize,
    /// What passes through, in the reporting currency.
    pub value: Amount,
}

impl Clone for SankeyNode {
    fn clone(&self) -> (res: Self)
        ensures
            res == *self,
    {
        SankeyNode {
            id: self.id.clone(),
            label: self.label.clone(),
            column: self.column,
            value: self.value,
        }
    }
}

/// A link between two nodes, named by their ids.
#[derive(Debug)]
pub struct SankeyLink {
    pub from: String,
    pub to: String,
    pub value: Amount,
}

impl Clone for SankeyLink {
    fn clone(&self) -> (res: Self)
        ensures
            res == *self,
    {
        SankeyLink {
            from: self.from.clone(),
            to: self.to.clone(),
            value: self.value,
        }
    }
}

/// The diagram.
#[derive(Debug)]
pub struct SankeyData {
    pub nodes: Vec<SankeyNode>,
    pub links: Vec<SankeyLink>,
}

/// One of the largest services without a business line.
#[derive(Debug)]
pub struct UnallocatedItem {
    pub provider: String,
    pub service: Option<String>,
    /// Always `None`: the largest rows come from totals by service, which have no
    /// description.
    pub description: Option<String>,
    /// Untagged gross usage.
    pub amount: Amount,
}

impl Clone for UnallocatedItem {
    fn clone(&self) -> (res: Self)
        ensures
            res == *self,
    {
        UnallocatedItem {
            provider: self.provider.clone(),
            service: crate::order::clone_text(&self.service),
            description: crate::order::clone_text(&self.description),
            amount: self.amount,
        }
    }
}

/// What reaches no business line.
#[derive(Debug)]
pub struct UnallocatedCardData {
    /// Untagged usage.
    pub amount: Amount,
    /// Its share of the period's usage in percent.
    pub pct: Amount,
    /// The largest services without a business line, biggest first.
    pub largest: Vec<UnallocatedItem>,
    pub action: String,
}

/// Everything the page shows.
#[derive(Debug)]
pub struct AttributionData {
    pub currency: String,
    pub path: Vec<PathStep>,
    pub sankey: SankeyData,
    pub unallocated: UnallocatedCardData,
}

// ==================== Names of nodes ====================

pub open spec fn source_id(provider: Seq<char>) -> Seq<char> {
    "src-"@ + provider
}

pub open spec fn service_id(provider: Seq<char>, service: Seq<char>) -> Seq<char> {
    "svc-"@ + provider + "-"@ + service
}

pub open spec fn line_id(line: Seq<char>) -> Seq<char> {
    "line-"@ + line
}

fn service_id_of(flow: &ServiceFlow) -> (res: String)
    ensures
        res@ == service_id(flow.provider@, flow.service@),
{
    let mut id = concat2("svc-", &flow.provider);
    id.append("-");
    id.append(&flow.service);
    id
}

// ==================== Running totals ====================

/// Amounts under an id, as they were noted.
#[derive(Debug)]
pub struct Throughput {
    pub id: String,
    pub terms: Vec<Amount>,
}

impl View for Throughput {
    type V = (Seq<char>, Seq<Amount>);

    open spec fn view(&self) -> (Seq<char>, Seq<Amount>) {
        (self.id@, self.terms@)
    }
}

pub open spec fn throughputs(totals: Seq<Throughput>) -> Seq<(Seq<char>, Seq<Amount>)> {
    totals.map_values(|t: Throughput| t@)
}

/// Being under an id.
pub open spec fn under_id(id: Seq<char>) -> spec_fn((Seq<char>, Seq<Amount>)) -> bool {
    |t: (Seq<char>, Seq<Amount>)| t.0 == id
}

/// One more amount under an id: behind those it has, or as a new id at the end.
pub open spec fn noted(
    totals: Seq<(Seq<char>, Seq<Amount>)>,
    id: Seq<char>,
    amount: Amount,
) -> Seq<(Seq<char>, Seq<Amount>)> {
    match list::first_index(totals, under_id(id)) {
        Some(i) => totals.update(i, (id, totals[i].1.push(amount))),
        None => totals.push((id, seq![amount])),
    }
}

/// Amounts noted one after the other: the ids in the order in which they first
/// occur.
pub open spec fn tallied(items: Seq<(Seq<char>, Amount)>) -> Seq<(Seq<char>, Seq<Amount>)>
    decreases items.len(),
{
    if items.len() == 0 {
        Seq::empty()
    } else {
        noted(tallied(items.drop_last()), items.last().0, items.last().1)
    }
}

/// Note one more amount under an id.
pub fn note(totals: &mut Vec<Throughput>, id: String, amount: Amount)
    ensures
        throughputs(final(totals)@) == noted(throughputs(old(totals)@), id@, amount),
{
    let ghost before = totals@;
    let mut i: usize = 0;
    while i < totals.len()
        invariant
            i <= totals.len(),
            totals@ == before,
            before == old(totals)@,
            forall|j: int| 0 <= j < i ==> (#[trigger] before[j]).id@ != id@,
        decreases totals.len() - i,
    {
        if same_text(&totals[i].id, &id) {
            proof {
                let views = throughputs(before);
                list::first_index_is_first(views, under_id(id@));
                assert(views[i as int].0 == id@);
                match list::first_index(views, under_id(id@)) {
                    Some(k) => {
                        if k < i {
                            assert(before[k].id@ == id@);
                        }
                        if i < k {
                            assert(!under_id(id@)(views[i as int]));
                        }
                    },
                    None => {
                        assert(!under_id(id@)(views[i as int]));
                    },
                }
            }
            totals[i].terms.push(amount);
            proof {
                assert(throughputs(totals@) =~= noted(throughputs(before), id@, amount));
            }
            return;
        }
        i = i + 1;
    }
    proof {
        let views = throughputs(before);
        list::first_index_is_first(views, under_id(id@));
        match list::first_index(views, under_id(id@)) {
            Some(k) => {
                assert(before[k].id@ == id@);
            },
            None => {},
        }
    }
    let mut terms: Vec<Amount> = Vec::new();
    terms.push(amount);
    totals.push(Throughput { id, terms });
    proof {
        assert(totals@.last().terms@ =~= seq![amount]);
        assert(throughputs(totals@) =~= noted(throughputs(before), id@, amount));
    }
}

// ==================== The diagram ====================

/// A link, as values.
pub open spec fn link_is(link: SankeyLink, from: Seq<char>, to: Seq<char>, value: Amount) -> bool {
    link.from@ == from && link.to@ == to && link.value == value
}

/// The business lines of a flow, largest first: thick ribbons attach first on
/// both ends.
pub open spec fn ranked_lines(flow: ServiceFlow) -> Seq<(String, Amount)> {
    ranked::sorted_by_amount(flow.lines@, ranked::named_amounts(flow.lines@))
}

/// `links` are those of one flow: to each of its business lines, then from its
/// source. The link from the source carries the whole amount, tagged or not.
pub open spec fn links_of(links: Seq<SankeyLink>, flow: ServiceFlow) -> bool {
    let lines = ranked_lines(flow);
    let id = service_id(flow.provider@, flow.service@);
    &&& links.len() == lines.len() + 1
    &&& forall|i: int|
        #![trigger links[i]]
        0 <= i < lines.len() ==> link_is(links[i], id, line_id(lines[i].0@), lines[i].1)
    &&& link_is(links.last(), source_id(flow.provider@), id, flow.amount)
}

/// `links` are those of the flows, one flow after the other.
pub open spec fn links_of_all(links: Seq<SankeyLink>, all: Seq<ServiceFlow>) -> bool
    decreases all.len(),
{
    if all.len() == 0 {
        links.len() == 0
    } else {
        let from = links.len() - ranked_lines(all.last()).len() - 1;
        &&& from >= 0
        &&& links_of_all(links.take(from), all.drop_last())
        &&& links_of(links.skip(from), all.last())
    }
}

/// What each flow takes from its source.
pub open spec fn source_items(all: Seq<ServiceFlow>) -> Seq<(Seq<char>, Amount)> {
    all.map_values(|f: ServiceFlow| (source_id(f.provider@), f.amount))
}

/// What the business lines of one flow are brought.
pub open spec fn line_items_of(flow: ServiceFlow) -> Seq<(Seq<char>, Amount)> {
    ranked_lines(flow).map_values(|l: (String, Amount)| (line_id(l.0@), l.1))
}

/// What the business lines are brought, one flow after the other.
pub open spec fn line_items(all: Seq<ServiceFlow>) -> Seq<(Seq<char>, Amount)>
    decreases all.len(),
{
    if all.len() == 0 {
        Seq::empty()
    } else {
        line_items(all.drop_last()) + line_items_of(all.last())
    }
}

/// The node of a service.
pub open spec fn is_service_node(node: SankeyNode, flow: ServiceFlow) -> bool {
    &&& node.id@ == service_id(flow.provider@, flow.service@)
    &&& node.label@ == flow.service@
    &&& node.column == 1
    &&& node.value == flow.amount
}

/// The diagram but for what the sources and the business lines add up to.
#[derive(Debug)]
pub struct SankeyPlan {
    pub links: Vec<SankeyLink>,
    /// The nodes of the services.
    pub services: Vec<SankeyNode>,
    /// What passes through each source.
    pub sources: Vec<Throughput>,
    /// What passes through each business line.
    pub lines: Vec<Throughput>,
}

/// `plan` lays out the flows.
pub open spec fn lays_out(plan: SankeyPlan, all: Seq<ServiceFlow>) -> bool {
    &&& links_of_all(plan.links@, all)
    &&& plan.services@.len() == all.len()
    &&& forall|i: int|
        #![trigger plan.services@[i]]
        0 <= i < all.len() ==> is_service_node(plan.services@[i], all[i])
    &&& throughputs(plan.sources@) == tallied(source_items(all))
    &&& throughputs(plan.lines@) == tallied(line_items(all))
}

/// Noting the items behind others is noting them all.
proof fn lemma_tallied_push(items: Seq<(Seq<char>, Amount)>, id: Seq<char>, amount: Amount)
    ensures
        tallied(items.push((id, amount))) == noted(tallied(items), id, amount),
{
    assert(items.push((id, amount)).drop_last() =~= items);
}

/// Lay out the flows as links, service nodes and what passes through the sources
/// and the business lines.
pub fn sankey_plan(all: &Vec<ServiceFlow>) -> (res: SankeyPlan)
    ensures
        lays_out(res, all@),
{
    let mut links: Vec<SankeyLink> = Vec::new();
    let mut services: Vec<SankeyNode> = Vec::new();
    let mut sources: Vec<Throughput> = Vec::new();
    let mut lines: Vec<Throughput> = Vec::new();
    let mut i: usize = 0;
    proof {
        assert(throughputs(sources@) =~= tallied(source_items(all@.take(0))));
        assert(throughputs(lines@) =~= tallied(line_items(all@.take(0))));
    }
    while i < all.len()
        invariant
            i <= all.len(),
            links_of_all(links@, all@.take(i as int)),
            services@.len() == i,
            forall|k: int|
                #![trigger services@[k]]
                0 <= k < i ==> is_service_node(services@[k], all@[k]),
            throughputs(sources@) == tallied(source_items(all@.take(i as int))),
            throughputs(lines@) == tallied(line_items(all@.take(i as int))),
        decreases all.len() - i,
    {
        let flow = &all[i];
        let ghost done = all@.take(i as int);
        let ghost next = all@.take(i + 1);
        let ghost before = links@;
        proof {
            assert(next.drop_last() =~= done);
            assert(next.last() == *flow);
            assert(source_items(next) =~= source_items(done).push(
                (source_id(flow.provider@), flow.amount),
            ));
            lemma_tallied_push(source_items(done), source_id(flow.provider@), flow.amount);
        }
        let source = concat2("src-", &flow.provider);
        note(&mut sources, source.clone(), flow.amount);
        let amounts = amounts_of(&flow.lines);
        let tags = sort_by_amount(copy_totals(&flow.lines), &amounts);
        let ghost brought = line_items_of(*flow);
        let ghost earlier = line_items(done);
        let mut t: usize = 0;
        proof {
            assert(earlier + brought.take(0) =~= earlier);
        }
        while t < tags.len()
            invariant
                t <= tags.len(),
                tags@ == ranked_lines(*flow),
                brought == line_items_of(*flow),
                links@.len() == before.len() + t,
                links@.take(before.len() as int) == before,
                forall|k: int|
                    #![trigger links@[before.len() + k]]
                    0 <= k < t ==> link_is(
                        links@[before.len() + k],
                        service_id(flow.provider@, flow.service@),
                        line_id(tags@[k].0@),
                        tags@[k].1,
                    ),
                throughputs(lines@) == tallied(earlier + brought.take(t as int)),
            decreases tags.len() - t,
        {
            let line = concat2("line-", &tags[t].0);
            proof {
                assert((earlier + brought.take(t as int)).push(brought[t as int]) =~= earlier
                    + brought.take(t + 1));
                lemma_tallied_push(
                    earlier + brought.take(t as int),
                    brought[t as int].0,
                    brought[t as int].1,
                );
            }
            note(&mut lines, line.clone(), tags[t].1);
            let ghost held = links@;
            links.push(SankeyLink { from: service_id_of(flow), to: line, value: tags[t].1 });
            proof {
                assert(links@.take(before.len() as int) =~= held.take(before.len() as int));
                assert forall|k: int|
                    #![trigger links@[before.len() + k]]
                    0 <= k < t + 1 implies link_is(
                    links@[before.len() + k],
                    service_id(flow.provider@, flow.service@),
                    line_id(tags@[k].0@),
                    tags@[k].1,
                ) by {
                    if k < t {
                        assert(links@[before.len() + k] == held[before.len() + k]);
                    }
                }
            }
            t = t + 1;
        }
        let ghost held = links@;
        links.push(SankeyLink { from: source, to: service_id_of(flow), value: flow.amount });
        services.push(
            SankeyNode {
                id: service_id_of(flow),
                label: flow.service.clone(),
                column: 1,
                value: flow.amount,
            },
        );
        proof {
            let from = before.len() as int;
            assert(links@.take(from) =~= held.take(from));
            let own = links@.skip(from);
            let ranked_tags = ranked_lines(*flow);
            assert forall|k: int|
                #![trigger own[k]]
                0 <= k < ranked_tags.len() implies link_is(
                own[k],
                service_id(flow.provider@, flow.service@),
                line_id(ranked_tags[k].0@),
                ranked_tags[k].1,
            ) by {
                assert(own[k] == held[before.len() + k]);
            }
            assert(own.last() == links@.last());
            assert(links_of(own, *flow));
            assert(links_of_all(links@, next));
            assert(brought.take(t as int) =~= brought);
            assert(line_items(next) =~= earlier + brought);
        }
        i = i + 1;
    }
    proof {
        assert(all@.take(i as int) =~= all@);
    }
    SankeyPlan { links, services, sources, lines }
}

/// What a source is called: its display name, or its id where it is not
/// registered.
pub open spec fn provider_label(provider: Seq<char>) -> Seq<char> {
    match cloud::source_of(provider) {
        Some(facts) => facts.display_name,
        None => provider,
    }
}

/// The display name of a source, or its id where it is not registered.
pub fn provider_name(provider: &str) -> (res: String)
    ensures
        res@ == provider_label(provider@),
{
    match cloud::get(provider) {
        Some(descriptor) => descriptor.display_name.to_owned(),
        None => provider.to_owned(),
    }
}

/// The node of a source.
pub open spec fn is_source_node(node: SankeyNode, id: Seq<char>, value: Amount) -> bool {
    &&& node.id@ == id
    &&& node.label@ == provider_label(text::trimmed_start(id, "src-"@))
    &&& node.column == 0
    &&& node.value == value
}

/// The node of a business line.
pub open spec fn is_line_node(node: SankeyNode, id: Seq<char>, value: Amount) -> bool {
    &&& node.id@ == id
    &&& node.label@ == text::trimmed_start(id, "line-"@)
    &&& node.column == 2
    &&& node.value == value
}

/// `nodes` are those of the plan: the services, then the sources and then the
/// business lines, each largest first.
pub open spec fn nodes_of(
    nodes: Seq<SankeyNode>,
    plan: SankeyPlan,
    sources: Seq<Amount>,
    lines: Seq<Amount>,
) -> bool {
    let s = plan.services@.len() as int;
    let by_source = crate::amount::largest_first(sources);
    let by_line = crate::amount::largest_first(lines);
    &&& nodes.len() == s + sources.len() + lines.len()
    &&& nodes.take(s) == plan.services@
    &&& forall|i: int|
        #![trigger nodes[s + i]]
        0 <= i < sources.len() ==> is_source_node(
            nodes[s + i],
            plan.sources@[by_source[i]].id@,
            sources[by_source[i]],
        )
    &&& forall|i: int|
        #![trigger nodes[s + sources.len() + i]]
        0 <= i < lines.len() ==> is_line_node(
            nodes[s + sources.len() + i],
            plan.lines@[by_line[i]].id@,
            lines[by_line[i]],
        )
}

/// The diagram of a plan. `sources` and `lines` hold what the amounts of each
/// source and of each business line add up to.
pub fn sankey(plan: SankeyPlan, sources: &Vec<Amount>, lines: &Vec<Amount>) -> (res: SankeyData)
    requires
        sources@.len() == plan.sources@.len(),
        lines@.len() == plan.lines@.len(),
    ensures
        res.links@ == plan.links@,
        nodes_of(res.nodes@, plan, sources@, lines@),
{
    let ghost services = plan.services@;
    let by_source = crate::amount::rank_by_amount(sources);
    let by_line = crate::amount::rank_by_amount(lines);
    let mut nodes = plan.services;
    let mut i: usize = 0;
    proof {
        order::ranking_is_stable_and_complete(crate::amount::ranks_of(sources@));
        order::ranking_is_stable_and_complete(crate::amount::ranks_of(lines@));
        assert(nodes@.take(services.len() as int) =~= services);
    }
    while i < by_source.len()
        invariant
            i <= by_source.len(),
            sources@.len() == plan.sources@.len(),
            order::position_ints(by_source@) == crate::amount::largest_first(sources@),
            forall|k: int| 0 <= k < by_source@.len() ==> #[trigger] by_source@[k] < sources@.len(),
            nodes@.len() == services.len() + i,
            nodes@.take(services.len() as int) == services,
            forall|k: int|
                #![trigger nodes@[services.len() + k]]
                0 <= k < i ==> is_source_node(
                    nodes@[services.len() + k],
                    plan.sources@[by_source@[k] as int].id@,
                    sources@[by_source@[k] as int],
                ),
        decreases by_source.len() - i,
    {
        let at = by_source[i];
        let provider = trim_start_matches(&plan.sources[at].id, "src-");
        let ghost before = nodes@;
        nodes.push(
            SankeyNode {
                id: plan.sources[at].id.clone(),
                label: provider_name(&provider),
                column: 0,
                value: sources[at],
            },
        );
        proof {
            assert(nodes@.take(services.len() as int) =~= before.take(services.len() as int));
            assert forall|k: int|
                #![trigger nodes@[services.len() + k]]
                0 <= k < i + 1 implies is_source_node(
                nodes@[services.len() + k],
                plan.sources@[by_source@[k] as int].id@,
                sources@[by_source@[k] as int],
            ) by {
                if k < i {
                    assert(nodes@[services.len() + k] == before[services.len() + k]);
                }
            }
        }
        i = i + 1;
    }
    let ghost held = nodes@;
    let mut j: usize = 0;
    while j < by_line.len()
        invariant
            j <= by_line.len(),
            lines@.len() == plan.lines@.len(),
            order::position_ints(by_line@) == crate::amount::largest_first(lines@),
            forall|k: int| 0 <= k < by_line@.len() ==> #[trigger] by_line@[k] < lines@.len(),
            nodes@.len() == held.len() + j,
            nodes@.take(held.len() as int) == held,
            forall|k: int|
                #![trigger nodes@[held.len() + k]]
                0 <= k < j ==> is_line_node(
                    nodes@[held.len() + k],
                    plan.lines@[by_line@[k] as int].id@,
                    lines@[by_line@[k] as int],
                ),
        decreases by_line.len() - j,
    {
        let at = by_line[j];
        let ghost before = nodes@;
        nodes.push(
            SankeyNode {
                id: plan.lines[at].id.clone(),
                label: trim_start_matches(&plan.lines[at].id, "line-"),
                column: 2,
                value: lines[at],
            },
        );
        proof {
            assert(nodes@.take(held.len() as int) =~= before.take(held.len() as int));
            assert forall|k: int|
                #![trigger nodes@[held.len() + k]]
                0 <= k < j + 1 implies is_line_node(
                nodes@[held.len() + k],
                plan.lines@[by_line@[k] as int].id@,
                lines@[by_line@[k] as int],
            ) by {
                if k < j {
                    assert(nodes@[held.len() + k] == before[held.len() + k]);
                }
            }
        }
        j = j + 1;
    }
    proof {
        let s = services.len() as int;
        assert(nodes@.take(s) =~= held.take(s)) by {
            assert forall|k: int| 0 <= k < s implies nodes@.take(s)[k] == held.take(s)[k] by {
                assert(nodes@.take(held.len() as int)[k] == held[k]);
            }
        }
        assert forall|k: int|
            #![trigger nodes@[s + k]]
            0 <= k < sources@.len() implies is_source_node(
            nodes@[s + k],
            plan.sources@[crate::amount::largest_first(sources@)[k]].id@,
            sources@[crate::amount::largest_first(sources@)[k]],
        ) by {
            assert(nodes@.take(held.len() as int)[s + k] == held[s + k]);
            assert(order::position_ints(by_source@)[k] == by_source@[k]);
        }
        assert forall|k: int|
            #![trigger nodes@[s + sources@.len() + k]]
            0 <= k < lines@.len() implies is_line_node(
            nodes@[s + sources@.len() + k],
            plan.lines@[crate::amount::largest_first(lines@)[k]].id@,
            lines@[crate::amount::largest_first(lines@)[k]],
        ) by {
            assert(order::position_ints(by_line@)[k] == by_line@[k]);
            assert(nodes@[held.len() + k] == nodes@[s + sources@.len() + k]);
        }
    }
    SankeyData { nodes, links: plan.links }
}

// ==================== The page ====================

/// Being what reaches no business line.
pub open spec fn is_unallocated() -> spec_fn((String, Amount)) -> bool {
    |row: (String, Amount)| row.0@ == UNALLOCATED@
}

/// What a breakdown by business line leaves without one.
pub open spec fn unallocated_in(breakdown: Seq<(String, Amount)>) -> Amount {
    match list::first_index(breakdown, is_unallocated()) {
        Some(i) => breakdown[i].1,
        None => Amount { bits: 0 },
    }
}

/// What a breakdown by business line leaves without one: the amount under
/// "Unallocated", nothing where there is none.
pub fn unallocated_amount(breakdown: &Vec<(String, Amount)>) -> (res: Amount)
    ensures
        res == unallocated_in(breakdown@),
{
    let accepts = |row: &(String, Amount)| -> (b: bool)
        ensures
            b == (row.0@ == UNALLOCATED@)
    { same_text(&row.0, UNALLOCATED) };
    match list::position(breakdown, accepts, Ghost(is_unallocated())) {
        Some(i) => breakdown[i].1,
        None => Amount::zero(),
    }
}

/// A share of the usage, nothing where there is no usage.
pub open spec fn share_of(usage: Amount, pct: Amount) -> Amount {
    if usage.is_positive() {
        pct
    } else {
        Amount { bits: 0 }
    }
}

/// The share `pct` of `usage`, or zero where there is no usage to share.
pub fn usage_share(usage: Amount, pct: Amount) -> (res: Amount)
    ensures
        res == share_of(usage, pct),
{
    if usage.positive() {
        pct
    } else {
        Amount::zero()
    }
}

/// The columns of the diagram, as the path that usage takes.
pub fn attribution_path() -> (res: Vec<PathStep>)
    ensures
        res@.len() == 3,
        res@[0].label@ == "Source"@,
        res@[1].label@ == "Service"@,
        res@[2].label@ == "Business line"@,
{
    let mut path: Vec<PathStep> = Vec::new();
    path.push(PathStep { label: "Source".to_owned() });
    path.push(PathStep { label: "Service".to_owned() });
    path.push(PathStep { label: "Business line".to_owned() });
    path
}

/// A service without a business line, as the card names it.
pub open spec fn item_of(row: UntaggedServiceUsage) -> UnallocatedItem {
    UnallocatedItem {
        provider: row.provider,
        service: row.service,
        description: None,
        amount: row.amount,
    }
}

/// The card of what reaches no business line. `pct` is the share of `usage` in
/// percent, read only where there is usage; `untagged` are the services with
/// usage that has no business line, of which the largest three are shown.
pub fn unallocated_card(
    breakdown: &Vec<(String, Amount)>,
    usage: Amount,
    pct: Amount,
    untagged: Vec<UntaggedServiceUsage>,
) -> (res: UnallocatedCardData)
    ensures
        res.amount == unallocated_in(breakdown@),
        res.pct == share_of(usage, pct),
        res.largest@ == ranked::first(
            ranked::positive_first(untagged@, ranked::untagged_service_amounts(untagged@)),
            3,
        ).map_values(|row: UntaggedServiceUsage| item_of(row)),
        res.action@ == "Write an allocation rule"@,
{
    let untagged = untagged_usage_by_service(untagged, TOP_UNALLOCATED_SERVICES);
    let mut largest: Vec<UnallocatedItem> = Vec::new();
    let mut i: usize = 0;
    while i < untagged.len()
        invariant
            i <= untagged.len(),
            largest@.len() == i,
            forall|k: int| 0 <= k < i ==> #[trigger] largest@[k] == item_of(untagged@[k]),
        decreases untagged.len() - i,
    {
        largest.push(
            UnallocatedItem {
                provider: untagged[i].provider.clone(),
                service: order::clone_text(&untagged[i].service),
                description: None,
                amount: untagged[i].amount,
            },
        );
        i = i + 1;
    }
    proof {
        assert(largest@ =~= untagged@.map_values(|row: UntaggedServiceUsage| item_of(row)));
    }
    UnallocatedCardData {
        amount: unallocated_amount(breakdown),
        pct: usage_share(usage, pct),
        largest,
        action: "Write an allocation rule".to_owned(),
    }
}

/// What the page asks of the ledger, each total as the amounts it adds up.
pub struct AttributionReads {
    /// The month's usage by service, and by service and business line.
    pub services: Vec<ServiceTerms>,
    pub tags: Vec<ServiceTagTerms>,
    /// The month's usage, and by business line.
    pub usage: Vec<Amount>,
    pub lines: Vec<(String, Vec<Amount>)>,
    /// The month's untagged usage by service.
    pub untagged: Vec<UntaggedServiceTerms>,
}

/// `reads` is what the page asks of the rows.
pub open spec fn asks_of_lines(
    reads: AttributionReads,
    all: Seq<NormalizedRow>,
    now: Timestamp,
) -> bool {
    let period = calendar::period_of(now).text();
    let used = scope::rows_in(all, scope::of_period(period).usage());
    &&& buckets::services_by(reads.services@, used)
    &&& buckets::service_tags_by(reads.tags@, used, BUSINESS_LINE_TAG)
    &&& reads.usage@ == scope::base_amounts(
        scope::usage_rows(scope::rows_in(all, scope::of_period(period))),
    )
    &&& buckets::named_by(reads.lines@, used, Grouping::Tag(BUSINESS_LINE_TAG))
    &&& buckets::untagged_services_by(
        reads.untagged@,
        all.filter(ranked::untagged_usage(period, BUSINESS_LINE_TAG@)),
    )
}

/// Ask the ledger for the page.
pub fn attribution_reads(all: &Vec<NormalizedRow>, now: Timestamp) -> (res: AttributionReads)
    requires
        memory::rows_dated(all@),
        now.valid(),
    ensures
        asks_of_lines(res, all@, now),
{
    let period = BillingPeriod::containing(now).label();
    let services = query::provider_service_usage(all, &period);
    let tags = query::tag_usage_terms_by_service(all, &period, BUSINESS_LINE_TAG);
    let (usage, _) = query::usage_and_credits(all, &period);
    let lines = query::tag_usage_breakdown(all, &period, BUSINESS_LINE_TAG);
    let untagged = query::untagged_usage_terms_by_service(all, &period, BUSINESS_LINE_TAG);
    AttributionReads { services, tags, usage, lines, untagged }
}

/// The page: the path, the diagram and the card.
pub fn load_attribution(currency: String, sankey: SankeyData, unallocated: UnallocatedCardData) -> (res:
    AttributionData)
    ensures
        res.currency == currency,
        res.path@.len() == 3,
        res.path@[0].label@ == "Source"@,
        res.path@[1].label@ == "Service"@,
        res.path@[2].label@ == "Business line"@,
        res.sankey == sankey,
        res.unallocated == unallocated,
{
    AttributionData { currency, path: attribution_path(), sankey, unallocated }
}

// ==================== What the diagram keeps ====================

/// What the amounts under all ids are together.
pub open spec fn held_together(totals: Seq<(Seq<char>, Seq<Amount>)>) -> vstd::multiset::Multiset<
    Amount,
>
    decreases totals.len(),
{
    if totals.len() == 0 {
        vstd::multiset::Multiset::empty()
    } else {
        held_together(totals.drop_last()).add(totals.last().1.to_multiset())
    }
}

/// One more amount under an id that is listed is one more amount.
proof fn lemma_held_update(totals: Seq<(Seq<char>, Seq<Amount>)>, i: int, amount: Amount)
    requires
        0 <= i < totals.len(),
    ensures
        held_together(totals.update(i, (totals[i].0, totals[i].1.push(amount)))) == held_together(
            totals,
        ).insert(amount),
    decreases totals.len(),
{
    broadcast use vstd::seq_lib::group_to_multiset_ensures;

    let after = totals.update(i, (totals[i].0, totals[i].1.push(amount)));
    if i == totals.len() - 1 {
        assert(after.drop_last() =~= totals.drop_last());
        assert(held_together(after) =~= held_together(totals).insert(amount));
    } else {
        lemma_held_update(totals.drop_last(), i, amount);
        assert(after.drop_last() =~= totals.drop_last().update(
            i,
            (totals.drop_last()[i].0, totals.drop_last()[i].1.push(amount)),
        ));
        assert(held_together(after) =~= held_together(totals).insert(amount));
    }
}

/// Tallying amounts by id loses none and counts none twice, and every id that
/// was noted is listed.
pub proof fn tallying_keeps_every_amount(items: Seq<(Seq<char>, Amount)>)
    ensures
        held_together(tallied(items)) == items.map_values(
            |i: (Seq<char>, Amount)| i.1,
        ).to_multiset(),
        forall|i: int|
            #![trigger items[i]]
            0 <= i < items.len() ==> exists|k: int|
                0 <= k < tallied(items).len() && (#[trigger] tallied(items)[k]).0 == items[i].0,
    decreases items.len(),
{
    broadcast use vstd::seq_lib::group_to_multiset_ensures;

    let value_of = |i: (Seq<char>, Amount)| i.1;
    if items.len() == 0 {
        assert(items.map_values(value_of).to_multiset() =~= vstd::multiset::Multiset::empty());
    } else {
        let rest = items.drop_last();
        let before = tallied(rest);
        let (id, amount) = items.last();
        let after = tallied(items);
        tallying_keeps_every_amount(rest);
        assert(items.map_values(value_of) =~= rest.map_values(value_of).push(amount));
        list::first_index_is_first(before, under_id(id));
        match list::first_index(before, under_id(id)) {
            Some(i) => {
                assert(before[i].0 == id);
                lemma_held_update(before, i, amount);
                assert(after[i].0 == id);
            },
            None => {
                assert(after.drop_last() =~= before);
                assert(after[before.len() as int].0 == id);
                assert(seq![amount].to_multiset() =~= vstd::multiset::Multiset::empty().insert(
                    amount,
                )) by {
                    assert(seq![amount] =~= Seq::<Amount>::empty().push(amount));
                }
                assert(held_together(after) =~= held_together(before).insert(amount));
            },
        }
        assert forall|i: int|
            #![trigger items[i]]
            0 <= i < items.len() implies exists|k: int|
            0 <= k < after.len() && (#[trigger] after[k]).0 == items[i].0 by {
            if i < rest.len() {
                assert(rest[i] == items[i]);
                let k = choose|k: int|
                    0 <= k < before.len() && (#[trigger] before[k]).0 == items[i].0;
                assert(after[k].0 == before[k].0);
            }
        }
    }
}

/// A node is under an id.
pub open spec fn has_node(nodes: Seq<SankeyNode>, id: Seq<char>) -> bool {
    exists|n: int| 0 <= n < nodes.len() && (#[trigger] nodes[n]).id@ == id
}

/// Every throughput of the plan has its node.
proof fn lemma_totals_have_nodes(
    nodes: Seq<SankeyNode>,
    plan: SankeyPlan,
    sources: Seq<Amount>,
    lines: Seq<Amount>,
)
    requires
        sources.len() == plan.sources@.len(),
        lines.len() == plan.lines@.len(),
        nodes_of(nodes, plan, sources, lines),
    ensures
        forall|k: int|
            0 <= k < plan.sources@.len() ==> has_node(nodes, (#[trigger] plan.sources@[k]).id@),
        forall|k: int|
            0 <= k < plan.lines@.len() ==> has_node(nodes, (#[trigger] plan.lines@[k]).id@),
{
    let s = plan.services@.len() as int;
    let by_source = crate::amount::largest_first(sources);
    let by_line = crate::amount::largest_first(lines);
    order::ranking_is_stable_and_complete(crate::amount::ranks_of(sources));
    order::ranking_is_stable_and_complete(crate::amount::ranks_of(lines));
    assert forall|k: int| 0 <= k < plan.sources@.len() implies has_node(
        nodes,
        (#[trigger] plan.sources@[k]).id@,
    ) by {
        order::lemma_ranked_somewhere(crate::amount::ranks_of(sources), k);
        let i = choose|i: int| 0 <= i < by_source.len() && by_source[i] == k;
        assert(nodes[s + i].id@ == plan.sources@[k].id@);
    }
    assert forall|k: int| 0 <= k < plan.lines@.len() implies has_node(
        nodes,
        (#[trigger] plan.lines@[k]).id@,
    ) by {
        order::lemma_ranked_somewhere(crate::amount::ranks_of(lines), k);
        let i = choose|i: int| 0 <= i < by_line.len() && by_line[i] == k;
        assert(nodes[s + sources.len() + i].id@ == plan.lines@[k].id@);
    }
}

/// Every link of the diagram joins two of its nodes.
pub proof fn every_link_joins_nodes(
    data: SankeyData,
    plan: SankeyPlan,
    all: Seq<ServiceFlow>,
    sources: Seq<Amount>,
    lines: Seq<Amount>,
)
    requires
        lays_out(plan, all),
        sources.len() == plan.sources@.len(),
        lines.len() == plan.lines@.len(),
        data.links@ == plan.links@,
        nodes_of(data.nodes@, plan, sources, lines),
    ensures
        forall|l: int|
            #![trigger data.links@[l]]
            0 <= l < data.links@.len() ==> has_node(data.nodes@, data.links@[l].from@) && has_node(
                data.nodes@,
                data.links@[l].to@,
            ),
{
    let nodes = data.nodes@;
    lemma_totals_have_nodes(nodes, plan, sources, lines);
    tallying_keeps_every_amount(source_items(all));
    tallying_keeps_every_amount(line_items(all));
    assert forall|i: int| 0 <= i < all.len() implies has_node(
        nodes,
        service_id((#[trigger] all[i]).provider@, all[i].service@),
    ) by {
        assert(nodes.take(plan.services@.len() as int)[i] == plan.services@[i]);
        assert(is_service_node(plan.services@[i], all[i]));
        assert(nodes[i].id@ == service_id(all[i].provider@, all[i].service@));
    }
    assert forall|i: int| 0 <= i < all.len() implies has_node(
        nodes,
        source_id((#[trigger] all[i]).provider@),
    ) by {
        let totals = tallied(source_items(all));
        assert(source_items(all)[i].0 == source_id(all[i].provider@));
        let k = choose|k: int|
            0 <= k < totals.len() && (#[trigger] totals[k]).0 == source_items(all)[i].0;
        assert(throughputs(plan.sources@)[k] == totals[k]);
        assert(has_node(nodes, plan.sources@[k].id@));
    }
    assert forall|i: int| 0 <= i < line_items(all).len() implies has_node(
        nodes,
        (#[trigger] line_items(all)[i]).0,
    ) by {
        let totals = tallied(line_items(all));
        let k = choose|k: int|
            0 <= k < totals.len() && (#[trigger] totals[k]).0 == line_items(all)[i].0;
        assert(throughputs(plan.lines@)[k] == totals[k]);
        assert(has_node(nodes, plan.lines@[k].id@));
    }
    lemma_links_join(data.links@, all, nodes);
}

proof fn lemma_links_join(links: Seq<SankeyLink>, all: Seq<ServiceFlow>, nodes: Seq<SankeyNode>)
    requires
        links_of_all(links, all),
        forall|i: int|
            0 <= i < all.len() ==> has_node(
                nodes,
                service_id((#[trigger] all[i]).provider@, all[i].service@),
            ),
        forall|i: int|
            0 <= i < all.len() ==> has_node(nodes, source_id((#[trigger] all[i]).provider@)),
        forall|i: int|
            0 <= i < line_items(all).len() ==> has_node(nodes, (#[trigger] line_items(all)[i]).0),
    ensures
        forall|l: int|
            #![trigger links[l]]
            0 <= l < links.len() ==> has_node(nodes, links[l].from@) && has_node(
                nodes,
                links[l].to@,
            ),
    decreases all.len(),
{
    if all.len() > 0 {
        let flow = all.last();
        let tags = ranked_lines(flow);
        let from = links.len() - tags.len() - 1;
        let rest = all.drop_last();
        assert forall|i: int| 0 <= i < rest.len() implies has_node(
            nodes,
            service_id((#[trigger] rest[i]).provider@, rest[i].service@),
        ) by {
            assert(rest[i] == all[i]);
        }
        assert forall|i: int| 0 <= i < rest.len() implies has_node(
            nodes,
            source_id((#[trigger] rest[i]).provider@),
        ) by {
            assert(rest[i] == all[i]);
        }
        assert forall|i: int| 0 <= i < line_items(rest).len() implies has_node(
            nodes,
            (#[trigger] line_items(rest)[i]).0,
        ) by {
            assert(line_items(all)[i] == line_items(rest)[i]);
        }
        lemma_links_join(links.take(from), rest, nodes);
        assert forall|l: int|
            #![trigger links[l]]
            0 <= l < links.len() implies has_node(nodes, links[l].from@) && has_node(
            nodes,
            links[l].to@,
        ) by {
            assert(all[all.len() - 1] == flow);
            if l < from {
                assert(links.take(from)[l] == links[l]);
            } else {
                let own = links.skip(from);
                assert(own[l - from] == links[l]);
                if l - from < tags.len() {
                    let at = line_items(rest).len() + (l - from);
                    assert(line_items(all)[at] == line_items_of(flow)[l - from]);
                    assert(has_node(nodes, line_items(all)[at].0));
                } else {
                    assert(own.last() == links[l]);
                }
            }
        }
    }
}

/// Every column of the diagram carries the same flows: what passes through the
/// sources is what passes through the services, and the business lines are
/// brought what the flows bring them, each amount once.
pub proof fn columns_carry_every_flow(plan: SankeyPlan, all: Seq<ServiceFlow>)
    requires
        lays_out(plan, all),
    ensures
        held_together(throughputs(plan.sources@)) == flows::flow_amounts(all).to_multiset(),
        plan.services@.map_values(|n: SankeyNode| n.value) == flows::flow_amounts(all),
        held_together(throughputs(plan.lines@)) == line_items(all).map_values(
            |i: (Seq<char>, Amount)| i.1,
        ).to_multiset(),
{
    tallying_keeps_every_amount(source_items(all));
    tallying_keeps_every_amount(line_items(all));
    assert(source_items(all).map_values(|i: (Seq<char>, Amount)| i.1) =~= flows::flow_amounts(all));
    assert(plan.services@.map_values(|n: SankeyNode| n.value) =~= flows::flow_amounts(all)) by {
        assert forall|i: int| 0 <= i < all.len() implies (#[trigger] plan.services@[i]).value
            == all[i].amount by {
            assert(is_service_node(plan.services@[i], all[i]));
        }
    }
}

} // verus!
