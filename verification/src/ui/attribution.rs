//! The attribution page: the diagram's columns and colours, breakdowns by other
//! dimensions, and the costliest resources.
use vstd::prelude::*;

use super::account_detail;
use super::chart::{TreemapHover, TreemapItem};
use super::data::attribution;
use super::data::attribution::{
    note, AttributionData, SankeyData, SankeyNode, Throughput, UnallocatedCardData, UnallocatedItem,
};
use super::data::change;
use super::data::change::find_last;
use super::data::month;
use super::data::range::Range;
use super::fmt;
use crate::amount;
use crate::amount::Amount;
use crate::calendar::{BillingPeriod, Timestamp};
use crate::error::Error;
use crate::ingest::period_key;
use crate::ledger::buckets;
use crate::ledger::buckets::{Grouping, ResourceTerms};
use crate::ledger::query;
use crate::ledger::ranked;
use crate::ledger::ranked::{
    amounts_of, rank_totals, sort_by_amount, top_resources, truncated,
};
use crate::ledger::scope;
use crate::list;
use crate::memory;
use crate::memory::NormalizedRow;
use crate::model::{BreakdownDim, CloudAccount, TopResource};
use crate::order;
use crate::text::{concat2, concat3, same_text};

verus! {

/// How many resources the card lists.
pub const TOP_RESOURCE_COUNT: usize = 10;

// ==================== Columns and colours ====================

/// How many columns the nodes reach.
pub open spec fn columns_of(nodes: Seq<SankeyNode>) -> nat
    decreases nodes.len(),
{
    if nodes.len() == 0 {
        0
    } else {
        let before = columns_of(nodes.drop_last());
        if before < nodes.last().column + 1 {
            (nodes.last().column + 1) as nat
        } else {
            before
        }
    }
}

/// How many columns the diagram has. A column's number is below the largest
/// one.
pub fn column_count(data: &SankeyData) -> (res: usize)
    requires
        forall|i: int| 0 <= i < data.nodes@.len() ==> (#[trigger] data.nodes@[i]).column < usize::MAX,
    ensures
        res == columns_of(data.nodes@),
{
    let mut count: usize = 0;
    let mut i: usize = 0;
    proof {
        assert(data.nodes@.take(0) =~= Seq::empty());
    }
    while i < data.nodes.len()
        invariant
            i <= data.nodes.len(),
            forall|k: int|
                0 <= k < data.nodes@.len() ==> (#[trigger] data.nodes@[k]).column < usize::MAX,
            count == columns_of(data.nodes@.take(i as int)),
        decreases data.nodes.len() - i,
    {
        proof {
            assert(data.nodes@.take(i + 1).drop_last() =~= data.nodes@.take(i as int));
            assert(data.nodes@.take(i + 1).last() == data.nodes@[i as int]);
        }
        let reach: usize = data.nodes[i].column + 1;
        if count < reach {
            count = reach;
        }
        i = i + 1;
    }
    proof {
        assert(data.nodes@.take(i as int) =~= data.nodes@);
    }
    count
}

/// Being in a column.
pub open spec fn in_column(column: int) -> spec_fn(SankeyNode) -> bool {
    |node: SankeyNode| node.column == column
}

/// The nodes of a column.
pub open spec fn column_nodes(nodes: Seq<SankeyNode>, column: int) -> Seq<SankeyNode> {
    nodes.filter(in_column(column))
}

/// The nodes of a column, in their order.
pub fn nodes_in(data: &SankeyData, column: usize) -> (res: Vec<SankeyNode>)
    ensures
        res@ == column_nodes(data.nodes@, column as int),
{
    let ghost test = in_column(column as int);
    let mut res: Vec<SankeyNode> = Vec::new();
    let mut i: usize = 0;
    proof {
        reveal(Seq::filter);
        assert(data.nodes@.take(0).filter(test) =~= Seq::empty());
    }
    while i < data.nodes.len()
        invariant
            i <= data.nodes.len(),
            test == in_column(column as int),
            res@ == data.nodes@.take(i as int).filter(test),
        decreases data.nodes.len() - i,
    {
        proof {
            reveal(Seq::filter);
            assert(data.nodes@.take(i + 1).drop_last() =~= data.nodes@.take(i as int));
            assert(data.nodes@.take(i + 1).last() == data.nodes@[i as int]);
        }
        if data.nodes[i].column == column {
            res.push(data.nodes[i].clone());
        }
        i = i + 1;
    }
    proof {
        assert(data.nodes@.take(i as int) =~= data.nodes@);
    }
    res
}

/// How a business line is coloured.
#[derive(Clone, Copy, PartialEq, Eq, Structural, Debug)]
pub enum LineShade {
    /// Without a business line.
    Grey,
    /// One of the four shades, the largest line in the first.
    Shade(usize),
}

pub open spec fn ordinals_of(nodes: Seq<SankeyNode>) -> Seq<int> {
    nodes.map_values(|n: SankeyNode| n.value.ordinal())
}

/// The nodes of the last column, largest first.
pub open spec fn ranked_lines(nodes: Seq<SankeyNode>) -> Seq<SankeyNode> {
    let lines = column_nodes(nodes, columns_of(nodes) - 1);
    order::arranged(lines, order::ranking(ordinals_of(lines)))
}

/// How many of the first `count` lines are business lines.
pub open spec fn named_before(lines: Seq<SankeyNode>, count: int) -> nat
    decreases count,
{
    if count <= 0 {
        0
    } else {
        named_before(lines, count - 1) + (if lines[count - 1].label@ == "Unallocated"@ {
            0nat
        } else {
            1nat
        })
    }
}

/// The shade of the line at a position: grey without a business line, else the
/// shades in turn.
pub open spec fn shade_at(lines: Seq<SankeyNode>, i: int) -> LineShade {
    if lines[i].label@ == "Unallocated"@ {
        LineShade::Grey
    } else {
        LineShade::Shade((named_before(lines, i) % 4) as usize)
    }
}

/// No node carries what is no number.
pub open spec fn numbers(nodes: Seq<SankeyNode>) -> bool {
    forall|i: int| 0 <= i < nodes.len() ==> !(#[trigger] nodes[i]).value.is_nan()
}

fn ordinal(value: Amount) -> (res: i128)
    ensures
        res == value.ordinal(),
{
    if value.bits >= amount::SIGN {
        -((value.bits - amount::SIGN) as i128)
    } else {
        value.bits as i128
    }
}

/// The shades of the business lines, by the ids of their nodes, largest line
/// first.
pub fn line_shades(data: &SankeyData) -> (res: Vec<(String, LineShade)>)
    requires
        numbers(data.nodes@),
        forall|i: int| 0 <= i < data.nodes@.len() ==> (#[trigger] data.nodes@[i]).column < usize::MAX,
    ensures
        data.nodes@.len() == 0 ==> res@.len() == 0,
        data.nodes@.len() > 0 ==> {
            let lines = ranked_lines(data.nodes@);
            &&& res@.len() == lines.len()
            &&& forall|i: int|
                #![trigger res@[i]]
                0 <= i < res@.len() ==> res@[i].0@ == lines[i].id@ && res@[i].1 == shade_at(
                    lines,
                    i,
                )
        },
{
    let columns = column_count(data);
    let mut shades: Vec<(String, LineShade)> = Vec::new();
    if columns == 0 {
        proof {
            if data.nodes@.len() > 0 {
                assert(columns_of(data.nodes@) >= data.nodes@.last().column + 1);
            }
        }
        return shades;
    }
    let lines = nodes_in(data, columns - 1);
    let mut ordinals: Vec<i128> = Vec::new();
    let mut i: usize = 0;
    while i < lines.len()
        invariant
            i <= lines.len(),
            order::key_ints(ordinals@) == ordinals_of(lines@).take(i as int),
        decreases lines.len() - i,
    {
        let ghost before = order::key_ints(ordinals@);
        ordinals.push(ordinal(lines[i].value));
        i = i + 1;
        proof {
            assert(order::key_ints(ordinals@) =~= before.push(ordinals_of(lines@)[i - 1]));
            assert(order::key_ints(ordinals@) =~= ordinals_of(lines@).take(i as int));
        }
    }
    let ranked = order::rank_descending(&ordinals);
    proof {
        assert(order::key_ints(ordinals@) =~= ordinals_of(lines@));
        order::ranking_is_stable_and_complete(ordinals_of(lines@));
        order::lemma_ranked_positions(ordinals_of(lines@), ranked@);
    }
    let sorted = order::arrange(lines, &ranked);
    let mut next: usize = 0;
    let mut k: usize = 0;
    while k < sorted.len()
        invariant
            k <= sorted.len(),
            next <= k,
            next == named_before(sorted@, k as int),
            shades@.len() == k,
            forall|j: int|
                #![trigger shades@[j]]
                0 <= j < k ==> shades@[j].0@ == sorted@[j].id@ && shades@[j].1 == shade_at(
                    sorted@,
                    j,
                ),
        decreases sorted.len() - k,
    {
        let shade = if same_text(&sorted[k].label, "Unallocated") {
            LineShade::Grey
        } else {
            let shade = LineShade::Shade(next % 4);
            next = next + 1;
            shade
        };
        shades.push((sorted[k].id.clone(), shade));
        k = k + 1;
    }
    shades
}

// ==================== Where most of a node goes ====================

/// What a node brings each business line.
#[derive(Debug)]
pub struct NodeFlows {
    pub id: String,
    pub lines: Vec<Throughput>,
}

/// Being the entry of a node.
pub open spec fn entry_of(id: Seq<char>) -> spec_fn((String, String)) -> bool {
    |entry: (String, String)| entry.0@ == id
}

/// The business line that a node mostly reaches, if it is settled.
pub open spec fn settled(dominant: Seq<(String, String)>, id: Seq<char>) -> Option<Seq<char>> {
    match list::first_index(dominant, entry_of(id)) {
        Some(i) => Some(dominant[i].1@),
        None => None,
    }
}

/// The business line that a node mostly reaches, if it is settled.
pub fn dominant_line(dominant: &Vec<(String, String)>, id: &str) -> (res: Option<String>)
    ensures
        order::part_view(res) == settled(dominant@, id@),
{
    let accepts = |entry: &(String, String)| -> (b: bool)
        ensures
            b == (entry.0@ == id@)
    { same_text(&entry.0, id) };
    match list::position(dominant, accepts, Ghost(entry_of(id@))) {
        Some(i) => Some(dominant[i].1.clone()),
        None => None,
    }
}

/// What the links out of a node bring the lines that their ends mostly reach,
/// one link after the other.
pub open spec fn line_items(
    links: Seq<attribution::SankeyLink>,
    id: Seq<char>,
    dominant: Seq<(String, String)>,
) -> Seq<(Seq<char>, Amount)>
    decreases links.len(),
{
    if links.len() == 0 {
        Seq::empty()
    } else {
        let before = line_items(links.drop_last(), id, dominant);
        let link = links.last();
        if link.from@ == id && settled(dominant, link.to@) is Some {
            before.push((settled(dominant, link.to@)->0, link.value))
        } else {
            before
        }
    }
}

/// The lines of the last column: each reaches itself.
pub fn settle_lines(data: &SankeyData) -> (res: Vec<(String, String)>)
    requires
        forall|i: int| 0 <= i < data.nodes@.len() ==> (#[trigger] data.nodes@[i]).column < usize::MAX,
    ensures
        data.nodes@.len() == 0 ==> res@.len() == 0,
        data.nodes@.len() > 0 ==> {
            let lines = column_nodes(data.nodes@, columns_of(data.nodes@) - 1);
            res@ == lines.map_values(|n: SankeyNode| (n.id, n.id))
        },
{
    let columns = column_count(data);
    let mut dominant: Vec<(String, String)> = Vec::new();
    if columns == 0 {
        proof {
            if data.nodes@.len() > 0 {
                assert(columns_of(data.nodes@) >= data.nodes@.last().column + 1);
            }
        }
        return dominant;
    }
    let lines = nodes_in(data, columns - 1);
    let mut i: usize = 0;
    while i < lines.len()
        invariant
            i <= lines.len(),
            dominant@.len() == i,
            forall|k: int| 0 <= k < i ==> #[trigger] dominant@[k] == (lines@[k].id, lines@[k].id),
        decreases lines.len() - i,
    {
        dominant.push((lines[i].id.clone(), lines[i].id.clone()));
        i = i + 1;
    }
    proof {
        if data.nodes@.len() == 0 {
            assert(columns_of(data.nodes@) == 0);
        }
        assert(dominant@ =~= lines@.map_values(|n: SankeyNode| (n.id, n.id)));
    }
    dominant
}

/// What each node of a column brings the business lines, from where the nodes of
/// the columns behind it mostly go.
pub fn column_flows(data: &SankeyData, column: usize, dominant: &Vec<(String, String)>) -> (res: Vec<
    NodeFlows,
>)
    ensures
        res@.len() == column_nodes(data.nodes@, column as int).len(),
        forall|i: int|
            #![trigger res@[i]]
            0 <= i < res@.len() ==> {
                let node = column_nodes(data.nodes@, column as int)[i];
                &&& res@[i].id@ == node.id@
                &&& attribution::throughputs(res@[i].lines@) == attribution::tallied(
                    line_items(data.links@, node.id@, dominant@),
                )
            },
{
    let nodes = nodes_in(data, column);
    let mut flows: Vec<NodeFlows> = Vec::new();
    let mut i: usize = 0;
    while i < nodes.len()
        invariant
            i <= nodes.len(),
            nodes@ == column_nodes(data.nodes@, column as int),
            flows@.len() == i,
            forall|k: int|
                #![trigger flows@[k]]
                0 <= k < i ==> {
                    &&& flows@[k].id@ == nodes@[k].id@
                    &&& attribution::throughputs(flows@[k].lines@) == attribution::tallied(
                        line_items(data.links@, nodes@[k].id@, dominant@),
                    )
                },
        decreases nodes.len() - i,
    {
        let id = &nodes[i].id;
        let mut lines: Vec<Throughput> = Vec::new();
        let mut l: usize = 0;
        proof {
            assert(data.links@.take(0) =~= Seq::empty());
            assert(attribution::throughputs(lines@) =~= attribution::tallied(
                line_items(data.links@.take(0), id@, dominant@),
            ));
        }
        while l < data.links.len()
            invariant
                l <= data.links.len(),
                attribution::throughputs(lines@) == attribution::tallied(
                    line_items(data.links@.take(l as int), id@, dominant@),
                ),
            decreases data.links.len() - l,
        {
            let link = &data.links[l];
            proof {
                assert(data.links@.take(l + 1).drop_last() =~= data.links@.take(l as int));
                assert(data.links@.take(l + 1).last() == *link);
            }
            if same_text(&link.from, id) {
                if let Some(line) = dominant_line(dominant, &link.to) {
                    proof {
                        let before = line_items(data.links@.take(l as int), id@, dominant@);
                        assert(before.push((line@, link.value)).drop_last() =~= before);
                    }
                    note(&mut lines, line, link.value);
                }
            }
            l = l + 1;
        }
        proof {
            assert(data.links@.take(l as int) =~= data.links@);
        }
        flows.push(NodeFlows { id: nodes[i].id.clone(), lines });
        i = i + 1;
    }
    flows
}

/// A position holds the largest of the totals.
pub open spec fn is_largest(totals: Seq<Amount>, at: int) -> bool {
    &&& 0 <= at < totals.len()
    &&& (forall|i: int| 0 <= i < totals.len() ==> !(#[trigger] totals[i]).is_nan())
        ==> forall|i: int| 0 <= i < totals.len() ==> !totals[at].lt(#[trigger] totals[i])
}

fn largest(totals: &Vec<Amount>) -> (res: usize)
    requires
        totals@.len() > 0,
    ensures
        is_largest(totals@, res as int),
{
    let mut best: usize = 0;
    let mut i: usize = 1;
    while i < totals.len()
        invariant
            1 <= i <= totals.len(),
            best < i,
            (forall|k: int| 0 <= k < totals@.len() ==> !(#[trigger] totals@[k]).is_nan())
                ==> forall|k: int| 0 <= k < i ==> !totals@[best as int].lt(#[trigger] totals@[k]),
        decreases totals.len() - i,
    {
        if !totals[i].less_than(totals[best]) {
            best = i;
        }
        i = i + 1;
    }
    best
}

/// `after` settles the nodes of `flows` as well: each that brings anything, on
/// a line that none is brought more than.
pub open spec fn settles(
    after: Seq<(String, String)>,
    before: Seq<(String, String)>,
    flows: Seq<NodeFlows>,
    totals: Seq<Vec<Amount>>,
) -> bool
    decreases flows.len(),
{
    if flows.len() == 0 {
        after == before
    } else if flows.last().lines@.len() == 0 {
        settles(after, before, flows.drop_last(), totals.drop_last())
    } else {
        &&& after.len() > 0
        &&& settles(after.drop_last(), before, flows.drop_last(), totals.drop_last())
        &&& after.last().0@ == flows.last().id@
        &&& exists|at: int|
            {
                &&& #[trigger] is_largest(totals.last()@, at)
                &&& after.last().1@ == flows.last().lines@[at].id@
            }
    }
}

/// Settle the nodes of a column: each that brings anything goes with a line that
/// it brings most. `totals` holds what the amounts of each line add up to.
pub fn settle_column(
    dominant: &mut Vec<(String, String)>,
    flows: &Vec<NodeFlows>,
    totals: &Vec<Vec<Amount>>,
)
    requires
        totals@.len() == flows@.len(),
        forall|i: int|
            #![trigger flows@[i]]
            0 <= i < flows@.len() ==> totals@[i]@.len() == flows@[i].lines@.len(),
    ensures
        settles(final(dominant)@, old(dominant)@, flows@, totals@),
{
    let ghost before = dominant@;
    let mut i: usize = 0;
    proof {
        assert(flows@.take(0) =~= Seq::empty());
    }
    while i < flows.len()
        invariant
            i <= flows.len(),
            before == old(dominant)@,
            totals@.len() == flows@.len(),
            forall|k: int|
                #![trigger flows@[k]]
                0 <= k < flows@.len() ==> totals@[k]@.len() == flows@[k].lines@.len(),
            settles(dominant@, before, flows@.take(i as int), totals@.take(i as int)),
        decreases flows.len() - i,
    {
        let ghost held = dominant@;
        proof {
            assert(flows@.take(i + 1).drop_last() =~= flows@.take(i as int));
            assert(flows@.take(i + 1).last() == flows@[i as int]);
            assert(totals@.take(i + 1).drop_last() =~= totals@.take(i as int));
            assert(totals@.take(i + 1).last() == totals@[i as int]);
        }
        if flows[i].lines.len() > 0 {
            let at = largest(&totals[i]);
            dominant.push((flows[i].id.clone(), flows[i].lines[at].id.clone()));
            proof {
                assert(dominant@.drop_last() =~= held);
                assert(is_largest(totals@[i as int]@, at as int));
            }
        }
        i = i + 1;
    }
    proof {
        assert(flows@.take(i as int) =~= flows@);
        assert(totals@.take(i as int) =~= totals@);
    }
}

// ==================== Dimensions ====================

/// What the page breaks the period down by: the diagram of business lines, or a
/// dimension of the ledger.
#[derive(Clone, Copy, PartialEq, Eq, Structural, Debug)]
pub enum DrillDim {
    Tag,
    Service,
    Region,
    ServiceCategory,
}

impl DrillDim {
    pub open spec fn labels(self) -> account_detail::DrillLabels {
        match self {
            DrillDim::Tag => account_detail::DrillLabels {
                label: "Tag"@,
                id: "dim-tag"@,
                title: "By business line"@,
                bucket_header: "BUSINESS LINE"@,
                other_caption: "Charges with no business-line tag read as 'Other'."@,
            },
            DrillDim::Service => account_detail::DrillLabels {
                label: "Service"@,
                id: "dim-service"@,
                title: "By service"@,
                bucket_header: "SERVICE"@,
                other_caption: "Charges with no service read as 'Other'."@,
            },
            DrillDim::Region => account_detail::DrillLabels {
                label: "Region"@,
                id: "dim-region"@,
                title: "By region"@,
                bucket_header: "REGION"@,
                other_caption: "Charges with no region read as 'Other'."@,
            },
            DrillDim::ServiceCategory => account_detail::DrillLabels {
                label: "Category"@,
                id: "dim-category"@,
                title: "By service category"@,
                bucket_header: "SERVICE CATEGORY"@,
                other_caption: "Charges with no service category read as 'Other'."@,
            },
        }
    }

    pub fn label(self) -> (res: &'static str)
        ensures
            res@ == self.labels().label,
    {
        match self {
            DrillDim::Tag => "Tag",
            DrillDim::Service => "Service",
            DrillDim::Region => "Region",
            DrillDim::ServiceCategory => "Category",
        }
    }

    pub fn id(self) -> (res: &'static str)
        ensures
            res@ == self.labels().id,
    {
        match self {
            DrillDim::Tag => "dim-tag",
            DrillDim::Service => "dim-service",
            DrillDim::Region => "dim-region",
            DrillDim::ServiceCategory => "dim-category",
        }
    }

    /// The title of the breakdown card.
    pub fn title(self) -> (res: &'static str)
        ensures
            res@ == self.labels().title,
    {
        match self {
            DrillDim::Tag => "By business line",
            DrillDim::Service => "By service",
            DrillDim::Region => "By region",
            DrillDim::ServiceCategory => "By service category",
        }
    }

    /// The heading of the bucket column.
    pub fn bucket_header(self) -> (res: &'static str)
        ensures
            res@ == self.labels().bucket_header,
    {
        match self {
            DrillDim::Tag => "BUSINESS LINE",
            DrillDim::Service => "SERVICE",
            DrillDim::Region => "REGION",
            DrillDim::ServiceCategory => "SERVICE CATEGORY",
        }
    }

    /// What is said under a breakdown that has an "Other" bucket.
    pub fn other_caption(self) -> (res: &'static str)
        ensures
            res@ == self.labels().other_caption,
    {
        match self {
            DrillDim::Tag => "Charges with no business-line tag read as 'Other'.",
            DrillDim::Service => "Charges with no service read as 'Other'.",
            DrillDim::Region => "Charges with no region read as 'Other'.",
            DrillDim::ServiceCategory => "Charges with no service category read as 'Other'.",
        }
    }

    /// The dimension of the ledger, if it is one.
    pub fn dimension(self) -> (res: Option<BreakdownDim>)
        ensures
            res == (match self {
                DrillDim::Tag => None,
                DrillDim::Service => Some(BreakdownDim::Service),
                DrillDim::Region => Some(BreakdownDim::Region),
                DrillDim::ServiceCategory => Some(BreakdownDim::ServiceCategory),
            }),
    {
        match self {
            DrillDim::Tag => None,
            DrillDim::Service => Some(BreakdownDim::Service),
            DrillDim::Region => Some(BreakdownDim::Region),
            DrillDim::ServiceCategory => Some(BreakdownDim::ServiceCategory),
        }
    }
}

/// How a breakdown is shown.
#[derive(Clone, Copy, PartialEq, Eq, Structural, Debug)]
pub enum BreakdownMode {
    HeatMap,
    Table,
}

impl BreakdownMode {
    pub fn label(self) -> (res: &'static str)
        ensures
            res@ == (match self {
                BreakdownMode::HeatMap => "Map"@,
                BreakdownMode::Table => "Table"@,
            }),
    {
        match self {
            BreakdownMode::HeatMap => "Map",
            BreakdownMode::Table => "Table",
        }
    }

    pub fn id(self) -> (res: &'static str)
        ensures
            res@ == (match self {
                BreakdownMode::HeatMap => "mode-map"@,
                BreakdownMode::Table => "mode-table"@,
            }),
    {
        match self {
            BreakdownMode::HeatMap => "mode-map",
            BreakdownMode::Table => "mode-table",
        }
    }
}

/// The breakdowns by the dimensions of the ledger, of this period and the last,
/// and the costliest resources.
#[derive(Debug)]
pub struct DrilldownData {
    pub by_service: Vec<(String, Amount)>,
    pub by_region: Vec<(String, Amount)>,
    pub by_category: Vec<(String, Amount)>,
    pub prev_by_service: Vec<(String, Amount)>,
    pub prev_by_region: Vec<(String, Amount)>,
    pub prev_by_category: Vec<(String, Amount)>,
    pub top_resources: Vec<TopResource>,
}

impl DrilldownData {
    /// The breakdown by a dimension; the business lines have none here.
    pub open spec fn in_dim(self, dim: DrillDim) -> Seq<(String, Amount)> {
        match dim {
            DrillDim::Tag => Seq::empty(),
            DrillDim::Service => self.by_service@,
            DrillDim::Region => self.by_region@,
            DrillDim::ServiceCategory => self.by_category@,
        }
    }

    /// The last period's breakdown by a dimension.
    pub open spec fn before_in_dim(self, dim: DrillDim) -> Seq<(String, Amount)> {
        match dim {
            DrillDim::Tag => Seq::empty(),
            DrillDim::Service => self.prev_by_service@,
            DrillDim::Region => self.prev_by_region@,
            DrillDim::ServiceCategory => self.prev_by_category@,
        }
    }

    /// The buckets of the map in a dimension: each with what it cost last
    /// period, nothing where it is new.
    pub fn treemap_items(&self, dim: DrillDim) -> (res: Vec<TreemapItem>)
        ensures
            res@.len() == self.in_dim(dim).len(),
            forall|i: int|
                #![trigger res@[i]]
                0 <= i < res@.len() ==> is_item(
                    res@[i],
                    self.in_dim(dim)[i],
                    self.before_in_dim(dim),
                ),
    {
        match dim {
            DrillDim::Tag => Vec::new(),
            DrillDim::Service => pair_up(&self.by_service, &self.prev_by_service),
            DrillDim::Region => pair_up(&self.by_region, &self.prev_by_region),
            DrillDim::ServiceCategory => pair_up(&self.by_category, &self.prev_by_category),
        }
    }
}

/// `item` is a bucket with what it cost last period.
pub open spec fn is_item(
    item: TreemapItem,
    row: (String, Amount),
    previous: Seq<(String, Amount)>,
) -> bool {
    &&& item.label@ == row.0@
    &&& item.amount == row.1
    &&& item.previous == (match change::last_amount(previous, row.0@) {
        Some(amount) => amount,
        None => Amount { bits: 0 },
    })
}

fn pair_up(current: &Vec<(String, Amount)>, previous: &Vec<(String, Amount)>) -> (res: Vec<
    TreemapItem,
>)
    ensures
        res@.len() == current@.len(),
        forall|i: int|
            #![trigger res@[i]]
            0 <= i < res@.len() ==> is_item(res@[i], current@[i], previous@),
{
    let mut items: Vec<TreemapItem> = Vec::new();
    let mut i: usize = 0;
    while i < current.len()
        invariant
            i <= current.len(),
            items@.len() == i,
            forall|k: int|
                #![trigger items@[k]]
                0 <= k < i ==> is_item(items@[k], current@[k], previous@),
        decreases current.len() - i,
    {
        let before = match find_last(previous, &current[i].0) {
            Some(amount) => amount,
            None => Amount::zero(),
        };
        items.push(TreemapItem::new(current[i].0.clone(), current[i].1, before));
        i = i + 1;
    }
    items
}

// ==================== Across accounts ====================

/// Rows as items under their labels.
pub open spec fn labelled(rows: Seq<(String, Amount)>) -> Seq<(Seq<char>, Amount)> {
    rows.map_values(|r: (String, Amount)| (r.0@, r.1))
}

/// Items noted behind what was noted.
pub open spec fn noted_all(
    totals: Seq<(Seq<char>, Seq<Amount>)>,
    items: Seq<(Seq<char>, Amount)>,
) -> Seq<(Seq<char>, Seq<Amount>)>
    decreases items.len(),
{
    if items.len() == 0 {
        totals
    } else {
        attribution::noted(
            noted_all(totals, items.drop_last()),
            items.last().0,
            items.last().1,
        )
    }
}

/// Note one account's breakdown into that of all accounts, bucket by bucket.
pub fn merge_buckets(into: &mut Vec<Throughput>, rows: &Vec<(String, Amount)>)
    ensures
        attribution::throughputs(final(into)@) == noted_all(
            attribution::throughputs(old(into)@),
            labelled(rows@),
        ),
{
    let ghost before = attribution::throughputs(into@);
    let mut i: usize = 0;
    proof {
        assert(labelled(rows@).take(0) =~= Seq::empty());
    }
    while i < rows.len()
        invariant
            i <= rows.len(),
            before == attribution::throughputs(old(into)@),
            attribution::throughputs(into@) == noted_all(before, labelled(rows@).take(i as int)),
        decreases rows.len() - i,
    {
        proof {
            assert(labelled(rows@).take(i + 1).drop_last() =~= labelled(rows@).take(i as int));
            assert(labelled(rows@).take(i + 1).last() == (rows@[i as int].0@, rows@[i as int].1));
        }
        note(into, rows[i].0.clone(), rows[i].1);
        i = i + 1;
    }
    proof {
        assert(labelled(rows@).take(i as int) =~= labelled(rows@));
    }
}

/// Merging the breakdowns of the accounts one after the other is tallying all
/// their buckets.
pub proof fn merging_tallies_every_account(
    first: Seq<(Seq<char>, Amount)>,
    second: Seq<(Seq<char>, Amount)>,
)
    ensures
        noted_all(attribution::tallied(first), second) == attribution::tallied(first + second),
    decreases second.len(),
{
    if second.len() == 0 {
        assert(first + second =~= first);
    } else {
        merging_tallies_every_account(first, second.drop_last());
        assert((first + second).drop_last() =~= first + second.drop_last());
    }
}

/// Buckets, largest first.
pub fn rank_buckets(rows: Vec<(String, Amount)>) -> (res: Vec<(String, Amount)>)
    ensures
        res@ == ranked::sorted_by_amount(rows@, ranked::named_amounts(rows@)),
{
    let amounts = amounts_of(&rows);
    sort_by_amount(rows, &amounts)
}

/// The costliest resources across accounts, from those of each account.
pub fn rank_resources(resources: Vec<TopResource>) -> (res: Vec<TopResource>)
    ensures
        res@ == ranked::first(
            ranked::sorted_by_amount(resources@, ranked::resource_amounts(resources@)),
            10,
        ),
{
    let mut amounts: Vec<Amount> = Vec::new();
    let mut i: usize = 0;
    while i < resources.len()
        invariant
            i <= resources.len(),
            amounts@ == ranked::resource_amounts(resources@).take(i as int),
        decreases resources.len() - i,
    {
        amounts.push(resources[i].amount);
        i = i + 1;
        proof {
            assert(amounts@ =~= ranked::resource_amounts(resources@).take(i as int));
        }
    }
    proof {
        assert(amounts@ =~= ranked::resource_amounts(resources@));
    }
    truncated(sort_by_amount(resources, &amounts), TOP_RESOURCE_COUNT)
}

/// What the breakdowns ask of the ledger about one account.
pub struct DrillReads {
    /// The account's bill of the month, by each dimension.
    pub by_service: Vec<(String, Vec<Amount>)>,
    pub by_region: Vec<(String, Vec<Amount>)>,
    pub by_category: Vec<(String, Vec<Amount>)>,
    /// Its bill of the month before.
    pub prev_by_service: Vec<(String, Vec<Amount>)>,
    pub prev_by_region: Vec<(String, Vec<Amount>)>,
    pub prev_by_category: Vec<(String, Vec<Amount>)>,
    /// The resources of the month.
    pub resources: Vec<ResourceTerms>,
}

/// `reads` is what the breakdowns ask about an account.
pub open spec fn asks_of_bill(
    reads: DrillReads,
    all: Seq<NormalizedRow>,
    account: CloudAccount,
    now: Timestamp,
) -> bool {
    let owner = scope::of_account(account.source_id.id@, account.id@);
    let rows = scope::rows_in(all, owner.in_period(month::this_month(now)));
    let before = scope::rows_in(all, owner.in_period(month::last_month(now)));
    &&& buckets::named_by(reads.by_service@, rows, Grouping::Dim(BreakdownDim::Service))
    &&& buckets::named_by(reads.by_region@, rows, Grouping::Dim(BreakdownDim::Region))
    &&& buckets::named_by(reads.by_category@, rows, Grouping::Dim(BreakdownDim::ServiceCategory))
    &&& buckets::named_by(reads.prev_by_service@, before, Grouping::Dim(BreakdownDim::Service))
    &&& buckets::named_by(reads.prev_by_region@, before, Grouping::Dim(BreakdownDim::Region))
    &&& buckets::named_by(
        reads.prev_by_category@,
        before,
        Grouping::Dim(BreakdownDim::ServiceCategory),
    )
    &&& ranked::resources_by(reads.resources@, rows)
}

/// Ask the ledger about one account.
pub fn drill_reads(all: &Vec<NormalizedRow>, account: &CloudAccount, now: Timestamp) -> (res:
    DrillReads)
    requires
        memory::rows_dated(all@),
        Range::Mtd.reaches(now),
    ensures
        asks_of_bill(res, all@, *account, now),
{
    let period = BillingPeriod::containing(now);
    let key = period_key(account, &period);
    let before = period_key(account, &period.previous());
    DrillReads {
        by_service: query::breakdown_by(all, &key, BreakdownDim::Service),
        by_region: query::breakdown_by(all, &key, BreakdownDim::Region),
        by_category: query::breakdown_by(all, &key, BreakdownDim::ServiceCategory),
        prev_by_service: query::breakdown_by(all, &before, BreakdownDim::Service),
        prev_by_region: query::breakdown_by(all, &before, BreakdownDim::Region),
        prev_by_category: query::breakdown_by(all, &before, BreakdownDim::ServiceCategory),
        resources: query::resource_terms(all, &key),
    }
}

/// The breakdowns of the accounts so far, bucket by bucket, with the amounts that
/// each bucket adds up.
#[derive(Debug)]
pub struct DrillTallies {
    pub by_service: Vec<Throughput>,
    pub by_region: Vec<Throughput>,
    pub by_category: Vec<Throughput>,
    pub prev_by_service: Vec<Throughput>,
    pub prev_by_region: Vec<Throughput>,
    pub prev_by_category: Vec<Throughput>,
    pub resources: Vec<TopResource>,
}

/// `after` is `before` with one account's totals merged in: those above zero, as
/// its own breakdown ranks them.
pub open spec fn merges(
    after: Seq<Throughput>,
    before: Seq<Throughput>,
    totals: Seq<(String, Amount)>,
) -> bool {
    attribution::throughputs(after) == noted_all(
        attribution::throughputs(before),
        labelled(ranked::positive_first(totals, ranked::named_amounts(totals))),
    )
}

impl DrillTallies {
    /// No account yet.
    pub fn new() -> (res: DrillTallies)
        ensures
            res.by_service@.len() == 0,
            res.by_region@.len() == 0,
            res.by_category@.len() == 0,
            res.prev_by_service@.len() == 0,
            res.prev_by_region@.len() == 0,
            res.prev_by_category@.len() == 0,
            res.resources@.len() == 0,
    {
        DrillTallies {
            by_service: Vec::new(),
            by_region: Vec::new(),
            by_category: Vec::new(),
            prev_by_service: Vec::new(),
            prev_by_region: Vec::new(),
            prev_by_category: Vec::new(),
            resources: Vec::new(),
        }
    }

    /// Merge one account in, from the totals of its own breakdowns.
    pub fn absorb(&mut self, totals: DrilldownData)
        ensures
            merges(final(self).by_service@, old(self).by_service@, totals.by_service@),
            merges(final(self).by_region@, old(self).by_region@, totals.by_region@),
            merges(final(self).by_category@, old(self).by_category@, totals.by_category@),
            merges(
                final(self).prev_by_service@,
                old(self).prev_by_service@,
                totals.prev_by_service@,
            ),
            merges(
                final(self).prev_by_region@,
                old(self).prev_by_region@,
                totals.prev_by_region@,
            ),
            merges(
                final(self).prev_by_category@,
                old(self).prev_by_category@,
                totals.prev_by_category@,
            ),
            final(self).resources@ == old(self).resources@ + ranked::first(
                ranked::positive_first(
                    totals.top_resources@,
                    ranked::resource_amounts(totals.top_resources@),
                ),
                10,
            ),
    {
        merge_buckets(&mut self.by_service, &rank_totals(totals.by_service));
        merge_buckets(&mut self.by_region, &rank_totals(totals.by_region));
        merge_buckets(&mut self.by_category, &rank_totals(totals.by_category));
        merge_buckets(&mut self.prev_by_service, &rank_totals(totals.prev_by_service));
        merge_buckets(&mut self.prev_by_region, &rank_totals(totals.prev_by_region));
        merge_buckets(&mut self.prev_by_category, &rank_totals(totals.prev_by_category));
        let mut resources = top_resources(totals.top_resources, TOP_RESOURCE_COUNT);
        self.resources.append(&mut resources);
    }
}

/// The breakdowns of all accounts, from the totals of what was merged: largest
/// first in every dimension, as each account's own was.
pub fn load_drilldown(merged: DrilldownData) -> (res: DrilldownData)
    ensures
        res.by_service@ == ranked::sorted_by_amount(
            merged.by_service@,
            ranked::named_amounts(merged.by_service@),
        ),
        res.by_region@ == ranked::sorted_by_amount(
            merged.by_region@,
            ranked::named_amounts(merged.by_region@),
        ),
        res.by_category@ == ranked::sorted_by_amount(
            merged.by_category@,
            ranked::named_amounts(merged.by_category@),
        ),
        res.prev_by_service == merged.prev_by_service,
        res.prev_by_region == merged.prev_by_region,
        res.prev_by_category == merged.prev_by_category,
        res.top_resources@ == ranked::first(
            ranked::sorted_by_amount(
                merged.top_resources@,
                ranked::resource_amounts(merged.top_resources@),
            ),
            10,
        ),
{
    DrilldownData {
        by_service: rank_buckets(merged.by_service),
        by_region: rank_buckets(merged.by_region),
        by_category: rank_buckets(merged.by_category),
        prev_by_service: merged.prev_by_service,
        prev_by_region: merged.prev_by_region,
        prev_by_category: merged.prev_by_category,
        top_resources: rank_resources(merged.top_resources),
    }
}

// ==================== The page ====================

/// The page.
#[derive(Debug)]
pub struct AttributionView {
    /// What was loaded; `None` until the first load lands.
    pub data: Option<AttributionData>,
    /// The breakdowns; they land with the data.
    pub drilldown: Option<DrilldownData>,
    pub dim: DrillDim,
    pub breakdown_mode: BreakdownMode,
    /// The tile under the mouse.
    pub treemap_hover: TreemapHover,
    /// Why the last load failed, if it did.
    pub error: Option<String>,
    /// A load is in flight.
    pub loading: bool,
    /// Grows with every load: a load that was overtaken is discarded.
    pub load_generation: u64,
}

/// What the page shows under its header.
#[derive(Clone, Copy, PartialEq, Eq, Structural, Debug)]
pub enum AttributionBody {
    /// Nothing was charged this period.
    Empty,
    /// The first load failed.
    Failed,
    Loading,
    /// The diagram and what reaches no business line.
    Diagram,
    /// The breakdown by the selected dimension.
    Breakdown,
}

impl AttributionView {
    pub fn new() -> (res: AttributionView)
        ensures
            res.data is None,
            res.drilldown is None,
            res.dim == DrillDim::Tag,
            res.breakdown_mode == BreakdownMode::HeatMap,
            res.treemap_hover.index is None,
            res.error is None,
            !res.loading,
            res.load_generation == 0,
    {
        AttributionView {
            data: None,
            drilldown: None,
            dim: DrillDim::Tag,
            breakdown_mode: BreakdownMode::HeatMap,
            treemap_hover: TreemapHover::new(),
            error: None,
            loading: false,
            load_generation: 0,
        }
    }

    /// Start the first load if none has run; its generation.
    pub fn ensure_loaded(&mut self) -> (res: Option<u64>)
        requires
            old(self).load_generation < u64::MAX,
        ensures
            res is Some <==> old(self).data is None && !old(self).loading,
            res is None ==> *final(self) == *old(self),
            res is Some ==> res->0 == old(self).load_generation + 1 && *final(self) == (
            AttributionView { loading: true, load_generation: res->0, ..*old(self) }),
    {
        if self.data.is_none() && !self.loading {
            return Some(self.load());
        }
        None
    }

    /// Reload, unless a load is in flight; the generation of the load that
    /// starts. What is shown stays while it runs.
    pub fn reload(&mut self) -> (res: Option<u64>)
        requires
            old(self).load_generation < u64::MAX,
        ensures
            res is Some <==> !old(self).loading,
            res is None ==> *final(self) == *old(self),
            res is Some ==> res->0 == old(self).load_generation + 1 && *final(self) == (
            AttributionView { loading: true, load_generation: res->0, ..*old(self) }),
    {
        if self.loading {
            return None;
        }
        Some(self.load())
    }

    /// A load starts; its generation.
    pub fn load(&mut self) -> (res: u64)
        requires
            old(self).load_generation < u64::MAX,
        ensures
            res == old(self).load_generation + 1,
            *final(self) == (AttributionView {
                loading: true,
                load_generation: res,
                ..*old(self)
            }),
    {
        self.loading = true;
        self.load_generation = self.load_generation + 1;
        self.load_generation
    }

    /// A load came back. One that was overtaken is discarded; a failure keeps
    /// what is shown.
    pub fn loaded(&mut self, generation: u64, result: Result<(AttributionData, DrilldownData), Error>)
        ensures
            generation != old(self).load_generation ==> *final(self) == *old(self),
            generation == old(self).load_generation ==> {
                &&& !final(self).loading
                &&& final(self).dim == old(self).dim
                &&& final(self).breakdown_mode == old(self).breakdown_mode
                &&& final(self).load_generation == old(self).load_generation
                &&& match result {
                    Ok((data, drilldown)) => {
                        &&& final(self).data == Some(data)
                        &&& final(self).drilldown == Some(drilldown)
                        &&& final(self).error is None
                        &&& final(self).treemap_hover.index is None
                    },
                    Err(e) => {
                        &&& final(self).data == old(self).data
                        &&& final(self).drilldown == old(self).drilldown
                        &&& final(self).treemap_hover == old(self).treemap_hover
                        &&& final(self).error is Some
                        &&& final(self).error->0@ == "Could not load attribution: "@ + e.message@
                    },
                }
            },
    {
        if self.load_generation != generation {
            return ;
        }
        match result {
            Ok((data, drilldown)) => {
                self.data = Some(data);
                self.drilldown = Some(drilldown);
                self.error = None;
                self.treemap_hover.clear();
            },
            Err(e) => {
                self.error = Some(concat2("Could not load attribution: ", &e.message));
            },
        }
        self.loading = false;
    }

    /// Break down by another dimension; nothing is loaded for it.
    pub fn select_dim(&mut self, dim: DrillDim)
        ensures
            dim == old(self).dim ==> *final(self) == *old(self),
            dim != old(self).dim ==> *final(self) == (AttributionView {
                dim,
                treemap_hover: (TreemapHover { index: None }),
                ..*old(self)
            }),
    {
        if self.dim != dim {
            self.dim = dim;
            self.treemap_hover.clear();
        }
    }

    /// Show the breakdown as a map or a table.
    pub fn select_mode(&mut self, mode: BreakdownMode)
        ensures
            mode == old(self).breakdown_mode ==> *final(self) == *old(self),
            mode != old(self).breakdown_mode ==> *final(self) == (AttributionView {
                breakdown_mode: mode,
                treemap_hover: (TreemapHover { index: None }),
                ..*old(self)
            }),
    {
        if self.breakdown_mode != mode {
            self.breakdown_mode = mode;
            self.treemap_hover.clear();
        }
    }

    /// The mouse moved over the map, to a tile or to none; whether the page shows
    /// it.
    pub fn hover(&mut self, hit: Option<usize>) -> (res: bool)
        ensures
            res == (hit != old(self).treemap_hover.index),
            *final(self) == (AttributionView {
                treemap_hover: (TreemapHover { index: hit }),
                ..*old(self)
            }),
    {
        self.treemap_hover.follow(hit)
    }

    /// What the page shows under its header. A failed reload keeps the last good
    /// data, with the failure above it.
    pub fn body(&self) -> (res: AttributionBody)
        ensures
            res == (match self.data {
                Some(data) => if data.sankey.nodes@.len() == 0 {
                    AttributionBody::Empty
                } else if self.dim == DrillDim::Tag {
                    AttributionBody::Diagram
                } else if self.drilldown is Some {
                    AttributionBody::Breakdown
                } else {
                    AttributionBody::Loading
                },
                None => if self.error is Some {
                    AttributionBody::Failed
                } else if self.loading {
                    AttributionBody::Loading
                } else {
                    AttributionBody::Empty
                },
            }),
    {
        match &self.data {
            Some(data) => if data.sankey.nodes.len() == 0 {
                AttributionBody::Empty
            } else if self.dim == DrillDim::Tag {
                AttributionBody::Diagram
            } else if self.drilldown.is_some() {
                AttributionBody::Breakdown
            } else {
                AttributionBody::Loading
            },
            None => if self.error.is_some() {
                AttributionBody::Failed
            } else if self.loading {
                AttributionBody::Loading
            } else {
                AttributionBody::Empty
            },
        }
    }
}

// ==================== Cards ====================

/// The header's caption: what the period used. There is none for a period
/// without charges.
pub fn header_caption(data: &AttributionData, total: Amount) -> (res: Option<String>)
    ensures
        res is Some <==> data.sankey.nodes@.len() > 0,
        res is Some ==> res->0@ == fmt::amount_text(total, data.currency@)
            + " this billing period"@,
{
    if data.sankey.nodes.len() == 0 {
        return None;
    }
    Some(concat2(&fmt::amount(total, &data.currency), " this billing period"))
}

/// What a service without a business line is called.
pub open spec fn item_label(item: UnallocatedItem) -> Seq<char> {
    let head = item.provider@ + " · "@ + (match item.service {
        Some(service) => service@,
        None => "untagged charge"@,
    });
    match item.description {
        Some(description) => head + " · "@ + description@,
        None => head,
    }
}

/// What a service without a business line is called: its source and name, and a
/// description behind them where there is one.
pub fn unallocated_label(item: &UnallocatedItem) -> (res: String)
    ensures
        res@ == item_label(*item),
{
    let what = match &item.service {
        Some(service) => service.as_str(),
        None => "untagged charge",
    };
    let mut label = concat3(&item.provider, " · ", what);
    if let Some(description) = &item.description {
        let ghost head = label@;
        label.append(" · ");
        label.append(description);
        proof {
            assert(head + " · "@ + description@ == label@);
        }
    }
    label
}

/// The title of the card of what reaches no business line.
pub fn unallocated_title(card: &UnallocatedCardData, currency: &str) -> (res: String)
    ensures
        res@ == "Unallocated · "@ + fmt::amount_text(card.amount, currency@) + " ("@
            + fmt::share_text(card.pct) + ")"@,
{
    let mut title = concat2("Unallocated · ", &fmt::amount(card.amount, currency));
    title.append(" (");
    title.append(&fmt::share_pct(card.pct));
    title.append(")");
    title
}

/// What a resource is called: its name, or its id where it has none.
pub fn resource_label(resource: &TopResource) -> (res: String)
    ensures
        res@ == (match resource.resource_name {
            Some(name) => name@,
            None => resource.resource_id@,
        }),
{
    match &resource.resource_name {
        Some(name) => name.clone(),
        None => resource.resource_id.clone(),
    }
}

} // verus!
