//! What the drill-down of the attribution page shows, in terms of the buckets, the
//! links and the nodes it is given.
use vstd::prelude::*;

use super::attribution;
use super::attribution::{DrillDim, DrilldownData, LineShade, NodeFlows};
use super::breakdown;
use super::breakdown::{DrillCells, ResourceCells};
use super::chart;
use super::chart::{Move, TileSplit, TreemapItem};
use super::data;
use super::data::attribution::{SankeyLink, SankeyNode, Throughput, UnallocatedItem};
use super::data::change;
use super::fmt;
use crate::amount::Amount;
use crate::ledger::measured;
use crate::list;
use crate::model::{TopResource, UntaggedServiceUsage};
use crate::order;

verus! {

// ==================== Tallies ====================

/// Amounts noted under an id.
pub open spec fn noted_under(id: Seq<char>) -> spec_fn((Seq<char>, Amount)) -> bool {
    |item: (Seq<char>, Amount)| item.0 == id
}

/// The amounts of what is noted.
pub open spec fn amounts_noted(items: Seq<(Seq<char>, Amount)>) -> Seq<Amount> {
    items.map_values(|item: (Seq<char>, Amount)| item.1)
}

/// A tally lists an id.
pub open spec fn lists_id(totals: Seq<(Seq<char>, Seq<Amount>)>, id: Seq<char>) -> bool {
    exists|k: int| 0 <= k < totals.len() && (#[trigger] totals[k]).0 == id
}

/// A tally has one entry per id that was noted, with the amounts noted under just
/// that id, in the order in which they were noted.
pub proof fn a_tally_keeps_amounts_by_id(items: Seq<(Seq<char>, Amount)>)
    ensures
        forall|k: int|
            #![trigger data::attribution::tallied(items)[k]]
            0 <= k < data::attribution::tallied(items).len() ==> {
                let entry = data::attribution::tallied(items)[k];
                entry.1.len() > 0 && entry.1 == amounts_noted(items.filter(noted_under(entry.0)))
            },
        forall|j: int, k: int|
            #![trigger data::attribution::tallied(items)[j], data::attribution::tallied(items)[k]]
            0 <= j < k < data::attribution::tallied(items).len() ==> data::attribution::tallied(
                items,
            )[j].0 != data::attribution::tallied(items)[k].0,
        forall|i: int|
            #![trigger items[i]]
            0 <= i < items.len() ==> lists_id(data::attribution::tallied(items), items[i].0),
    decreases items.len(),
{
    reveal(Seq::filter);
    if items.len() > 0 {
        let fewer = items.drop_last();
        a_tally_keeps_amounts_by_id(fewer);
        let before = data::attribution::tallied(fewer);
        let after = data::attribution::tallied(items);
        let (id, amount) = items.last();
        let test = data::attribution::under_id(id);
        list::first_index_is_first(before, test);
        let found = list::first_index(before, test);
        assert forall|k: int| #![trigger after[k]] 0 <= k < after.len() implies {
            after[k].1.len() > 0 && after[k].1 == amounts_noted(
                items.filter(noted_under(after[k].0)),
            )
        } by {
            let kept = fewer.filter(noted_under(after[k].0));
            if after[k].0 == id {
                assert(items.filter(noted_under(id)) == kept.push(items.last()));
                assert(amounts_noted(kept.push(items.last())) =~= amounts_noted(kept).push(amount));
                if found is None {
                    assert forall|i: int| 0 <= i < fewer.len() implies !noted_under(id)(
                        #[trigger] fewer[i],
                    ) by {
                        assert(lists_id(before, fewer[i].0));
                        let b = choose|b: int|
                            0 <= b < before.len() && (#[trigger] before[b]).0 == fewer[i].0;
                        assert(!test(before[b]));
                    }
                    lemma_none_kept(fewer, noted_under(id));
                    assert(amounts_noted(kept) =~= Seq::<Amount>::empty());
                    if k < before.len() {
                        assert(!test(before[k]));
                    }
                } else {
                    assert(test(before[found->0]));
                    if k != found->0 {
                        assert(after[k] == before[k]);
                        assert(before[k].0 != before[found->0].0);
                    }
                }
            } else {
                assert(items.filter(noted_under(after[k].0)) == kept);
                assert(after[k] == before[k]);
            }
        }
        assert forall|i: int| #![trigger items[i]] 0 <= i < items.len() implies lists_id(
            after,
            items[i].0,
        ) by {
            if i < fewer.len() {
                assert(items[i] == fewer[i]);
                let b = choose|b: int|
                    0 <= b < before.len() && (#[trigger] before[b]).0 == fewer[i].0;
                if found is Some && b == found->0 {
                    assert(test(before[b]));
                }
                assert(after[b].0 == items[i].0);
            } else if found is Some {
                assert(after[found->0].0 == id);
            } else {
                assert(after[before.len() as int].0 == id);
            }
        }
    }
}

proof fn lemma_none_kept<T>(items: Seq<T>, test: spec_fn(T) -> bool)
    requires
        forall|i: int| 0 <= i < items.len() ==> !test(#[trigger] items[i]),
    ensures
        items.filter(test).len() == 0,
    decreases items.len(),
{
    reveal(Seq::filter);
    if items.len() > 0 {
        let fewer = items.drop_last();
        assert forall|i: int| 0 <= i < fewer.len() implies !test(#[trigger] fewer[i]) by {
            assert(fewer[i] == items[i]);
        }
        lemma_none_kept(fewer, test);
        assert(!test(items[items.len() - 1]));
    }
}

// ==================== Lines of the diagram ====================

/// A link leaves a node and leads, by what its end has settled on, to a line.
pub open spec fn leads_to(
    dominant: Seq<(String, String)>,
    id: Seq<char>,
    line: Seq<char>,
) -> spec_fn(SankeyLink) -> bool {
    |link: SankeyLink|
        link.from@ == id && exists|d: int|
            #![trigger dominant[d]]
            0 <= d < dominant.len() && dominant[d].0@ == link.to@ && dominant[d].1@ == line && forall|
                e: int,
            |
                #![trigger dominant[e]]
                0 <= e < d ==> dominant[e].0@ != link.to@
}

/// What links carry.
pub open spec fn carried(links: Seq<SankeyLink>) -> Seq<Amount> {
    links.map_values(|link: SankeyLink| link.value)
}

/// What a node feeds a line: the values of just the links that leave the node and
/// whose other end has settled on that line, in link order.
pub proof fn a_node_feeds_lines_through_its_links(
    links: Seq<SankeyLink>,
    id: Seq<char>,
    dominant: Seq<(String, String)>,
    line: Seq<char>,
)
    ensures
        amounts_noted(
            attribution::line_items(links, id, dominant).filter(noted_under(line)),
        ) == carried(links.filter(leads_to(dominant, id, line))),
    decreases links.len(),
{
    reveal(Seq::filter);
    if links.len() == 0 {
        assert(amounts_noted(
            attribution::line_items(links, id, dominant).filter(noted_under(line)),
        ) =~= carried(links.filter(leads_to(dominant, id, line))));
    } else {
        let fewer = links.drop_last();
        let link = links.last();
        a_node_feeds_lines_through_its_links(fewer, id, dominant, line);
        let before = attribution::line_items(fewer, id, dominant);
        let after = attribution::line_items(links, id, dominant);
        let kept = before.filter(noted_under(line));
        let led = fewer.filter(leads_to(dominant, id, line));
        let entry = attribution::entry_of(link.to@);
        list::first_index_is_first(dominant, entry);
        match list::first_index(dominant, entry) {
            Some(d) => {
                assert(entry(dominant[d]));
                assert forall|e: int| 0 <= e < d implies (#[trigger] dominant[e]).0@ != link.to@ by {
                    assert(!entry(dominant[e]));
                }
                if link.from@ == id {
                    let item = (dominant[d].1@, link.value);
                    assert(after == before.push(item));
                    assert(after.drop_last() =~= before);
                    if dominant[d].1@ == line {
                        assert(leads_to(dominant, id, line)(link));
                        assert(amounts_noted(kept.push(item)) =~= amounts_noted(kept).push(
                            link.value,
                        ));
                        assert(carried(led.push(link)) =~= carried(led).push(link.value));
                    } else {
                        assert(!leads_to(dominant, id, line)(link)) by {
                            assert forall|c: int|
                                #![trigger dominant[c]]
                                0 <= c < dominant.len() && dominant[c].0@ == link.to@
                                    && dominant[c].1@ == line implies exists|e: int|
                                #![trigger dominant[e]]
                                0 <= e < c && dominant[e].0@ == link.to@ by {
                                assert(d < c);
                                assert(dominant[d].0@ == link.to@);
                            }
                        }
                    }
                }
            },
            None => {
                assert(!leads_to(dominant, id, line)(link)) by {
                    assert forall|c: int| #![trigger dominant[c]] 0 <= c
                        < dominant.len() implies dominant[c].0@ != link.to@ by {
                        assert(!entry(dominant[c]));
                    }
                }
            },
        }
    }
}

/// An entry settles a node: on a line that no other line of the node exceeds.
pub open spec fn settles_node(
    entry: (String, String),
    node: NodeFlows,
    totals: Seq<Amount>,
    at: int,
) -> bool {
    &&& 0 <= at < totals.len()
    &&& entry.0@ == node.id@
    &&& entry.1@ == node.lines@[at].id@
    &&& (forall|i: int| 0 <= i < totals.len() ==> !(#[trigger] totals[i]).is_nan())
        ==> forall|i: int| 0 <= i < totals.len() ==> !totals[at].lt(#[trigger] totals[i])
}

/// An entry settles one of the nodes.
pub open spec fn settles_some(
    entry: (String, String),
    flows: Seq<NodeFlows>,
    totals: Seq<Vec<Amount>>,
) -> bool {
    exists|f: int, at: int|
        0 <= f < flows.len() && #[trigger] settles_node(entry, flows[f], totals[f]@, at)
}

/// Entries beyond the first settle a node.
pub open spec fn is_settled(
    after: Seq<(String, String)>,
    node: NodeFlows,
    totals: Seq<Amount>,
    first: int,
) -> bool {
    exists|k: int, at: int|
        first <= k < after.len() && #[trigger] settles_node(after[k], node, totals, at)
}

/// Settling a column keeps what was settled before, settles each node that feeds a
/// line on one it feeds most, and settles nothing else.
pub proof fn a_node_settles_on_the_line_it_feeds_most(
    after: Seq<(String, String)>,
    before: Seq<(String, String)>,
    flows: Seq<NodeFlows>,
    totals: Seq<Vec<Amount>>,
)
    requires
        totals.len() == flows.len(),
        attribution::settles(after, before, flows, totals),
    ensures
        after.len() >= before.len(),
        after.take(before.len() as int) == before,
        forall|k: int|
            #![trigger after[k]]
            before.len() <= k < after.len() ==> settles_some(after[k], flows, totals),
        forall|f: int|
            #![trigger flows[f]]
            0 <= f < flows.len() && flows[f].lines@.len() > 0 ==> is_settled(
                after,
                flows[f],
                totals[f]@,
                before.len() as int,
            ),
    decreases flows.len(),
{
    if flows.len() == 0 {
        assert(after.take(before.len() as int) =~= before);
    } else {
        let fewer = flows.drop_last();
        let some = totals.drop_last();
        let last = flows.len() - 1;
        let skipped = flows.last().lines@.len() == 0;
        let rest = if skipped {
            after
        } else {
            after.drop_last()
        };
        a_node_settles_on_the_line_it_feeds_most(rest, before, fewer, some);
        assert(after.take(before.len() as int) =~= rest.take(before.len() as int));
        if !skipped {
            let at = choose|at: int|
                #[trigger] attribution::is_largest(totals.last()@, at) && after.last().1@
                    == flows.last().lines@[at].id@;
            assert(settles_node(after[after.len() - 1], flows[last], totals[last]@, at));
        }
        assert forall|k: int| #![trigger after[k]] before.len() <= k < after.len() implies
            settles_some(after[k], flows, totals) by {
            if k < rest.len() {
                assert(rest[k] == after[k]);
                let (f, at) = choose|f: int, at: int|
                    0 <= f < fewer.len() && #[trigger] settles_node(rest[k], fewer[f], some[f]@, at);
                assert(settles_node(after[k], flows[f], totals[f]@, at));
            }
        }
        assert forall|f: int|
            #![trigger flows[f]]
            0 <= f < flows.len() && flows[f].lines@.len() > 0 implies is_settled(
            after,
            flows[f],
            totals[f]@,
            before.len() as int,
        ) by {
            if f < fewer.len() {
                assert(fewer[f] == flows[f]);
                let (k, at) = choose|k: int, at: int|
                    before.len() <= k < rest.len() && #[trigger] settles_node(
                        rest[k],
                        fewer[f],
                        some[f]@,
                        at,
                    );
                assert(settles_node(after[k], flows[f], totals[f]@, at));
            }
        }
    }
}

/// The business lines of a diagram stand in its last column, and are shaded from
/// the largest to the smallest.
pub proof fn lines_are_shaded_by_their_size(nodes: Seq<SankeyNode>)
    requires
        nodes.len() > 0,
    ensures
        attribution::ranked_lines(nodes).to_multiset() == nodes.filter(
            |node: SankeyNode| is_last(nodes, node),
        ).to_multiset(),
        forall|i: int, j: int|
            #![trigger attribution::ranked_lines(nodes)[i], attribution::ranked_lines(nodes)[j]]
            0 <= i < j < attribution::ranked_lines(nodes).len()
                ==> !attribution::ranked_lines(nodes)[i].value.lt(
                attribution::ranked_lines(nodes)[j].value,
            ),
{
    let column = attribution::columns_of(nodes) - 1;
    lemma_columns(nodes);
    assert(attribution::in_column(column) =~= (|node: SankeyNode| is_last(nodes, node))) by {
        assert forall|node: SankeyNode| #[trigger]
            attribution::in_column(column)(node) == is_last(nodes, node) by {
            if is_last(nodes, node) {
            }
        }
    }
    let lines = attribution::column_nodes(nodes, column);
    let keys = attribution::ordinals_of(lines);
    order::ranked_items_are_the_items(lines, keys);
    order::ranking_is_stable_and_complete(keys);
    let at = order::ranking(keys);
    let ranked = attribution::ranked_lines(nodes);
    assert forall|i: int, j: int|
        #![trigger ranked[i], ranked[j]]
        0 <= i < j < ranked.len() implies !ranked[i].value.lt(ranked[j].value) by {
        assert(order::ranks_ahead(keys, at[i], at[j]));
    }
}

/// A node stands in a column that no node goes beyond and that one stands in.
pub open spec fn is_last(nodes: Seq<SankeyNode>, node: SankeyNode) -> bool {
    &&& forall|i: int| 0 <= i < nodes.len() ==> (#[trigger] nodes[i]).column <= node.column
    &&& exists|i: int| 0 <= i < nodes.len() && (#[trigger] nodes[i]).column == node.column
}

proof fn lemma_columns(nodes: Seq<SankeyNode>)
    ensures
        forall|i: int|
            0 <= i < nodes.len() ==> (#[trigger] nodes[i]).column < attribution::columns_of(nodes),
        nodes.len() > 0 ==> exists|i: int|
            0 <= i < nodes.len() && (#[trigger] nodes[i]).column + 1 == attribution::columns_of(
                nodes,
            ),
    decreases nodes.len(),
{
    if nodes.len() > 0 {
        let fewer = nodes.drop_last();
        lemma_columns(fewer);
        let before = attribution::columns_of(fewer);
        assert forall|i: int| 0 <= i < nodes.len() implies (#[trigger] nodes[i]).column
            < attribution::columns_of(nodes) by {
            if i < fewer.len() {
                assert(nodes[i] == fewer[i]);
            }
        }
        if before < nodes.last().column + 1 {
            assert(nodes[nodes.len() - 1].column + 1 == attribution::columns_of(nodes));
        } else {
            let i = choose|i: int|
                0 <= i < fewer.len() && (#[trigger] fewer[i]).column + 1 == before;
            assert(nodes[i].column + 1 == attribution::columns_of(nodes));
        }
    }
}

/// What has no business line is grey. The first named line has the first shade; a
/// named line has the shade behind that of the named line before it, and the
/// fourth is followed by the first.
pub proof fn shades_go_round(lines: Seq<SankeyNode>, i: int, j: int)
    requires
        -1 <= i < j < lines.len(),
        lines[j].label@ != "Unallocated"@,
        forall|k: int| i < k < j ==> (#[trigger] lines[k]).label@ == "Unallocated"@,
    ensures
        forall|k: int|
            #![trigger lines[k]]
            0 <= k < lines.len() && lines[k].label@ == "Unallocated"@ ==> attribution::shade_at(
                lines,
                k,
            ) == LineShade::Grey,
        (forall|k: int| 0 <= k < j ==> (#[trigger] lines[k]).label@ == "Unallocated"@)
            ==> attribution::shade_at(lines, j) == LineShade::Shade(0),
        i >= 0 && lines[i].label@ != "Unallocated"@ ==> {
            let shade = attribution::shade_at(lines, i);
            let next = attribution::shade_at(lines, j);
            &&& shade == LineShade::Shade(0) ==> next == LineShade::Shade(1)
            &&& shade == LineShade::Shade(1) ==> next == LineShade::Shade(2)
            &&& shade == LineShade::Shade(2) ==> next == LineShade::Shade(3)
            &&& shade == LineShade::Shade(3) ==> next == LineShade::Shade(0)
            &&& shade is Shade && shade->Shade_0 < 4
        },
{
    lemma_named_between(lines, i + 1, j);
    if forall|k: int| 0 <= k < j ==> (#[trigger] lines[k]).label@ == "Unallocated"@ {
        lemma_named_between(lines, 0, j);
    }
}

proof fn lemma_named_between(lines: Seq<SankeyNode>, from: int, to: int)
    requires
        0 <= from <= to <= lines.len(),
        forall|k: int| from <= k < to ==> (#[trigger] lines[k]).label@ == "Unallocated"@,
    ensures
        attribution::named_before(lines, from) == attribution::named_before(lines, to),
    decreases to,
{
    if from < to {
        lemma_named_between(lines, from, to - 1);
        assert(lines[to - 1].label@ == "Unallocated"@);
    }
}

// ==================== Tiles ====================

/// A tile tells of a bucket and of what the bucket of the same name was before:
/// nothing, where there was none.
pub open spec fn tells_of(
    tile: TreemapItem,
    bucket: (String, Amount),
    before: Seq<(String, Amount)>,
) -> bool {
    &&& tile.label@ == bucket.0@
    &&& tile.amount == bucket.1
    &&& (forall|j: int| 0 <= j < before.len() ==> (#[trigger] before[j]).0@ != bucket.0@)
        ==> tile.previous.bits == 0
    &&& forall|j: int|
        #![trigger before[j]]
        0 <= j < before.len() && before[j].0@ == bucket.0@ && (forall|k: int|
            j < k < before.len() ==> (#[trigger] before[k]).0@ != bucket.0@) ==> tile.previous
            == before[j].1
}

/// The tiles by a dimension tell of the buckets of that dimension, each beside what
/// it was in the month before.
pub proof fn a_tile_tells_of_its_bucket(
    drilled: DrilldownData,
    dim: DrillDim,
    tiles: Seq<TreemapItem>,
)
    requires
        tiles.len() == drilled.in_dim(dim).len(),
        forall|i: int|
            #![trigger tiles[i]]
            0 <= i < tiles.len() ==> attribution::is_item(
                tiles[i],
                drilled.in_dim(dim)[i],
                drilled.before_in_dim(dim),
            ),
    ensures
        dim == DrillDim::Tag ==> tiles.len() == 0,
        dim == DrillDim::Service ==> tell_of(tiles, drilled.by_service@, drilled.prev_by_service@),
        dim == DrillDim::Region ==> tell_of(tiles, drilled.by_region@, drilled.prev_by_region@),
        dim == DrillDim::ServiceCategory ==> tell_of(
            tiles,
            drilled.by_category@,
            drilled.prev_by_category@,
        ),
{
    assert forall|i: int| #![trigger tiles[i]] 0 <= i < tiles.len() implies tells_of(
        tiles[i],
        drilled.in_dim(dim)[i],
        drilled.before_in_dim(dim),
    ) by {
        lemma_last_amount(drilled.before_in_dim(dim), drilled.in_dim(dim)[i].0@);
    }
}

/// Tiles tell of buckets, one by one.
pub open spec fn tell_of(
    tiles: Seq<TreemapItem>,
    buckets: Seq<(String, Amount)>,
    before: Seq<(String, Amount)>,
) -> bool {
    &&& tiles.len() == buckets.len()
    &&& forall|i: int|
        #![trigger tiles[i]]
        0 <= i < tiles.len() ==> tells_of(tiles[i], buckets[i], before)
}

proof fn lemma_last_amount(totals: Seq<(String, Amount)>, name: Seq<char>)
    ensures
        (forall|j: int| 0 <= j < totals.len() ==> (#[trigger] totals[j]).0@ != name)
            ==> change::last_amount(totals, name) is None,
        forall|j: int|
            #![trigger totals[j]]
            0 <= j < totals.len() && totals[j].0@ == name && (forall|k: int|
                j < k < totals.len() ==> (#[trigger] totals[k]).0@ != name)
                ==> change::last_amount(totals, name) == Some(totals[j].1),
    decreases totals.len(),
{
    if totals.len() > 0 {
        let fewer = totals.drop_last();
        lemma_last_amount(fewer, name);
        let last = totals.len() - 1;
        if forall|j: int| 0 <= j < totals.len() ==> (#[trigger] totals[j]).0@ != name {
            assert(totals[last].0@ != name);
            assert forall|j: int| 0 <= j < fewer.len() implies (#[trigger] fewer[j]).0@ != name by {
                assert(fewer[j] == totals[j]);
            }
        }
        assert forall|j: int|
            #![trigger totals[j]]
            0 <= j < totals.len() && totals[j].0@ == name && (forall|k: int|
                j < k < totals.len() ==> (#[trigger] totals[k]).0@
                    != name) implies change::last_amount(totals, name) == Some(totals[j].1) by {
            if j < last {
                assert(totals[last].0@ != name);
                assert(fewer[j] == totals[j]);
                assert forall|k: int| j < k < fewer.len() implies (#[trigger] fewer[k]).0@
                    != name by {
                    assert(fewer[k] == totals[k]);
                }
            }
        }
    }
}

/// A bucket that cost nothing before is new; one that did moves as its ratio does.
pub proof fn a_bucket_moves_with_its_ratio(item: TreemapItem, ratio: Amount)
    requires
        !ratio.is_nan(),
    ensures
        ({
            let moved = chart::move_of(item.ratio_of(ratio));
            let zero = data::shown::nothing();
            &&& !zero.lt(item.previous) ==> moved == Move::New
            &&& zero.lt(item.previous) && zero.lt(ratio) ==> moved == Move::Up
            &&& zero.lt(item.previous) && ratio.lt(zero) ==> moved == Move::Down
            &&& zero.lt(item.previous) && !zero.lt(ratio) && !ratio.lt(zero) ==> moved
                == Move::Flat
        }),
{
    item.previous.positive_is_above_zero();
}

/// The map has a tile of its own for each of the largest buckets: none that is
/// folded away is larger than one that is not, and none is folded away while there
/// is room.
pub proof fn the_largest_buckets_have_tiles(items: Seq<TreemapItem>, split: TileSplit, cap: nat)
    requires
        split.top@ == crate::ledger::ranked::first(chart::ranked_tiles(items), cap),
        split.top@ + split.tail@ == chart::ranked_tiles(items),
    ensures
        split.top@.len() <= cap,
        split.tail@.len() > 0 ==> split.top@.len() == cap,
        forall|i: int, j: int|
            #![trigger split.top@[i], split.tail@[j]]
            0 <= i < split.top@.len() && 0 <= j < split.tail@.len()
                ==> !split.top@[i].amount.lt(split.tail@[j].amount),
{
    let amounts = chart::tile_amounts(items);
    let at = measured::a_sorted_list_falls(items, amounts);
    let ranked = chart::ranked_tiles(items);
    let top = split.top@.len();
    assert forall|i: int, j: int|
        #![trigger split.top@[i], split.tail@[j]]
        0 <= i < split.top@.len() && 0 <= j
            < split.tail@.len() implies !split.top@[i].amount.lt(split.tail@[j].amount) by {
        assert((split.top@ + split.tail@)[i] == split.top@[i]);
        assert((split.top@ + split.tail@)[top + j] == split.tail@[j]);
        assert(ranked[i] == items[at[i]] && ranked[top + j] == items[at[top + j]]);
        assert(!amounts[at[i]].lt(amounts[at[top + j]]));
    }
}

// ==================== Tables ====================

/// A table has a row for every bucket, with its name, its amount and its share;
/// the row of what has no value, and no other, is muted.
pub proof fn a_table_row_shows_its_bucket(
    cells: Seq<DrillCells>,
    rows: Seq<(String, Amount)>,
    total: Amount,
    shares: Seq<Amount>,
    currency: Seq<char>,
)
    requires
        breakdown::are_drill_cells(cells, rows, total, shares, currency),
    ensures
        cells.len() == rows.len(),
        forall|i: int|
            #![trigger cells[i]]
            0 <= i < cells.len() ==> {
                &&& cells[i].label@ == rows[i].0@
                &&& cells[i].amount@ == fmt::amount_text(rows[i].1, currency)
                &&& data::shown::nothing().lt(total) ==> cells[i].share == shares[i]
                &&& !data::shown::nothing().lt(total) ==> cells[i].share.bits == 0
                &&& cells[i].muted <==> rows[i].0@ == "Other"@
            },
{
    total.positive_is_above_zero();
}

/// A resource's row tells its name, or its id where it has none, its service and
/// its amount.
pub proof fn a_resource_row_tells_of_its_resource(
    cells: ResourceCells,
    resource: TopResource,
    currency: Seq<char>,
)
    requires
        breakdown::is_resource_cells(cells, resource, currency),
    ensures
        resource.resource_name is Some ==> cells.name@ == resource.resource_name->0@,
        resource.resource_name is None ==> cells.name@ == resource.resource_id@,
        cells.service@ == resource.service@,
        cells.amount@ == fmt::amount_text(resource.amount, currency),
{
}

/// What reaches no line is listed by provider and service, with its own amount.
pub proof fn an_unallocated_row_tells_of_its_service(
    item: UnallocatedItem,
    usage: UntaggedServiceUsage,
    row: (String, String),
    currency: Seq<char>,
)
    requires
        item == data::attribution::item_of(usage),
        breakdown::is_unallocated_row(row, item, currency),
    ensures
        usage.service is Some ==> row.0@ == usage.provider@ + " · "@ + usage.service->0@,
        usage.service is None ==> row.0@ == usage.provider@ + " · "@ + "untagged charge"@,
        row.1@ == fmt::amount_text(usage.amount, currency),
        item.description is None,
{
}

/// A total of an account that is above zero, by its name.
pub open spec fn adds(totals: Seq<(String, Amount)>, entry: (Seq<char>, Amount)) -> bool {
    exists|p: int|
        #![trigger totals[p]]
        0 <= p < totals.len() && totals[p].0@ == entry.0 && totals[p].1 == entry.1
            && data::shown::nothing().lt(entry.1)
}

/// Merging an account's breakdown into what was noted notes its totals above zero,
/// each under its own name, behind what was noted before, and nothing else.
pub proof fn merging_notes_the_positive_totals(
    after: Seq<Throughput>,
    before: Seq<Throughput>,
    totals: Seq<(String, Amount)>,
    noted: Seq<(Seq<char>, Amount)>,
)
    requires
        attribution::merges(after, before, totals),
        data::attribution::throughputs(before) == data::attribution::tallied(noted),
    ensures
        exists|added: Seq<(Seq<char>, Amount)>|
            #![trigger noted + added]
            {
                &&& data::attribution::throughputs(after) == data::attribution::tallied(
                    noted + added,
                )
                &&& forall|entry: (Seq<char>, Amount)| #[trigger]
                    added.contains(entry) <==> adds(totals, entry)
            },
{
    let amounts = crate::ledger::ranked::named_amounts(totals);
    let listed = crate::ledger::ranked::positive_first(totals, amounts);
    let added = attribution::labelled(listed);
    attribution::merging_tallies_every_account(noted, added);
    let at = measured::a_ranking_keeps_the_positive_totals(totals, amounts);
    assert forall|entry: (Seq<char>, Amount)| #[trigger]
        added.contains(entry) <==> adds(totals, entry) by {
        if added.contains(entry) {
            let i = choose|i: int| 0 <= i < added.len() && added[i] == entry;
            assert(measured::stands_positive(totals, amounts, at[i], listed[i]));
            assert(amounts[at[i]] == totals[at[i]].1);
            assert(totals[at[i]].0@ == entry.0);
        }
        if adds(totals, entry) {
            let p = choose|p: int|
                #![trigger totals[p]]
                0 <= p < totals.len() && totals[p].0@ == entry.0 && totals[p].1 == entry.1
                    && data::shown::nothing().lt(entry.1);
            assert(amounts[p] == entry.1);
            assert(at.contains(p));
            let i = choose|i: int| 0 <= i < at.len() && at[i] == p;
            assert(measured::stands_positive(totals, amounts, at[i], listed[i]));
            assert(added[i] == entry);
        }
    }
    assert(data::attribution::throughputs(after) == data::attribution::tallied(noted + added));
}

/// The tile of what is folded away tells how much there is of it, and adds nothing
/// of its own.
pub proof fn the_last_tile_tells_of_the_rest(
    tile: TreemapItem,
    count: nat,
    amount: Amount,
    previous: Amount,
)
    requires
        chart::is_fold(tile, count, amount, previous),
    ensures
        tile.label@ == crate::text::decimal(count) + " more"@,
        tile.amount == amount,
        tile.previous == previous,
{
}

} // verus!
