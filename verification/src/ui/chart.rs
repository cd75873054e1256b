//! The tiles of the month-over-month map, and what the mouse is on.
use vstd::prelude::*;

use super::fmt;
use crate::amount::Amount;
use crate::ledger::ranked;
use crate::ledger::ranked::sort_by_amount;
use crate::order;
use crate::text;
use crate::text::{concat2, decimal_text};

verus! {

/// How many buckets of the map keep a tile of their own.
pub const TILE_CAP: usize = 11;

/// One bucket of the map.
#[derive(Debug)]
pub struct TreemapItem {
    pub label: String,
    /// What it costs this period; the tile's area follows it.
    pub amount: Amount,
    /// What it cost last period; nothing marks a new bucket.
    pub previous: Amount,
}

/// Which way a bucket moved.
#[derive(Clone, Copy, PartialEq, Eq, Structural, Debug)]
pub enum Move {
    /// There is nothing to compare with.
    New,
    Up,
    Down,
    Flat,
}

impl TreemapItem {
    pub fn new(label: String, amount: Amount, previous: Amount) -> (res: TreemapItem)
        ensures
            res == (TreemapItem { label, amount, previous }),
    {
        TreemapItem { label, amount, previous }
    }

    /// The change against the last period as a ratio, where there is anything to
    /// compare with.
    pub open spec fn ratio_of(self, ratio: Amount) -> Option<Amount> {
        if self.previous.is_positive() {
            Some(ratio)
        } else {
            None
        }
    }

    /// The change against the last period; `None` for a new bucket. `ratio` is
    /// the difference over the last period's amount, read only where that is
    /// above zero.
    pub fn change(&self, ratio: Amount) -> (res: Option<Amount>)
        ensures
            res == self.ratio_of(ratio),
    {
        if self.previous.positive() {
            Some(ratio)
        } else {
            None
        }
    }
}

/// Which way a change points.
pub open spec fn move_of(change: Option<Amount>) -> Move {
    match change {
        None => Move::New,
        Some(ratio) => if (Amount { bits: 0 }).lt(ratio) {
            Move::Up
        } else if ratio.lt(Amount { bits: 0 }) {
            Move::Down
        } else {
            Move::Flat
        },
    }
}

/// Which way a change points: a new bucket is none of them.
pub fn direction(change: Option<Amount>) -> (res: Move)
    ensures
        res == move_of(change),
{
    match change {
        None => Move::New,
        Some(ratio) => if Amount::zero().less_than(ratio) {
            Move::Up
        } else if ratio.less_than(Amount::zero()) {
            Move::Down
        } else {
            Move::Flat
        },
    }
}

/// What the tooltip says of a change. `pct` is the change in percent.
pub fn change_line(change: Option<Amount>, pct: Amount) -> (res: String)
    ensures
        res@ == (match change {
            Some(_) => fmt::change_text(pct) + " vs last month"@,
            None => "New this period"@,
        }),
{
    match change {
        Some(_) => concat2(&fmt::change_pct(pct), " vs last month"),
        None => "New this period".to_owned(),
    }
}

// ==================== Tiles ====================

pub open spec fn tile_amounts(items: Seq<TreemapItem>) -> Seq<Amount> {
    items.map_values(|i: TreemapItem| i.amount)
}

/// Buckets, largest first.
pub open spec fn ranked_tiles(items: Seq<TreemapItem>) -> Seq<TreemapItem> {
    ranked::sorted_by_amount(items, tile_amounts(items))
}

/// The buckets with a tile of their own, and the rest.
#[derive(Debug)]
pub struct TileSplit {
    pub top: Vec<TreemapItem>,
    pub tail: Vec<TreemapItem>,
}

/// Split the buckets: the `cap` largest keep a tile of their own, largest first.
pub fn split_tiles(items: Vec<TreemapItem>, cap: usize) -> (res: TileSplit)
    ensures
        res.top@ == ranked::first(ranked_tiles(items@), cap as nat),
        res.top@ + res.tail@ == ranked_tiles(items@),
{
    let mut amounts: Vec<Amount> = Vec::new();
    let mut i: usize = 0;
    while i < items.len()
        invariant
            i <= items.len(),
            amounts@ == tile_amounts(items@).take(i as int),
        decreases items.len() - i,
    {
        amounts.push(items[i].amount);
        i = i + 1;
        proof {
            assert(amounts@ =~= tile_amounts(items@).take(i as int));
        }
    }
    proof {
        assert(amounts@ =~= tile_amounts(items@));
    }
    let mut top = sort_by_amount(items, &amounts);
    let ghost all = top@;
    if top.len() <= cap {
        proof {
            assert(all + Seq::<TreemapItem>::empty() =~= all);
        }
        return TileSplit { top, tail: Vec::new() };
    }
    let tail = top.split_off(cap);
    proof {
        assert(top@ + tail@ =~= all);
    }
    TileSplit { top, tail }
}

/// No bucket is lost in the split, and none is in it twice.
pub proof fn every_bucket_has_a_tile(items: Seq<TreemapItem>, split: TileSplit)
    requires
        split.top@ + split.tail@ == ranked_tiles(items),
    ensures
        (split.top@ + split.tail@).to_multiset() == items.to_multiset(),
        split.top@.len() + split.tail@.len() == items.len(),
{
    let keys = crate::amount::ranks_of(tile_amounts(items));
    order::ranked_items_are_the_items(items, keys);
    order::ranking_is_stable_and_complete(keys);
}

/// The tile that the rest folds into.
pub open spec fn is_fold(tile: TreemapItem, count: nat, amount: Amount, previous: Amount) -> bool {
    &&& tile.label@ == text::decimal(count) + " more"@
    &&& tile.amount == amount
    &&& tile.previous == previous
}

/// The tiles of the map: the largest buckets, and one tile for the rest where
/// there is a rest. `amount` and `previous` are what the rest adds up to in
/// either period, so that its move is as honest as a bucket's own.
pub fn top_tiles(split: TileSplit, amount: Amount, previous: Amount) -> (res: Vec<TreemapItem>)
    ensures
        split.tail@.len() == 0 ==> res@ == split.top@,
        split.tail@.len() > 0 ==> {
            &&& res@.len() == split.top@.len() + 1
            &&& res@.drop_last() == split.top@
            &&& is_fold(res@.last(), split.tail@.len(), amount, previous)
        },
{
    let mut tiles = split.top;
    let count = split.tail.len();
    if count > 0 {
        let ghost top = tiles@;
        let label = concat2(&decimal_text(count as u64), " more");
        tiles.push(TreemapItem::new(label, amount, previous));
        proof {
            assert(tiles@.drop_last() =~= top);
        }
    }
    tiles
}

// ==================== Under the mouse ====================

/// Two indices are the same, or both are none.
fn same_index(a: Option<usize>, b: Option<usize>) -> (res: bool)
    ensures
        res == (a == b),
{
    match (a, b) {
        (Some(i), Some(k)) => i == k,
        (None, None) => true,
        _ => false,
    }
}

/// Which point of a chart the mouse is on. It is let go whenever the data is
/// loaded anew: an old index would tag another point.
#[derive(Clone, Copy, PartialEq, Eq, Structural, Debug)]
pub struct ChartHover {
    /// The point under the mouse, if any.
    pub index: Option<usize>,
}

/// The distance at a position is the first of the smallest.
pub open spec fn is_nearest(distances: Seq<Amount>, at: int) -> bool {
    &&& 0 <= at < distances.len()
    &&& forall|k: int|
        0 <= k < distances.len() ==> distances[at].rank() <= (#[trigger] distances[k]).rank()
    &&& forall|k: int| 0 <= k < at ==> distances[at].rank() < (#[trigger] distances[k]).rank()
}

impl ChartHover {
    /// On no point.
    pub fn new() -> (res: ChartHover)
        ensures
            res.index is None,
    {
        ChartHover { index: None }
    }

    /// Let the point go.
    pub fn clear(&mut self)
        ensures
            final(self).index is None,
    {
        self.index = None;
    }

    /// The point under the mouse.
    pub fn index(&self) -> (res: Option<usize>)
        ensures
            res == self.index,
    {
        self.index
    }

    /// Put the mouse on a point, or on none.
    pub fn set(&mut self, index: Option<usize>)
        ensures
            final(self).index == index,
    {
        self.index = index;
    }

    /// Where the mouse is once it moved to a point; a chart without points lets
    /// it stay.
    pub open spec fn moved_to(self, nearest: Option<usize>) -> ChartHover {
        if nearest is Some {
            ChartHover { index: nearest }
        } else {
            self
        }
    }

    /// Follow the mouse to a point; whether it is another one.
    pub fn follow(&mut self, nearest: Option<usize>) -> (res: bool)
        ensures
            res == (nearest is Some && nearest != old(self).index),
            *final(self) == old(self).moved_to(nearest),
    {
        let changes: bool = nearest.is_some() && !same_index(nearest, self.index);
        if changes {
            self.set(nearest);
        }
        changes
    }

    /// The point nearest to the mouse, by the distance of each; the first of
    /// several.
    pub fn nearest(distances: &Vec<Amount>) -> (res: Option<usize>)
        ensures
            res is None <==> distances@.len() == 0,
            res is Some ==> is_nearest(distances@, res->0 as int),
    {
        if distances.len() == 0 {
            return None;
        }
        let mut at: usize = 0;
        let mut i: usize = 1;
        while i < distances.len()
            invariant
                1 <= i <= distances.len(),
                is_nearest(distances@.take(i as int), at as int),
            decreases distances.len() - i,
        {
            proof {
                assert(forall|k: int|
                    0 <= k < i ==> distances@.take(i as int)[k] == #[trigger] distances@[k]);
                assert(forall|k: int|
                    0 <= k < i + 1 ==> distances@.take(i + 1)[k] == #[trigger] distances@[k]);
                assert(distances@.take(i as int)[at as int] == distances@[at as int]);
            }
            if distances[i].total_rank() < distances[at].total_rank() {
                proof {
                    let shorter = distances@.take(i as int);
                    assert forall|k: int| 0 <= k < i implies distances@[i as int].rank() < (
                    #[trigger] distances@[k]).rank() by {
                        assert(shorter[at as int].rank() <= shorter[k].rank());
                    }
                }
                at = i;
            } else {
                proof {
                    let shorter = distances@.take(i as int);
                    let longer = distances@.take(i + 1);
                    assert forall|k: int| 0 <= k < longer.len() implies longer[at as int].rank()
                        <= (#[trigger] longer[k]).rank() by {
                        if k < i {
                            assert(shorter[at as int].rank() <= shorter[k].rank());
                        }
                    }
                    assert forall|k: int| 0 <= k < at implies longer[at as int].rank() < (
                    #[trigger] longer[k]).rank() by {
                        assert(shorter[at as int].rank() < shorter[k].rank());
                    }
                }
            }
            i = i + 1;
        }
        proof {
            assert(distances@.take(i as int) =~= distances@);
        }
        Some(at)
    }
}

/// Which tile of the map the mouse is on. It is let go whenever the tiles change.
#[derive(Clone, Copy, PartialEq, Eq, Structural, Debug)]
pub struct TreemapHover {
    /// The tile under the mouse, if any.
    pub index: Option<usize>,
}

impl TreemapHover {
    /// On no tile.
    pub fn new() -> (res: TreemapHover)
        ensures
            res.index is None,
    {
        TreemapHover { index: None }
    }

    /// Let the tile go.
    pub fn clear(&mut self)
        ensures
            final(self).index is None,
    {
        self.index = None;
    }

    /// The tile under the mouse.
    pub fn index(&self) -> (res: Option<usize>)
        ensures
            res == self.index,
    {
        self.index
    }

    /// Put the mouse on a tile, or on none.
    pub fn set(&mut self, index: Option<usize>)
        ensures
            final(self).index == index,
    {
        self.index = index;
    }

    /// Follow the mouse to a tile, or off the tiles; whether that is a change.
    pub fn follow(&mut self, hit: Option<usize>) -> (res: bool)
        ensures
            res == (hit != old(self).index),
            final(self).index == hit,
    {
        let changes: bool = !same_index(hit, self.index);
        if changes {
            self.set(hit);
        }
        changes
    }
}

} // verus!
