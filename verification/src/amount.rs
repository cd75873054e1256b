//! Amounts of money.
//!
//! An amount is an IEEE 754 double, held by its bit pattern: the ledger reads,
//! compares, ranks, rounds and prints amounts, and every one of those is a
//! question about the pattern. Adding and multiplying them is the caller's;
//! the ledger says which amounts go into a sum, and in what order.
use vstd::prelude::*;

use crate::order;
use crate::order::rank_descending;

verus! {

/// The sign bit of the pattern.
pub const SIGN: u64 = 0x8000_0000_0000_0000;

/// The pattern of positive infinity; every larger magnitude is no number.
pub const INFINITY: u64 = 0x7FF0_0000_0000_0000;

/// The pattern of the largest finite number.
pub const LARGEST: u64 = 0x7FEF_FFFF_FFFF_FFFF;

/// The pattern of `0.005`: below it an amount is netting round-off.
pub const HALF_CENT: u64 = 0x3F74_7AE1_47AE_147B;

/// The pattern of `0.01`, one cent.
pub const CENT: u64 = 0x3F84_7AE1_47AE_147B;

/// The pattern of `1.0`.
pub const ONE: u64 = 0x3FF0_0000_0000_0000;

/// The pattern of `100.0`.
pub const HUNDRED: u64 = 0x4059_0000_0000_0000;

/// The pattern of `-100.0`.
pub const MINUS_HUNDRED: u64 = 0xC059_0000_0000_0000;

/// An amount, by the bit pattern of the double it is. `==` compares patterns;
/// [`Amount::lt`] and its kin compare the numbers.
#[derive(Clone, Copy, PartialEq, Eq, Structural, Debug)]
pub struct Amount {
    pub bits: u64,
}

impl Amount {
    /// The pattern without its sign.
    pub open spec fn magnitude(self) -> int {
        if self.bits >= SIGN {
            self.bits - SIGN
        } else {
            self.bits as int
        }
    }

    pub open spec fn is_negative(self) -> bool {
        self.bits >= SIGN
    }

    pub open spec fn is_nan(self) -> bool {
        self.magnitude() > INFINITY
    }

    /// Where a number stands among the numbers; both zeros stand at 0.
    pub open spec fn ordinal(self) -> int {
        if self.is_negative() {
            -self.magnitude()
        } else {
            self.magnitude()
        }
    }

    /// `self < other`, as numbers: nothing compares with what is no number.
    pub open spec fn lt(self, other: Amount) -> bool {
        !self.is_nan() && !other.is_nan() && self.ordinal() < other.ordinal()
    }

    /// `self <= other`, as numbers.
    pub open spec fn le(self, other: Amount) -> bool {
        !self.is_nan() && !other.is_nan() && self.ordinal() <= other.ordinal()
    }

    /// `self > 0.0`.
    pub open spec fn is_positive(self) -> bool {
        !self.is_negative() && 0 < self.magnitude() <= INFINITY
    }

    /// `self >= 0.01`: a base that a percentage may be taken of.
    pub open spec fn is_base(self) -> bool {
        !self.is_negative() && CENT <= self.magnitude() <= INFINITY
    }

    /// The place of an amount in the total order of all patterns, in which a
    /// negative zero precedes a positive one and what is no number stands at
    /// the ends.
    pub open spec fn rank(self) -> int {
        if self.is_negative() {
            -1 - self.magnitude()
        } else {
            self.magnitude()
        }
    }

    /// The amount without its sign.
    pub open spec fn unsigned(self) -> Amount {
        Amount { bits: self.magnitude() as u64 }
    }

    /// The amount as a number is positive exactly when zero is less than it.
    pub proof fn positive_is_above_zero(self)
        ensures
            self.is_positive() <==> (Amount { bits: 0 }).lt(self),
            self.is_base() <==> (Amount { bits: CENT }).le(self),
    {
    }

    /// The total order agrees with the order of numbers, and tells apart every
    /// two patterns.
    pub proof fn rank_orders_numbers(self, other: Amount)
        ensures
            self.lt(other) ==> self.rank() < other.rank(),
            self.rank() == other.rank() <==> self == other,
    {
    }

    pub fn zero() -> (res: Amount)
        ensures
            res.bits == 0,
    {
        Amount { bits: 0 }
    }

    pub fn positive(self) -> (res: bool)
        ensures
            res == self.is_positive(),
    {
        0 < self.bits && self.bits <= INFINITY
    }

    /// Whether a percentage may be taken of this amount: a ratio to less than
    /// a cent is noise.
    pub fn meaningful_base(self) -> (res: bool)
        ensures
            res == self.is_base(),
    {
        CENT <= self.bits && self.bits <= INFINITY
    }

    pub fn negative(self) -> (res: bool)
        ensures
            res == self.is_negative(),
    {
        self.bits >= SIGN
    }

    pub fn nan(self) -> (res: bool)
        ensures
            res == self.is_nan(),
    {
        self.abs().bits > INFINITY
    }

    pub fn abs(self) -> (res: Amount)
        ensures
            res == self.unsigned(),
            res.bits == self.magnitude(),
    {
        if self.bits >= SIGN {
            Amount { bits: self.bits - SIGN }
        } else {
            self
        }
    }

    pub fn total_rank(self) -> (res: i128)
        ensures
            res == self.rank(),
    {
        if self.bits >= SIGN {
            -1i128 - (self.bits - SIGN) as i128
        } else {
            self.bits as i128
        }
    }

    pub fn less_than(self, other: Amount) -> (res: bool)
        ensures
            res == self.lt(other),
    {
        if self.nan() || other.nan() {
            return false;
        }
        let a: i128 = if self.bits >= SIGN {
            -((self.bits - SIGN) as i128)
        } else {
            self.bits as i128
        };
        let b: i128 = if other.bits >= SIGN {
            -((other.bits - SIGN) as i128)
        } else {
            other.bits as i128
        };
        a < b
    }

    pub fn at_most(self, other: Amount) -> (res: bool)
        ensures
            res == self.le(other),
    {
        if self.nan() || other.nan() {
            return false;
        }
        !other.less_than(self)
    }

    /// The larger of two amounts; what is no number yields to what is one.
    pub open spec fn max_of(self, other: Amount) -> Amount {
        if self.is_nan() {
            other
        } else if other.is_nan() || other.rank() <= self.rank() {
            self
        } else {
            other
        }
    }

    pub fn max(self, other: Amount) -> (res: Amount)
        ensures
            res == self.max_of(other),
    {
        if self.nan() {
            other
        } else if other.nan() || other.total_rank() <= self.total_rank() {
            self
        } else {
            other
        }
    }

    /// The smaller of two amounts; what is no number yields to what is one.
    pub open spec fn min_of(self, other: Amount) -> Amount {
        if self.is_nan() {
            other
        } else if other.is_nan() || self.rank() <= other.rank() {
            self
        } else {
            other
        }
    }

    pub fn min(self, other: Amount) -> (res: Amount)
        ensures
            res == self.min_of(other),
    {
        if self.nan() {
            other
        } else if other.nan() || self.total_rank() <= other.total_rank() {
            self
        } else {
            other
        }
    }
}

// ==================== Ranking by amount ====================

/// The total order's places of a list of amounts.
pub open spec fn ranks_of(amounts: Seq<Amount>) -> Seq<int> {
    amounts.map_values(|a: Amount| a.rank())
}

/// Positions of the amounts, largest first, equal amounts in the order they
/// stand in.
pub open spec fn largest_first(amounts: Seq<Amount>) -> Seq<int> {
    order::ranking(ranks_of(amounts))
}

/// Rank amounts, largest first.
pub fn rank_by_amount(amounts: &Vec<Amount>) -> (ranked: Vec<usize>)
    ensures
        order::position_ints(ranked@) == largest_first(amounts@),
        ranked@.len() == amounts@.len(),
        forall|i: int| 0 <= i < ranked@.len() ==> #[trigger] ranked@[i] < amounts@.len(),
        forall|i: int, j: int|
            0 <= i < j < ranked@.len() ==> #[trigger] ranked@[i] != #[trigger] ranked@[j],
{
    let mut keys: Vec<i128> = Vec::new();
    let mut i: usize = 0;
    while i < amounts.len()
        invariant
            i <= amounts.len(),
            keys@.len() == i,
            forall|j: int| 0 <= j < i ==> #[trigger] keys@[j] == amounts@[j].rank(),
        decreases amounts.len() - i,
    {
        keys.push(amounts[i].total_rank());
        i = i + 1;
    }
    let ranked = rank_descending(&keys);
    proof {
        assert(order::key_ints(keys@) =~= ranks_of(amounts@));
        order::lemma_ranked_positions(ranks_of(amounts@), ranked@);
    }
    ranked
}


/// Being the position of an amount above zero.
pub open spec fn positive_at(amounts: Seq<Amount>) -> spec_fn(int) -> bool {
    |p: int| amounts[p].is_positive()
}

/// Positions of the amounts above zero, largest first, equal amounts in the
/// order they stand in.
pub open spec fn positive_ranking(amounts: Seq<Amount>) -> Seq<int> {
    largest_first(amounts).filter(positive_at(amounts))
}

/// Rank the amounts above zero, largest first; the others are left out.
pub fn rank_positive(amounts: &Vec<Amount>) -> (res: Vec<usize>)
    ensures
        order::position_ints(res@) == positive_ranking(amounts@),
        forall|i: int| 0 <= i < res@.len() ==> #[trigger] res@[i] < amounts@.len(),
        forall|i: int, j: int|
            0 <= i < j < res@.len() ==> #[trigger] res@[i] != #[trigger] res@[j],
{
    let ranked = rank_by_amount(amounts);
    let ghost ints = order::position_ints(ranked@);
    let ghost keep = positive_at(amounts@);
    let mut res: Vec<usize> = Vec::new();
    let mut i: usize = 0;
    proof {
        reveal(Seq::filter);
        assert(ints.take(0) =~= Seq::empty());
        assert(order::position_ints(res@) =~= ints.take(0).filter(keep));
    }
    while i < ranked.len()
        invariant
            i <= ranked@.len(),
            ints == order::position_ints(ranked@),
            keep == positive_at(amounts@),
            forall|k: int| 0 <= k < ranked@.len() ==> #[trigger] ranked@[k] < amounts@.len(),
            forall|k: int, j: int|
                0 <= k < j < ranked@.len() ==> #[trigger] ranked@[k] != #[trigger] ranked@[j],
            order::position_ints(res@) == ints.take(i as int).filter(keep),
            forall|k: int|
                0 <= k < res@.len() ==> ranked@.take(i as int).contains(#[trigger] res@[k]),
            forall|k: int, j: int|
                0 <= k < j < res@.len() ==> #[trigger] res@[k] != #[trigger] res@[j],
        decreases ranked.len() - i,
    {
        let ghost before = res@;
        proof {
            reveal(Seq::filter);
            assert(ints.take(i + 1).drop_last() =~= ints.take(i as int));
            assert(ints.take(i + 1).last() == ranked@[i as int]);
        }
        if amounts[ranked[i]].positive() {
            proof {
                assert forall|k: int| 0 <= k < res@.len() implies #[trigger] res@[k]
                    != ranked@[i as int] by {
                    let seen = ranked@.take(i as int);
                    assert(seen.contains(res@[k]));
                    let j = choose|j: int| 0 <= j < seen.len() && seen[j] == res@[k];
                    assert(ranked@[j] == res@[k]);
                }
            }
            res.push(ranked[i]);
            proof {
                assert(order::position_ints(res@) =~= order::position_ints(before).push(
                    ranked@[i as int] as int,
                ));
            }
        }
        proof {
            assert forall|k: int| 0 <= k < res@.len() implies ranked@.take(i + 1).contains(
                #[trigger] res@[k],
            ) by {
                if k < before.len() {
                    let seen = ranked@.take(i as int);
                    assert(seen.contains(before[k]));
                    let j = choose|j: int| 0 <= j < seen.len() && seen[j] == before[k];
                    assert(ranked@.take(i + 1)[j] == res@[k]);
                } else {
                    assert(ranked@.take(i + 1)[i as int] == res@[k]);
                }
            }
        }
        i = i + 1;
    }
    proof {
        assert(ints.take(i as int) =~= ints);
        assert forall|k: int| 0 <= k < res@.len() implies #[trigger] res@[k] < amounts@.len() by {
            let seen = ranked@.take(i as int);
            assert(seen.contains(res@[k]));
            let j = choose|j: int| 0 <= j < seen.len() && seen[j] == res@[k];
            assert(ranked@[j] == res@[k]);
        }
    }
    res
}

/// A ranking of the amounts above zero lists each of them once and no other,
/// and is ordered by descending amount.
pub proof fn positive_ranking_is_complete(amounts: Seq<Amount>)
    ensures
        forall|p: int|
            #![trigger positive_ranking(amounts).contains(p)]
            positive_ranking(amounts).contains(p) <==> 0 <= p < amounts.len()
                && amounts[p].is_positive(),
        forall|i: int, j: int|
            #![trigger positive_ranking(amounts)[i], positive_ranking(amounts)[j]]
            0 <= i < j < positive_ranking(amounts).len() ==> order::ranks_ahead(
                ranks_of(amounts),
                positive_ranking(amounts)[i],
                positive_ranking(amounts)[j],
            ),
{
    let ranks = ranks_of(amounts);
    order::ranking_is_stable_and_complete(ranks);
    let all = largest_first(amounts);
    let keep = positive_at(amounts);
    let kept = positive_ranking(amounts);
    assert forall|p: int|
        #![trigger kept.contains(p)]
        kept.contains(p) <==> 0 <= p < amounts.len() && amounts[p].is_positive() by {
        if kept.contains(p) {
            let i = choose|i: int| 0 <= i < kept.len() && kept[i] == p;
            all.lemma_filter_pred(keep, i);
            all.lemma_filter_contains_rev(keep, p);
        }
        if 0 <= p < amounts.len() && amounts[p].is_positive() {
            assert(all.contains(p));
            let i = choose|i: int| 0 <= i < all.len() && all[i] == p;
            all.lemma_filter_contains(keep, i);
        }
    }
    lemma_filter_keeps_rank_order(ranks, all, keep);
}

proof fn lemma_filter_keeps_rank_order(ranks: Seq<int>, all: Seq<int>, keep: spec_fn(int) -> bool)
    requires
        forall|i: int, j: int|
            0 <= i < j < all.len() ==> order::ranks_ahead(
                ranks,
                #[trigger] all[i],
                #[trigger] all[j],
            ),
    ensures
        forall|i: int, j: int|
            #![trigger all.filter(keep)[i], all.filter(keep)[j]]
            0 <= i < j < all.filter(keep).len() ==> order::ranks_ahead(
                ranks,
                all.filter(keep)[i],
                all.filter(keep)[j],
            ),
    decreases all.len(),
{
    reveal(Seq::filter);
    if all.len() > 0 {
        let fewer = all.drop_last();
        lemma_filter_keeps_rank_order(ranks, fewer, keep);
        let kept = all.filter(keep);
        if keep(all.last()) {
            let before = fewer.filter(keep);
            assert forall|i: int, j: int|
                #![trigger kept[i], kept[j]]
                0 <= i < j < kept.len() implies order::ranks_ahead(ranks, kept[i], kept[j]) by {
                if j == before.len() {
                    assert(before.contains(kept[i]));
                    fewer.lemma_filter_contains_rev(keep, kept[i]);
                    let k = choose|k: int| 0 <= k < fewer.len() && fewer[k] == kept[i];
                    assert(order::ranks_ahead(ranks, all[k], all[all.len() - 1]));
                } else {
                    assert(order::ranks_ahead(ranks, before[i], before[j]));
                }
            }
        } else {
            assert(kept == fewer.filter(keep));
        }
    }
}

} // verus!
