//! The rows of a breakdown, and the cards of the attribution page that list
//! amounts.
use vstd::prelude::*;

use super::attribution;
use super::attribution::{
    resource_label, unallocated_label, unallocated_title, BreakdownMode, DrillDim, DrilldownData,
};
use super::data;
use super::data::attribution::{usage_share, UnallocatedCardData, UnallocatedItem};
use super::fmt;
use crate::amount::Amount;
use crate::cloud;
use crate::model::TopResource;
use crate::text::same_text;

verus! {

/// One row of a breakdown.
#[derive(Debug)]
pub struct DrillCells {
    pub label: String,
    pub amount: String,
    /// The share of the whole, out of one.
    pub share: Amount,
    /// Charges without a value for the dimension read muted.
    pub muted: bool,
}

/// Some bucket holds the charges without a value.
pub open spec fn has_other(rows: Seq<(String, Amount)>) -> bool {
    exists|i: int| 0 <= i < rows.len() && (#[trigger] rows[i]).0@ == "Other"@
}

pub open spec fn is_drill_cells(
    cells: DrillCells,
    row: (String, Amount),
    total: Amount,
    share: Amount,
    currency: Seq<char>,
) -> bool {
    &&& cells.label@ == row.0@
    &&& cells.amount@ == fmt::amount_text(row.1, currency)
    &&& cells.share == data::attribution::share_of(total, share)
    &&& cells.muted == (row.0@ == "Other"@)
}

/// Rows show buckets, each with its share.
pub open spec fn are_drill_cells(
    cells: Seq<DrillCells>,
    rows: Seq<(String, Amount)>,
    total: Amount,
    shares: Seq<Amount>,
    currency: Seq<char>,
) -> bool {
    &&& cells.len() == rows.len()
    &&& forall|i: int|
        #![trigger cells[i]]
        0 <= i < cells.len() ==> is_drill_cells(cells[i], rows[i], total, shares[i], currency)
}

/// The rows of a breakdown, and whether one of them holds the charges without a
/// value. `total` is what the buckets add up to, `shares` what each is of it,
/// read only where the total is above zero.
pub fn drill_rows(
    buckets: &Vec<(String, Amount)>,
    total: Amount,
    shares: &Vec<Amount>,
    currency: &str,
) -> (res: (Vec<DrillCells>, bool))
    requires
        shares@.len() == buckets@.len(),
    ensures
        are_drill_cells(res.0@, buckets@, total, shares@, currency@),
        res.1 == has_other(buckets@),
{
    let mut rows: Vec<DrillCells> = Vec::new();
    let mut other: bool = false;
    let mut i: usize = 0;
    while i < buckets.len()
        invariant
            i <= buckets.len(),
            shares@.len() == buckets@.len(),
            rows@.len() == i,
            forall|k: int|
                #![trigger rows@[k]]
                0 <= k < i ==> is_drill_cells(rows@[k], buckets@[k], total, shares@[k], currency@),
            other ==> has_other(buckets@),
            !other ==> forall|k: int| 0 <= k < i ==> (#[trigger] buckets@[k]).0@ != "Other"@,
        decreases buckets.len() - i,
    {
        let muted = same_text(&buckets[i].0, "Other");
        if muted {
            proof {
                assert(buckets@[i as int].0@ == "Other"@);
            }
            other = true;
        }
        rows.push(
            DrillCells {
                label: buckets[i].0.clone(),
                amount: fmt::amount(buckets[i].1, currency),
                share: usage_share(total, shares[i]),
                muted,
            },
        );
        i = i + 1;
    }
    (rows, other)
}

// ==================== The breakdown card ====================

/// The card of the attribution page that breaks a dimension down.
#[derive(Debug)]
pub struct BreakdownCard {
    pub title: &'static str,
    /// The ways to show it, and which is chosen.
    pub modes: Vec<(BreakdownMode, bool)>,
    /// What is said where there is nothing to show.
    pub empty_note: Option<&'static str>,
    pub bucket_header: &'static str,
    /// The rows of the table; the map has tiles instead.
    pub rows: Vec<DrillCells>,
    pub footnote: Option<&'static str>,
}

impl DrilldownData {
    /// The card in a dimension. `total` is what the buckets add up to, `shares`
    /// what each is of it.
    pub fn card(
        &self,
        dim: DrillDim,
        mode: BreakdownMode,
        total: Amount,
        shares: &Vec<Amount>,
        currency: &str,
    ) -> (res: BreakdownCard)
        requires
            shares@.len() == self.in_dim(dim).len(),
        ensures
            res.title@ == dim.labels().title,
            res.modes@ == seq![
                (BreakdownMode::HeatMap, mode == BreakdownMode::HeatMap),
                (BreakdownMode::Table, mode == BreakdownMode::Table),
            ],
            cloud::label_view(res.empty_note) == (if self.in_dim(dim).len() == 0 {
                Some("No usage in this period."@)
            } else {
                None
            }),
            res.bucket_header@ == dim.labels().bucket_header,
            mode == BreakdownMode::HeatMap ==> res.rows@.len() == 0 && res.footnote is None,
            mode == BreakdownMode::Table ==> {
                &&& are_drill_cells(res.rows@, self.in_dim(dim), total, shares@, currency@)
                &&& cloud::label_view(res.footnote) == (if has_other(self.in_dim(dim)) {
                    Some(dim.labels().other_caption)
                } else {
                    None
                })
            },
    {
        let mut modes: Vec<(BreakdownMode, bool)> = Vec::new();
        modes.push((BreakdownMode::HeatMap, mode == BreakdownMode::HeatMap));
        modes.push((BreakdownMode::Table, mode == BreakdownMode::Table));
        let none: Vec<(String, Amount)> = Vec::new();
        let buckets = match dim {
            DrillDim::Tag => &none,
            DrillDim::Service => &self.by_service,
            DrillDim::Region => &self.by_region,
            DrillDim::ServiceCategory => &self.by_category,
        };
        proof {
            assert(buckets@ =~= self.in_dim(dim));
        }
        let empty_note = if buckets.len() == 0 {
            Some("No usage in this period.")
        } else {
            None
        };
        let (rows, footnote) = match mode {
            BreakdownMode::HeatMap => (Vec::new(), None),
            BreakdownMode::Table => {
                let (rows, other) = drill_rows(buckets, total, shares, currency);
                (
                    rows,
                    if other {
                        Some(dim.other_caption())
                    } else {
                        None
                    },
                )
            },
        };
        BreakdownCard {
            title: dim.title(),
            modes,
            empty_note,
            bucket_header: dim.bucket_header(),
            rows,
            footnote,
        }
    }
}

// ==================== The other cards ====================

/// The card of what reaches no business line, as text.
#[derive(Debug)]
pub struct UnallocatedCells {
    pub title: String,
    /// What is said where every charge reached one.
    pub note: Option<&'static str>,
    pub rows: Vec<(String, String)>,
    pub action: String,
}

/// A row is a service without a business line, and what it used.
pub open spec fn is_unallocated_row(
    row: (String, String),
    item: UnallocatedItem,
    currency: Seq<char>,
) -> bool {
    row.0@ == attribution::item_label(item) && row.1@ == fmt::amount_text(item.amount, currency)
}

/// The card of what reaches no business line, as text.
pub fn unallocated_cells(card: &UnallocatedCardData, currency: &str) -> (res: UnallocatedCells)
    ensures
        res.title@ == "Unallocated · "@ + fmt::amount_text(card.amount, currency@) + " ("@
            + fmt::share_text(card.pct) + ")"@,
        cloud::label_view(res.note) == (if card.largest@.len() == 0 {
            Some("Every charge this period reached a business line."@)
        } else {
            None
        }),
        res.rows@.len() == card.largest@.len(),
        forall|i: int|
            #![trigger res.rows@[i]]
            0 <= i < res.rows@.len() ==> is_unallocated_row(
                res.rows@[i],
                card.largest@[i],
                currency@,
            ),
        res.action@ == card.action@,
{
    let mut rows: Vec<(String, String)> = Vec::new();
    let mut i: usize = 0;
    while i < card.largest.len()
        invariant
            i <= card.largest.len(),
            rows@.len() == i,
            forall|k: int|
                #![trigger rows@[k]]
                0 <= k < i ==> is_unallocated_row(rows@[k], card.largest@[k], currency@),
        decreases card.largest.len() - i,
    {
        let item = &card.largest[i];
        rows.push((unallocated_label(item), fmt::amount(item.amount, currency)));
        i = i + 1;
    }
    let note = if card.largest.len() == 0 {
        Some("Every charge this period reached a business line.")
    } else {
        None
    };
    UnallocatedCells {
        title: unallocated_title(card, currency),
        note,
        rows,
        action: card.action.clone(),
    }
}

/// A row of the costliest resources.
#[derive(Debug)]
pub struct ResourceCells {
    pub name: String,
    pub service: String,
    pub amount: String,
}

pub open spec fn is_resource_cells(
    cells: ResourceCells,
    resource: TopResource,
    currency: Seq<char>,
) -> bool {
    &&& cells.name@ == (match resource.resource_name {
        Some(name) => name@,
        None => resource.resource_id@,
    })
    &&& cells.service@ == resource.service@
    &&& cells.amount@ == fmt::amount_text(resource.amount, currency)
}

/// The rows of the costliest resources.
pub fn resource_rows(resources: &Vec<TopResource>, currency: &str) -> (res: Vec<ResourceCells>)
    ensures
        res@.len() == resources@.len(),
        forall|i: int|
            #![trigger res@[i]]
            0 <= i < res@.len() ==> is_resource_cells(res@[i], resources@[i], currency@),
{
    let mut rows: Vec<ResourceCells> = Vec::new();
    let mut i: usize = 0;
    while i < resources.len()
        invariant
            i <= resources.len(),
            rows@.len() == i,
            forall|k: int|
                #![trigger rows@[k]]
                0 <= k < i ==> is_resource_cells(rows@[k], resources@[k], currency@),
        decreases resources.len() - i,
    {
        let resource = &resources[i];
        rows.push(
            ResourceCells {
                name: resource_label(resource),
                service: resource.service.clone(),
                amount: fmt::amount(resource.amount, currency),
            },
        );
        i = i + 1;
    }
    rows
}

/// What is said where no resource can be ranked.
pub fn resources_note() -> (res: &'static str)
    ensures
        res@
            == "No resource-level usage this period — charges without a resource id cannot be ranked."@,
{
    "No resource-level usage this period — charges without a resource id cannot be ranked."
}

} // verus!
