//! The overview page: what it loads, and what its cards say.
use vstd::prelude::*;

use super::chart::ChartHover;
use super::data::change::{
    CategoryDeltaRow, ChangeDecomposition, MonthOverMonth, MovementBadge, ServiceMonthComparison,
    ServiceMovementRow,
};
use super::data::overview::MoverRow;
use super::data::page::{BusinessLineRow, OverviewData};
use super::data::range::Range;
use super::fmt;
use crate::amount;
use crate::amount::Amount;
use crate::calendar::Timestamp;
use crate::error::Error;
use crate::memory::UNALLOCATED;
use crate::text;
use crate::text::{concat2, concat3, decimal_text, same_text};

verus! {

/// The page.
#[derive(Debug)]
pub struct OverviewView {
    /// The selected range.
    pub range: Range,
    /// What was loaded; `None` until the first load lands.
    pub data: Option<OverviewData>,
    /// A load is in flight.
    pub loading: bool,
    /// A refresh is in flight.
    pub refreshing: bool,
    /// The last failure, shown under the header.
    pub error: Option<String>,
    /// When the page was opened; what the header says before the first load.
    pub opened_at: Timestamp,
    /// Grows with every load and refresh: only the latest may write its result.
    pub generation: u64,
    /// The chart's point under the mouse.
    pub chart_hover: ChartHover,
}

/// What the page shows under its header.
#[derive(Clone, Copy, PartialEq, Eq, Structural, Debug)]
pub enum OverviewBody {
    Loading,
    Blank,
    /// Nothing was spent and nothing recorded.
    Empty,
    Cards,
}

impl OverviewView {
    /// A page on the month to date, its first load on the way.
    pub fn new(now: Timestamp) -> (res: OverviewView)
        ensures
            res.range == Range::Mtd,
            res.data is None,
            res.loading,
            !res.refreshing,
            res.error is None,
            res.opened_at == now,
            res.generation == 1,
            res.chart_hover.index is None,
    {
        OverviewView {
            range: Range::Mtd,
            data: None,
            loading: true,
            refreshing: false,
            error: None,
            opened_at: now,
            generation: 1,
            chart_hover: ChartHover::new(),
        }
    }

    /// Reload, unless a load is in flight; the generation of the load that
    /// starts. What is shown stays while it runs.
    pub fn reload(&mut self) -> (res: Option<u64>)
        requires
            old(self).generation < u64::MAX,
        ensures
            res is Some <==> !old(self).loading,
            res is None ==> *final(self) == *old(self),
            res is Some ==> load_started(*final(self), *old(self)) && res->0
                == final(self).generation,
    {
        if self.loading {
            return None;
        }
        Some(self.load())
    }

    /// A load starts; its generation. The point under the mouse is let go: new
    /// data may shift the points.
    pub fn load(&mut self) -> (res: u64)
        requires
            old(self).generation < u64::MAX,
        ensures
            load_started(*final(self), *old(self)),
            res == final(self).generation,
    {
        self.loading = true;
        self.error = None;
        self.generation = self.generation + 1;
        self.chart_hover.clear();
        self.generation
    }

    /// A load came back. A range switch or a refresh that started since wins
    /// over its result.
    pub fn loaded(&mut self, generation: u64, result: Result<OverviewData, Error>)
        ensures
            !final(self).loading,
            final(self).range == old(self).range,
            final(self).refreshing == old(self).refreshing,
            final(self).opened_at == old(self).opened_at,
            final(self).generation == old(self).generation,
            final(self).chart_hover == old(self).chart_hover,
            generation != old(self).generation ==> final(self).data == old(self).data
                && final(self).error == old(self).error,
            generation == old(self).generation ==> match result {
                Ok(data) => final(self).data == Some(data) && final(self).error is None,
                Err(e) => {
                    &&& final(self).data == old(self).data
                    &&& final(self).error is Some
                    &&& final(self).error->0@ == "Could not load the overview: "@ + e.message@
                },
            },
    {
        self.loading = false;
        if self.generation == generation {
            match result {
                Ok(data) => {
                    self.data = Some(data);
                    self.error = None;
                },
                Err(e) => {
                    self.error = Some(concat2("Could not load the overview: ", &e.message));
                },
            }
        }
    }

    /// Select a range; the generation of the load that another range starts.
    pub fn select_range(&mut self, range: Range) -> (res: Option<u64>)
        requires
            old(self).generation < u64::MAX,
        ensures
            res is Some <==> range != old(self).range,
            res is None ==> *final(self) == *old(self),
            res is Some ==> {
                &&& final(self).range == range
                &&& load_started(
                    (OverviewView { range: old(self).range, ..*final(self) }),
                    *old(self),
                )
                &&& res->0 == final(self).generation
            },
    {
        if self.range == range {
            return None;
        }
        self.range = range;
        Some(self.load())
    }

    /// Refresh every account, unless a refresh is in flight; its generation.
    pub fn refresh(&mut self) -> (res: Option<u64>)
        requires
            old(self).generation < u64::MAX,
        ensures
            res is Some <==> !old(self).refreshing,
            res is None ==> *final(self) == *old(self),
            res is Some ==> {
                &&& final(self).refreshing
                &&& final(self).error is None
                &&& final(self).generation == old(self).generation + 1
                &&& res->0 == final(self).generation
                &&& final(self).range == old(self).range
                &&& final(self).data == old(self).data
                &&& final(self).loading == old(self).loading
                &&& final(self).opened_at == old(self).opened_at
                &&& final(self).chart_hover == old(self).chart_hover
            },
    {
        if self.refreshing {
            return None;
        }
        self.refreshing = true;
        self.error = None;
        self.generation = self.generation + 1;
        Some(self.generation)
    }

    /// A refresh came back with the page and the accounts that failed. A range
    /// switch or a newer refresh wins over its result.
    pub fn refreshed(
        &mut self,
        generation: u64,
        result: Result<OverviewData, Error>,
        failures: &Vec<String>,
    )
        ensures
            !final(self).refreshing,
            final(self).range == old(self).range,
            final(self).loading == old(self).loading,
            final(self).opened_at == old(self).opened_at,
            final(self).generation == old(self).generation,
            final(self).chart_hover == old(self).chart_hover,
            generation != old(self).generation ==> final(self).data == old(self).data
                && final(self).error == old(self).error,
            generation == old(self).generation ==> match result {
                Ok(data) => {
                    &&& final(self).data == Some(data)
                    &&& failures@.len() == 0 ==> final(self).error is None
                    &&& failures@.len() > 0 ==> {
                        &&& final(self).error is Some
                        &&& final(self).error->0@ == "Some sources failed: "@ + text::joined(
                            text::texts(failures@),
                            "; "@,
                        )
                    }
                },
                Err(e) => {
                    &&& final(self).data == old(self).data
                    &&& final(self).error is Some
                    &&& final(self).error->0@ == "Refresh failed: "@ + e.message@
                },
            },
    {
        self.refreshing = false;
        if self.generation == generation {
            match result {
                Ok(data) => {
                    self.data = Some(data);
                    self.error = if failures.len() == 0 {
                        None
                    } else {
                        Some(concat2("Some sources failed: ", &text::join(failures, "; ")))
                    };
                },
                Err(e) => {
                    self.error = Some(concat2("Refresh failed: ", &e.message));
                },
            }
        }
    }

    /// The mouse moved over the chart, to a point or to none; whether the page
    /// shows it.
    pub fn hover(&mut self, nearest: Option<usize>) -> (res: bool)
        ensures
            res == (nearest is Some && nearest != old(self).chart_hover.index),
            *final(self) == (OverviewView {
                chart_hover: old(self).chart_hover.moved_to(nearest),
                ..*old(self)
            }),
    {
        self.chart_hover.follow(nearest)
    }

    /// What the page shows under its header.
    pub fn body(&self) -> (res: OverviewBody)
        ensures
            res == (match self.data {
                Some(data) => if is_empty_page(data) {
                    OverviewBody::Empty
                } else {
                    OverviewBody::Cards
                },
                None => if self.loading {
                    OverviewBody::Loading
                } else {
                    OverviewBody::Blank
                },
            }),
    {
        match &self.data {
            Some(data) => if is_empty(data) {
                OverviewBody::Empty
            } else {
                OverviewBody::Cards
            },
            None => if self.loading {
                OverviewBody::Loading
            } else {
                OverviewBody::Blank
            },
        }
    }

    /// The header's caption: the range and the currency amounts are in.
    /// `currency` is what is reported in before anything was loaded.
    pub fn header_caption(&self, currency: &str) -> (res: String)
        requires
            self.opened_at.valid(),
        ensures
            res@ == (match self.data {
                Some(data) => data.window_caption@ + " · reported in "@ + data.currency@,
                None => self.range.caption(self.opened_at) + " · reported in "@ + currency@,
            }),
    {
        match &self.data {
            Some(data) => concat3(&data.window_caption, " · reported in ", &data.currency),
            None => concat3(
                &self.range.header_caption(self.opened_at),
                " · reported in ",
                currency,
            ),
        }
    }

    /// The labels of the two refresh buttons; both are disabled while a refresh
    /// runs.
    pub fn refresh_labels(&self) -> (res: (&'static str, &'static str))
        ensures
            self.refreshing ==> res.0@ == "Refreshing…"@ && res.1@ == "Refreshing…"@,
            !self.refreshing ==> res.0@ == "Refresh"@ && res.1@ == "Force refresh"@,
    {
        if self.refreshing {
            ("Refreshing…", "Refreshing…")
        } else {
            ("Refresh", "Force refresh")
        }
    }
}

/// A load starts: what is shown stays, the banner goes.
pub open spec fn load_started(after: OverviewView, before: OverviewView) -> bool {
    &&& after.loading
    &&& after.error is None
    &&& after.generation == before.generation + 1
    &&& after.chart_hover.index is None
    &&& after.range == before.range
    &&& after.data == before.data
    &&& after.refreshing == before.refreshing
    &&& after.opened_at == before.opened_at
}

/// How one account's refresh failed.
pub fn failure_line(account: &str, e: &Error) -> (res: String)
    ensures
        res@ == account@ + ": "@ + e.message@,
{
    concat3(account, ": ", &e.message)
}

/// Nothing was spent and nothing recorded in the window.
pub open spec fn is_empty_page(data: OverviewData) -> bool {
    &&& data.stats.spend.magnitude() == 0
    &&& data.chart.actual@.len() == 0
    &&& data.business_lines@.len() == 0
}

/// Nothing was spent and nothing recorded in the window.
pub fn is_empty(data: &OverviewData) -> (res: bool)
    ensures
        res == is_empty_page(*data),
{
    data.stats.spend.abs().bits == 0 && data.chart.actual.len() == 0 && data.business_lines.len()
        == 0
}

// ==================== Stat cards ====================

/// A card with a number.
#[derive(Debug)]
pub struct StatCard {
    pub label: &'static str,
    pub value: String,
    pub caption: String,
    /// What stands behind the caption, set off from it.
    pub aside: Option<String>,
}

/// The four headline cards.
#[derive(Debug)]
pub struct StatCards {
    pub spend: StatCard,
    pub outlook: StatCard,
    pub unallocated: StatCard,
    pub alerts: StatCard,
    /// Whether the alerts card stands out.
    pub alerts_tinted: bool,
}

/// The four headline cards: the net number with the split into usage and
/// credits, the forecast or mean, what reaches no business line, and the open
/// alerts.
pub fn stat_cards(data: &OverviewData) -> (res: StatCards)
    ensures
        res.spend.label@ == data.spend_label@,
        res.spend.value@ == fmt::amount_text(data.stats.spend, data.currency@),
        res.spend.caption@ == "usage "@ + fmt::amount_text(data.stats.usage, data.currency@)
            + " · credits "@ + fmt::amount_text(data.stats.credits, data.currency@),
        match data.stats.change_pct {
            Some(pct) => res.spend.aside is Some && res.spend.aside->0@ == "· "@
                + fmt::change_text(pct) + " "@ + data.change_caption@,
            None => res.spend.aside is None,
        },
        res.outlook.label@ == data.card2_label@,
        res.outlook.value@ == fmt::amount_text(data.card2_value, data.currency@),
        res.outlook.caption@ == (match data.forecast_band {
            Some(band) => "range "@ + fmt::amount_text(band.pessimistic, data.currency@) + "–"@
                + fmt::amount_text(band.optimistic, data.currency@),
            None => data.card2_caption@,
        }),
        res.outlook.aside is None,
        res.unallocated.label@ == "UNALLOCATED"@,
        res.unallocated.value@ == fmt::share_text(data.stats.unallocated_pct),
        res.unallocated.caption@ == fmt::amount_text(
            data.stats.unallocated_amount,
            data.currency@,
        ) + " with no tag or metric match"@,
        res.unallocated.aside is None,
        res.alerts.label@ == "OPEN ALERTS"@,
        res.alerts.value@ == text::decimal(data.stats.open_alerts as nat),
        res.alerts.caption@ == text::decimal(data.stats.critical_alerts as nat) + " critical, "@
            + text::decimal(data.stats.warning_alerts as nat) + " warning →"@,
        res.alerts.aside is None,
        res.alerts_tinted == (data.stats.open_alerts > 0),
{
    let stats = &data.stats;
    let currency = &data.currency;
    let mut split = concat2("usage ", &fmt::amount(stats.usage, currency));
    split.append(" · credits ");
    split.append(&fmt::amount(stats.credits, currency));
    let aside = match stats.change_pct {
        Some(pct) => {
            let mut change = concat2("· ", &fmt::change_pct(pct));
            change.append(" ");
            change.append(data.change_caption);
            Some(change)
        },
        None => None,
    };
    let outlook_caption = match data.forecast_band {
        Some(band) => {
            let mut span = concat2("range ", &fmt::amount(band.pessimistic, currency));
            span.append("–");
            span.append(&fmt::amount(band.optimistic, currency));
            span
        },
        None => data.card2_caption.to_owned(),
    };
    let mut alerts_caption = decimal_text(stats.critical_alerts as u64);
    alerts_caption.append(" critical, ");
    alerts_caption.append(&decimal_text(stats.warning_alerts as u64));
    alerts_caption.append(" warning →");
    StatCards {
        spend: StatCard {
            label: data.spend_label,
            value: fmt::amount(stats.spend, currency),
            caption: split,
            aside,
        },
        outlook: StatCard {
            label: data.card2_label,
            value: fmt::amount(data.card2_value, currency),
            caption: outlook_caption,
            aside: None,
        },
        unallocated: StatCard {
            label: "UNALLOCATED",
            value: fmt::share_pct(stats.unallocated_pct),
            caption: concat2(
                &fmt::amount(stats.unallocated_amount, currency),
                " with no tag or metric match",
            ),
            aside: None,
        },
        alerts: StatCard {
            label: "OPEN ALERTS",
            value: decimal_text(stats.open_alerts as u64),
            caption: alerts_caption,
            aside: None,
        },
        alerts_tinted: stats.open_alerts > 0,
    }
}

// ==================== The chart and where it went ====================

/// How a bar of the "Where it went" card is coloured.
#[derive(Clone, Copy, PartialEq, Eq, Structural, Debug)]
pub enum LineTone {
    Grey,
    Accent,
    Olive,
}

/// The tone of a business line: grey without one, else alternating by position.
pub fn line_tone(name: &str, index: usize) -> (res: LineTone)
    ensures
        res == (if name@ == "Unallocated"@ {
            LineTone::Grey
        } else if index % 2 == 0 {
            LineTone::Accent
        } else {
            LineTone::Olive
        }),
{
    if same_text(name, "Unallocated") {
        LineTone::Grey
    } else if index % 2 == 0 {
        LineTone::Accent
    } else {
        LineTone::Olive
    }
}

/// One row of the "Where it went" card.
#[derive(Debug)]
pub struct LineCells {
    pub name: String,
    pub amount: String,
    pub tone: LineTone,
}

/// What stands around the chart, and the rows beside it.
#[derive(Debug)]
pub struct MiddleCards {
    pub chart_title: &'static str,
    /// The legend, in order.
    pub legend: Vec<&'static str>,
    /// The ends of the time axis, where the header does not say them.
    pub axis: Option<(String, String)>,
    pub caption: Option<&'static str>,
    pub lines: Vec<LineCells>,
    /// What a bar of full length stands for.
    pub bar_scale: Amount,
}

/// The largest amount of business lines, nothing where none is above nothing.
pub open spec fn largest_line(lines: Seq<BusinessLineRow>) -> Amount
    decreases lines.len(),
{
    if lines.len() == 0 {
        Amount { bits: 0 }
    } else {
        largest_line(lines.drop_last()).max_of(lines.last().amount)
    }
}

/// What a bar of full length stands for: the largest business line, and one where
/// none is larger.
pub open spec fn scale_of(lines: Seq<BusinessLineRow>) -> Amount {
    largest_line(lines).max_of(Amount { bits: amount::ONE })
}

proof fn lemma_largest_line(lines: Seq<BusinessLineRow>)
    ensures
        !largest_line(lines).is_nan(),
        (Amount { bits: 0 }).le(largest_line(lines)),
        forall|i: int|
            0 <= i < lines.len() && !(#[trigger] lines[i]).amount.is_nan() ==> lines[i].amount.le(
                largest_line(lines),
            ),
        largest_line(lines) == (Amount { bits: 0 }) || exists|i: int|
            0 <= i < lines.len() && (#[trigger] lines[i]).amount == largest_line(lines),
    decreases lines.len(),
{
    if lines.len() > 0 {
        let fewer = lines.drop_last();
        let last = lines.len() - 1;
        lemma_largest_line(fewer);
        assert forall|i: int|
            0 <= i < lines.len() && !(#[trigger] lines[i]).amount.is_nan() implies lines[
            i].amount.le(largest_line(lines)) by {
            if i < last {
                assert(fewer[i].amount.le(largest_line(fewer)));
            }
        }
        if largest_line(lines) == lines[last].amount {
        } else if largest_line(fewer) != (Amount { bits: 0 }) {
            let i = choose|i: int|
                0 <= i < fewer.len() && (#[trigger] fewer[i]).amount == largest_line(fewer);
            assert(lines[i].amount == largest_line(lines));
        }
    }
}

/// No bar is longer than full: every business line's amount is at most the scale.
/// The scale is one of the amounts, or one, and it is at least one.
pub proof fn the_scale_fits_every_line(lines: Seq<BusinessLineRow>)
    ensures
        (Amount { bits: amount::ONE }).le(scale_of(lines)),
        forall|i: int|
            0 <= i < lines.len() && !(#[trigger] lines[i]).amount.is_nan() ==> lines[i].amount.le(
                scale_of(lines),
            ),
        scale_of(lines) == (Amount { bits: amount::ONE }) || exists|i: int|
            0 <= i < lines.len() && (#[trigger] lines[i]).amount == scale_of(lines),
{
    lemma_largest_line(lines);
    assert forall|i: int|
        0 <= i < lines.len() && !(#[trigger] lines[i]).amount.is_nan() implies lines[i].amount.le(
        scale_of(lines),
    ) by {
        assert(lines[i].amount.le(largest_line(lines)));
    }
}

/// What a bar of full length stands for.
pub fn bar_scale(lines: &Vec<BusinessLineRow>) -> (res: Amount)
    ensures
        res == scale_of(lines@),
{
    let mut largest = Amount::zero();
    let mut i: usize = 0;
    proof {
        assert(lines@.take(0) =~= Seq::empty());
    }
    while i < lines.len()
        invariant
            i <= lines.len(),
            largest == largest_line(lines@.take(i as int)),
        decreases lines.len() - i,
    {
        proof {
            assert(lines@.take(i + 1).drop_last() =~= lines@.take(i as int));
            assert(lines@.take(i + 1).last() == lines@[i as int]);
        }
        largest = largest.max(lines[i].amount);
        i = i + 1;
    }
    proof {
        assert(lines@.take(i as int) =~= lines@);
    }
    largest.max(Amount { bits: amount::ONE })
}

pub open spec fn legend_of(data: OverviewData) -> Seq<Seq<char>> {
    seq!["Actual"@] + (if data.chart.baseline@.len() > 0 {
        seq!["7-day baseline"@]
    } else {
        Seq::empty()
    }) + (if data.chart_benchmark is Some {
        seq!["Typical day (6-mo avg)"@]
    } else {
        Seq::empty()
    })
}

/// `cells` show a business line.
pub open spec fn is_line_cells(
    cells: LineCells,
    row: BusinessLineRow,
    index: int,
    currency: Seq<char>,
) -> bool {
    &&& cells.name@ == row.name@
    &&& cells.amount@ == fmt::amount_text(row.amount, currency)
    &&& cells.tone == (if row.name@ == "Unallocated"@ {
        LineTone::Grey
    } else if index % 2 == 0 {
        LineTone::Accent
    } else {
        LineTone::Olive
    })
}

/// The chart's surroundings and the "Where it went" rows. A series that is not
/// drawn has no legend entry; the month to date needs no axis ends, for its
/// header says the month; and only the year's caption adds to the legend.
pub fn middle_cards(data: &OverviewData) -> (res: MiddleCards)
    ensures
        res.chart_title@ == data.chart_title@,
        res.legend@.map_values(|l: &'static str| l@) == legend_of(*data),
        data.range == Range::Mtd ==> res.axis is None,
        data.range != Range::Mtd ==> {
            let points = data.chart.actual@;
            &&& res.axis is Some
            &&& points.len() > 0 ==> res.axis == Some((points[0].label, points.last().label))
            &&& points.len() == 0 ==> axis_blank(res.axis->0)
        },
        data.range == Range::Months12 ==> res.caption is Some && res.caption->0@
            == data.chart_caption@,
        data.range != Range::Months12 ==> res.caption is None,
        res.bar_scale == scale_of(data.business_lines@),
        res.lines@.len() == data.business_lines@.len(),
        forall|i: int|
            #![trigger res.lines@[i]]
            0 <= i < res.lines@.len() ==> is_line_cells(
                res.lines@[i],
                data.business_lines@[i],
                i,
                data.currency@,
            ),
{
    let mut legend: Vec<&'static str> = Vec::new();
    legend.push("Actual");
    if data.chart.baseline.len() > 0 {
        legend.push("7-day baseline");
    }
    if data.chart_benchmark.is_some() {
        legend.push("Typical day (6-mo avg)");
    }
    proof {
        assert(legend@.map_values(|l: &'static str| l@) =~= legend_of(*data));
    }
    let points = &data.chart.actual;
    let axis = match data.range {
        Range::Mtd => None,
        _ => if points.len() > 0 {
            Some((points[0].label.clone(), points[points.len() - 1].label.clone()))
        } else {
            Some((String::new(), String::new()))
        },
    };
    let caption = match data.range {
        Range::Months12 => Some(data.chart_caption),
        _ => None,
    };
    let mut lines: Vec<LineCells> = Vec::new();
    let mut i: usize = 0;
    while i < data.business_lines.len()
        invariant
            i <= data.business_lines.len(),
            lines@.len() == i,
            forall|k: int|
                #![trigger lines@[k]]
                0 <= k < i ==> is_line_cells(
                    lines@[k],
                    data.business_lines@[k],
                    k,
                    data.currency@,
                ),
        decreases data.business_lines.len() - i,
    {
        let row = &data.business_lines[i];
        lines.push(
            LineCells {
                name: row.name.clone(),
                amount: fmt::amount(row.amount, &data.currency),
                tone: line_tone(&row.name, i),
            },
        );
        i = i + 1;
    }
    MiddleCards {
        chart_title: data.chart_title,
        legend,
        axis,
        caption,
        lines,
        bar_scale: bar_scale(&data.business_lines),
    }
}

pub open spec fn axis_blank(axis: (String, String)) -> bool {
    axis.0@.len() == 0 && axis.1@.len() == 0
}

// ==================== Tables ====================

/// A change as a table shows it: its text, and whether it rises.
#[derive(Debug)]
pub struct ChangeCell {
    pub text: String,
    /// A rise stands out; a drop or an unknown change does not.
    pub rising: bool,
}

/// `cell` shows a change; one without a base shows a dash.
pub open spec fn is_change_cell(cell: ChangeCell, pct: Option<Amount>) -> bool {
    match pct {
        Some(pct) => cell.text@ == fmt::change_text(pct) && cell.rising == !pct.lt(
            Amount { bits: 0 },
        ),
        None => cell.text@ == "—"@ && !cell.rising,
    }
}

/// The cell of a change.
pub fn change_cell(pct: Option<Amount>) -> (res: ChangeCell)
    ensures
        is_change_cell(res, pct),
{
    match pct {
        Some(pct) => ChangeCell {
            text: fmt::change_pct(pct),
            rising: !pct.less_than(Amount::zero()),
        },
        None => ChangeCell { text: "—".to_owned(), rising: false },
    }
}

/// One row of the movers table.
#[derive(Debug)]
pub struct MoverCells {
    pub provider: String,
    pub service: String,
    pub amount: String,
    pub change: ChangeCell,
    pub drives: String,
    /// Whether the row drives a business line.
    pub allocated: bool,
}

pub open spec fn is_mover_cells(cells: MoverCells, row: MoverRow, currency: Seq<char>) -> bool {
    &&& cells.provider@ == row.provider@
    &&& cells.service@ == row.service@
    &&& cells.amount@ == fmt::amount_text(row.amount, currency)
    &&& is_change_cell(cells.change, row.change_pct)
    &&& cells.drives@ == row.drives@
    &&& cells.allocated == (row.drives@ != UNALLOCATED@)
}

/// The rows of the movers table.
pub fn mover_cells(movers: &Vec<MoverRow>, currency: &str) -> (res: Vec<MoverCells>)
    ensures
        res@.len() == movers@.len(),
        forall|i: int|
            #![trigger res@[i]]
            0 <= i < res@.len() ==> is_mover_cells(res@[i], movers@[i], currency@),
{
    let mut cells: Vec<MoverCells> = Vec::new();
    let mut i: usize = 0;
    while i < movers.len()
        invariant
            i <= movers.len(),
            cells@.len() == i,
            forall|k: int|
                #![trigger cells@[k]]
                0 <= k < i ==> is_mover_cells(cells@[k], movers@[k], currency@),
        decreases movers.len() - i,
    {
        let row = &movers[i];
        cells.push(
            MoverCells {
                provider: row.provider.clone(),
                service: row.service.clone(),
                amount: fmt::amount(row.amount, currency),
                change: change_cell(row.change_pct),
                drives: row.drives.clone(),
                allocated: !same_text(&row.drives, UNALLOCATED),
            },
        );
        i = i + 1;
    }
    cells
}

/// One row of the month-over-month table.
#[derive(Debug)]
pub struct MonthCells {
    pub service: String,
    pub current: String,
    pub previous: String,
    pub change: ChangeCell,
}

/// The month-over-month card.
#[derive(Debug)]
pub struct MonthCard {
    pub summary: String,
    /// The change of the totals, if their base is worth one.
    pub change: Option<ChangeCell>,
    pub services: Vec<MonthCells>,
    pub why: Option<WhyCells>,
}

pub open spec fn is_month_cells(
    cells: MonthCells,
    row: ServiceMonthComparison,
    currency: Seq<char>,
) -> bool {
    &&& cells.service@ == row.service@
    &&& cells.current@ == fmt::amount_text(row.current, currency)
    &&& cells.previous@ == fmt::amount_text(row.previous, currency)
    &&& is_change_cell(cells.change, row.change_pct)
}

/// The month-over-month card: the totals, each service, and why it changed where
/// that is known.
pub fn month_card(month: &MonthOverMonth, currency: &str) -> (res: MonthCard)
    ensures
        res.summary@ == fmt::amount_text(month.current_total, currency@) + " so far vs "@
            + fmt::amount_text(month.previous_total, currency@) + " in all of last month"@,
        res.change is Some <==> month.change_pct is Some,
        res.change is Some ==> is_change_cell(res.change->0, month.change_pct),
        res.services@.len() == month.services@.len(),
        forall|i: int|
            #![trigger res.services@[i]]
            0 <= i < res.services@.len() ==> is_month_cells(
                res.services@[i],
                month.services@[i],
                currency@,
            ),
        res.why is Some <==> month.decomposition is Some,
        res.why is Some ==> explains(res.why->0, month.decomposition->0, currency@),
{
    let mut summary = fmt::amount(month.current_total, currency);
    summary.append(" so far vs ");
    summary.append(&fmt::amount(month.previous_total, currency));
    summary.append(" in all of last month");
    let change = match month.change_pct {
        Some(pct) => Some(change_cell(Some(pct))),
        None => None,
    };
    let mut services: Vec<MonthCells> = Vec::new();
    let mut i: usize = 0;
    while i < month.services.len()
        invariant
            i <= month.services.len(),
            services@.len() == i,
            forall|k: int|
                #![trigger services@[k]]
                0 <= k < i ==> is_month_cells(services@[k], month.services@[k], currency@),
        decreases month.services.len() - i,
    {
        let row = &month.services[i];
        services.push(
            MonthCells {
                service: row.service.clone(),
                current: fmt::amount(row.current, currency),
                previous: fmt::amount(row.previous, currency),
                change: change_cell(row.change_pct),
            },
        );
        i = i + 1;
    }
    let why = match &month.decomposition {
        Some(decomposition) => Some(why_cells(decomposition, currency)),
        None => None,
    };
    MonthCard { summary, change, services, why }
}

// ==================== Why it changed ====================

/// A signed amount: a rise carries a plus sign and stands out.
pub open spec fn is_delta_cell(cell: ChangeCell, delta: Amount, currency: Seq<char>) -> bool {
    &&& cell.text@ == (if (Amount { bits: 0 }).le(delta) {
        "+"@ + fmt::amount_text(delta, currency)
    } else {
        fmt::amount_text(delta, currency)
    })
    &&& cell.rising == !delta.lt(Amount { bits: 0 })
}

/// The cell of a signed amount.
pub fn delta_cell(delta: Amount, currency: &str) -> (res: ChangeCell)
    ensures
        is_delta_cell(res, delta, currency@),
{
    let amount = fmt::amount(delta, currency);
    let zero = Amount::zero();
    let text = if zero.at_most(delta) {
        concat2("+", &amount)
    } else {
        amount
    };
    ChangeCell { text, rising: !delta.less_than(zero) }
}

/// One line of the split by category.
#[derive(Debug)]
pub struct CategoryCells {
    pub category: String,
    pub delta: ChangeCell,
}

/// One line of the split by service.
#[derive(Debug)]
pub struct MovementCells {
    pub service: String,
    pub badge: &'static str,
    /// Whether the badge stands out: what appeared or grew does.
    pub rising: bool,
    pub delta: ChangeCell,
}

/// The "why it changed" section.
#[derive(Debug)]
pub struct WhyCells {
    pub categories: Vec<CategoryCells>,
    pub movements: Vec<MovementCells>,
    /// The warning, where the parts do not add up to the change.
    pub warning: Option<String>,
}

pub open spec fn badge_label(badge: MovementBadge) -> Seq<char> {
    match badge {
        MovementBadge::Appeared => "Appeared"@,
        MovementBadge::Vanished => "Vanished"@,
        MovementBadge::Grown => "Grown"@,
        MovementBadge::Shrunk => "Shrunk"@,
    }
}

pub open spec fn is_category_cells(
    cells: CategoryCells,
    row: CategoryDeltaRow,
    currency: Seq<char>,
) -> bool {
    cells.category@ == row.category@ && is_delta_cell(cells.delta, row.delta, currency)
}

pub open spec fn is_movement_cells(
    cells: MovementCells,
    row: ServiceMovementRow,
    currency: Seq<char>,
) -> bool {
    &&& cells.service@ == row.service@
    &&& cells.badge@ == badge_label(row.badge)
    &&& cells.rising == (row.badge == MovementBadge::Appeared || row.badge == MovementBadge::Grown)
    &&& is_delta_cell(cells.delta, row.delta, currency)
}

/// `cells` show a decomposition.
pub open spec fn explains(cells: WhyCells, why: ChangeDecomposition, currency: Seq<char>) -> bool {
    &&& cells.categories@.len() == why.categories@.len()
    &&& forall|i: int|
        #![trigger cells.categories@[i]]
        0 <= i < cells.categories@.len() ==> is_category_cells(
            cells.categories@[i],
            why.categories@[i],
            currency,
        )
    &&& cells.movements@.len() == why.movements@.len()
    &&& forall|i: int|
        #![trigger cells.movements@[i]]
        0 <= i < cells.movements@.len() ==> is_movement_cells(
            cells.movements@[i],
            why.movements@[i],
            currency,
        )
    &&& cells.warning is Some <==> !why.reconciled
    &&& cells.warning is Some ==> cells.warning->0@ == "This breakdown leaves "@
        + fmt::amount_text(why.residual.unsigned(), currency)
        + " unexplained — the components don't fully reconcile."@
}

/// The "why it changed" section. A split that does not add up says so, with what
/// it leaves unexplained.
pub fn why_cells(why: &ChangeDecomposition, currency: &str) -> (res: WhyCells)
    ensures
        explains(res, *why, currency@),
{
    let mut categories: Vec<CategoryCells> = Vec::new();
    let mut i: usize = 0;
    while i < why.categories.len()
        invariant
            i <= why.categories.len(),
            categories@.len() == i,
            forall|k: int|
                #![trigger categories@[k]]
                0 <= k < i ==> is_category_cells(categories@[k], why.categories@[k], currency@),
        decreases why.categories.len() - i,
    {
        let row = &why.categories[i];
        categories.push(
            CategoryCells {
                category: row.category.clone(),
                delta: delta_cell(row.delta, currency),
            },
        );
        i = i + 1;
    }
    let mut movements: Vec<MovementCells> = Vec::new();
    let mut m: usize = 0;
    while m < why.movements.len()
        invariant
            m <= why.movements.len(),
            movements@.len() == m,
            forall|k: int|
                #![trigger movements@[k]]
                0 <= k < m ==> is_movement_cells(movements@[k], why.movements@[k], currency@),
        decreases why.movements.len() - m,
    {
        let row = &why.movements[m];
        movements.push(
            MovementCells {
                service: row.service.clone(),
                badge: row.badge.label(),
                rising: row.badge == MovementBadge::Appeared || row.badge == MovementBadge::Grown,
                delta: delta_cell(row.delta, currency),
            },
        );
        m = m + 1;
    }
    let warning = if why.reconciled {
        None
    } else {
        Some(
            concat3(
                "This breakdown leaves ",
                &fmt::amount(why.residual.abs(), currency),
                " unexplained — the components don't fully reconcile.",
            ),
        )
    };
    WhyCells { categories, movements, warning }
}

} // verus!
