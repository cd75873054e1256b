//! The account detail page: one account's trend, its services, its breakdowns
//! and its health.
use vstd::prelude::*;

use super::breakdown;
use super::breakdown::{drill_rows, DrillCells};
use super::chart::ChartHover;
use super::data::detail::{AccountDetailData, ServiceRow};
use super::data::quality;
use super::data::range::Range;
use super::fmt;
use super::overview::ChangeCell;
use crate::amount::Amount;
use crate::cloud;
use crate::db;
use crate::error::Error;
use crate::ledger::ranked;
use crate::ledger::ranked::rank_totals;
use crate::model;
use crate::model::{BreakdownDim, DataQualityIssue, IssueSeverity};
use crate::text::{concat2, concat3, same_text};

verus! {

/// The dimension that the drill-down card groups by.
#[derive(Clone, Copy, PartialEq, Eq, Structural, Debug)]
pub enum DrillDim {
    Region,
    ServiceCategory,
}

/// What the card says in a dimension.
pub ghost struct DrillLabels {
    pub label: Seq<char>,
    pub id: Seq<char>,
    pub title: Seq<char>,
    pub bucket_header: Seq<char>,
    pub other_caption: Seq<char>,
}

impl DrillDim {
    pub open spec fn labels(self) -> DrillLabels {
        match self {
            DrillDim::Region => DrillLabels {
                label: "Region"@,
                id: "drill-region"@,
                title: "By region"@,
                bucket_header: "REGION"@,
                other_caption: "Charges with no region read as 'Other'."@,
            },
            DrillDim::ServiceCategory => DrillLabels {
                label: "Category"@,
                id: "drill-category"@,
                title: "By service category"@,
                bucket_header: "SERVICE CATEGORY"@,
                other_caption: "Charges with no service category read as 'Other'."@,
            },
        }
    }

    /// The dimension of the ledger that is grouped by.
    pub fn dimension(self) -> (res: BreakdownDim)
        ensures
            res == (match self {
                DrillDim::Region => BreakdownDim::Region,
                DrillDim::ServiceCategory => BreakdownDim::ServiceCategory,
            }),
    {
        match self {
            DrillDim::Region => BreakdownDim::Region,
            DrillDim::ServiceCategory => BreakdownDim::ServiceCategory,
        }
    }

    pub fn label(self) -> (res: &'static str)
        ensures
            res@ == self.labels().label,
    {
        match self {
            DrillDim::Region => "Region",
            DrillDim::ServiceCategory => "Category",
        }
    }

    pub fn id(self) -> (res: &'static str)
        ensures
            res@ == self.labels().id,
    {
        match self {
            DrillDim::Region => "drill-region",
            DrillDim::ServiceCategory => "drill-category",
        }
    }

    /// The title of the card.
    pub fn title(self) -> (res: &'static str)
        ensures
            res@ == self.labels().title,
    {
        match self {
            DrillDim::Region => "By region",
            DrillDim::ServiceCategory => "By service category",
        }
    }

    /// The heading of the bucket column.
    pub fn bucket_header(self) -> (res: &'static str)
        ensures
            res@ == self.labels().bucket_header,
    {
        match self {
            DrillDim::Region => "REGION",
            DrillDim::ServiceCategory => "SERVICE CATEGORY",
        }
    }

    /// What is said under a breakdown that has an "Other" bucket.
    pub fn other_caption(self) -> (res: &'static str)
        ensures
            res@ == self.labels().other_caption,
    {
        match self {
            DrillDim::Region => "Charges with no region read as 'Other'.",
            DrillDim::ServiceCategory => "Charges with no service category read as 'Other'.",
        }
    }
}

/// The account's breakdowns of the current period.
#[derive(Debug)]
pub struct AccountDrilldown {
    pub by_region: Vec<(String, Amount)>,
    pub by_category: Vec<(String, Amount)>,
}

/// The breakdowns from what each bucket adds up to: those above zero, largest
/// first.
pub fn load_drilldown(regions: Vec<(String, Amount)>, categories: Vec<(String, Amount)>) -> (res:
    AccountDrilldown)
    ensures
        res.by_region@ == ranked::positive_first(regions@, ranked::named_amounts(regions@)),
        res.by_category@ == ranked::positive_first(categories@, ranked::named_amounts(categories@)),
{
    AccountDrilldown {
        by_region: rank_totals(regions),
        by_category: rank_totals(categories),
    }
}

/// The findings of the period that were not dismissed, and the keys that
/// dismiss them all.
#[derive(Debug)]
pub struct AccountHealth {
    pub issues: Vec<DataQualityIssue>,
    pub dismiss_keys: Vec<String>,
}

// ==================== The page ====================

/// The page.
#[derive(Debug)]
pub struct AccountDetailView {
    /// The account that is shown.
    pub account_id: Option<String>,
    pub range: Range,
    /// What was loaded; `None` until the first load lands.
    pub data: Option<AccountDetailData>,
    pub drilldown: Option<AccountDrilldown>,
    /// `None` until a load lands, and after a dismissal.
    pub health: Option<AccountHealth>,
    pub drill_dim: DrillDim,
    /// A load is in flight.
    pub loading: bool,
    /// The last failure, shown under the header.
    pub error: Option<String>,
    /// Grows with every load: only the latest may write its result.
    pub generation: u64,
    /// The chart's point under the mouse.
    pub chart_hover: ChartHover,
}

/// What the page shows.
#[derive(Clone, Copy, PartialEq, Eq, Structural, Debug)]
pub enum DetailBody {
    NoAccount,
    Loading,
    Blank,
    Cards,
}

/// A load starts: what is shown stays, the banner goes.
pub open spec fn load_started(after: AccountDetailView, before: AccountDetailView) -> bool {
    &&& after.loading
    &&& after.error is None
    &&& after.generation == before.generation + 1
    &&& after.chart_hover.index is None
    &&& after.account_id == before.account_id
    &&& after.range == before.range
    &&& after.data == before.data
    &&& after.drilldown == before.drilldown
    &&& after.health == before.health
    &&& after.drill_dim == before.drill_dim
}

impl AccountDetailView {
    /// A page without an account.
    pub fn new() -> (res: AccountDetailView)
        ensures
            res.account_id is None,
            res.range == Range::Mtd,
            res.data is None,
            res.drilldown is None,
            res.health is None,
            res.drill_dim == DrillDim::Region,
            !res.loading,
            res.error is None,
            res.generation == 0,
            res.chart_hover.index is None,
    {
        AccountDetailView {
            account_id: None,
            range: Range::Mtd,
            data: None,
            drilldown: None,
            health: None,
            drill_dim: DrillDim::Region,
            loading: false,
            error: None,
            generation: 0,
            chart_hover: ChartHover::new(),
        }
    }

    /// The account that is shown is another one.
    pub open spec fn switches_to(self, account_id: Seq<char>) -> bool {
        self.account_id is None || self.account_id->0@ != account_id
    }

    /// Show an account; the generation of the load that starts. The account that
    /// is on screen keeps its range; another one begins on the month to date.
    pub fn show(&mut self, account_id: String) -> (res: u64)
        requires
            old(self).generation < u64::MAX,
        ensures
            final(self).account_id == Some(account_id),
            final(self).loading,
            final(self).error is None,
            final(self).generation == old(self).generation + 1,
            res == final(self).generation,
            final(self).chart_hover.index is None,
            final(self).drill_dim == old(self).drill_dim,
            old(self).switches_to(account_id@) ==> {
                &&& final(self).range == Range::Mtd
                &&& final(self).data is None
                &&& final(self).drilldown is None
                &&& final(self).health is None
            },
            !old(self).switches_to(account_id@) ==> {
                &&& final(self).range == old(self).range
                &&& final(self).data == old(self).data
                &&& final(self).drilldown == old(self).drilldown
                &&& final(self).health == old(self).health
            },
    {
        let switches: bool = match &self.account_id {
            Some(shown) => !same_text(shown, &account_id),
            None => true,
        };
        if switches {
            self.range = Range::Mtd;
            self.data = None;
            self.drilldown = None;
            self.health = None;
        }
        self.account_id = Some(account_id);
        self.begin_load()
    }

    /// Reload, unless a load is in flight or no account is shown; the generation
    /// of the load that starts.
    pub fn reload(&mut self) -> (res: Option<u64>)
        requires
            old(self).generation < u64::MAX,
        ensures
            res is Some <==> !old(self).loading && old(self).account_id is Some,
            res is None ==> *final(self) == *old(self),
            res is Some ==> load_started(*final(self), *old(self)) && res->0
                == final(self).generation,
    {
        if self.loading || self.account_id.is_none() {
            return None;
        }
        Some(self.begin_load())
    }

    fn begin_load(&mut self) -> (res: u64)
        requires
            old(self).generation < u64::MAX,
        ensures
            load_started(*final(self), *old(self)),
            res == final(self).generation,
    {
        self.loading = true;
        self.error = None;
        self.generation = self.generation + 1;
        self.chart_hover.clear();
        self.generation
    }

    /// Select a range; the generation of the load that another range starts,
    /// where an account is shown.
    pub fn select_range(&mut self, range: Range) -> (res: Option<u64>)
        requires
            old(self).generation < u64::MAX,
        ensures
            final(self).range == range,
            res is Some <==> range != old(self).range && old(self).account_id is Some,
            res is None ==> *final(self) == (AccountDetailView { range, ..*old(self) }),
            res is Some ==> {
                &&& load_started(
                    (AccountDetailView { range: old(self).range, ..*final(self) }),
                    *old(self),
                )
                &&& res->0 == final(self).generation
            },
    {
        if self.range == range {
            return None;
        }
        self.range = range;
        if self.account_id.is_none() {
            return None;
        }
        Some(self.begin_load())
    }

    /// A load came back. A load that started since wins over its result.
    pub fn loaded(
        &mut self,
        generation: u64,
        result: Result<(AccountDetailData, AccountDrilldown, AccountHealth), Error>,
    )
        ensures
            !final(self).loading,
            final(self).account_id == old(self).account_id,
            final(self).range == old(self).range,
            final(self).drill_dim == old(self).drill_dim,
            final(self).generation == old(self).generation,
            final(self).chart_hover == old(self).chart_hover,
            generation != old(self).generation || result is Err ==> {
                &&& final(self).data == old(self).data
                &&& final(self).drilldown == old(self).drilldown
                &&& final(self).health == old(self).health
            },
            generation != old(self).generation ==> final(self).error == old(self).error,
            generation == old(self).generation ==> match result {
                Ok((data, drilldown, health)) => {
                    &&& final(self).data == Some(data)
                    &&& final(self).drilldown == Some(drilldown)
                    &&& final(self).health == Some(health)
                    &&& final(self).error is None
                },
                Err(e) => final(self).error is Some && final(self).error->0@
                    == "Could not load the account: "@ + e.message@,
            },
    {
        self.loading = false;
        if self.generation == generation {
            match result {
                Ok((data, drilldown, health)) => {
                    self.data = Some(data);
                    self.drilldown = Some(drilldown);
                    self.health = Some(health);
                    self.error = None;
                },
                Err(e) => {
                    self.error = Some(concat2("Could not load the account: ", &e.message));
                },
            }
        }
    }

    /// Group the drill-down by another dimension; nothing is loaded for it.
    pub fn select_dim(&mut self, dim: DrillDim)
        ensures
            *final(self) == (AccountDetailView { drill_dim: dim, ..*old(self) }),
    {
        self.drill_dim = dim;
    }

    /// Hide the health section until the next load; the keys to dismiss.
    pub fn dismiss_health(&mut self) -> (res: Vec<String>)
        ensures
            *final(self) == (AccountDetailView { health: None, ..*old(self) }),
            match old(self).health {
                Some(health) => res == health.dismiss_keys,
                None => res@.len() == 0,
            },
    {
        match self.health.take() {
            Some(health) => health.dismiss_keys,
            None => Vec::new(),
        }
    }

    /// The mouse moved over the chart, to a point or to none; whether the page
    /// shows it.
    pub fn hover(&mut self, nearest: Option<usize>) -> (res: bool)
        ensures
            res == (nearest is Some && nearest != old(self).chart_hover.index),
            *final(self) == (AccountDetailView {
                chart_hover: old(self).chart_hover.moved_to(nearest),
                ..*old(self)
            }),
    {
        self.chart_hover.follow(nearest)
    }

    /// What the page shows.
    pub fn body(&self) -> (res: DetailBody)
        ensures
            res == (if self.account_id is None {
                DetailBody::NoAccount
            } else if self.data is Some {
                DetailBody::Cards
            } else if self.loading {
                DetailBody::Loading
            } else {
                DetailBody::Blank
            }),
    {
        if self.account_id.is_none() {
            DetailBody::NoAccount
        } else if self.data.is_some() {
            DetailBody::Cards
        } else if self.loading {
            DetailBody::Loading
        } else {
            DetailBody::Blank
        }
    }
}

// ==================== Cards ====================

/// The header's caption.
pub fn header_caption(data: &AccountDetailData) -> (res: String)
    ensures
        res@ == data.provider@ + " · "@ + data.window_caption@ + " · reported in "@
            + data.currency@,
{
    let mut caption = concat3(&data.provider, " · ", &data.window_caption);
    caption.append(" · reported in ");
    caption.append(&data.currency);
    caption
}

/// The title of the chart.
pub fn chart_title(range: Range) -> (res: &'static str)
    ensures
        res@ == (if range == Range::Months12 {
            "Monthly usage"@
        } else {
            "Daily usage"@
        }),
{
    match range {
        Range::Months12 => "Monthly usage",
        _ => "Daily usage",
    }
}

/// The headline numbers.
#[derive(Debug)]
pub struct DetailStats {
    pub spend: String,
    pub split: String,
    pub change: String,
    pub change_caption: &'static str,
}

/// The headline numbers: net spend with its split, and the change.
pub fn detail_stats(data: &AccountDetailData) -> (res: DetailStats)
    ensures
        res.spend@ == fmt::amount_text(data.spend, data.currency@),
        res.split@ == "usage "@ + fmt::amount_text(data.usage, data.currency@) + " · credits "@
            + fmt::amount_text(data.credits, data.currency@),
        res.change@ == (match data.change_pct {
            Some(pct) => fmt::change_text(pct),
            None => "—"@,
        }),
        res.change_caption@ == data.change_caption@,
{
    let currency = &data.currency;
    let mut split = concat2("usage ", &fmt::amount(data.usage, currency));
    split.append(" · credits ");
    split.append(&fmt::amount(data.credits, currency));
    DetailStats {
        spend: fmt::amount(data.spend, currency),
        split,
        change: match data.change_pct {
            Some(pct) => fmt::change_pct(pct),
            None => "—".to_owned(),
        },
        change_caption: data.change_caption,
    }
}

/// One row of the service table.
#[derive(Debug)]
pub struct ServiceCells {
    pub name: String,
    pub amount: String,
    /// How much of its track the bar fills.
    pub share: Amount,
    pub change: ChangeCell,
}

pub open spec fn is_service_cells(
    cells: ServiceCells,
    row: ServiceRow,
    currency: Seq<char>,
) -> bool {
    &&& cells.name@ == row.name@
    &&& cells.amount@ == fmt::amount_text(row.amount, currency)
    &&& cells.share == row.share
    &&& match row.change_pct {
        Some(pct) => cells.change.text@ == fmt::whole_change_text(pct) && cells.change.rising
            == !pct.lt(Amount { bits: 0 }),
        None => cells.change.text@ == "—"@ && !cells.change.rising,
    }
}

/// The service card: its change heading, and its rows or what it says without
/// any.
#[derive(Debug)]
pub struct ServicesCard {
    pub change_header: &'static str,
    pub rows: Vec<ServiceCells>,
    /// What is said where there are no rows.
    pub empty_note: Option<&'static str>,
    /// Whether the way to the bill import is offered.
    pub offers_import: bool,
}

/// The service card. Without usage it says so; for a source that reports a
/// balance only it says where usage comes from.
pub fn services_card(data: &AccountDetailData) -> (res: ServicesCard)
    ensures
        res.change_header@ == super::data::page::labels_of(data.range).movers_delta_header,
        res.rows@.len() == data.services@.len(),
        forall|i: int|
            #![trigger res.rows@[i]]
            0 <= i < res.rows@.len() ==> is_service_cells(
                res.rows@[i],
                data.services@[i],
                data.currency@,
            ),
        res.empty_note is Some <==> data.services@.len() == 0,
        res.empty_note is Some ==> res.empty_note->0@ == (if data.is_snapshot {
            "No usage in this window. A balance-reporting source's usage arrives through its bill file import."@
        } else {
            "No usage in this window."@
        }),
        res.offers_import == (data.services@.len() == 0 && data.is_snapshot),
{
    let change_header = match data.range {
        Range::Mtd => "VS LAST MONTH",
        Range::Days30 => "VS PRIOR 30D",
        Range::Months12 => "VS PRIOR 12M",
    };
    let mut rows: Vec<ServiceCells> = Vec::new();
    let mut i: usize = 0;
    while i < data.services.len()
        invariant
            i <= data.services.len(),
            rows@.len() == i,
            forall|k: int|
                #![trigger rows@[k]]
                0 <= k < i ==> is_service_cells(rows@[k], data.services@[k], data.currency@),
        decreases data.services.len() - i,
    {
        let row = &data.services[i];
        let change = match row.change_pct {
            Some(pct) => ChangeCell {
                text: fmt::whole_change_pct(pct),
                rising: !pct.less_than(Amount::zero()),
            },
            None => ChangeCell { text: "—".to_owned(), rising: false },
        };
        rows.push(
            ServiceCells {
                name: row.name.clone(),
                amount: fmt::amount(row.amount, &data.currency),
                share: row.share,
                change,
            },
        );
        i = i + 1;
    }
    let none = data.services.len() == 0;
    let empty_note = if !none {
        None
    } else if data.is_snapshot {
        Some(
            "No usage in this window. A balance-reporting source's usage arrives through its bill file import.",
        )
    } else {
        Some("No usage in this window.")
    };
    ServicesCard { change_header, rows, empty_note, offers_import: none && data.is_snapshot }
}

/// The drill-down card.
#[derive(Debug)]
pub struct DrillCard {
    pub rows: Vec<DrillCells>,
    /// What is said where there is no bucket.
    pub empty_note: Option<&'static str>,
    /// The footnote, where there is an "Other" bucket.
    pub footnote: Option<&'static str>,
}

impl AccountDrilldown {
    /// The breakdown by a dimension.
    pub open spec fn in_dim(self, dim: DrillDim) -> Seq<(String, Amount)> {
        match dim {
            DrillDim::Region => self.by_region@,
            DrillDim::ServiceCategory => self.by_category@,
        }
    }

    /// The drill-down card in a dimension. `total` is what the buckets add up
    /// to, `shares` what each is of it, read only where the total is above zero.
    pub fn card(&self, dim: DrillDim, total: Amount, shares: &Vec<Amount>, currency: &str) -> (res:
        DrillCard)
        requires
            shares@.len() == self.in_dim(dim).len(),
        ensures
            breakdown::are_drill_cells(
                res.rows@,
                self.in_dim(dim),
                total,
                shares@,
                currency@,
            ),
            cloud::label_view(res.empty_note) == (if self.in_dim(dim).len() == 0 {
                Some("No usage in this billing period."@)
            } else {
                None
            }),
            res.footnote is Some <==> breakdown::has_other(self.in_dim(dim)),
            res.footnote is Some ==> res.footnote->0@ == dim.labels().other_caption,
    {
        let buckets = match dim {
            DrillDim::Region => &self.by_region,
            DrillDim::ServiceCategory => &self.by_category,
        };
        let (rows, other) = drill_rows(buckets, total, shares, currency);
        let empty_note = if buckets.len() == 0 {
            Some("No usage in this billing period.")
        } else {
            None
        };
        let footnote = if other {
            Some(dim.other_caption())
        } else {
            None
        };
        DrillCard { rows, empty_note, footnote }
    }
}

// ==================== Health ====================

/// The place of a severity in a list that begins with the worst.
pub fn severity_rank(severity: IssueSeverity) -> (res: u8)
    ensures
        res == (match severity {
            IssueSeverity::Critical => 0u8,
            IssueSeverity::Warning => 1u8,
            IssueSeverity::Info => 2u8,
        }),
{
    match severity {
        IssueSeverity::Critical => 0,
        IssueSeverity::Warning => 1,
        IssueSeverity::Info => 2,
    }
}

/// The findings of a period that were not dismissed, worst first, with the keys
/// that dismiss them.
pub fn load_health(billing_period: &str, issues: &Vec<DataQualityIssue>, dismissed: &Vec<String>) -> (res:
    AccountHealth)
    ensures
        res.issues@ == quality::shown_issues(issues@, billing_period@, dismissed@),
        res.dismiss_keys@.map_values(|k: String| k@) == quality::open_issues(
            issues@,
            billing_period@,
            dismissed@,
        ).map_values(|i: DataQualityIssue| model::dismissal_key_text(i.kind, billing_period@)),
{
    let ghost key_of = |i: DataQualityIssue| model::dismissal_key_text(i.kind, billing_period@);
    let mut open: Vec<DataQualityIssue> = Vec::new();
    let mut keys: Vec<String> = Vec::new();
    let mut i: usize = 0;
    proof {
        reveal(Seq::filter);
        assert(quality::open_issues(issues@.take(0), billing_period@, dismissed@)
            =~= Seq::empty());
        assert(keys@.map_values(|k: String| k@) =~= Seq::<DataQualityIssue>::empty().map_values(
            key_of,
        ));
    }
    while i < issues.len()
        invariant
            i <= issues.len(),
            key_of == (|i: DataQualityIssue| model::dismissal_key_text(i.kind, billing_period@)),
            open@ == quality::open_issues(issues@.take(i as int), billing_period@, dismissed@),
            keys@.map_values(|k: String| k@) == open@.map_values(key_of),
        decreases issues.len() - i,
    {
        proof {
            reveal(Seq::filter);
            assert(issues@.take(i + 1).drop_last() =~= issues@.take(i as int));
            assert(issues@.take(i + 1).last() == issues@[i as int]);
        }
        let key = issues[i].dismissal_key(billing_period);
        if !db::is_dismissed(dismissed, &key) {
            let ghost before = open@;
            let ghost keys_before = keys@;
            open.push(issues[i].clone());
            keys.push(key);
            proof {
                assert(keys@.map_values(|k: String| k@) =~= keys_before.map_values(
                    |k: String| k@,
                ).push(key@));
                assert(open@.map_values(key_of) =~= before.map_values(key_of).push(key@));
            }
        }
        i = i + 1;
    }
    proof {
        assert(issues@.take(i as int) =~= issues@);
    }
    AccountHealth { issues: quality::sort_worst_first(open), dismiss_keys: keys }
}

/// What the health section says where there are no findings.
pub fn health_note() -> (res: &'static str)
    ensures
        res@ == "All good — no data-quality issues this period."@,
{
    "All good — no data-quality issues this period."
}

} // verus!
