//! What the ledger and the application state are made of.
use vstd::prelude::*;

use crate::amount::Amount;
use crate::calendar::Timestamp;
use crate::text;

verus! {

/// What kind of line a charge is.
#[derive(Clone, Copy, PartialEq, Eq, Structural, Debug)]
pub enum ChargeCategory {
    Usage,
    Credit,
    Adjustment,
    Purchase,
    Tax,
}

impl ChargeCategory {
    pub open spec fn name(self) -> Seq<char> {
        match self {
            ChargeCategory::Usage => "Usage"@,
            ChargeCategory::Credit => "Credit"@,
            ChargeCategory::Adjustment => "Adjustment"@,
            ChargeCategory::Purchase => "Purchase"@,
            ChargeCategory::Tax => "Tax"@,
        }
    }

    pub fn as_str(self) -> (res: &'static str)
        ensures
            res@ == self.name(),
    {
        match self {
            ChargeCategory::Usage => "Usage",
            ChargeCategory::Credit => "Credit",
            ChargeCategory::Adjustment => "Adjustment",
            ChargeCategory::Purchase => "Purchase",
            ChargeCategory::Tax => "Tax",
        }
    }
}

/// The way a period's rows came in.
#[derive(Clone, Copy, PartialEq, Eq, Structural, Debug)]
pub enum Channel {
    /// Fetched from a billing API.
    Api,
    /// Imported from a bill export.
    File,
}

/// What a source reports.
#[derive(Clone, Copy, PartialEq, Eq, Structural, Debug)]
pub enum Reporting {
    /// The cost of a period.
    Periodic,
    /// The balance of an account at an instant.
    Snapshot,
}

/// The dimension a breakdown groups by.
#[derive(Clone, Copy, PartialEq, Eq, Structural, Debug)]
pub enum BreakdownDim {
    Service,
    Region,
    ServiceCategory,
}

/// One line of a bill, in the currency it was billed in.
#[derive(Debug)]
pub struct Charge {
    pub charge_description: Option<String>,
    pub service_name: Option<String>,
    pub service_category: Option<String>,
    pub region_id: Option<String>,
    pub resource_id: Option<String>,
    pub resource_name: Option<String>,
    pub pricing_unit: Option<String>,
    pub charge_category: ChargeCategory,
    /// The charge's tags, as the text of a JSON object.
    pub tags: Option<String>,
    pub billing_currency: String,
    pub charge_period_start: Timestamp,
    pub billed_cost: Option<Amount>,
    pub effective_cost: Option<Amount>,
}

impl Clone for Charge {
    fn clone(&self) -> (res: Self)
        ensures
            res == *self,
    {
        Charge {
            charge_description: crate::order::clone_text(&self.charge_description),
            service_name: crate::order::clone_text(&self.service_name),
            service_category: crate::order::clone_text(&self.service_category),
            region_id: crate::order::clone_text(&self.region_id),
            resource_id: crate::order::clone_text(&self.resource_id),
            resource_name: crate::order::clone_text(&self.resource_name),
            pricing_unit: crate::order::clone_text(&self.pricing_unit),
            charge_category: self.charge_category,
            tags: crate::order::clone_text(&self.tags),
            billing_currency: self.billing_currency.clone(),
            charge_period_start: self.charge_period_start,
            billed_cost: self.billed_cost,
            effective_cost: self.effective_cost,
        }
    }
}

/// The write unit of the ledger: one account's bill for one month.
#[derive(Debug)]
pub struct PeriodKey {
    pub provider: String,
    pub account_id: String,
    pub billing_period: String,
}

impl Clone for PeriodKey {
    fn clone(&self) -> (res: Self)
        ensures
            res == *self,
    {
        PeriodKey {
            provider: self.provider.clone(),
            account_id: self.account_id.clone(),
            billing_period: self.billing_period.clone(),
        }
    }
}

impl PeriodKey {
    pub fn new(provider: String, account_id: String, billing_period: String) -> (res: PeriodKey)
        ensures
            res.provider == provider,
            res.account_id == account_id,
            res.billing_period == billing_period,
    {
        PeriodKey { provider, account_id, billing_period }
    }

    /// Two keys name the same bill.
    pub open spec fn same_as(self, other: PeriodKey) -> bool {
        &&& self.provider@ == other.provider@
        &&& self.account_id@ == other.account_id@
        &&& self.billing_period@ == other.billing_period@
    }

    pub fn same(&self, other: &PeriodKey) -> (res: bool)
        ensures
            res == self.same_as(*other),
    {
        text::same_text(&self.provider, &other.provider) && text::same_text(
            &self.account_id,
            &other.account_id,
        ) && text::same_text(&self.billing_period, &other.billing_period)
    }
}

/// A balance as it was observed.
#[derive(Debug)]
pub struct BalanceSnapshot {
    pub provider: String,
    pub account_id: String,
    pub observed_at: Timestamp,
    pub currency: String,
    pub balance: Amount,
    pub granted_balance: Option<Amount>,
    pub topped_up_balance: Option<Amount>,
}

impl Clone for BalanceSnapshot {
    fn clone(&self) -> (res: Self)
        ensures
            res == *self,
    {
        BalanceSnapshot {
            provider: self.provider.clone(),
            account_id: self.account_id.clone(),
            observed_at: self.observed_at,
            currency: self.currency.clone(),
            balance: self.balance,
            granted_balance: self.granted_balance,
            topped_up_balance: self.topped_up_balance,
        }
    }
}

/// The newest balance of an account, in the currency it was observed in.
#[derive(Debug)]
pub struct Balance {
    pub balance: Amount,
    pub granted_balance: Option<Amount>,
    pub topped_up_balance: Option<Amount>,
    pub currency: String,
    pub observed_at: Timestamp,
}

impl Clone for Balance {
    fn clone(&self) -> (res: Self)
        ensures
            res == *self,
    {
        Balance {
            balance: self.balance,
            granted_balance: self.granted_balance,
            topped_up_balance: self.topped_up_balance,
            currency: self.currency.clone(),
            observed_at: self.observed_at,
        }
    }
}

/// The id a billing source is registered under.
#[derive(Debug)]
pub struct SourceId {
    pub id: String,
}

impl Clone for SourceId {
    fn clone(&self) -> (res: Self)
        ensures
            res == *self,
    {
        SourceId {
            id: self.id.clone(),
        }
    }
}

impl SourceId {
    pub fn of(id: &str) -> (res: SourceId)
        ensures
            res.id@ == id@,
    {
        SourceId { id: id.to_owned() }
    }

    pub fn as_str(&self) -> (res: &str)
        ensures
            res@ == self.id@,
    {
        self.id.as_str()
    }
}

/// An account of a billing source.
#[derive(Debug)]
pub struct CloudAccount {
    pub id: String,
    pub name: String,
    pub source_id: SourceId,
    pub region: Option<String>,
    pub created_at: Timestamp,
    pub last_synced_at: Option<Timestamp>,
    pub enabled: bool,
    /// The leading characters of the account's access key, for a list that must
    /// not read the key itself.
    pub access_key_hint: Option<String>,
    /// Where the provider's own billing export lands, if the account is backed
    /// by one.
    pub export_uri: Option<String>,
}

impl Clone for CloudAccount {
    fn clone(&self) -> (res: Self)
        ensures
            res == *self,
    {
        CloudAccount {
            id: self.id.clone(),
            name: self.name.clone(),
            source_id: self.source_id.clone(),
            region: crate::order::clone_text(&self.region),
            created_at: self.created_at,
            last_synced_at: self.last_synced_at,
            enabled: self.enabled,
            access_key_hint: crate::order::clone_text(&self.access_key_hint),
            export_uri: crate::order::clone_text(&self.export_uri),
        }
    }
}

/// An account's monthly budget.
#[derive(Debug)]
pub struct BudgetInfo {
    pub account_id: String,
    pub monthly_budget: Amount,
    pub currency: String,
    /// The percentage of the budget from which the badge alerts.
    pub alert_threshold: Amount,
    pub created_at: Timestamp,
    pub updated_at: Timestamp,
}

impl Clone for BudgetInfo {
    fn clone(&self) -> (res: Self)
        ensures
            res == *self,
    {
        BudgetInfo {
            account_id: self.account_id.clone(),
            monthly_budget: self.monthly_budget,
            currency: self.currency.clone(),
            alert_threshold: self.alert_threshold,
            created_at: self.created_at,
            updated_at: self.updated_at,
        }
    }
}

/// How much of a budget has been used.
#[derive(Debug)]
pub struct BudgetStatus {
    pub account_id: String,
    pub account_name: String,
    pub monthly_budget: Amount,
    pub current_cost: Amount,
    pub currency: String,
    pub percentage_used: Amount,
    pub remaining: Amount,
    pub alert_triggered: bool,
}

impl Clone for BudgetStatus {
    fn clone(&self) -> (res: Self)
        ensures
            res == *self,
    {
        BudgetStatus {
            account_id: self.account_id.clone(),
            account_name: self.account_name.clone(),
            monthly_budget: self.monthly_budget,
            current_cost: self.current_cost,
            currency: self.currency.clone(),
            percentage_used: self.percentage_used,
            remaining: self.remaining,
            alert_triggered: self.alert_triggered,
        }
    }
}

/// One of the costliest resources of a period.
#[derive(Debug)]
pub struct TopResource {
    pub resource_id: String,
    pub resource_name: Option<String>,
    pub service: String,
    pub amount: Amount,
}

impl Clone for TopResource {
    fn clone(&self) -> (res: Self)
        ensures
            res == *self,
    {
        TopResource {
            resource_id: self.resource_id.clone(),
            resource_name: crate::order::clone_text(&self.resource_name),
            service: self.service.clone(),
            amount: self.amount,
        }
    }
}

/// Usage of one service under one tag value.
#[derive(Debug)]
pub struct ServiceTagUsage {
    pub provider: String,
    pub service: String,
    pub tag_value: String,
    pub amount: Amount,
}

impl Clone for ServiceTagUsage {
    fn clone(&self) -> (res: Self)
        ensures
            res == *self,
    {
        ServiceTagUsage {
            provider: self.provider.clone(),
            service: self.service.clone(),
            tag_value: self.tag_value.clone(),
            amount: self.amount,
        }
    }
}

/// A charge that carries no value for a tag.
#[derive(Debug)]
pub struct UntaggedCharge {
    pub provider: String,
    pub service: Option<String>,
    pub description: Option<String>,
    pub amount: Amount,
}

impl Clone for UntaggedCharge {
    fn clone(&self) -> (res: Self)
        ensures
            res == *self,
    {
        UntaggedCharge {
            provider: self.provider.clone(),
            service: crate::order::clone_text(&self.service),
            description: crate::order::clone_text(&self.description),
            amount: self.amount,
        }
    }
}

/// Usage of one service that carries no value for a tag.
#[derive(Debug)]
pub struct UntaggedServiceUsage {
    pub provider: String,
    pub service: Option<String>,
    pub amount: Amount,
}

impl Clone for UntaggedServiceUsage {
    fn clone(&self) -> (res: Self)
        ensures
            res == *self,
    {
        UntaggedServiceUsage {
            provider: self.provider.clone(),
            service: crate::order::clone_text(&self.service),
            amount: self.amount,
        }
    }
}

/// What one service charged on one day.
#[derive(Debug)]
pub struct ServiceDailyTotal {
    pub provider: String,
    pub service: String,
    pub day: String,
    pub amount: Amount,
}

impl Clone for ServiceDailyTotal {
    fn clone(&self) -> (res: Self)
        ensures
            res == *self,
    {
        ServiceDailyTotal {
            provider: self.provider.clone(),
            service: self.service.clone(),
            day: self.day.clone(),
            amount: self.amount,
        }
    }
}

/// How bad a data-quality finding is.
#[derive(Clone, Copy, PartialEq, Eq, Structural, Debug)]
pub enum IssueSeverity {
    Info,
    Warning,
    Critical,
}

/// What a data-quality finding is about.
#[derive(Clone, Copy, PartialEq, Eq, Structural, Debug)]
pub enum DataQualityKind {
    UnconvertedCharges,
    UntaggedUsage,
    MissingRegion,
    UnreconciledAdjustments,
}

impl DataQualityKind {
    pub open spec fn name(self) -> Seq<char> {
        match self {
            DataQualityKind::UnconvertedCharges => "unconverted_charges"@,
            DataQualityKind::UntaggedUsage => "untagged_usage"@,
            DataQualityKind::MissingRegion => "missing_region"@,
            DataQualityKind::UnreconciledAdjustments => "unreconciled_adjustments"@,
        }
    }

    pub fn as_str(self) -> (res: &'static str)
        ensures
            res@ == self.name(),
    {
        match self {
            DataQualityKind::UnconvertedCharges => "unconverted_charges",
            DataQualityKind::UntaggedUsage => "untagged_usage",
            DataQualityKind::MissingRegion => "missing_region",
            DataQualityKind::UnreconciledAdjustments => "unreconciled_adjustments",
        }
    }
}

/// One data-quality finding of a period.
#[derive(Debug)]
pub struct DataQualityIssue {
    pub kind: DataQualityKind,
    pub severity: IssueSeverity,
    pub message: String,
    pub affected_amount: Option<Amount>,
    pub affected_count: i64,
}

impl Clone for DataQualityIssue {
    fn clone(&self) -> (res: Self)
        ensures
            res == *self,
    {
        DataQualityIssue {
            kind: self.kind,
            severity: self.severity,
            message: self.message.clone(),
            affected_amount: self.affected_amount,
            affected_count: self.affected_count,
        }
    }
}

/// The key under which a finding is dismissed: its kind and its period.
pub open spec fn dismissal_key_text(kind: DataQualityKind, billing_period: Seq<char>) -> Seq<char> {
    kind.name() + ":"@ + billing_period
}

impl DataQualityIssue {
    /// `{kind}:{billing_period}`.
    pub fn dismissal_key(&self, billing_period: &str) -> (res: String)
        ensures
            res@ == dismissal_key_text(self.kind, billing_period@),
    {
        text::concat3(self.kind.as_str(), ":", billing_period)
    }
}

/// Two findings share a dismissal key only where they are of one kind and one
/// period.
pub proof fn dismissal_keys_differ(
    kind: DataQualityKind,
    period: Seq<char>,
    other_kind: DataQualityKind,
    other: Seq<char>,
)
    ensures
        dismissal_key_text(kind, period) == dismissal_key_text(other_kind, other) <==> (kind
            == other_kind && period == other),
{
    reveal_strlit("unconverted_charges");
    reveal_strlit("untagged_usage");
    reveal_strlit("missing_region");
    reveal_strlit("unreconciled_adjustments");
    reveal_strlit(":");
    let a = dismissal_key_text(kind, period);
    let b = dismissal_key_text(other_kind, other);
    assert("unconverted_charges"@[2] == 'c');
    assert("untagged_usage"@[2] == 't');
    assert("missing_region"@[2] == 's');
    assert("unreconciled_adjustments"@[2] == 'r');
    assert(a[2] == kind.name()[2]);
    assert(b[2] == other_kind.name()[2]);
    if a == b {
        assert(kind == other_kind);
        let n = kind.name().len() + 1;
        assert(a.skip(n as int) =~= period);
        assert(b.skip(n as int) =~= other);
    }
}

/// How a service moved between two periods.
#[derive(Clone, Copy, PartialEq, Eq, Structural, Debug)]
pub enum MovementKind {
    Appeared,
    Vanished,
    Grown,
    Shrunk,
}

/// What one charge category changed by.
#[derive(Debug)]
pub struct CategoryDelta {
    pub category: String,
    pub current: Amount,
    pub previous: Amount,
    pub delta: Amount,
}

impl Clone for CategoryDelta {
    fn clone(&self) -> (res: Self)
        ensures
            res == *self,
    {
        CategoryDelta {
            category: self.category.clone(),
            current: self.current,
            previous: self.previous,
            delta: self.delta,
        }
    }
}

/// What one service changed by.
#[derive(Debug)]
pub struct ServiceMovement {
    pub service: String,
    pub kind: MovementKind,
    pub current: Amount,
    pub previous: Amount,
    pub delta: Amount,
}

impl Clone for ServiceMovement {
    fn clone(&self) -> (res: Self)
        ensures
            res == *self,
    {
        ServiceMovement {
            service: self.service.clone(),
            kind: self.kind,
            current: self.current,
            previous: self.previous,
            delta: self.delta,
        }
    }
}

/// What the change between two periods is made of.
#[derive(Debug)]
pub struct CostChangeDecomposition {
    pub billing_period: String,
    pub previous_period: String,
    pub current_total: Amount,
    pub previous_total: Amount,
    pub total_delta: Amount,
    /// By charge category, largest absolute change first.
    pub by_category: Vec<CategoryDelta>,
    /// By service, largest absolute change first.
    pub by_service: Vec<ServiceMovement>,
    /// What the split by category leaves unexplained.
    pub residual: Amount,
    pub reconciled: bool,
}

/// One period against the one before it, per service.
#[derive(Debug)]
pub struct PeriodOverPeriod {
    pub current_total: Amount,
    pub previous_total: Amount,
    pub current_by_service: Vec<(String, Amount)>,
    pub previous_by_service: Vec<(String, Amount)>,
}

} // verus!
