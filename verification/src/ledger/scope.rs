//! Which converted rows a read looks at, and which amounts it adds up.
use vstd::prelude::*;

use crate::amount::Amount;
use crate::calendar::Timestamp;
use crate::memory;
use crate::memory::NormalizedRow;
use crate::model::{ChargeCategory, PeriodKey};
use crate::text;

verus! {

// ==================== Scope ====================

/// The axes a read filters on. `None` means unfiltered, so a cross-account read
/// is the same read as its per-account counterpart with a wider scope.
#[derive(Clone, Copy)]
pub struct Scope<'a> {
    pub provider: Option<&'a str>,
    pub account_id: Option<&'a str>,
    pub billing_period: Option<&'a str>,
    /// Matched against the service name that groupings use: a charge with no
    /// service reads as `Other`.
    pub service: Option<&'a str>,
    pub since: Option<Timestamp>,
    pub until: Option<Timestamp>,
    /// Usage rows only, so a credit does not shrink what was consumed.
    pub usage_only: bool,
}

/// What a scope selects by, as values.
pub ghost struct Selection {
    pub provider: Option<Seq<char>>,
    pub account_id: Option<Seq<char>>,
    pub billing_period: Option<Seq<char>>,
    pub service: Option<Seq<char>>,
    pub since: Option<Timestamp>,
    pub until: Option<Timestamp>,
    pub usage_only: bool,
}

/// Everything.
pub open spec fn everything() -> Selection {
    Selection {
        provider: None,
        account_id: None,
        billing_period: None,
        service: None,
        since: None,
        until: None,
        usage_only: false,
    }
}

/// One account's bill for one period.
pub open spec fn of_key(key: PeriodKey) -> Selection {
    Selection {
        provider: Some(key.provider@),
        account_id: Some(key.account_id@),
        billing_period: Some(key.billing_period@),
        ..everything()
    }
}

/// Every account's bill for one period.
pub open spec fn of_period(billing_period: Seq<char>) -> Selection {
    Selection { billing_period: Some(billing_period), ..everything() }
}

/// One account.
pub open spec fn of_account(provider: Seq<char>, account_id: Seq<char>) -> Selection {
    Selection { provider: Some(provider), account_id: Some(account_id), ..everything() }
}

/// One service of one provider.
pub open spec fn of_service(provider: Seq<char>, service: Seq<char>) -> Selection {
    Selection { provider: Some(provider), service: Some(service), ..everything() }
}

impl Selection {
    /// Usage rows only.
    pub open spec fn usage(self) -> Selection {
        Selection { usage_only: true, ..self }
    }

    /// From an instant on.
    pub open spec fn from(self, since: Timestamp) -> Selection {
        Selection { since: Some(since), ..self }
    }

    /// From an instant on and before another.
    pub open spec fn within(self, since: Timestamp, until: Timestamp) -> Selection {
        Selection { since: Some(since), until: Some(until), ..self }
    }

    /// In one billing period.
    pub open spec fn in_period(self, billing_period: Seq<char>) -> Selection {
        Selection { billing_period: Some(billing_period), ..self }
    }
}

pub open spec fn text_view(text: Option<&str>) -> Option<Seq<char>> {
    match text {
        Some(text) => Some(text@),
        None => None,
    }
}

impl<'a> View for Scope<'a> {
    type V = Selection;

    open spec fn view(&self) -> Selection {
        Selection {
            provider: text_view(self.provider),
            account_id: text_view(self.account_id),
            billing_period: text_view(self.billing_period),
            service: text_view(self.service),
            since: self.since,
            until: self.until,
            usage_only: self.usage_only,
        }
    }
}

/// A chosen value matches itself alone; an axis without one matches all.
pub open spec fn chosen(expected: Option<Seq<char>>, actual: Seq<char>) -> bool {
    match expected {
        Some(expected) => expected == actual,
        None => true,
    }
}

/// The name every service grouping uses: `Other` for a charge without one.
pub open spec fn service_name(row: NormalizedRow) -> Seq<char> {
    match row.service_name {
        Some(name) => name@,
        None => "Other"@,
    }
}

/// A row is in scope: it matches every axis, and starts at `since` or later and
/// before `until`.
pub open spec fn in_scope(scope: Selection, row: NormalizedRow) -> bool {
    &&& scope.usage_only ==> row.charge_category == ChargeCategory::Usage
    &&& chosen(scope.provider, row.provider@)
    &&& chosen(scope.account_id, row.account_id@)
    &&& chosen(scope.billing_period, row.billing_period@)
    &&& chosen(scope.service, service_name(row))
    &&& scope.since is Some ==> !row.charge_period_start.before(scope.since->0)
    &&& scope.until is Some ==> row.charge_period_start.before(scope.until->0)
}

fn matches_axis(expected: Option<&str>, actual: &str) -> (res: bool)
    ensures
        res == chosen(text_view(expected), actual@),
{
    match expected {
        Some(expected) => text::same_text(expected, actual),
        None => true,
    }
}

/// `Other` for a charge without a service.
pub fn service_of(row: &NormalizedRow) -> (res: &str)
    ensures
        res@ == service_name(*row),
{
    match &row.service_name {
        Some(name) => name.as_str(),
        None => "Other",
    }
}

impl<'a> Scope<'a> {
    /// The scope that filters on nothing.
    pub fn unfiltered() -> (res: Scope<'a>)
        ensures
            res@ == everything(),
    {
        Scope {
            provider: None,
            account_id: None,
            billing_period: None,
            service: None,
            since: None,
            until: None,
            usage_only: false,
        }
    }

    pub fn matches(&self, row: &NormalizedRow) -> (res: bool)
        ensures
            res == in_scope(self@, *row),
    {
        if self.usage_only && row.charge_category != ChargeCategory::Usage {
            return false;
        }
        if !matches_axis(self.provider, &row.provider) || !matches_axis(
            self.account_id,
            &row.account_id,
        ) || !matches_axis(self.billing_period, &row.billing_period) || !matches_axis(
            self.service,
            service_of(row),
        ) {
            return false;
        }
        let started: bool = match self.since {
            Some(since) => !row.charge_period_start.earlier_than(since),
            None => true,
        };
        let not_over: bool = match self.until {
            Some(until) => row.charge_period_start.earlier_than(until),
            None => true,
        };
        started && not_over
    }
}

/// Being in a scope.
pub open spec fn scoped(scope: Selection) -> spec_fn(NormalizedRow) -> bool {
    |row: NormalizedRow| in_scope(scope, row)
}

/// The rows a scope selects, in ledger order.
pub open spec fn rows_in(rows: Seq<NormalizedRow>, scope: Selection) -> Seq<NormalizedRow> {
    rows.filter(scoped(scope))
}

/// The converted rows `scope` selects.
pub fn selected(all: &Vec<NormalizedRow>, scope: &Scope) -> (res: Vec<NormalizedRow>)
    ensures
        res@ == rows_in(all@, scope@),
        memory::rows_dated(all@) ==> memory::rows_dated(res@),
{
    let mut res: Vec<NormalizedRow> = Vec::new();
    let mut i: usize = 0;
    proof {
        reveal(Seq::filter);
        assert(all@.take(0) =~= Seq::empty());
    }
    while i < all.len()
        invariant
            i <= all.len(),
            res@ == rows_in(all@.take(i as int), scope@),
            memory::rows_dated(all@) ==> memory::rows_dated(res@),
        decreases all.len() - i,
    {
        proof {
            reveal(Seq::filter);
            assert(all@.take(i + 1).drop_last() =~= all@.take(i as int));
            assert(all@.take(i + 1).last() == all@[i as int]);
        }
        if scope.matches(&all[i]) {
            res.push(all[i].clone());
        }
        i = i + 1;
    }
    proof {
        assert(all@.take(i as int) =~= all@);
    }
    res
}

// ==================== Sums ====================

/// The converted amounts of rows, in their order; a row without one adds
/// nothing.
pub open spec fn base_amounts(rows: Seq<NormalizedRow>) -> Seq<Amount>
    decreases rows.len(),
{
    if rows.len() == 0 {
        Seq::empty()
    } else {
        let before = base_amounts(rows.drop_last());
        match rows.last().billed_cost_base {
            Some(amount) => before.push(amount),
            None => before,
        }
    }
}

/// The amounts a net total adds up, across every charge category.
pub fn net_total(rows: &Vec<NormalizedRow>) -> (res: Vec<Amount>)
    ensures
        res@ == base_amounts(rows@),
{
    let mut res: Vec<Amount> = Vec::new();
    let mut i: usize = 0;
    proof {
        assert(rows@.take(0) =~= Seq::empty());
    }
    while i < rows.len()
        invariant
            i <= rows.len(),
            res@ == base_amounts(rows@.take(i as int)),
        decreases rows.len() - i,
    {
        proof {
            assert(rows@.take(i + 1).drop_last() =~= rows@.take(i as int));
            assert(rows@.take(i + 1).last() == rows@[i as int]);
        }
        if let Some(amount) = rows[i].billed_cost_base {
            res.push(amount);
        }
        i = i + 1;
    }
    proof {
        assert(rows@.take(i as int) =~= rows@);
    }
    res
}

pub open spec fn is_usage(row: NormalizedRow) -> bool {
    row.charge_category == ChargeCategory::Usage
}

pub open spec fn is_credit(row: NormalizedRow) -> bool {
    row.charge_category == ChargeCategory::Credit || row.charge_category
        == ChargeCategory::Adjustment
}

/// The usage rows among `rows`.
pub open spec fn usage_rows(rows: Seq<NormalizedRow>) -> Seq<NormalizedRow> {
    rows.filter(|row: NormalizedRow| is_usage(row))
}

/// The rows among `rows` that take usage down to net.
pub open spec fn credit_rows(rows: Seq<NormalizedRow>) -> Seq<NormalizedRow> {
    rows.filter(|row: NormalizedRow| is_credit(row))
}

/// The amounts that gross usage and credits add up.
///
/// Net totals hide credit-covered spend: an account whose usage is fully offset
/// reads as nothing while it really consumed. Tax and purchases are in neither
/// of the two; they still count toward the net total.
pub fn usage_and_credits_of_rows(rows: &Vec<NormalizedRow>) -> (res: (Vec<Amount>, Vec<Amount>))
    ensures
        res.0@ == base_amounts(usage_rows(rows@)),
        res.1@ == base_amounts(credit_rows(rows@)),
{
    let mut usage: Vec<Amount> = Vec::new();
    let mut credits: Vec<Amount> = Vec::new();
    let mut i: usize = 0;
    proof {
        reveal(Seq::filter);
        assert(rows@.take(0) =~= Seq::empty());
        assert(usage_rows(rows@.take(0)) =~= Seq::empty());
        assert(credit_rows(rows@.take(0)) =~= Seq::empty());
    }
    while i < rows.len()
        invariant
            i <= rows.len(),
            usage@ == base_amounts(usage_rows(rows@.take(i as int))),
            credits@ == base_amounts(credit_rows(rows@.take(i as int))),
        decreases rows.len() - i,
    {
        proof {
            reveal(Seq::filter);
            let next = rows@.take(i + 1);
            let row = rows@[i as int];
            assert(next.drop_last() =~= rows@.take(i as int));
            assert(next.last() == row);
            if is_usage(row) {
                assert(usage_rows(next) == usage_rows(rows@.take(i as int)).push(row));
                assert(usage_rows(next).drop_last() =~= usage_rows(rows@.take(i as int)));
            }
            if is_credit(row) {
                assert(credit_rows(next) == credit_rows(rows@.take(i as int)).push(row));
                assert(credit_rows(next).drop_last() =~= credit_rows(rows@.take(i as int)));
            }
        }
        if let Some(amount) = rows[i].billed_cost_base {
            match rows[i].charge_category {
                ChargeCategory::Usage => usage.push(amount),
                ChargeCategory::Credit | ChargeCategory::Adjustment => credits.push(amount),
                ChargeCategory::Purchase | ChargeCategory::Tax => {},
            }
        }
        i = i + 1;
    }
    proof {
        assert(rows@.take(i as int) =~= rows@);
    }
    (usage, credits)
}

} // verus!
