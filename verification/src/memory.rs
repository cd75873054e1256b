//! The data layer: what the ledger and the application state hold, and the
//! one place where a charge is converted into the reporting currency.
use vstd::prelude::*;

use crate::alerts::{AlertEvent, AlertRule};
use crate::amount::Amount;
use crate::calendar;
use crate::calendar::{BillingPeriod, Date, Timestamp};
use crate::list;
use crate::model::{
    BalanceSnapshot, BudgetInfo, Channel, Charge, ChargeCategory, CloudAccount, PeriodKey,
};
use crate::text;

verus! {

/// The bucket a charge without a value for a tag lands in.
pub const UNALLOCATED: &'static str = "Unallocated";

/// One billing period's rows, as the last replacement left them.
///
/// Whole-period replacement is the ledger's write unit, so nothing can leave a
/// half-updated month behind.
#[derive(Debug)]
pub struct StoredPeriod {
    pub key: PeriodKey,
    pub batch_id: String,
    pub channel: Channel,
    pub charges: Vec<Charge>,
    pub completed_at: Timestamp,
}

/// Everything the ledger and the application state hold between them.
#[derive(Debug)]
pub struct Store {
    pub accounts: Vec<CloudAccount>,
    pub budgets: Vec<BudgetInfo>,
    pub alert_rules: Vec<AlertRule>,
    pub alert_events: Vec<AlertEvent>,
    pub dismissed_quality_keys: Vec<String>,
    pub periods: Vec<StoredPeriod>,
    pub balances: Vec<BalanceSnapshot>,
    pub reporting_currency: String,
}

/// What an account is stored under.
pub open spec fn account_key() -> spec_fn(CloudAccount) -> Seq<char> {
    |account: CloudAccount| account.id@
}

/// What a budget is stored under.
pub open spec fn budget_key() -> spec_fn(BudgetInfo) -> Seq<char> {
    |budget: BudgetInfo| budget.account_id@
}

/// What an alerting rule is stored under.
pub open spec fn rule_key() -> spec_fn(AlertRule) -> Seq<char> {
    |rule: AlertRule| rule.id@
}

/// What an alert is stored under.
pub open spec fn event_key() -> spec_fn(AlertEvent) -> Seq<char> {
    |event: AlertEvent| event.id@
}

impl Store {
    /// An empty store that reads amounts in `reporting_currency`.
    pub fn new(reporting_currency: &str) -> (res: Store)
        ensures
            res.is_empty(),
            res.reporting_currency@ == reporting_currency@,
            res.charges_dated(),
            res.ids_distinct(),
    {
        Store {
            accounts: Vec::new(),
            budgets: Vec::new(),
            alert_rules: Vec::new(),
            alert_events: Vec::new(),
            dismissed_quality_keys: Vec::new(),
            periods: Vec::new(),
            balances: Vec::new(),
            reporting_currency: reporting_currency.to_owned(),
        }
    }

    pub open spec fn is_empty(self) -> bool {
        &&& self.accounts@.len() == 0
        &&& self.budgets@.len() == 0
        &&& self.alert_rules@.len() == 0
        &&& self.alert_events@.len() == 0
        &&& self.dismissed_quality_keys@.len() == 0
        &&& self.periods@.len() == 0
        &&& self.balances@.len() == 0
    }

    /// Every charge starts at an instant of the calendar.
    pub open spec fn charges_dated(self) -> bool {
        forall|p: int, c: int|
            #![trigger self.periods@[p].charges@[c]]
            0 <= p < self.periods@.len() && 0 <= c < self.periods@[p].charges@.len()
                ==> self.periods@[p].charges@[c].charge_period_start.valid()
    }

    /// No two accounts, no two alert rules and no two alerts share an id, and no
    /// account has two budgets.
    pub open spec fn ids_distinct(self) -> bool {
        &&& list::keys_distinct(self.accounts@, account_key())
        &&& list::keys_distinct(self.budgets@, budget_key())
        &&& list::keys_distinct(self.alert_rules@, rule_key())
        &&& list::keys_distinct(self.alert_events@, event_key())
    }

    /// The currency amounts are read in.
    pub fn reporting_currency(&self) -> (res: String)
        ensures
            res@ == self.reporting_currency@,
    {
        self.reporting_currency.clone()
    }
}

/// One charge as every read sees it: the same row, with its amounts also in the
/// reporting currency.
#[derive(Debug)]
pub struct NormalizedRow {
    pub provider: String,
    pub account_id: String,
    pub billing_period: String,
    pub charge_description: Option<String>,
    pub service_name: Option<String>,
    pub service_category: Option<String>,
    pub region_id: Option<String>,
    pub resource_id: Option<String>,
    pub resource_name: Option<String>,
    pub pricing_unit: Option<String>,
    pub charge_category: ChargeCategory,
    pub tags: Option<String>,
    pub billing_currency: String,
    pub charge_period_start: Timestamp,
    /// The rate this row converts at. `None` when no rate covers it: a charge
    /// already in the reporting currency converts at one, not at nothing.
    pub fx_rate: Option<Amount>,
    pub billed_cost: Option<Amount>,
    pub billed_cost_base: Option<Amount>,
    pub effective_cost_base: Option<Amount>,
}

impl Clone for NormalizedRow {
    fn clone(&self) -> (res: Self)
        ensures
            res == *self,
    {
        NormalizedRow {
            provider: self.provider.clone(),
            account_id: self.account_id.clone(),
            billing_period: self.billing_period.clone(),
            charge_description: crate::order::clone_text(&self.charge_description),
            service_name: crate::order::clone_text(&self.service_name),
            service_category: crate::order::clone_text(&self.service_category),
            region_id: crate::order::clone_text(&self.region_id),
            resource_id: crate::order::clone_text(&self.resource_id),
            resource_name: crate::order::clone_text(&self.resource_name),
            pricing_unit: crate::order::clone_text(&self.pricing_unit),
            charge_category: self.charge_category,
            tags: crate::order::clone_text(&self.tags),
            billing_currency: self.billing_currency.clone(),
            charge_period_start: self.charge_period_start,
            fx_rate: self.fx_rate,
            billed_cost: self.billed_cost,
            billed_cost_base: self.billed_cost_base,
            effective_cost_base: self.effective_cost_base,
        }
    }
}

// ==================== Conversion ====================

/// A rate that comes with the library: what one unit of `from` is worth in
/// `to`, from a day on.
pub struct BuiltinRate {
    pub from: &'static str,
    pub to: &'static str,
    pub dated: &'static str,
    pub rate: Amount,
}

/// A rate and the day it is dated.
pub struct DatedRate {
    pub from: Seq<char>,
    pub to: Seq<char>,
    pub date: Date,
    pub rate: Amount,
}

/// The rates there are: US dollars to yuan at 7.10 and yuan to US dollars at
/// 0.1408, both from the first day of 2026 on.
pub open spec fn builtin_rates() -> Seq<DatedRate> {
    seq![
        DatedRate {
            from: "USD"@,
            to: "CNY"@,
            date: Date { year: 2026, month: 1, day: 1 },
            rate: Amount { bits: 0x401C_6666_6666_6666 },
        },
        DatedRate {
            from: "CNY"@,
            to: "USD"@,
            date: Date { year: 2026, month: 1, day: 1 },
            rate: Amount { bits: 0x3FC2_05BC_01A3_6E2F },
        },
    ]
}

/// A rate converts between two currencies on a day: it is dated on that day or
/// before.
pub open spec fn covers(rate: DatedRate, from: Seq<char>, to: Seq<char>, day: int) -> bool {
    rate.from == from && rate.to == to && rate.date.number() <= day
}

/// The position of the newest rate that covers a conversion, the last of them
/// where several share a day.
pub open spec fn newest_rate(
    rates: Seq<DatedRate>,
    from: Seq<char>,
    to: Seq<char>,
    day: int,
) -> Option<int>
    decreases rates.len(),
{
    if rates.len() == 0 {
        None
    } else {
        let earlier = newest_rate(rates.drop_last(), from, to, day);
        if covers(rates.last(), from, to, day) && (earlier is None
            || rates[earlier->0].date.number() <= rates.last().date.number()) {
            Some(rates.len() - 1)
        } else {
            earlier
        }
    }
}

/// The rate a charge converts at, or `None` when no rate covers it: one for a
/// charge already in the reporting currency, otherwise the newest rate dated on
/// or before the charge's day.
pub open spec fn conversion_rate(charge: Charge, reporting: Seq<char>) -> Option<Amount> {
    if charge.billing_currency@ == reporting {
        Some(Amount { bits: crate::amount::ONE })
    } else {
        match newest_rate(
            builtin_rates(),
            charge.billing_currency@,
            reporting,
            charge.charge_period_start.day(),
        ) {
            Some(i) => Some(builtin_rates()[i].rate),
            None => None,
        }
    }
}

/// A charge takes a rate that covers it whenever there is one, never one dated
/// after the charge, and none that is older than another that covers it.
pub proof fn newest_rate_is_newest(rates: Seq<DatedRate>, from: Seq<char>, to: Seq<char>, day: int)
    ensures
        match newest_rate(rates, from, to, day) {
            Some(i) => {
                &&& 0 <= i < rates.len()
                &&& covers(rates[i], from, to, day)
                &&& forall|j: int|
                    0 <= j < rates.len() && covers(#[trigger] rates[j], from, to, day)
                        ==> rates[j].date.number() <= rates[i].date.number()
            },
            None => forall|j: int|
                0 <= j < rates.len() ==> !covers(#[trigger] rates[j], from, to, day),
        },
    decreases rates.len(),
{
    if rates.len() > 0 {
        newest_rate_is_newest(rates.drop_last(), from, to, day);
        assert forall|j: int| 0 <= j < rates.len() - 1 implies rates.drop_last()[j]
            == #[trigger] rates[j] by {}
    }
}

proof fn lemma_rates_dated()
    ensures
        (Date { year: 2026, month: 1, day: 1 }).valid(),
        "2026-01-01"@ == calendar::day_label(Date { year: 2026, month: 1, day: 1 }),
{
    reveal_strlit("2026-01-01");
    reveal_strlit("-");
    reveal_with_fuel(text::decimal, 5);
    reveal_with_fuel(text::zeros, 5);
    assert(text::padded(2026, 4) =~= seq!['2', '0', '2', '6']);
    assert(text::padded(1, 2) =~= seq!['0', '1']);
    assert("-"@ =~= seq!['-']);
    assert("2026-01-01"@ =~= seq!['2', '0', '2', '6', '-', '0', '1', '-', '0', '1']);
    assert(calendar::day_label(Date { year: 2026, month: 1, day: 1 }) =~= seq![
        '2',
        '0',
        '2',
        '6',
        '-',
        '0',
        '1',
        '-',
        '0',
        '1',
    ]);
}

/// The table of built-in rates, their days as text.
fn builtin_rate_table() -> (res: Vec<BuiltinRate>)
    ensures
        res@.len() == builtin_rates().len(),
        forall|i: int|
            0 <= i < res@.len() ==> {
                &&& #[trigger] res@[i].from@ == builtin_rates()[i].from
                &&& res@[i].to@ == builtin_rates()[i].to
                &&& res@[i].rate == builtin_rates()[i].rate
                &&& builtin_rates()[i].date.valid()
                &&& 0 <= builtin_rates()[i].date.year <= 9999
                &&& res@[i].dated@ == calendar::day_label(builtin_rates()[i].date)
            },
{
    proof {
        lemma_rates_dated();
    }
    let mut rates: Vec<BuiltinRate> = Vec::new();
    rates.push(
        BuiltinRate {
            from: "USD",
            to: "CNY",
            dated: "2026-01-01",
            rate: Amount { bits: 0x401C_6666_6666_6666 },
        },
    );
    rates.push(
        BuiltinRate {
            from: "CNY",
            to: "USD",
            dated: "2026-01-01",
            rate: Amount { bits: 0x3FC2_05BC_01A3_6E2F },
        },
    );
    rates
}

/// The rate a charge converts at, or `None` when no rate covers it.
pub fn rate_for(charge: &Charge, reporting: &str) -> (res: Option<Amount>)
    requires
        charge.charge_period_start.valid(),
    ensures
        res == conversion_rate(*charge, reporting@),
{
    if text::same_text(&charge.billing_currency, reporting) {
        return Some(Amount { bits: crate::amount::ONE });
    }
    let charged_on = charge.charge_period_start.date();
    let rates = builtin_rate_table();
    let ghost all = builtin_rates();
    let ghost from = charge.billing_currency@;
    let ghost day = charge.charge_period_start.day();
    let mut best: Option<(Date, Amount)> = None;
    let mut i: usize = 0;
    proof {
        assert(all.take(0) =~= Seq::empty());
    }
    while i < rates.len()
        invariant
            i <= rates.len(),
            rates@.len() == all.len(),
            all == builtin_rates(),
            from == charge.billing_currency@,
            day == charge.charge_period_start.day(),
            charged_on.valid(),
            charged_on.number() == day,
            forall|k: int|
                0 <= k < rates@.len() ==> {
                    &&& #[trigger] rates@[k].from@ == all[k].from
                    &&& rates@[k].to@ == all[k].to
                    &&& rates@[k].rate == all[k].rate
                    &&& all[k].date.valid()
                    &&& 0 <= all[k].date.year <= 9999
                    &&& rates@[k].dated@ == calendar::day_label(all[k].date)
                },
            match newest_rate(all.take(i as int), from, reporting@, day) {
                Some(k) => 0 <= k < i && best == Some((all[k].date, all[k].rate)),
                None => best is None,
            },
        decreases rates.len() - i,
    {
        let rate = &rates[i];
        proof {
            newest_rate_is_newest(all.take(i as int), from, reporting@, day);
            assert(all.take(i + 1).drop_last() =~= all.take(i as int));
            assert(all.take(i + 1).last() == all[i as int]);
        }
        if text::same_text(rate.from, &charge.billing_currency) && text::same_text(
            rate.to,
            reporting,
        ) {
            match Date::parse(rate.dated) {
                Some(dated) => {
                    proof {
                        assert(dated == all[i as int].date);
                        calendar::day_numbers_follow_the_calendar(charged_on, dated);
                    }
                    if !charged_on.earlier_than(dated) {
                        let newer: bool = match best {
                            Some((date, _)) => {
                                proof {
                                    calendar::day_numbers_follow_the_calendar(dated, date);
                                }
                                !dated.earlier_than(date)
                            },
                            None => true,
                        };
                        if newer {
                            best = Some((dated, rate.rate));
                        }
                    }
                },
                None => {},
            }
        }
        i = i + 1;
    }
    proof {
        assert(all.take(i as int) =~= all);
    }
    match best {
        Some((_, rate)) => Some(rate),
        None => None,
    }
}

/// One charge converted. `products` holds the charge's billed and effective
/// cost, each times the charge's rate; it is read only where there is a cost
/// and a rate to multiply.
pub open spec fn converted(
    key: PeriodKey,
    charge: Charge,
    reporting: Seq<char>,
    products: (Amount, Amount),
) -> NormalizedRow {
    let rate = conversion_rate(charge, reporting);
    NormalizedRow {
        provider: key.provider,
        account_id: key.account_id,
        billing_period: key.billing_period,
        charge_description: charge.charge_description,
        service_name: charge.service_name,
        service_category: charge.service_category,
        region_id: charge.region_id,
        resource_id: charge.resource_id,
        resource_name: charge.resource_name,
        pricing_unit: charge.pricing_unit,
        charge_category: charge.charge_category,
        tags: charge.tags,
        billing_currency: charge.billing_currency,
        charge_period_start: charge.charge_period_start,
        fx_rate: rate,
        billed_cost: charge.billed_cost,
        billed_cost_base: if charge.billed_cost is Some && rate is Some {
            Some(products.0)
        } else {
            None
        },
        effective_cost_base: if charge.effective_cost is Some && rate is Some {
            Some(products.1)
        } else {
            None
        },
    }
}

/// The converted rows of one period, in the order of its charges.
pub open spec fn converted_period(
    period: StoredPeriod,
    reporting: Seq<char>,
    products: Seq<(Amount, Amount)>,
) -> Seq<NormalizedRow> {
    Seq::new(
        period.charges@.len(),
        |c: int| converted(period.key, period.charges@[c], reporting, products[c]),
    )
}

/// The converted rows of every period, in the order of the periods.
pub open spec fn converted_periods(
    periods: Seq<StoredPeriod>,
    reporting: Seq<char>,
    products: Seq<Vec<(Amount, Amount)>>,
) -> Seq<NormalizedRow>
    decreases periods.len(),
{
    if periods.len() == 0 {
        Seq::empty()
    } else {
        converted_periods(periods.drop_last(), reporting, products) + converted_period(
            periods.last(),
            reporting,
            products[periods.len() - 1]@,
        )
    }
}

/// One product pair per charge of every period.
pub open spec fn products_match(
    periods: Seq<StoredPeriod>,
    products: Seq<Vec<(Amount, Amount)>>,
) -> bool {
    &&& products.len() == periods.len()
    &&& forall|p: int|
        0 <= p < periods.len() ==> #[trigger] products[p]@.len() == periods[p].charges@.len()
}

/// Every charge in the store, converted.
///
/// `products` holds, for each charge of each period, its billed and effective
/// cost times the rate that [`rate_for`] gives. A charge that no rate covers
/// has no converted amount, so a sum leaves it out rather than counting it at
/// par.
pub fn normalized(store: &Store, products: &Vec<Vec<(Amount, Amount)>>) -> (res: Vec<NormalizedRow>)
    requires
        store.charges_dated(),
        products_match(store.periods@, products@),
    ensures
        res@ == converted_periods(store.periods@, store.reporting_currency@, products@),
        rows_dated(res@),
{
    let mut rows: Vec<NormalizedRow> = Vec::new();
    let ghost periods = store.periods@;
    let ghost reporting = store.reporting_currency@;
    let mut p: usize = 0;
    proof {
        assert(periods.take(0) =~= Seq::empty());
    }
    while p < store.periods.len()
        invariant
            p <= store.periods.len(),
            periods == store.periods@,
            reporting == store.reporting_currency@,
            store.charges_dated(),
            products_match(periods, products@),
            rows@ == converted_periods(periods.take(p as int), reporting, products@),
            rows_dated(rows@),
        decreases store.periods.len() - p,
    {
        let period = &store.periods[p];
        let pairs = &products[p];
        let ghost before = rows@;
        let ghost whole = converted_period(*period, reporting, pairs@);
        let mut c: usize = 0;
        proof {
            assert(before + whole.take(0) =~= before);
        }
        while c < period.charges.len()
            invariant
                c <= period.charges.len(),
                p < store.periods.len(),
                *period == store.periods@[p as int],
                pairs@.len() == period.charges@.len(),
                reporting == store.reporting_currency@,
                store.charges_dated(),
                whole == converted_period(*period, reporting, pairs@),
                rows@ == before + whole.take(c as int),
                rows_dated(rows@),
            decreases period.charges.len() - c,
        {
            let charge = &period.charges[c];
            proof {
                assert(store.periods@[p as int].charges@[c as int].charge_period_start.valid());
            }
            let fx_rate = rate_for(charge, &store.reporting_currency);
            let row = NormalizedRow {
                provider: period.key.provider.clone(),
                account_id: period.key.account_id.clone(),
                billing_period: period.key.billing_period.clone(),
                charge_description: crate::order::clone_text(&charge.charge_description),
                service_name: crate::order::clone_text(&charge.service_name),
                service_category: crate::order::clone_text(&charge.service_category),
                region_id: crate::order::clone_text(&charge.region_id),
                resource_id: crate::order::clone_text(&charge.resource_id),
                resource_name: crate::order::clone_text(&charge.resource_name),
                pricing_unit: crate::order::clone_text(&charge.pricing_unit),
                charge_category: charge.charge_category,
                tags: crate::order::clone_text(&charge.tags),
                billing_currency: charge.billing_currency.clone(),
                charge_period_start: charge.charge_period_start,
                fx_rate,
                billed_cost: charge.billed_cost,
                billed_cost_base: if charge.billed_cost.is_some() && fx_rate.is_some() {
                    Some(pairs[c].0)
                } else {
                    None
                },
                effective_cost_base: if charge.effective_cost.is_some() && fx_rate.is_some() {
                    Some(pairs[c].1)
                } else {
                    None
                },
            };
            proof {
                assert(row == whole[c as int]);
                assert(whole.take(c + 1) =~= whole.take(c as int).push(row));
            }
            rows.push(row);
            c = c + 1;
        }
        proof {
            assert(whole.take(c as int) =~= whole);
            assert(periods.take(p + 1).drop_last() =~= periods.take(p as int));
            assert(periods.take(p + 1).last() == *period);
        }
        p = p + 1;
    }
    proof {
        assert(periods.take(p as int) =~= periods);
    }
    rows
}

/// Every row starts at an instant of the calendar.
pub open spec fn rows_dated(rows: Seq<NormalizedRow>) -> bool {
    forall|i: int| 0 <= i < rows.len() ==> #[trigger] rows[i].charge_period_start.valid()
}

// ==================== Tags and days ====================

/// The text that a JSON object holds under a key: what `serde_json` reads from
/// `text`, looked up under `key`, where that is a string.
pub uninterp spec fn json_member(text: Seq<char>, key: Seq<char>) -> Option<Seq<char>>;

/// The string under a key of a JSON object: `serde_json::from_str` into a
/// `Value`, `Value::get` and `Value::as_str`. The result is a function of the
/// text and the key; `None` stands for text that is no JSON, for a missing key
/// and for a member that is no string alike.
#[verifier::external_body]
fn serde_json_member(text: &str, key: &str) -> (res: Option<String>)
    ensures
        json_member(text@, key@) == crate::order::part_view(res),
{
    let value = serde_json::from_str::<serde_json::Value>(text).ok()?;
    value.get(key)?.as_str().map(str::to_string)
}

/// The string under a key of a JSON object's text.
pub fn json_text(text: &str, key: &str) -> (res: Option<String>)
    ensures
        json_member(text@, key@) == crate::order::part_view(res),
{
    serde_json_member(text, key)
}

/// The tag value a member stands for: itself, unless it is missing or empty.
pub open spec fn tag_or_unallocated(member: Option<Seq<char>>) -> Seq<char> {
    match member {
        Some(value) => if value.len() > 0 {
            value
        } else {
            "Unallocated"@
        },
        None => "Unallocated"@,
    }
}

/// The tag value of a charge, by the text of its tags.
pub open spec fn tag_of(tags: Option<Seq<char>>, tag_key: Seq<char>) -> Seq<char> {
    match tags {
        Some(tags) => tag_or_unallocated(json_member(tags, tag_key)),
        None => "Unallocated"@,
    }
}

/// The bucket of a tag value that was looked up: a missing or empty value
/// counts toward the unallocated share.
pub fn tag_bucket(member: Option<String>) -> (res: String)
    ensures
        res@ == tag_or_unallocated(crate::order::part_view(member)),
{
    match member {
        Some(value) => if !value.as_str().is_empty() {
            value
        } else {
            UNALLOCATED.to_owned()
        },
        None => UNALLOCATED.to_owned(),
    }
}

/// The tag value one charge reaches a business line through, or
/// `Unallocated`: for a charge with no tags, no such key, or an empty value.
pub fn tag_value(tags: Option<&str>, tag_key: &str) -> (res: String)
    ensures
        res@ == tag_of(
            match tags {
                Some(tags) => Some(tags@),
                None => None,
            },
            tag_key@,
        ),
{
    match tags {
        Some(tags) => tag_bucket(json_text(tags, tag_key)),
        None => UNALLOCATED.to_owned(),
    }
}

/// A charge's calendar day as `YYYY-MM-DD`.
pub fn day_of(at: Timestamp) -> (res: String)
    requires
        at.valid(),
    ensures
        res@ == calendar::day_label(at.on()),
{
    at.date().label()
}

/// The billing period an instant falls in, as the ledger stores it.
pub fn period_label_of(at: Timestamp) -> (res: String)
    requires
        at.valid(),
    ensures
        res@ == calendar::period_of(at).text(),
{
    BillingPeriod::containing(at).label()
}

} // verus!
