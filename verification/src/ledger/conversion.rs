//! What reading charges in one currency keeps of them, and what it adds.
use vstd::prelude::*;

use crate::amount::Amount;
use crate::calendar;
use crate::calendar::Date;
use crate::memory;
use crate::memory::{NormalizedRow, StoredPeriod};
use crate::model::Charge;

verus! {

/// How many charges the first `p` periods hold: where the rows of the next one
/// begin.
pub open spec fn charges_ahead(periods: Seq<StoredPeriod>, p: int) -> int
    decreases p,
{
    if p <= 0 {
        0
    } else {
        charges_ahead(periods, p - 1) + periods[p - 1].charges@.len()
    }
}

proof fn lemma_charges_ahead(periods: Seq<StoredPeriod>, fewer: Seq<StoredPeriod>, p: int)
    requires
        0 <= p <= fewer.len() <= periods.len(),
        fewer == periods.take(fewer.len() as int),
    ensures
        charges_ahead(fewer, p) == charges_ahead(periods, p),
        charges_ahead(periods, p) >= 0,
    decreases p,
{
    if p > 0 {
        lemma_charges_ahead(periods, fewer, p - 1);
        assert(fewer[p - 1] == periods[p - 1]);
    }
}

proof fn lemma_row_of_charge(
    periods: Seq<StoredPeriod>,
    reporting: Seq<char>,
    products: Seq<Vec<(Amount, Amount)>>,
    p: int,
    c: int,
)
    requires
        0 <= p < periods.len(),
        0 <= c < periods[p].charges@.len(),
    ensures
        memory::converted_periods(periods, reporting, products).len() == charges_ahead(
            periods,
            periods.len() as int,
        ),
        0 <= charges_ahead(periods, p) + c < memory::converted_periods(
            periods,
            reporting,
            products,
        ).len(),
        memory::converted_periods(periods, reporting, products)[charges_ahead(periods, p) + c]
            == memory::converted(
            periods[p].key,
            periods[p].charges@[c],
            reporting,
            products[p]@[c],
        ),
    decreases periods.len(),
{
    let fewer = periods.drop_last();
    assert(fewer =~= periods.take(fewer.len() as int));
    lemma_rows_counted(fewer, reporting, products);
    lemma_charges_ahead(periods, fewer, fewer.len() as int);
    lemma_charges_ahead(periods, fewer, if p < fewer.len() {
        p
    } else {
        fewer.len() as int
    });
    if p < fewer.len() {
        lemma_row_of_charge(fewer, reporting, products, p, c);
        assert(fewer[p] == periods[p]);
    }
}

proof fn lemma_rows_counted(
    periods: Seq<StoredPeriod>,
    reporting: Seq<char>,
    products: Seq<Vec<(Amount, Amount)>>,
)
    ensures
        memory::converted_periods(periods, reporting, products).len() == charges_ahead(
            periods,
            periods.len() as int,
        ),
    decreases periods.len(),
{
    if periods.len() > 0 {
        let fewer = periods.drop_last();
        assert(fewer =~= periods.take(fewer.len() as int));
        lemma_rows_counted(fewer, reporting, products);
        lemma_charges_ahead(periods, fewer, fewer.len() as int);
    }
}

/// Reading the ledger makes one row of every charge, in the order in which they
/// are stored, and keeps what the charge says of itself: where it was billed,
/// what it is for, when, of what category and in which currency.
pub proof fn a_row_tells_of_its_charge(
    rows: Seq<NormalizedRow>,
    periods: Seq<StoredPeriod>,
    reporting: Seq<char>,
    products: Seq<Vec<(Amount, Amount)>>,
    p: int,
    c: int,
)
    requires
        rows == memory::converted_periods(periods, reporting, products),
        0 <= p < periods.len(),
        0 <= c < periods[p].charges@.len(),
    ensures
        rows.len() == charges_ahead(periods, periods.len() as int),
        0 <= charges_ahead(periods, p) + c < rows.len(),
        ({
            let row = rows[charges_ahead(periods, p) + c];
            let charge = periods[p].charges@[c];
            &&& row.provider == periods[p].key.provider
            &&& row.account_id == periods[p].key.account_id
            &&& row.billing_period == periods[p].key.billing_period
            &&& row.charge_description == charge.charge_description
            &&& row.service_name == charge.service_name
            &&& row.service_category == charge.service_category
            &&& row.region_id == charge.region_id
            &&& row.resource_id == charge.resource_id
            &&& row.resource_name == charge.resource_name
            &&& row.pricing_unit == charge.pricing_unit
            &&& row.charge_category == charge.charge_category
            &&& row.tags == charge.tags
            &&& row.billing_currency == charge.billing_currency
            &&& row.charge_period_start == charge.charge_period_start
            &&& row.billed_cost == charge.billed_cost
        }),
{
    lemma_row_of_charge(periods, reporting, products, p, c);
}

/// The row at `r` is that of a charge of a period.
pub open spec fn stands_at(periods: Seq<StoredPeriod>, p: int, c: int, r: int) -> bool {
    0 <= p < periods.len() && 0 <= c < periods[p].charges@.len() && r == charges_ahead(periods, p)
        + c
}

/// Every row is the row of some charge.
pub proof fn every_row_has_its_charge(
    rows: Seq<NormalizedRow>,
    periods: Seq<StoredPeriod>,
    reporting: Seq<char>,
    products: Seq<Vec<(Amount, Amount)>>,
    r: int,
)
    requires
        rows == memory::converted_periods(periods, reporting, products),
        0 <= r < rows.len(),
    ensures
        exists|p: int, c: int| #[trigger] stands_at(periods, p, c, r),
    decreases periods.len(),
{
    let fewer = periods.drop_last();
    let last = periods.len() - 1;
    assert(fewer =~= periods.take(fewer.len() as int));
    lemma_rows_counted(fewer, reporting, products);
    lemma_charges_ahead(periods, fewer, fewer.len() as int);
    let ahead = memory::converted_periods(fewer, reporting, products);
    if r < ahead.len() {
        every_row_has_its_charge(ahead, fewer, reporting, products, r);
        let (p, c) = choose|p: int, c: int| #[trigger] stands_at(fewer, p, c, r);
        lemma_charges_ahead(periods, fewer, p);
        assert(stands_at(periods, p, c, r));
    } else {
        assert(stands_at(periods, last, r - ahead.len(), r));
    }
}

/// A row's billed amount in the reporting currency is its own billed cost times
/// its own rate, and its effective amount its effective cost times that rate;
/// neither depends on the other. Without a cost or without a rate there is no
/// amount. `times` is how amounts are multiplied.
pub proof fn amounts_are_converted_by_the_rate(
    rows: Seq<NormalizedRow>,
    periods: Seq<StoredPeriod>,
    reporting: Seq<char>,
    products: Seq<Vec<(Amount, Amount)>>,
    times: spec_fn(Amount, Amount) -> Amount,
    p: int,
    c: int,
)
    requires
        rows == memory::converted_periods(periods, reporting, products),
        0 <= p < periods.len(),
        0 <= c < periods[p].charges@.len(),
        ({
            let charge = periods[p].charges@[c];
            let rate = memory::conversion_rate(charge, reporting);
            &&& charge.billed_cost is Some && rate is Some ==> products[p]@[c].0 == times(
                charge.billed_cost->0,
                rate->0,
            )
            &&& charge.effective_cost is Some && rate is Some ==> products[p]@[c].1 == times(
                charge.effective_cost->0,
                rate->0,
            )
        }),
    ensures
        ({
            let row = rows[charges_ahead(periods, p) + c];
            let charge = periods[p].charges@[c];
            &&& row.fx_rate == memory::conversion_rate(charge, reporting)
            &&& row.billed_cost_base == (match (charge.billed_cost, row.fx_rate) {
                (Some(cost), Some(rate)) => Some(times(cost, rate)),
                _ => None,
            })
            &&& row.effective_cost_base == (match (charge.effective_cost, row.fx_rate) {
                (Some(cost), Some(rate)) => Some(times(cost, rate)),
                _ => None,
            })
        }),
{
    lemma_row_of_charge(periods, reporting, products, p, c);
}

/// A charge that is already in the reporting currency reads as it was billed:
/// its rate is one, and where a cost times one is that cost, its amounts in the
/// reporting currency are its own.
pub proof fn the_reporting_currency_reads_at_par(
    rows: Seq<NormalizedRow>,
    periods: Seq<StoredPeriod>,
    reporting: Seq<char>,
    products: Seq<Vec<(Amount, Amount)>>,
    p: int,
    c: int,
)
    requires
        rows == memory::converted_periods(periods, reporting, products),
        0 <= p < periods.len(),
        0 <= c < periods[p].charges@.len(),
        periods[p].charges@[c].billing_currency@ == reporting,
        periods[p].charges@[c].billed_cost is Some ==> products[p]@[c].0
            == periods[p].charges@[c].billed_cost->0,
        periods[p].charges@[c].effective_cost is Some ==> products[p]@[c].1
            == periods[p].charges@[c].effective_cost->0,
    ensures
        ({
            let row = rows[charges_ahead(periods, p) + c];
            let charge = periods[p].charges@[c];
            &&& row.fx_rate == Some(Amount { bits: 0x3FF0_0000_0000_0000 })
            &&& row.billed_cost_base == charge.billed_cost
            &&& row.billed_cost_base == row.billed_cost
            &&& row.effective_cost_base == charge.effective_cost
        }),
{
    lemma_row_of_charge(periods, reporting, products, p, c);
}

proof fn lemma_first_of_2026()
    ensures
        (Date { year: 2026, month: 1, day: 1 }).number() == 20_454,
{
    assert((Date { year: 2026, month: 1, day: 1 }).number() == calendar::days_before_year(2026) + 1
        - 719_163);
}

/// What a charge in another currency converts at: dollars to yuan at 7.10 and
/// yuan to dollars at 0.1408, each from the first day of 2026 on. Nothing else
/// converts, and nothing does before that day.
pub proof fn other_currencies_convert_from_2026_on(charge: Charge, reporting: Seq<char>)
    requires
        charge.billing_currency@ != reporting,
    ensures
        memory::conversion_rate(charge, reporting) == (if charge.charge_period_start.seconds
            < 1_767_225_600 {
            None
        } else if charge.billing_currency@ == "USD"@ && reporting == "CNY"@ {
            Some(Amount { bits: 0x401C_6666_6666_6666 })
        } else if charge.billing_currency@ == "CNY"@ && reporting == "USD"@ {
            Some(Amount { bits: 0x3FC2_05BC_01A3_6E2F })
        } else {
            None
        }),
{
    let rates = memory::builtin_rates();
    let day = charge.charge_period_start.day();
    let from = charge.billing_currency@;
    lemma_first_of_2026();
    reveal_strlit("USD");
    reveal_strlit("CNY");
    assert("USD"@[0] != "CNY"@[0]);
    assert(day < 20_454 <==> charge.charge_period_start.seconds < 1_767_225_600);
    assert(rates.drop_last().drop_last().len() == 0);
    assert(rates.drop_last()[0] == rates[0]);
    assert(memory::newest_rate(rates.drop_last().drop_last(), from, reporting, day) is None);
    reveal_with_fuel(memory::newest_rate, 3);
}

/// Two charges of one currency convert alike where both fall on days that the
/// same rates cover: the rate depends on the currency and the day alone.
pub proof fn a_rate_depends_on_currency_and_day(
    charge: Charge,
    other: Charge,
    reporting: Seq<char>,
)
    requires
        charge.billing_currency@ == other.billing_currency@,
        charge.charge_period_start.seconds as int / 86_400
            == other.charge_period_start.seconds as int / 86_400,
    ensures
        memory::conversion_rate(charge, reporting) == memory::conversion_rate(other, reporting),
{
}

} // verus!
