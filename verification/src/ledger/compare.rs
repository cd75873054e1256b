//! What forecasts, comparisons of two periods and the data-quality check are
//! measured from.
use vstd::prelude::*;

use super::buckets;
use super::buckets::{totals_by_name, Grouping};
use super::ranked;
use super::ranked::{keep_positive, unconverted_charges, untagged_usage_rows};
use super::scope;
use super::scope::{net_total, selected, service_of, usage_and_credits_of_rows, Scope};
use crate::amount::Amount;
use crate::calendar;
use crate::calendar::{BillingPeriod, Date, Timestamp};
use crate::memory;
use crate::memory::NormalizedRow;
use crate::model::{BreakdownDim, ChargeCategory};
use crate::order;
use crate::text;

verus! {

/// Keep the rows that a test accepts. `kept[i]` says what the test says of row
/// `i`.
fn rows_where(
    rows: &Vec<NormalizedRow>,
    kept: &Vec<bool>,
    Ghost(keep): Ghost<spec_fn(NormalizedRow) -> bool>,
) -> (res: Vec<NormalizedRow>)
    requires
        kept@.len() == rows@.len(),
        forall|i: int| 0 <= i < rows@.len() ==> #[trigger] kept@[i] == keep(rows@[i]),
    ensures
        res@ == rows@.filter(keep),
        memory::rows_dated(rows@) ==> memory::rows_dated(res@),
{
    let mut res: Vec<NormalizedRow> = Vec::new();
    let mut i: usize = 0;
    proof {
        reveal(Seq::filter);
        assert(rows@.take(0) =~= Seq::empty());
    }
    while i < rows.len()
        invariant
            i <= rows.len(),
            kept@.len() == rows@.len(),
            forall|j: int| 0 <= j < rows@.len() ==> #[trigger] kept@[j] == keep(rows@[j]),
            res@ == rows@.take(i as int).filter(keep),
            memory::rows_dated(rows@) ==> memory::rows_dated(res@),
        decreases rows.len() - i,
    {
        proof {
            reveal(Seq::filter);
            assert(rows@.take(i + 1).drop_last() =~= rows@.take(i as int));
            assert(rows@.take(i + 1).last() == rows@[i as int]);
        }
        if kept[i] {
            res.push(rows[i].clone());
        }
        i = i + 1;
    }
    proof {
        assert(rows@.take(i as int) =~= rows@);
    }
    res
}

// ==================== Forecasting ====================

/// Starting before an instant.
pub open spec fn starting_before(now: Timestamp) -> spec_fn(NormalizedRow) -> bool {
    |row: NormalizedRow| row.charge_period_start.before(now)
}

/// The earliest start among rows.
pub open spec fn earliest_start(rows: Seq<NormalizedRow>) -> Option<Timestamp>
    decreases rows.len(),
{
    if rows.len() == 0 {
        None
    } else {
        let start = rows.last().charge_period_start;
        match earliest_start(rows.drop_last()) {
            Some(at) => Some(
                if start.before(at) {
                    start
                } else {
                    at
                },
            ),
            None => Some(start),
        }
    }
}

/// The earliest start is one of the rows' starts, and none is before it.
pub proof fn earliest_start_is_earliest(rows: Seq<NormalizedRow>)
    ensures
        match earliest_start(rows) {
            Some(at) => {
                &&& exists|i: int| 0 <= i < rows.len() && #[trigger] rows[i].charge_period_start == at
                &&& forall|i: int|
                    0 <= i < rows.len() ==> !(#[trigger] rows[i].charge_period_start).before(at)
            },
            None => rows.len() == 0,
        },
    decreases rows.len(),
{
    if rows.len() > 0 {
        let fewer = rows.drop_last();
        earliest_start_is_earliest(fewer);
        assert(rows[rows.len() - 1] == rows.last());
        assert forall|i: int| 0 <= i < fewer.len() implies fewer[i] == #[trigger] rows[i] by {}
        if let Some(at) = earliest_start(fewer) {
            let k = choose|k: int| 0 <= k < fewer.len() && #[trigger] fewer[k].charge_period_start == at;
            assert(rows[k].charge_period_start == at);
        }
    }
}

/// What a run-rate forecast is measured from: the charges before `now`, and the
/// day of the earliest of them.
pub struct RunRate {
    pub month_to_date: Vec<Amount>,
    pub first_charge: Option<Date>,
}

/// `rate` is measured from the rows that start before `now`.
pub open spec fn run_rate_of(rate: RunRate, rows: Seq<NormalizedRow>, now: Timestamp) -> bool {
    let counted = rows.filter(starting_before(now));
    &&& rate.month_to_date@ == scope::base_amounts(counted)
    &&& rate.first_charge == (match earliest_start(counted) {
        Some(at) => Some(at.on()),
        None => None,
    })
}

/// Only the charges before `now` count, and their earliest day is what the
/// daily rate is measured from.
pub fn run_rate(rows: &Vec<NormalizedRow>, now: Timestamp) -> (res: RunRate)
    requires
        memory::rows_dated(rows@),
    ensures
        run_rate_of(res, rows@, now),
        res.first_charge is Some ==> res.first_charge->0.valid(),
{
    let mut kept: Vec<bool> = Vec::new();
    let mut i: usize = 0;
    while i < rows.len()
        invariant
            i <= rows.len(),
            kept@.len() == i,
            forall|j: int|
                0 <= j < i ==> #[trigger] kept@[j] == starting_before(now)(rows@[j]),
        decreases rows.len() - i,
    {
        kept.push(rows[i].charge_period_start.earlier_than(now));
        i = i + 1;
    }
    let counted = rows_where(rows, &kept, Ghost(starting_before(now)));
    let mut first: Option<Timestamp> = None;
    let mut k: usize = 0;
    proof {
        assert(counted@.take(0) =~= Seq::empty());
    }
    while k < counted.len()
        invariant
            k <= counted.len(),
            memory::rows_dated(counted@),
            first == earliest_start(counted@.take(k as int)),
            first is Some ==> first->0.valid(),
        decreases counted.len() - k,
    {
        proof {
            assert(counted@.take(k + 1).drop_last() =~= counted@.take(k as int));
            assert(counted@.take(k + 1).last() == counted@[k as int]);
            assert(counted@[k as int].charge_period_start.valid());
        }
        let start = counted[k].charge_period_start;
        first = match first {
            Some(at) => Some(
                if start.earlier_than(at) {
                    start
                } else {
                    at
                },
            ),
            None => Some(start),
        };
        k = k + 1;
    }
    proof {
        assert(counted@.take(k as int) =~= counted@);
    }
    let first_charge = match first {
        Some(at) => Some(at.date()),
        None => None,
    };
    RunRate { month_to_date: net_total(&counted), first_charge }
}

/// What the forecast of a billing period is measured from.
pub fn forecast_for_period(all: &Vec<NormalizedRow>, billing_period: &str, now: Timestamp) -> (res:
    RunRate)
    requires
        memory::rows_dated(all@),
    ensures
        run_rate_of(res, scope::rows_in(all@, scope::of_period(billing_period@)), now),
        res.first_charge is Some ==> res.first_charge->0.valid(),
{
    let chosen = Scope { billing_period: Some(billing_period), ..Scope::unfiltered() };
    run_rate(&selected(all, &chosen), now)
}

/// What the forecast of one account for a billing period is measured from.
pub fn account_forecast(
    all: &Vec<NormalizedRow>,
    provider: &str,
    account_id: &str,
    period: BillingPeriod,
    now: Timestamp,
) -> (res: RunRate)
    requires
        memory::rows_dated(all@),
        period.valid(),
    ensures
        run_rate_of(
            res,
            scope::rows_in(
                all@,
                scope::of_account(provider@, account_id@).in_period(period.text()),
            ),
            now,
        ),
        res.first_charge is Some ==> res.first_charge->0.valid(),
{
    let label = period.label();
    let chosen = Scope {
        provider: Some(provider),
        account_id: Some(account_id),
        billing_period: Some(label.as_str()),
        ..Scope::unfiltered()
    };
    run_rate(&selected(all, &chosen), now)
}

/// The daily sample behind a period's forecast bands: the same charges that the
/// forecast totals, by day.
pub fn forecast_bands_for_period(
    all: &Vec<NormalizedRow>,
    billing_period: &str,
    now: Timestamp,
) -> (res: Vec<(String, Vec<Amount>)>)
    requires
        memory::rows_dated(all@),
    ensures
        buckets::named_by(
            res@,
            scope::rows_in(
                all@,
                (scope::Selection { until: Some(now), ..scope::of_period(billing_period@) }),
            ),
            Grouping::Day,
        ),
{
    let chosen = Scope {
        billing_period: Some(billing_period),
        until: Some(now),
        ..Scope::unfiltered()
    };
    totals_by_name(&selected(all, &chosen), Grouping::Day)
}

/// Usage within a window of days, from the first until the second.
pub open spec fn usage_within(first: Date, end: Date) -> spec_fn(NormalizedRow) -> bool {
    |row: NormalizedRow|
        row.charge_category == ChargeCategory::Usage && first.number() <= row.charge_period_start.day()
            && row.charge_period_start.day() < end.number()
}

/// Usage per month of charge within a window of days: what a trailing daily
/// average is spread from.
///
/// Keyed by the instant of the charge and not by its billing period: the window
/// is bounded by instants, so the keys have to be measured the same way.
pub fn trailing_daily_average(all: &Vec<NormalizedRow>, window_start: Date, window_end: Date) -> (res:
    Vec<(String, Vec<Amount>)>)
    requires
        memory::rows_dated(all@),
        window_start.valid(),
        window_end.valid(),
    ensures
        buckets::named_by(
            res@,
            all@.filter(usage_within(window_start, window_end)),
            Grouping::ChargeMonth,
        ),
{
    let since = window_start.midnight();
    let until = window_end.midnight();
    let mut kept: Vec<bool> = Vec::new();
    let mut i: usize = 0;
    while i < all.len()
        invariant
            i <= all.len(),
            memory::rows_dated(all@),
            since.seconds == window_start.number() * calendar::SECONDS_PER_DAY,
            since.nanos == 0,
            until.seconds == window_end.number() * calendar::SECONDS_PER_DAY,
            until.nanos == 0,
            kept@.len() == i,
            forall|j: int|
                0 <= j < i ==> #[trigger] kept@[j] == usage_within(window_start, window_end)(
                    all@[j],
                ),
        decreases all.len() - i,
    {
        let start = all[i].charge_period_start;
        kept.push(
            all[i].charge_category == ChargeCategory::Usage && !start.earlier_than(since)
                && start.earlier_than(until),
        );
        i = i + 1;
    }
    let rows = rows_where(all, &kept, Ghost(usage_within(window_start, window_end)));
    totals_by_name(&rows, Grouping::ChargeMonth)
}

// ==================== Two periods ====================

/// Being billed in a period.
pub open spec fn billed_in(billing_period: Seq<char>) -> spec_fn(NormalizedRow) -> bool {
    |row: NormalizedRow| row.billing_period@ == billing_period
}

/// Being billed in the earlier of two periods; a row billed in the current one
/// is never.
pub open spec fn billed_before(billing_period: Seq<char>, previous: Seq<char>) -> spec_fn(
    NormalizedRow,
) -> bool {
    |row: NormalizedRow| row.billing_period@ != billing_period && row.billing_period@ == previous
}

/// Being billed in either of two periods.
pub open spec fn billed_in_either(billing_period: Seq<char>, previous: Seq<char>) -> spec_fn(
    NormalizedRow,
) -> bool {
    |row: NormalizedRow| row.billing_period@ == billing_period || row.billing_period@ == previous
}

/// Split rows into those of a period and those of the one before it; a third
/// list holds both, in ledger order.
fn split_periods(all: &Vec<NormalizedRow>, billing_period: &str, previous: &str) -> (res: (
    Vec<NormalizedRow>,
    Vec<NormalizedRow>,
    Vec<NormalizedRow>,
))
    ensures
        res.0@ == all@.filter(billed_in(billing_period@)),
        res.1@ == all@.filter(billed_before(billing_period@, previous@)),
        res.2@ == all@.filter(billed_in_either(billing_period@, previous@)),
        memory::rows_dated(all@) ==> memory::rows_dated(res.0@) && memory::rows_dated(res.1@)
            && memory::rows_dated(res.2@),
{
    let mut current: Vec<bool> = Vec::new();
    let mut prior: Vec<bool> = Vec::new();
    let mut either: Vec<bool> = Vec::new();
    let mut i: usize = 0;
    while i < all.len()
        invariant
            i <= all.len(),
            current@.len() == i,
            prior@.len() == i,
            either@.len() == i,
            forall|j: int|
                0 <= j < i ==> #[trigger] current@[j] == billed_in(billing_period@)(all@[j]),
            forall|j: int|
                0 <= j < i ==> #[trigger] prior@[j] == billed_before(
                    billing_period@,
                    previous@,
                )(all@[j]),
            forall|j: int|
                0 <= j < i ==> #[trigger] either@[j] == billed_in_either(
                    billing_period@,
                    previous@,
                )(all@[j]),
        decreases all.len() - i,
    {
        let is_current: bool = text::same_text(&all[i].billing_period, billing_period);
        let is_previous: bool = text::same_text(&all[i].billing_period, previous);
        current.push(is_current);
        prior.push(!is_current && is_previous);
        either.push(is_current || is_previous);
        i = i + 1;
    }
    (
        rows_where(all, &current, Ghost(billed_in(billing_period@))),
        rows_where(all, &prior, Ghost(billed_before(billing_period@, previous@))),
        rows_where(all, &either, Ghost(billed_in_either(billing_period@, previous@))),
    )
}

/// Charges of a period and of the one before it, each grouped by service.
pub fn period_over_period(all: &Vec<NormalizedRow>, billing_period: &str, previous: &str) -> (res: (
    Vec<(String, Vec<Amount>)>,
    Vec<(String, Vec<Amount>)>,
))
    requires
        memory::rows_dated(all@),
    ensures
        buckets::named_by(
            res.0@,
            all@.filter(billed_in(billing_period@)),
            Grouping::Dim(BreakdownDim::Service),
        ),
        buckets::named_by(
            res.1@,
            all@.filter(billed_before(billing_period@, previous@)),
            Grouping::Dim(BreakdownDim::Service),
        ),
{
    let (current, prior, _) = split_periods(all, billing_period, previous);
    (
        totals_by_name(&current, Grouping::Dim(BreakdownDim::Service)),
        totals_by_name(&prior, Grouping::Dim(BreakdownDim::Service)),
    )
}

/// One bucket of two periods, split by which side its charges fall on.
pub struct TwoSided {
    pub name: String,
    pub current: Vec<Amount>,
    pub previous: Vec<Amount>,
}

/// `sides` are the buckets of two periods' rows: one per bucket that occurs on
/// either side, in bucket order, with the amounts of each side.
pub open spec fn two_sided(
    sides: Seq<TwoSided>,
    rows: Seq<NormalizedRow>,
    billing_period: Seq<char>,
    previous: Seq<char>,
    grouping: Grouping,
) -> bool {
    let either = rows.filter(billed_in_either(billing_period, previous));
    let key_of = buckets::keyed(grouping);
    let keys = sides.map_values(|s: TwoSided| buckets::key1(s.name@));
    &&& order::ascending(keys)
    &&& forall|b: int|
        #![trigger sides[b]]
        0 <= b < sides.len() ==> {
            &&& buckets::bucket_rows(either, key_of, keys[b]).len() > 0
            &&& sides[b].current@ == scope::base_amounts(
                buckets::bucket_rows(rows.filter(billed_in(billing_period)), key_of, keys[b]),
            )
            &&& sides[b].previous@ == scope::base_amounts(
                buckets::bucket_rows(
                    rows.filter(billed_before(billing_period, previous)),
                    key_of,
                    keys[b],
                ),
            )
        }
    &&& forall|i: int| 0 <= i < either.len() ==> keys.contains(#[trigger] key_of(either[i]))
}

/// The terms under a name, none where no bucket has it.
fn terms_named(named: &Vec<(String, Vec<Amount>)>, name: &str) -> (res: Vec<Amount>)
    ensures
        match first_named(named@, name@) {
            Some(i) => res@ == named@[i].1@,
            None => res@.len() == 0,
        },
{
    let mut i: usize = 0;
    proof {
        lemma_first_named(named@, name@);
    }
    while i < named.len()
        invariant
            i <= named.len(),
            first_named(named@, name@) is None || first_named(named@, name@)->0 >= i,
        decreases named.len() - i,
    {
        proof {
            lemma_first_named(named@, name@);
        }
        if text::same_text(&named[i].0, name) {
            return buckets::copy_amounts(&named[i].1);
        }
        i = i + 1;
    }
    proof {
        lemma_first_named(named@, name@);
    }
    Vec::new()
}

/// The first bucket with a name.
spec fn first_named(named: Seq<(String, Vec<Amount>)>, name: Seq<char>) -> Option<int> {
    if exists|i: int| 0 <= i < named.len() && #[trigger] named[i].0@ == name {
        Some(
            choose|i: int|
                0 <= i < named.len() && #[trigger] named[i].0@ == name && forall|j: int|
                    0 <= j < i ==> #[trigger] named[j].0@ != name,
        )
    } else {
        None
    }
}

proof fn lemma_first_named(named: Seq<(String, Vec<Amount>)>, name: Seq<char>)
    ensures
        match first_named(named, name) {
            Some(i) => 0 <= i < named.len() && named[i].0@ == name && forall|j: int|
                0 <= j < i ==> #[trigger] named[j].0@ != name,
            None => forall|j: int| 0 <= j < named.len() ==> #[trigger] named[j].0@ != name,
        },
{
    if exists|i: int| 0 <= i < named.len() && #[trigger] named[i].0@ == name {
        let any = choose|i: int| 0 <= i < named.len() && #[trigger] named[i].0@ == name;
        lemma_some_first(named, name, any);
    }
}

proof fn lemma_some_first(named: Seq<(String, Vec<Amount>)>, name: Seq<char>, any: int)
    requires
        0 <= any < named.len(),
        named[any].0@ == name,
    ensures
        exists|i: int|
            0 <= i < named.len() && #[trigger] named[i].0@ == name && forall|j: int|
                0 <= j < i ==> #[trigger] named[j].0@ != name,
    decreases any,
{
    if exists|j: int| 0 <= j < any && #[trigger] named[j].0@ == name {
        let earlier = choose|j: int| 0 <= j < any && #[trigger] named[j].0@ == name;
        lemma_some_first(named, name, earlier);
    }
}

/// What a side's bucket adds up is what the side's own grouping lists under the
/// name, nothing where it lists no such name.
proof fn lemma_side_terms(
    named: Seq<(String, Vec<Amount>)>,
    rows: Seq<NormalizedRow>,
    grouping: Grouping,
    name: Seq<char>,
    terms: Seq<Amount>,
)
    requires
        buckets::named_by(named, rows, grouping),
        match first_named(named, name) {
            Some(i) => terms == named[i].1@,
            None => terms.len() == 0,
        },
    ensures
        terms == scope::base_amounts(
            buckets::bucket_rows(rows, buckets::keyed(grouping), buckets::key1(name)),
        ),
{
    let key_of = buckets::keyed(grouping);
    let key = buckets::key1(name);
    lemma_first_named(named, name);
    match first_named(named, name) {
        Some(i) => {
            assert(buckets::named_keys(named)[i] == buckets::key1(named[i].0@));
            assert(buckets::named_terms(named)[i] == named[i].1@);
            assert(buckets::bucket_rows(rows, key_of, buckets::named_keys(named)[i]).len() > 0);
        },
        None => {
            let held = buckets::bucket_rows(rows, key_of, key);
            if held.len() > 0 {
                rows.lemma_filter_pred(buckets::has_key(key_of, key), 0);
                rows.lemma_filter_contains_rev(buckets::has_key(key_of, key), held[0]);
                let r = choose|r: int| 0 <= r < rows.len() && rows[r] == held[0];
                assert(key_of(rows[r]) == key);
                assert(buckets::named_keys(named).contains(key_of(rows[r])));
                let k = choose|k: int|
                    0 <= k < buckets::named_keys(named).len() && buckets::named_keys(named)[k] == key;
                assert(buckets::key1(named[k].0@)[0] == key[0]);
                assert(named[k].0@ == name);
            }
            assert(held =~= Seq::empty());
            assert(terms =~= Seq::empty());
        },
    }
}

/// Charges of two periods under a one-column grouping, each bucket split by
/// side.
pub fn two_period_buckets(
    all: &Vec<NormalizedRow>,
    billing_period: &str,
    previous: &str,
    grouping: Grouping,
) -> (res: Vec<TwoSided>)
    requires
        memory::rows_dated(all@),
        buckets::names_buckets(grouping),
    ensures
        two_sided(res@, all@, billing_period@, previous@, grouping),
{
    let (current, prior, either) = split_periods(all, billing_period, previous);
    let names = totals_by_name(&either, grouping);
    let now = totals_by_name(&current, grouping);
    let before = totals_by_name(&prior, grouping);
    let ghost key_of = buckets::keyed(grouping);
    let mut res: Vec<TwoSided> = Vec::new();
    let mut i: usize = 0;
    while i < names.len()
        invariant
            i <= names.len(),
            key_of == buckets::keyed(grouping),
            buckets::named_by(now@, current@, grouping),
            buckets::named_by(before@, prior@, grouping),
            res@.len() == i,
            forall|b: int|
                #![trigger res@[b]]
                0 <= b < i ==> {
                    let key = buckets::key1(res@[b].name@);
                    &&& res@[b].name@ == names@[b].0@
                    &&& res@[b].current@ == scope::base_amounts(
                        buckets::bucket_rows(current@, key_of, key),
                    )
                    &&& res@[b].previous@ == scope::base_amounts(
                        buckets::bucket_rows(prior@, key_of, key),
                    )
                },
        decreases names.len() - i,
    {
        let name = names[i].0.clone();
        let current_terms = terms_named(&now, &name);
        let previous_terms = terms_named(&before, &name);
        proof {
            lemma_side_terms(now@, current@, grouping, name@, current_terms@);
            lemma_side_terms(before@, prior@, grouping, name@, previous_terms@);
        }
        res.push(TwoSided { name, current: current_terms, previous: previous_terms });
        i = i + 1;
    }
    proof {
        let keys = res@.map_values(|s: TwoSided| buckets::key1(s.name@));
        assert(keys =~= buckets::named_keys(names@));
        assert forall|b: int|
            #![trigger res@[b]]
            0 <= b < res@.len() implies buckets::bucket_rows(either@, key_of, keys[b]).len()
            > 0 by {
            assert(buckets::bucket_rows(either@, key_of, buckets::named_keys(names@)[b]).len() > 0);
        }
    }
    res
}

/// What a cost change is decomposed from: two periods by charge category, and
/// by service.
pub fn cost_change_decomposition(
    all: &Vec<NormalizedRow>,
    billing_period: &str,
    previous: &str,
) -> (res: (Vec<TwoSided>, Vec<TwoSided>))
    requires
        memory::rows_dated(all@),
    ensures
        two_sided(res.0@, all@, billing_period@, previous@, Grouping::Category),
        two_sided(
            res.1@,
            all@,
            billing_period@,
            previous@,
            Grouping::Dim(BreakdownDim::Service),
        ),
{
    (
        two_period_buckets(all, billing_period, previous, Grouping::Category),
        two_period_buckets(
            all,
            billing_period,
            previous,
            Grouping::Dim(BreakdownDim::Service),
        ),
    )
}


// ==================== Data quality ====================

/// Usage of one service that names no region.
pub struct RegionlessTerms {
    pub service: String,
    pub terms: Vec<Amount>,
    pub charges: i64,
}

/// What the data-quality findings of a period are decided from.
pub struct QualityCounts {
    /// Charges of the period.
    pub rows: i64,
    /// Charges that no rate covers.
    pub unconverted: i64,
    /// Usage of the period, the denominator of both shares.
    pub usage: Vec<Amount>,
    /// Usage with no value for the tag.
    pub untagged: Vec<Amount>,
    pub untagged_count: i64,
    /// Usage that names no region, by service.
    pub regionless: Vec<RegionlessTerms>,
}

/// Being usage that names no region.
pub open spec fn without_region() -> spec_fn(NormalizedRow) -> bool {
    |row: NormalizedRow| row.charge_category == ChargeCategory::Usage && row.region_id is None
}

/// `regionless` are the services of `rows` whose usage names no region, in
/// service order, each with its amounts and how many charges there are.
pub open spec fn regionless_by(
    regionless: Seq<RegionlessTerms>,
    rows: Seq<NormalizedRow>,
) -> bool {
    let held = rows.filter(without_region());
    let key_of = buckets::keyed(Grouping::Dim(BreakdownDim::Service));
    &&& buckets::buckets_by(
        regionless.map_values(|r: RegionlessTerms| buckets::key1(r.service@)),
        regionless.map_values(|r: RegionlessTerms| r.terms@),
        held,
        key_of,
    )
    &&& forall|r: int|
        #![trigger regionless[r]]
        0 <= r < regionless.len() ==> regionless[r].charges == buckets::bucket_rows(
            held,
            key_of,
            buckets::key1(regionless[r].service@),
        ).len()
}

/// How many rows are of a service.
fn count_service(rows: &Vec<NormalizedRow>, service: &str) -> (res: i64)
    requires
        rows@.len() <= i64::MAX,
    ensures
        res == buckets::bucket_rows(
            rows@,
            buckets::keyed(Grouping::Dim(BreakdownDim::Service)),
            buckets::key1(service@),
        ).len(),
{
    let ghost key_of = buckets::keyed(Grouping::Dim(BreakdownDim::Service));
    let ghost key = buckets::key1(service@);
    let mut count: i64 = 0;
    let mut i: usize = 0;
    proof {
        reveal(Seq::filter);
        assert(rows@.take(0) =~= Seq::empty());
    }
    while i < rows.len()
        invariant
            i <= rows.len(),
            rows@.len() <= i64::MAX,
            key_of == buckets::keyed(Grouping::Dim(BreakdownDim::Service)),
            key == buckets::key1(service@),
            0 <= count <= i,
            count == buckets::bucket_rows(rows@.take(i as int), key_of, key).len(),
        decreases rows.len() - i,
    {
        proof {
            reveal(Seq::filter);
            assert(rows@.take(i + 1).drop_last() =~= rows@.take(i as int));
            assert(rows@.take(i + 1).last() == rows@[i as int]);
            let own = key_of(rows@[i as int]);
            assert(own == buckets::key1(scope::service_name(rows@[i as int])));
            if own == key {
                assert(own[0] == key[0]);
            }
        }
        if text::same_text(service_of(&rows[i]), service) {
            count = count + 1;
        }
        i = i + 1;
    }
    proof {
        assert(rows@.take(i as int) =~= rows@);
    }
    count
}

/// `counts` is what the findings of a period are decided from.
pub open spec fn counts_quality(
    counts: QualityCounts,
    all: Seq<NormalizedRow>,
    billing_period: Seq<char>,
    tag_key: Seq<char>,
) -> bool {
    let rows = scope::rows_in(all, scope::of_period(billing_period));
    let untagged = all.filter(ranked::untagged_usage(billing_period, tag_key));
    &&& counts.rows == rows.len()
    &&& counts.unconverted == all.filter(ranked::unconverted(billing_period)).len()
    &&& counts.usage@ == scope::base_amounts(scope::usage_rows(rows))
    &&& counts.untagged@ == scope::base_amounts(untagged)
    &&& counts.untagged_count == untagged.len()
    &&& regionless_by(counts.regionless@, rows)
}

/// Count what the data-quality findings of a period are decided from:
/// unconverted charges, untagged usage for `tag_key`, and services whose usage
/// carries no region.
pub fn data_quality_issues(all: &Vec<NormalizedRow>, billing_period: &str, tag_key: &str) -> (res:
    QualityCounts)
    requires
        memory::rows_dated(all@),
        all@.len() <= i64::MAX,
    ensures
        counts_quality(res, all@, billing_period@, tag_key@),
{
    let chosen = Scope { billing_period: Some(billing_period), ..Scope::unfiltered() };
    let rows = selected(all, &chosen);
    proof {
        all@.lemma_filter_len(scope::scoped(scope::of_period(billing_period@)));
        all@.lemma_filter_len(ranked::untagged_usage(billing_period@, tag_key@));
        rows@.lemma_filter_len(without_region());
    }
    let unconverted = unconverted_charges(all, billing_period);
    let (usage, _) = usage_and_credits_of_rows(&rows);
    let untagged_rows = untagged_usage_rows(all, billing_period, tag_key);

    let mut kept: Vec<bool> = Vec::new();
    let mut i: usize = 0;
    while i < rows.len()
        invariant
            i <= rows.len(),
            kept@.len() == i,
            forall|j: int| 0 <= j < i ==> #[trigger] kept@[j] == without_region()(rows@[j]),
        decreases rows.len() - i,
    {
        kept.push(rows[i].charge_category == ChargeCategory::Usage && rows[i].region_id.is_none());
        i = i + 1;
    }
    let held = rows_where(&rows, &kept, Ghost(without_region()));
    let named = totals_by_name(&held, Grouping::Dim(BreakdownDim::Service));
    let mut regionless: Vec<RegionlessTerms> = Vec::new();
    let mut k: usize = 0;
    while k < named.len()
        invariant
            k <= named.len(),
            held@.len() <= i64::MAX,
            regionless@.len() == k,
            forall|r: int|
                #![trigger regionless@[r]]
                0 <= r < k ==> {
                    &&& regionless@[r].service@ == named@[r].0@
                    &&& regionless@[r].terms@ == named@[r].1@
                    &&& regionless@[r].charges == buckets::bucket_rows(
                        held@,
                        buckets::keyed(Grouping::Dim(BreakdownDim::Service)),
                        buckets::key1(regionless@[r].service@),
                    ).len()
                },
        decreases named.len() - k,
    {
        let charges = count_service(&held, &named[k].0);
        regionless.push(
            RegionlessTerms {
                service: named[k].0.clone(),
                terms: buckets::copy_amounts(&named[k].1),
                charges,
            },
        );
        k = k + 1;
    }
    proof {
        assert(regionless@.map_values(|r: RegionlessTerms| buckets::key1(r.service@))
            =~= buckets::named_keys(named@));
        assert(regionless@.map_values(|r: RegionlessTerms| r.terms@) =~= buckets::named_terms(
            named@,
        ));
    }
    QualityCounts {
        rows: rows.len() as i64,
        unconverted,
        usage,
        untagged: net_total(&untagged_rows),
        untagged_count: untagged_rows.len() as i64,
        regionless,
    }
}

/// Usage of one service that names no region, totalled.
#[derive(Debug)]
pub struct RegionlessUsage {
    pub service: String,
    pub amount: Amount,
    pub charges: i64,
}

pub open spec fn regionless_amounts(totals: Seq<RegionlessUsage>) -> Seq<Amount> {
    totals.map_values(|t: RegionlessUsage| t.amount)
}

/// The services whose region-less usage is above zero, largest first.
pub fn rank_regionless(totals: Vec<RegionlessUsage>) -> (res: Vec<RegionlessUsage>)
    ensures
        res@ == ranked::positive_first(totals@, regionless_amounts(totals@)),
{
    let mut amounts: Vec<Amount> = Vec::new();
    let mut i: usize = 0;
    while i < totals.len()
        invariant
            i <= totals.len(),
            amounts@ == regionless_amounts(totals@).take(i as int),
        decreases totals.len() - i,
    {
        amounts.push(totals[i].amount);
        i = i + 1;
        proof {
            assert(amounts@ =~= regionless_amounts(totals@).take(i as int));
        }
    }
    proof {
        assert(amounts@ =~= regionless_amounts(totals@));
    }
    keep_positive(totals, &amounts)
}

} // verus!
