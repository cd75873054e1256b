//! What the points of a chart show of the ledger's rows.
use vstd::prelude::*;

use super::change;
use super::series;
use crate::amount::Amount;
use crate::calendar;
use crate::calendar::Date;
use crate::ledger::buckets;
use crate::ledger::buckets::Grouping;
use crate::ledger::laws;
use crate::ledger::scope;
use crate::list;
use crate::memory::NormalizedRow;
use crate::order;

verus! {

// ==================== Days ====================

/// The rows of a day, by the label they are grouped under.
pub open spec fn rows_of_day(used: Seq<NormalizedRow>, day: Date) -> Seq<NormalizedRow> {
    buckets::bucket_rows(
        used,
        buckets::keyed(Grouping::Day),
        buckets::key1(calendar::day_label(day)),
    )
}

/// The labels of rows name a day just where they are its label.
pub open spec fn labels_read_back(used: Seq<NormalizedRow>, day: Date) -> bool {
    forall|r: int|
        #![trigger used[r]]
        0 <= r < used.len() ==> (series::day_named(buckets::row_day(used[r])) == Some(day)
            <==> buckets::row_day(used[r]) == calendar::day_label(day))
}

/// What rows of a scope add up to, nothing where there are none.
pub open spec fn sum_or_nothing(
    rows: Seq<NormalizedRow>,
    sum: spec_fn(Seq<Amount>) -> Amount,
) -> Amount {
    if rows.len() > 0 {
        sum(scope::base_amounts(rows))
    } else {
        Amount { bits: 0 }
    }
}

/// Keeping a day's amount leaves every other day's as it was.
proof fn lemma_other_day(
    days: Seq<(Date, Amount)>,
    named: Date,
    amount: Amount,
    date: Date,
)
    requires
        named != date,
    ensures
        series::amount_on(
            list::upserted(days, series::on_day(named), (named, amount)),
            date,
        ) == series::amount_on(days, date),
{
    let test = series::on_day(date);
    let after = list::upserted(days, series::on_day(named), (named, amount));
    list::first_index_is_first(days, test);
    list::first_index_is_first(after, test);
    list::first_index_is_first(days, series::on_day(named));
    match list::first_index(days, test) {
        Some(k) => {
            assert(after[k] == days[k]);
            match list::first_index(after, test) {
                Some(m) => {
                    if m < k {
                        assert(!test(days[m]));
                        assert(after[m] == days[m] || after[m] == (named, amount));
                    }
                    if k < m {
                        assert(!test(after[k]));
                    }
                },
                None => {
                    assert(!test(after[k]));
                },
            }
        },
        None => {
            match list::first_index(after, test) {
                Some(m) => {
                    if m < days.len() {
                        assert(!test(days[m]));
                    }
                    assert(after[m] == (named, amount));
                },
                None => {},
            }
        },
    }
}

/// What a day used is told by the one row whose label names it.
proof fn lemma_only_row(rows: Seq<(String, Amount)>, q: int, date: Date)
    requires
        0 <= q < rows.len(),
        series::day_named(rows[q].0@) == Some(date),
        forall|r: int|
            0 <= r < rows.len() && series::day_named((#[trigger] rows[r]).0@) == Some(date) ==> r
                == q,
    ensures
        series::amount_on(series::days_of(rows), date) == Some(rows[q].1),
    decreases rows.len(),
{
    let fewer = rows.drop_last();
    let before = series::days_of(fewer);
    let last = rows.len() - 1;
    if q == last {
        series::a_day_is_known_where_a_row_names_it(fewer, date);
        if exists|r: int|
            0 <= r < fewer.len() && series::day_named((#[trigger] fewer[r]).0@) == Some(date) {
            let r = choose|r: int|
                0 <= r < fewer.len() && series::day_named((#[trigger] fewer[r]).0@) == Some(date);
            assert(series::day_named(rows[r].0@) == Some(date));
        }
        let test = series::on_day(date);
        let after = series::days_of(rows);
        list::first_index_is_first(before, test);
        list::first_index_is_first(after, test);
        assert(after == before.push((date, rows[q].1)));
        assert(test(after[before.len() as int]));
        match list::first_index(after, test) {
            Some(m) => {
                if m < before.len() {
                    assert(!test(before[m]));
                }
            },
            None => {
                assert(!test(after[before.len() as int]));
            },
        }
    } else {
        assert forall|r: int|
            0 <= r < fewer.len() && series::day_named((#[trigger] fewer[r]).0@) == Some(
                date,
            ) implies r == q by {
            assert(series::day_named(rows[r].0@) == Some(date));
        }
        lemma_only_row(fewer, q, date);
        match series::day_named(rows[last].0@) {
            Some(named) => {
                lemma_other_day(before, named, rows[last].1, date);
            },
            None => {},
        }
    }
}

/// What is known of a day is the sum of its rows, and nothing is known of a day
/// without rows.
pub proof fn a_days_amount_is_its_rows(
    daily: Seq<(String, Vec<Amount>)>,
    totals: Seq<(String, Amount)>,
    used: Seq<NormalizedRow>,
    sum: spec_fn(Seq<Amount>) -> Amount,
    day: Date,
)
    requires
        buckets::named_by(daily, used, Grouping::Day),
        laws::names_summed(daily, totals, sum),
        labels_read_back(used, day),
    ensures
        series::amount_on(series::days_of(totals), day) == (if rows_of_day(used, day).len() > 0 {
            Some(sum(scope::base_amounts(rows_of_day(used, day))))
        } else {
            None
        }),
{
    let key_of = buckets::keyed(Grouping::Day);
    let keys = buckets::named_keys(daily);
    let key = buckets::key1(calendar::day_label(day));
    series::a_day_is_known_where_a_row_names_it(totals, day);
    assert forall|q: int|
        0 <= q < totals.len() && series::day_named((#[trigger] totals[q]).0@) == Some(
            day,
        ) implies keys[q] == key by {
        lemma_label_of_bucket(daily, used, q);
        let r = choose|r: int|
            0 <= r < used.len() && buckets::row_day(#[trigger] used[r]) == daily[q].0@;
        assert(totals[q].0@ == daily[q].0@);
        assert(buckets::row_day(used[r]) == calendar::day_label(day));
    }
    if rows_of_day(used, day).len() > 0 {
        laws::a_bucket_has_its_key(keys, buckets::named_terms(daily), used, key_of, key);
        let q = choose|q: int| 0 <= q < keys.len() && keys[q] == key;
        assert(keys[q][0] == key[0]);
        lemma_label_of_bucket(daily, used, q);
        let r = choose|r: int|
            0 <= r < used.len() && buckets::row_day(#[trigger] used[r]) == daily[q].0@;
        assert(series::day_named(buckets::row_day(used[r])) == Some(day));
        assert(totals[q].0@ == daily[q].0@);
        assert forall|p: int|
            0 <= p < totals.len() && series::day_named((#[trigger] totals[p]).0@) == Some(
                day,
            ) implies p == q by {
            assert(keys[p] == key);
            if p < q {
                assert(order::key_lt(keys[p], keys[q]));
                order::lemma_key_lt_asymmetric(keys[p], keys[q]);
            } else if q < p {
                assert(order::key_lt(keys[q], keys[p]));
                order::lemma_key_lt_asymmetric(keys[q], keys[p]);
            }
        }
        lemma_only_row(totals, q, day);
        assert(buckets::bucket_rows(used, key_of, keys[q]).len() > 0);
        assert(buckets::named_terms(daily)[q] == daily[q].1@);
    } else if exists|q: int|
        0 <= q < totals.len() && series::day_named((#[trigger] totals[q]).0@) == Some(day) {
        let q = choose|q: int|
            0 <= q < totals.len() && series::day_named((#[trigger] totals[q]).0@) == Some(day);
        assert(keys[q] == key);
        assert(buckets::bucket_rows(used, key_of, keys[q]).len() > 0);
    }
}

/// The label of a bucket by day is that of some row.
proof fn lemma_label_of_bucket(
    daily: Seq<(String, Vec<Amount>)>,
    used: Seq<NormalizedRow>,
    q: int,
)
    requires
        buckets::named_by(daily, used, Grouping::Day),
        0 <= q < daily.len(),
    ensures
        exists|r: int| 0 <= r < used.len() && buckets::row_day(#[trigger] used[r]) == daily[q].0@,
{
    let key_of = buckets::keyed(Grouping::Day);
    let key = buckets::named_keys(daily)[q];
    let held = buckets::bucket_rows(used, key_of, key);
    assert(held.len() > 0);
    used.lemma_filter_pred(buckets::has_key(key_of, key), 0);
    assert(held.contains(held[0]));
    used.lemma_filter_contains_rev(buckets::has_key(key_of, key), held[0]);
    let r = choose|r: int| 0 <= r < used.len() && used[r] == held[0];
    assert(key_of(used[r])[0] == key[0]);
    assert(buckets::row_day(used[r]) == daily[q].0@);
}

// ==================== Months ====================

/// The rows of a billing month.
pub open spec fn rows_of_month(used: Seq<NormalizedRow>, month: Seq<char>) -> Seq<NormalizedRow> {
    buckets::bucket_rows(used, buckets::keyed(Grouping::Period), buckets::key1(month))
}

/// What is known of a month is the sum of its rows, and nothing is known of a
/// month without rows.
pub proof fn a_months_amount_is_its_rows(
    monthly: Seq<(String, Vec<Amount>)>,
    totals: Seq<(String, Amount)>,
    used: Seq<NormalizedRow>,
    sum: spec_fn(Seq<Amount>) -> Amount,
    month: Seq<char>,
)
    requires
        buckets::named_by(monthly, used, Grouping::Period),
        laws::names_summed(monthly, totals, sum),
    ensures
        change::last_amount(totals, month) == (if rows_of_month(used, month).len() > 0 {
            Some(sum(scope::base_amounts(rows_of_month(used, month))))
        } else {
            None
        }),
{
    let key_of = buckets::keyed(Grouping::Period);
    let keys = buckets::named_keys(monthly);
    let key = buckets::key1(month);
    if rows_of_month(used, month).len() > 0 {
        laws::a_bucket_has_its_key(keys, buckets::named_terms(monthly), used, key_of, key);
        let q = choose|q: int| 0 <= q < keys.len() && keys[q] == key;
        assert(keys[q][0] == key[0]);
        assert(totals[q].0@ == month);
        assert forall|p: int|
            0 <= p < totals.len() && (#[trigger] totals[p]).0@ == month implies p == q by {
            assert(keys[p] == key);
            if p < q {
                assert(order::key_lt(keys[p], keys[q]));
                order::lemma_key_lt_asymmetric(keys[p], keys[q]);
            } else if q < p {
                assert(order::key_lt(keys[q], keys[p]));
                order::lemma_key_lt_asymmetric(keys[q], keys[p]);
            }
        }
        lemma_only_month(totals, q, month);
        assert(buckets::bucket_rows(used, key_of, keys[q]).len() > 0);
        assert(buckets::named_terms(monthly)[q] == monthly[q].1@);
    } else {
        assert forall|p: int| 0 <= p < totals.len() implies (#[trigger] totals[p]).0@ != month by {
            if totals[p].0@ == month {
                assert(keys[p] == key);
                assert(buckets::bucket_rows(used, key_of, keys[p]).len() > 0);
            }
        }
        lemma_no_month(totals, month);
    }
}

proof fn lemma_only_month(totals: Seq<(String, Amount)>, q: int, month: Seq<char>)
    requires
        0 <= q < totals.len(),
        totals[q].0@ == month,
        forall|p: int| 0 <= p < totals.len() && (#[trigger] totals[p]).0@ == month ==> p == q,
    ensures
        change::last_amount(totals, month) == Some(totals[q].1),
    decreases totals.len(),
{
    if q < totals.len() - 1 {
        let fewer = totals.drop_last();
        assert forall|p: int| 0 <= p < fewer.len() && (#[trigger] fewer[p]).0@ == month implies p
            == q by {
            assert(totals[p].0@ == month);
        }
        lemma_only_month(fewer, q, month);
        assert(totals[totals.len() - 1].0@ != month);
    }
}

proof fn lemma_no_month(totals: Seq<(String, Amount)>, month: Seq<char>)
    requires
        forall|p: int| 0 <= p < totals.len() ==> (#[trigger] totals[p]).0@ != month,
    ensures
        change::last_amount(totals, month) is None,
    decreases totals.len(),
{
    if totals.len() > 0 {
        let fewer = totals.drop_last();
        assert forall|p: int| 0 <= p < fewer.len() implies (#[trigger] fewer[p]).0@ != month by {
            assert(totals[p].0@ != month);
        }
        lemma_no_month(fewer, month);
        assert(totals[totals.len() - 1].0@ != month);
    }
}

} // verus!
