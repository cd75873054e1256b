//! Which rows a read of the ledger reaches, and what it takes from them, in terms
//! of the rows' own columns.
use vstd::prelude::*;

use super::scope;
use crate::amount::Amount;
use crate::calendar::Timestamp;
use crate::memory::NormalizedRow;
use crate::model::{ChargeCategory, PeriodKey};

verus! {

/// The service that a row is counted under.
pub open spec fn counted_under(row: NormalizedRow, service: Seq<char>) -> bool {
    (row.service_name is Some && row.service_name->0@ == service) || (row.service_name is None
        && service == "Other"@)
}

/// A row starts at an instant or later and before another.
pub open spec fn starts_within(row: NormalizedRow, since: Timestamp, until: Timestamp) -> bool {
    &&& since.seconds < row.charge_period_start.seconds || (since.seconds
        == row.charge_period_start.seconds && since.nanos <= row.charge_period_start.nanos)
    &&& row.charge_period_start.seconds < until.seconds || (row.charge_period_start.seconds
        == until.seconds && row.charge_period_start.nanos < until.nanos)
}

/// A row starts at an instant or later.
pub open spec fn starts_from(row: NormalizedRow, since: Timestamp) -> bool {
    since.seconds < row.charge_period_start.seconds || (since.seconds
        == row.charge_period_start.seconds && since.nanos <= row.charge_period_start.nanos)
}

proof fn lemma_reaches(
    all: Seq<NormalizedRow>,
    chosen: scope::Selection,
    test: spec_fn(NormalizedRow) -> bool,
)
    requires
        forall|row: NormalizedRow| #[trigger] scope::in_scope(chosen, row) == test(row),
    ensures
        scope::rows_in(all, chosen) == all.filter(test),
{
    assert forall|row: NormalizedRow| #[trigger] scope::scoped(chosen)(row) == test(row) by {
        assert(scope::in_scope(chosen, row) == test(row));
    }
    assert(scope::scoped(chosen) =~= test);
}

/// A read of one bill reaches the rows of its provider, account and period.
pub proof fn a_bill_reaches_its_rows(all: Seq<NormalizedRow>, key: PeriodKey)
    ensures
        scope::rows_in(all, scope::of_key(key)) == all.filter(
            |row: NormalizedRow|
                row.provider@ == key.provider@ && row.account_id@ == key.account_id@
                    && row.billing_period@ == key.billing_period@,
        ),
{
    lemma_reaches(
        all,
        scope::of_key(key),
        |row: NormalizedRow|
            row.provider@ == key.provider@ && row.account_id@ == key.account_id@
                && row.billing_period@ == key.billing_period@,
    );
}

/// A read of a period reaches the period's rows of every account; its usage, the
/// usage rows among them; and its usage before an instant, no later ones.
pub proof fn a_period_reaches_its_rows(
    all: Seq<NormalizedRow>,
    billing_period: Seq<char>,
    now: Timestamp,
)
    ensures
        scope::rows_in(all, scope::of_period(billing_period)) == all.filter(
            |row: NormalizedRow| row.billing_period@ == billing_period,
        ),
        scope::rows_in(all, scope::of_period(billing_period).usage()) == all.filter(
            |row: NormalizedRow|
                row.billing_period@ == billing_period && row.charge_category
                    == ChargeCategory::Usage,
        ),
        scope::rows_in(
            all,
            (scope::Selection { until: Some(now), ..scope::of_period(billing_period) }),
        ) == all.filter(
            |row: NormalizedRow|
                row.billing_period@ == billing_period && !starts_from(row, now),
        ),
{
    lemma_reaches(
        all,
        scope::of_period(billing_period),
        |row: NormalizedRow| row.billing_period@ == billing_period,
    );
    lemma_reaches(
        all,
        scope::of_period(billing_period).usage(),
        |row: NormalizedRow|
            row.billing_period@ == billing_period && row.charge_category == ChargeCategory::Usage,
    );
    lemma_reaches(
        all,
        (scope::Selection { until: Some(now), ..scope::of_period(billing_period) }),
        |row: NormalizedRow| row.billing_period@ == billing_period && !starts_from(row, now),
    );
}

/// A read from an instant on reaches the rows that start then or later, of every
/// account or of one.
pub proof fn a_read_from_an_instant_reaches_its_rows(
    all: Seq<NormalizedRow>,
    provider: Seq<char>,
    account_id: Seq<char>,
    since: Timestamp,
)
    ensures
        scope::rows_in(all, scope::everything().from(since)) == all.filter(
            |row: NormalizedRow| starts_from(row, since),
        ),
        scope::rows_in(all, scope::everything().from(since).usage()) == all.filter(
            |row: NormalizedRow|
                starts_from(row, since) && row.charge_category == ChargeCategory::Usage,
        ),
        scope::rows_in(all, scope::of_account(provider, account_id).from(since)) == all.filter(
            |row: NormalizedRow|
                row.provider@ == provider && row.account_id@ == account_id && starts_from(
                    row,
                    since,
                ),
        ),
        scope::rows_in(all, scope::of_account(provider, account_id).from(since).usage())
            == all.filter(
            |row: NormalizedRow|
                row.provider@ == provider && row.account_id@ == account_id && starts_from(
                    row,
                    since,
                ) && row.charge_category == ChargeCategory::Usage,
        ),
        scope::rows_in(
            all,
            (scope::Selection { account_id: Some(account_id), ..scope::everything() }).from(since),
        ) == all.filter(
            |row: NormalizedRow| row.account_id@ == account_id && starts_from(row, since),
        ),
{
    lemma_reaches(
        all,
        scope::everything().from(since),
        |row: NormalizedRow| starts_from(row, since),
    );
    lemma_reaches(
        all,
        scope::everything().from(since).usage(),
        |row: NormalizedRow|
            starts_from(row, since) && row.charge_category == ChargeCategory::Usage,
    );
    lemma_reaches(
        all,
        scope::of_account(provider, account_id).from(since),
        |row: NormalizedRow|
            row.provider@ == provider && row.account_id@ == account_id && starts_from(row, since),
    );
    lemma_reaches(
        all,
        scope::of_account(provider, account_id).from(since).usage(),
        |row: NormalizedRow|
            row.provider@ == provider && row.account_id@ == account_id && starts_from(row, since)
                && row.charge_category == ChargeCategory::Usage,
    );
    lemma_reaches(
        all,
        (scope::Selection { account_id: Some(account_id), ..scope::everything() }).from(since),
        |row: NormalizedRow| row.account_id@ == account_id && starts_from(row, since),
    );
}

/// A read of a window reaches the rows that start in it, its first instant
/// counted and its last not, of every account or of one, all of them or the usage
/// alone.
pub proof fn a_window_reaches_its_rows(
    all: Seq<NormalizedRow>,
    provider: Seq<char>,
    account_id: Seq<char>,
    since: Timestamp,
    until: Timestamp,
)
    ensures
        scope::rows_in(all, scope::everything().within(since, until)) == all.filter(
            |row: NormalizedRow| starts_within(row, since, until),
        ),
        scope::rows_in(all, scope::everything().within(since, until).usage()) == all.filter(
            |row: NormalizedRow|
                starts_within(row, since, until) && row.charge_category == ChargeCategory::Usage,
        ),
        scope::rows_in(all, scope::of_account(provider, account_id).within(since, until))
            == all.filter(
            |row: NormalizedRow|
                row.provider@ == provider && row.account_id@ == account_id && starts_within(
                    row,
                    since,
                    until,
                ),
        ),
        scope::rows_in(all, scope::of_account(provider, account_id).within(since, until).usage())
            == all.filter(
            |row: NormalizedRow|
                row.provider@ == provider && row.account_id@ == account_id && starts_within(
                    row,
                    since,
                    until,
                ) && row.charge_category == ChargeCategory::Usage,
        ),
{
    lemma_reaches(
        all,
        scope::everything().within(since, until),
        |row: NormalizedRow| starts_within(row, since, until),
    );
    lemma_reaches(
        all,
        scope::everything().within(since, until).usage(),
        |row: NormalizedRow|
            starts_within(row, since, until) && row.charge_category == ChargeCategory::Usage,
    );
    lemma_reaches(
        all,
        scope::of_account(provider, account_id).within(since, until),
        |row: NormalizedRow|
            row.provider@ == provider && row.account_id@ == account_id && starts_within(
                row,
                since,
                until,
            ),
    );
    lemma_reaches(
        all,
        scope::of_account(provider, account_id).within(since, until).usage(),
        |row: NormalizedRow|
            row.provider@ == provider && row.account_id@ == account_id && starts_within(
                row,
                since,
                until,
            ) && row.charge_category == ChargeCategory::Usage,
    );
}

/// A read of one account's period, or of one service, reaches just its rows; a
/// service reaches the rows that are counted under it.
pub proof fn a_narrow_read_reaches_its_rows(
    all: Seq<NormalizedRow>,
    provider: Seq<char>,
    account_id: Seq<char>,
    service: Seq<char>,
    billing_period: Seq<char>,
    since: Timestamp,
    until: Timestamp,
)
    ensures
        scope::rows_in(all, scope::of_account(provider, account_id).in_period(billing_period))
            == all.filter(
            |row: NormalizedRow|
                row.provider@ == provider && row.account_id@ == account_id && row.billing_period@
                    == billing_period,
        ),
        scope::rows_in(all, scope::of_service(provider, service).in_period(billing_period))
            == all.filter(
            |row: NormalizedRow|
                row.provider@ == provider && counted_under(row, service) && row.billing_period@
                    == billing_period,
        ),
        scope::rows_in(all, scope::of_service(provider, service).in_period(billing_period).usage())
            == all.filter(
            |row: NormalizedRow|
                row.provider@ == provider && counted_under(row, service) && row.billing_period@
                    == billing_period && row.charge_category == ChargeCategory::Usage,
        ),
        scope::rows_in(all, scope::of_service(provider, service).within(since, until).usage())
            == all.filter(
            |row: NormalizedRow|
                row.provider@ == provider && counted_under(row, service) && starts_within(
                    row,
                    since,
                    until,
                ) && row.charge_category == ChargeCategory::Usage,
        ),
{
    lemma_reaches(
        all,
        scope::of_account(provider, account_id).in_period(billing_period),
        |row: NormalizedRow|
            row.provider@ == provider && row.account_id@ == account_id && row.billing_period@
                == billing_period,
    );
    lemma_reaches(
        all,
        scope::of_service(provider, service).in_period(billing_period),
        |row: NormalizedRow|
            row.provider@ == provider && counted_under(row, service) && row.billing_period@
                == billing_period,
    );
    lemma_reaches(
        all,
        scope::of_service(provider, service).in_period(billing_period).usage(),
        |row: NormalizedRow|
            row.provider@ == provider && counted_under(row, service) && row.billing_period@
                == billing_period && row.charge_category == ChargeCategory::Usage,
    );
    lemma_reaches(
        all,
        scope::of_service(provider, service).within(since, until).usage(),
        |row: NormalizedRow|
            row.provider@ == provider && counted_under(row, service) && starts_within(
                row,
                since,
                until,
            ) && row.charge_category == ChargeCategory::Usage,
    );
}

/// The billed amounts of rows in the reporting currency, of those that have one.
pub open spec fn billed_amounts(rows: Seq<NormalizedRow>) -> Seq<Amount> {
    rows.filter(|row: NormalizedRow| row.billed_cost_base is Some).map_values(
        |row: NormalizedRow| row.billed_cost_base->0,
    )
}

/// A total adds up the billed amounts of its rows in the reporting currency, one
/// for every row that has one, in ledger order, and nothing else of a row.
pub proof fn a_total_adds_up_billed_amounts(rows: Seq<NormalizedRow>)
    ensures
        scope::base_amounts(rows) == billed_amounts(rows),
    decreases rows.len(),
{
    reveal(Seq::filter);
    if rows.len() > 0 {
        let fewer = rows.drop_last();
        a_total_adds_up_billed_amounts(fewer);
        if rows.last().billed_cost_base is Some {
            assert(billed_amounts(rows) =~= billed_amounts(fewer).push(
                rows.last().billed_cost_base->0,
            ));
        }
    } else {
        assert(billed_amounts(rows) =~= Seq::empty());
    }
}

/// The totals of two stretches of the ledger are the total of both.
pub proof fn totals_of_stretches_join(one: Seq<NormalizedRow>, other: Seq<NormalizedRow>)
    ensures
        scope::base_amounts(one + other) == scope::base_amounts(one) + scope::base_amounts(other),
    decreases other.len(),
{
    if other.len() == 0 {
        assert(one + other =~= one);
        assert(scope::base_amounts(one) + scope::base_amounts(other) =~= scope::base_amounts(one));
    } else {
        totals_of_stretches_join(one, other.drop_last());
        assert((one + other).drop_last() =~= one + other.drop_last());
        assert(scope::base_amounts(one + other) =~= scope::base_amounts(one)
            + scope::base_amounts(other));
    }
}

/// Gross usage is the usage rows, credits are the credits and the adjustments;
/// purchases and taxes are in neither.
pub proof fn usage_and_credits_are_told_apart(rows: Seq<NormalizedRow>)
    ensures
        scope::usage_rows(rows) == rows.filter(
            |row: NormalizedRow| row.charge_category == ChargeCategory::Usage,
        ),
        scope::credit_rows(rows) == rows.filter(
            |row: NormalizedRow|
                row.charge_category == ChargeCategory::Credit || row.charge_category
                    == ChargeCategory::Adjustment,
        ),
{
    assert((|row: NormalizedRow| scope::is_usage(row)) =~= (|row: NormalizedRow|
        row.charge_category == ChargeCategory::Usage));
    assert((|row: NormalizedRow| scope::is_credit(row)) =~= (|row: NormalizedRow|
        row.charge_category == ChargeCategory::Credit || row.charge_category
            == ChargeCategory::Adjustment));
}

} // verus!
