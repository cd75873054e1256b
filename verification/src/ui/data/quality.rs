//! The data-quality strip and the typical-day benchmark.
use vstd::prelude::*;

use crate::amount::Amount;
use crate::db;
use crate::error::Error;
use crate::memory::Store;
use crate::model;
use crate::model::{DataQualityIssue, IssueSeverity};
use crate::order;

verus! {

/// How bad a finding is, mildest first.
#[derive(Clone, Copy, PartialEq, Eq, Structural, PartialOrd, Ord, Debug)]
pub enum DataQualitySeverity {
    Info,
    Warning,
    Critical,
}

impl DataQualitySeverity {
    /// The place in the order of severity.
    pub open spec fn rank(self) -> int {
        match self {
            DataQualitySeverity::Info => 0,
            DataQualitySeverity::Warning => 1,
            DataQualitySeverity::Critical => 2,
        }
    }

    fn severity_rank(self) -> (res: i128)
        ensures
            res == self.rank(),
    {
        match self {
            DataQualitySeverity::Info => 0,
            DataQualitySeverity::Warning => 1,
            DataQualitySeverity::Critical => 2,
        }
    }

    pub fn label(self) -> (res: &'static str)
        ensures
            res@ == (match self {
                DataQualitySeverity::Info => "Info"@,
                DataQualitySeverity::Warning => "Warning"@,
                DataQualitySeverity::Critical => "Critical"@,
            }),
    {
        match self {
            DataQualitySeverity::Info => "Info",
            DataQualitySeverity::Warning => "Warning",
            DataQualitySeverity::Critical => "Critical",
        }
    }
}

/// One row of the strip.
#[derive(Debug)]
pub struct DataQualityRow {
    /// The dismissal key, `{kind}:{billing_period}`; dismissing it keeps the
    /// finding hidden for its period.
    pub key: String,
    pub severity: DataQualitySeverity,
    pub message: String,
    /// The amount behind the finding, if it has one.
    pub affected_amount: Option<Amount>,
}

impl Clone for DataQualityRow {
    fn clone(&self) -> (res: Self)
        ensures
            res == *self,
    {
        DataQualityRow {
            key: self.key.clone(),
            severity: self.severity,
            message: self.message.clone(),
            affected_amount: self.affected_amount,
        }
    }
}

pub open spec fn severity_of(severity: IssueSeverity) -> DataQualitySeverity {
    match severity {
        IssueSeverity::Info => DataQualitySeverity::Info,
        IssueSeverity::Warning => DataQualitySeverity::Warning,
        IssueSeverity::Critical => DataQualitySeverity::Critical,
    }
}

/// `row` shows a finding of a period.
pub open spec fn shows(row: DataQualityRow, issue: DataQualityIssue, period: Seq<char>) -> bool {
    &&& row.key@ == model::dismissal_key_text(issue.kind, period)
    &&& row.severity == severity_of(issue.severity)
    &&& row.message@ == issue.message@
    &&& row.affected_amount == issue.affected_amount
}

/// Not being dismissed for a period.
pub open spec fn still_open(period: Seq<char>, dismissed: Seq<String>) -> spec_fn(
    DataQualityIssue,
) -> bool {
    |issue: DataQualityIssue| !db::dismissed(dismissed, model::dismissal_key_text(issue.kind, period))
}

/// The findings of a period that were not dismissed.
pub open spec fn open_issues(
    issues: Seq<DataQualityIssue>,
    period: Seq<char>,
    dismissed: Seq<String>,
) -> Seq<DataQualityIssue> {
    issues.filter(still_open(period, dismissed))
}

pub open spec fn issue_ranks(issues: Seq<DataQualityIssue>) -> Seq<int> {
    issues.map_values(|i: DataQualityIssue| severity_of(i.severity).rank())
}

/// The findings that a strip shows, worst first; equals keep their order.
pub open spec fn shown_issues(
    issues: Seq<DataQualityIssue>,
    period: Seq<char>,
    dismissed: Seq<String>,
) -> Seq<DataQualityIssue> {
    worst_first(open_issues(issues, period, dismissed))
}

/// Findings, worst first; equals keep their order.
pub open spec fn worst_first(issues: Seq<DataQualityIssue>) -> Seq<DataQualityIssue> {
    order::arranged(issues, order::ranking(issue_ranks(issues)))
}

/// Put findings in order, worst first.
pub fn sort_worst_first(issues: Vec<DataQualityIssue>) -> (res: Vec<DataQualityIssue>)
    ensures
        res@ == worst_first(issues@),
{
    let mut ranks: Vec<i128> = Vec::new();
    let mut i: usize = 0;
    while i < issues.len()
        invariant
            i <= issues.len(),
            ranks@.len() == i,
            forall|k: int| 0 <= k < i ==> #[trigger] ranks@[k] == issue_ranks(issues@)[k],
        decreases issues.len() - i,
    {
        let rank: i128 = match issues[i].severity {
            IssueSeverity::Info => DataQualitySeverity::Info.severity_rank(),
            IssueSeverity::Warning => DataQualitySeverity::Warning.severity_rank(),
            IssueSeverity::Critical => DataQualitySeverity::Critical.severity_rank(),
        };
        ranks.push(rank);
        i = i + 1;
    }
    let ranked = order::rank_descending(&ranks);
    proof {
        assert(order::key_ints(ranks@) =~= issue_ranks(issues@));
        order::lemma_ranked_positions(issue_ranks(issues@), ranked@);
    }
    order::arrange(issues, &ranked)
}

/// The rows of the strip: the findings of a period that were not dismissed, with
/// their dismissal keys, worst first.
pub fn data_quality_rows(
    billing_period: &str,
    issues: &Vec<DataQualityIssue>,
    dismissed: &Vec<String>,
) -> (res: Vec<DataQualityRow>)
    ensures
        res@.len() == shown_issues(issues@, billing_period@, dismissed@).len(),
        forall|i: int|
            #![trigger res@[i]]
            0 <= i < res@.len() ==> shows(
                res@[i],
                shown_issues(issues@, billing_period@, dismissed@)[i],
                billing_period@,
            ),
{
    let mut rows: Vec<DataQualityRow> = Vec::new();
    let mut ranks: Vec<i128> = Vec::new();
    let ghost left = open_issues(issues@, billing_period@, dismissed@);
    let mut i: usize = 0;
    proof {
        reveal(Seq::filter);
        assert(open_issues(issues@.take(0), billing_period@, dismissed@) =~= Seq::empty());
    }
    while i < issues.len()
        invariant
            i <= issues.len(),
            rows@.len() == open_issues(
                issues@.take(i as int),
                billing_period@,
                dismissed@,
            ).len(),
            ranks@.len() == rows@.len(),
            forall|k: int|
                #![trigger rows@[k]]
                0 <= k < rows@.len() ==> shows(
                    rows@[k],
                    open_issues(issues@.take(i as int), billing_period@, dismissed@)[k],
                    billing_period@,
                ),
            forall|k: int| 0 <= k < ranks@.len() ==> #[trigger] ranks@[k] == rows@[k].severity.rank(),
        decreases issues.len() - i,
    {
        proof {
            reveal(Seq::filter);
            assert(issues@.take(i + 1).drop_last() =~= issues@.take(i as int));
            assert(issues@.take(i + 1).last() == issues@[i as int]);
        }
        let issue = &issues[i];
        let key = issue.dismissal_key(billing_period);
        if !db::is_dismissed(dismissed, &key) {
            let severity = match issue.severity {
                IssueSeverity::Info => DataQualitySeverity::Info,
                IssueSeverity::Warning => DataQualitySeverity::Warning,
                IssueSeverity::Critical => DataQualitySeverity::Critical,
            };
            ranks.push(severity.severity_rank());
            rows.push(
                DataQualityRow {
                    key,
                    severity,
                    message: issue.message.clone(),
                    affected_amount: issue.affected_amount,
                },
            );
        }
        i = i + 1;
    }
    let ranked = order::rank_descending(&ranks);
    proof {
        assert(issues@.take(i as int) =~= issues@);
        assert(order::key_ints(ranks@) =~= issue_ranks(left));
        order::ranking_is_stable_and_complete(issue_ranks(left));
        order::lemma_ranked_positions(issue_ranks(left), ranked@);
    }
    let ghost all = rows@;
    let res = order::arrange(rows, &ranked);
    proof {
        let ranking = order::ranking(issue_ranks(left));
        assert forall|k: int|
            #![trigger res@[k]]
            0 <= k < res@.len() implies shows(
            res@[k],
            shown_issues(issues@, billing_period@, dismissed@)[k],
            billing_period@,
        ) by {
            assert(res@[k] == all[ranking[k]]);
            assert(shows(all[ranking[k]], left[ranking[k]], billing_period@));
        }
    }
    res
}

/// The keys that the findings are filtered by. Where they cannot be read, every
/// finding shows.
pub fn dismissed_quality_keys(store: &Store) -> (res: Vec<String>)
    ensures
        res@ == store.dismissed_quality_keys@,
{
    match db::dismissed_quality_issue_keys(store) {
        Ok(keys) => keys,
        Err(_) => Vec::new(),
    }
}

/// The rows of the strip for a period, from the outcome of its checks. Checks
/// that failed show nothing rather than take the page down.
pub fn load_data_quality(
    billing_period: &str,
    issues: Result<Vec<DataQualityIssue>, Error>,
    dismissed: &Vec<String>,
) -> (res: Vec<DataQualityRow>)
    ensures
        issues is Err ==> res@.len() == 0,
        issues is Ok ==> {
            let shown = shown_issues(issues->Ok_0@, billing_period@, dismissed@);
            &&& res@.len() == shown.len()
            &&& forall|i: int|
                #![trigger res@[i]]
                0 <= i < res@.len() ==> shows(res@[i], shown[i], billing_period@)
        },
{
    match issues {
        Ok(issues) => data_quality_rows(billing_period, &issues, dismissed),
        Err(_) => Vec::new(),
    }
}

/// After dismissing keys, each of them is dismissed and so is every key that was
/// before; nothing else is.
pub open spec fn dismissals_added(after: Seq<String>, before: Seq<String>, keys: Seq<String>) -> bool {
    forall|key: Seq<char>|
        #![trigger db::dismissed(after, key)]
        db::dismissed(after, key) <==> db::dismissed(before, key) || order::lists(keys, key)
}

/// Dismiss findings by their keys, so that they stay hidden for their period.
pub fn dismiss_quality_issues(store: &mut Store, keys: &Vec<String>) -> (res: Result<(), Error>)
    ensures
        res is Ok,
        db::same_but_dismissals(*final(store), *old(store)),
        dismissals_added(
            final(store).dismissed_quality_keys@,
            old(store).dismissed_quality_keys@,
            keys@,
        ),
        old(store).ids_distinct() ==> final(store).ids_distinct(),
{
    let ghost before = *store;
    let mut i: usize = 0;
    while i < keys.len()
        invariant
            i <= keys.len(),
            db::same_but_dismissals(*store, before),
            dismissals_added(
                store.dismissed_quality_keys@,
                before.dismissed_quality_keys@,
                keys@.take(i as int),
            ),
        decreases keys.len() - i,
    {
        let ghost held = store.dismissed_quality_keys@;
        let _ = db::dismiss_quality_issue(store, &keys[i]);
        proof {
            let now = store.dismissed_quality_keys@;
            let key = keys@[i as int]@;
            lemma_one_dismissal(held, now, key);
            assert forall|k: Seq<char>|
                #![trigger db::dismissed(now, k)]
                db::dismissed(now, k) <==> db::dismissed(before.dismissed_quality_keys@, k)
                    || order::lists(keys@.take(i + 1), k) by {
                assert(db::dismissed(held, k) <==> db::dismissed(before.dismissed_quality_keys@, k)
                    || order::lists(keys@.take(i as int), k));
                if order::lists(keys@.take(i + 1), k) {
                    let n = choose|n: int|
                        0 <= n < keys@.take(i + 1).len() && (#[trigger] keys@.take(i + 1)[n])@ == k;
                    if n < i {
                        assert(keys@.take(i as int)[n]@ == k);
                    }
                }
                if order::lists(keys@.take(i as int), k) {
                    let n = choose|n: int|
                        0 <= n < keys@.take(i as int).len() && (#[trigger] keys@.take(
                            i as int,
                        )[n])@ == k;
                    assert(keys@.take(i + 1)[n]@ == k);
                }
                if k == key {
                    assert(keys@.take(i + 1)[i as int]@ == k);
                }
            }
        }
        i = i + 1;
    }
    proof {
        assert(keys@.take(i as int) =~= keys@);
    }
    Ok(())
}

/// What one dismissal adds.
proof fn lemma_one_dismissal(before: Seq<String>, after: Seq<String>, key: Seq<char>)
    requires
        if db::dismissed(before, key) {
            after == before
        } else {
            after.len() == before.len() + 1 && after.drop_last() == before && after.last()@ == key
        },
    ensures
        forall|k: Seq<char>|
            #![trigger db::dismissed(after, k)]
            db::dismissed(after, k) <==> db::dismissed(before, k) || k == key,
{
    assert forall|k: Seq<char>|
        #![trigger db::dismissed(after, k)]
        db::dismissed(after, k) <==> db::dismissed(before, k) || k == key by {
        if !db::dismissed(before, key) {
            assert(after[after.len() - 1]@ == key);
            if db::dismissed(before, k) {
                let j = choose|j: int| 0 <= j < before.len() && #[trigger] before[j]@ == k;
                assert(after.drop_last()[j] == after[j]);
                assert(after[j]@ == k);
            }
            if db::dismissed(after, k) && k != key {
                let j = choose|j: int| 0 <= j < after.len() && #[trigger] after[j]@ == k;
                assert(after.drop_last()[j] == after[j]);
                assert(before[j]@ == k);
            }
        }
    }
}

// ==================== Benchmark ====================

/// The flat value of a trailing-average series: the last one, where it is worth
/// drawing.
pub open spec fn flat_value(series: Seq<(String, Amount)>) -> Option<Amount> {
    if series.len() > 0 && series.last().1.is_base() {
        Some(series.last().1)
    } else {
        None
    }
}

/// The typical-day benchmark of a trailing-average series. The series is flat
/// within a month, so its last value is the line; there is none where the series
/// is empty or dust.
pub fn benchmark_value(series: &Vec<(String, Amount)>) -> (res: Option<Amount>)
    ensures
        res == flat_value(series@),
{
    if series.len() == 0 {
        return None;
    }
    let value = series[series.len() - 1].1;
    if value.meaningful_base() {
        Some(value)
    } else {
        None
    }
}

} // verus!
