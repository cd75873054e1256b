//! The overview page: movers, the month-over-month card and the headline
//! numbers.
use vstd::prelude::*;

use crate::amount;
use crate::amount::Amount;
use crate::ledger::ranked;
use crate::ledger::ranked::truncated;
use crate::memory::UNALLOCATED;
use crate::model::ServiceTagUsage;
use crate::order;
use crate::text::same_text;

verus! {

// ==================== Percentages ====================

/// A percentage of a base, where the base is worth one: a ratio to less than a
/// cent is noise.
pub open spec fn change_from(base: Amount, pct: Amount) -> Option<Amount> {
    if base.is_base() {
        Some(pct)
    } else {
        None
    }
}

/// The percentage `pct` of `base`, or nothing where the base is under a cent.
pub fn change_pct(base: Amount, pct: Amount) -> (res: Option<Amount>)
    ensures
        res == change_from(base, pct),
{
    if base.meaningful_base() {
        Some(pct)
    } else {
        None
    }
}

// ==================== Movers ====================

/// What a service used before: the first total under its provider and name,
/// nothing where there is none.
pub open spec fn prior_amount(
    previous: Seq<(String, String, Amount)>,
    provider: Seq<char>,
    service: Seq<char>,
) -> Amount
    decreases previous.len(),
{
    if previous.len() == 0 {
        Amount { bits: 0 }
    } else if previous[0].0@ == provider && previous[0].1@ == service {
        previous[0].2
    } else {
        prior_amount(previous.skip(1), provider, service)
    }
}

fn find_prior(previous: &Vec<(String, String, Amount)>, provider: &str, service: &str) -> (res:
    Amount)
    ensures
        res == prior_amount(previous@, provider@, service@),
{
    let mut i: usize = 0;
    proof {
        assert(previous@.skip(0) =~= previous@);
    }
    while i < previous.len()
        invariant
            i <= previous.len(),
            prior_amount(previous@, provider@, service@) == prior_amount(
                previous@.skip(i as int),
                provider@,
                service@,
            ),
        decreases previous.len() - i,
    {
        proof {
            assert(previous@.skip(i as int).skip(1) =~= previous@.skip(i + 1));
        }
        if same_text(&previous[i].0, provider) && same_text(&previous[i].1, service) {
            return previous[i].2;
        }
        i = i + 1;
    }
    Amount::zero()
}

/// What each current service used before, in the order of `current`.
pub fn prior_amounts(
    current: &Vec<(String, String, Amount)>,
    previous: &Vec<(String, String, Amount)>,
) -> (res: Vec<Amount>)
    ensures
        res@.len() == current@.len(),
        forall|i: int|
            0 <= i < res@.len() ==> #[trigger] res@[i] == prior_amount(
                previous@,
                current@[i].0@,
                current@[i].1@,
            ),
{
    let mut res: Vec<Amount> = Vec::new();
    let mut i: usize = 0;
    while i < current.len()
        invariant
            i <= current.len(),
            res@.len() == i,
            forall|k: int|
                0 <= k < i ==> #[trigger] res@[k] == prior_amount(
                    previous@,
                    current@[k].0@,
                    current@[k].1@,
                ),
        decreases current.len() - i,
    {
        res.push(find_prior(previous, &current[i].0, &current[i].1));
        i = i + 1;
    }
    res
}

/// A service and how its usage moved.
#[derive(Debug)]
pub struct Mover {
    pub provider: String,
    pub service: String,
    /// Window gross usage.
    pub amount: Amount,
    /// Percent change of usage against the comparison window, `None` on a base
    /// under a cent.
    pub change_pct: Option<Amount>,
}

impl Clone for Mover {
    fn clone(&self) -> (res: Self)
        ensures
            res == *self,
    {
        Mover {
            provider: self.provider.clone(),
            service: self.service.clone(),
            amount: self.amount,
            change_pct: self.change_pct,
        }
    }
}

/// Where a mover ranks: by the size of its percentage, ahead of all those
/// without one, which rank by their amount.
pub open spec fn mover_rank(mover: Mover) -> int {
    match mover.change_pct {
        Some(pct) => 0x1_0000_0000_0000_0000 + pct.unsigned().rank(),
        None => mover.amount.rank(),
    }
}

pub open spec fn mover_ranks(movers: Seq<Mover>) -> Seq<int> {
    movers.map_values(|m: Mover| mover_rank(m))
}

/// A service with a percentage ranks ahead of every one without, the larger
/// swing first; those without rank by amount.
pub proof fn percentages_rank_first(a: Mover, b: Mover)
    ensures
        a.change_pct is Some && b.change_pct is None ==> mover_rank(a) > mover_rank(b),
        a.change_pct is Some && b.change_pct is Some ==> (mover_rank(a) > mover_rank(b)
            <==> a.change_pct->0.unsigned().rank() > b.change_pct->0.unsigned().rank()),
        a.change_pct is None && b.change_pct is None ==> (mover_rank(a) > mover_rank(b)
            <==> a.amount.rank() > b.amount.rank()),
{
}

/// A current service as a mover.
pub open spec fn mover_of(
    current: (String, String, Amount),
    previous: Seq<(String, String, Amount)>,
    pct: Amount,
) -> Mover {
    Mover {
        provider: current.0,
        service: current.1,
        amount: current.2,
        change_pct: change_from(prior_amount(previous, current.0@, current.1@), pct),
    }
}

/// The current services as movers, in their order.
pub open spec fn movers_of(
    current: Seq<(String, String, Amount)>,
    previous: Seq<(String, String, Amount)>,
    pcts: Seq<Amount>,
) -> Seq<Mover> {
    Seq::new(current.len(), |i: int| mover_of(current[i], previous, pcts[i]))
}

/// The five services whose usage swung hardest against the comparison window.
/// `pcts` holds, for each current service, the change of its amount against
/// what [`prior_amounts`] gives, in percent; it is read only where that base is
/// at least a cent.
pub fn movers(
    current: &Vec<(String, String, Amount)>,
    previous: &Vec<(String, String, Amount)>,
    pcts: &Vec<Amount>,
) -> (res: Vec<Mover>)
    requires
        pcts@.len() == current@.len(),
    ensures
        ({
            let all = movers_of(current@, previous@, pcts@);
            res@ == ranked::first(order::arranged(all, order::ranking(mover_ranks(all))), 5)
        }),
{
    let mut rows: Vec<Mover> = Vec::new();
    let mut keys: Vec<i128> = Vec::new();
    let ghost all = movers_of(current@, previous@, pcts@);
    let mut i: usize = 0;
    while i < current.len()
        invariant
            i <= current.len(),
            pcts@.len() == current@.len(),
            all == movers_of(current@, previous@, pcts@),
            rows@ == all.take(i as int),
            keys@.len() == i,
            forall|k: int| 0 <= k < i ==> #[trigger] keys@[k] == mover_rank(all[k]),
        decreases current.len() - i,
    {
        let before = find_prior(previous, &current[i].0, &current[i].1);
        let change = change_pct(before, pcts[i]);
        let key: i128 = match change {
            Some(pct) => 0x1_0000_0000_0000_0000 + pct.abs().total_rank(),
            None => current[i].2.total_rank(),
        };
        let row = Mover {
            provider: current[i].0.clone(),
            service: current[i].1.clone(),
            amount: current[i].2,
            change_pct: change,
        };
        proof {
            assert(row == all[i as int]);
            assert(all.take(i + 1) =~= all.take(i as int).push(row));
        }
        rows.push(row);
        keys.push(key);
        i = i + 1;
    }
    let ranked = order::rank_descending(&keys);
    proof {
        assert(all.take(i as int) =~= all);
        assert(order::key_ints(keys@) =~= mover_ranks(all));
        order::lemma_ranked_positions(mover_ranks(all), ranked@);
    }
    truncated(order::arrange(rows, &ranked), 5)
}

/// The business line a service mostly drives.
#[derive(Debug)]
pub struct Drive {
    pub provider: String,
    pub service: String,
    pub line: String,
}

impl Clone for Drive {
    fn clone(&self) -> (res: Self)
        ensures
            res == *self,
    {
        Drive {
            provider: self.provider.clone(),
            service: self.service.clone(),
            line: self.line.clone(),
        }
    }
}

/// A row is a service's.
pub open spec fn of_service(row: ServiceTagUsage, provider: Seq<char>, service: Seq<char>) -> bool {
    row.provider@ == provider && row.service@ == service
}

/// The first line that a list of usage names for a service: the tag of its first
/// row that is not unallocated. The rows come largest first, so that is its
/// biggest tagged line.
pub open spec fn named_line(
    rows: Seq<ServiceTagUsage>,
    provider: Seq<char>,
    service: Seq<char>,
) -> Option<Seq<char>>
    decreases rows.len(),
{
    if rows.len() == 0 {
        None
    } else {
        match named_line(rows.drop_last(), provider, service) {
            Some(line) => Some(line),
            None => if of_service(rows.last(), provider, service) && rows.last().tag_value@
                != "Unallocated"@ {
                Some(rows.last().tag_value@)
            } else {
                None
            },
        }
    }
}

/// Some row of a list is a service's.
pub open spec fn has_service(
    rows: Seq<ServiceTagUsage>,
    provider: Seq<char>,
    service: Seq<char>,
) -> bool {
    exists|i: int| 0 <= i < rows.len() && #[trigger] of_service(rows[i], provider, service)
}

/// The line a service drives by a list of usage: the first line the list names
/// for it, or `Unallocated` where none of its usage is tagged. A service without
/// usage drives none.
pub open spec fn driven_line(
    rows: Seq<ServiceTagUsage>,
    provider: Seq<char>,
    service: Seq<char>,
) -> Option<Seq<char>> {
    if has_service(rows, provider, service) {
        Some(
            match named_line(rows, provider, service) {
                Some(line) => line,
                None => "Unallocated"@,
            },
        )
    } else {
        None
    }
}

/// A drive is a service's.
pub open spec fn drives_for(drive: Drive, provider: Seq<char>, service: Seq<char>) -> bool {
    drive.provider@ == provider && drive.service@ == service
}

/// The line listed for a service.
pub open spec fn listed_line(
    drives: Seq<Drive>,
    provider: Seq<char>,
    service: Seq<char>,
) -> Option<Seq<char>>
    decreases drives.len(),
{
    if drives.len() == 0 {
        None
    } else {
        match listed_line(drives.drop_last(), provider, service) {
            Some(line) => Some(line),
            None => if drives_for(drives.last(), provider, service) {
                Some(drives.last().line@)
            } else {
                None
            },
        }
    }
}

/// A list of drives names each service once.
pub open spec fn services_distinct(drives: Seq<Drive>) -> bool {
    forall|i: int, j: int|
        #![trigger drives[i], drives[j]]
        0 <= i < j < drives.len() ==> drives[i].provider@ != drives[j].provider@
            || drives[i].service@ != drives[j].service@
}

proof fn lemma_unlisted(drives: Seq<Drive>, provider: Seq<char>, service: Seq<char>)
    requires
        forall|k: int|
            0 <= k < drives.len() ==> !#[trigger] drives_for(drives[k], provider, service),
    ensures
        listed_line(drives, provider, service) is None,
    decreases drives.len(),
{
    if drives.len() > 0 {
        let rest = drives.drop_last();
        assert forall|k: int| 0 <= k < rest.len() implies !#[trigger] drives_for(
            rest[k],
            provider,
            service,
        ) by {
            assert(rest[k] == drives[k]);
        }
        lemma_unlisted(rest, provider, service);
    }
}

proof fn lemma_listed_first(drives: Seq<Drive>, first: int, provider: Seq<char>, service: Seq<char>)
    requires
        0 <= first < drives.len(),
        drives_for(drives[first], provider, service),
        forall|k: int| 0 <= k < first ==> !#[trigger] drives_for(drives[k], provider, service),
    ensures
        listed_line(drives, provider, service) == Some(drives[first].line@),
    decreases drives.len(),
{
    let rest = drives.drop_last();
    assert forall|k: int| 0 <= k < first implies !#[trigger] drives_for(
        rest[k],
        provider,
        service,
    ) by {
        assert(rest[k] == drives[k]);
    }
    if first < drives.len() - 1 {
        assert(rest[first] == drives[first]);
        lemma_listed_first(rest, first, provider, service);
    } else {
        lemma_unlisted(rest, provider, service);
    }
}

/// Where a service stands first in a list of drives.
fn drive_at(drives: &Vec<Drive>, provider: &str, service: &str) -> (res: Option<usize>)
    ensures
        res is None ==> forall|k: int|
            0 <= k < drives@.len() ==> !#[trigger] drives_for(drives@[k], provider@, service@),
        res is Some ==> res->0 < drives@.len() && drives_for(
            drives@[res->0 as int],
            provider@,
            service@,
        ) && forall|k: int|
            0 <= k < res->0 ==> !#[trigger] drives_for(drives@[k], provider@, service@),
{
    let mut i: usize = 0;
    while i < drives.len()
        invariant
            i <= drives.len(),
            forall|k: int| 0 <= k < i ==> !#[trigger] drives_for(drives@[k], provider@, service@),
        decreases drives.len() - i,
    {
        if same_text(&drives[i].provider, provider) && same_text(&drives[i].service, service) {
            return Some(i);
        }
        i = i + 1;
    }
    None
}

/// The line listed for a service, if one is.
pub fn drive_of<'a>(drives: &'a Vec<Drive>, provider: &str, service: &str) -> (res: Option<&'a str>)
    ensures
        listed_line(drives@, provider@, service@) == (match res {
            Some(line) => Some(line@),
            None => None,
        }),
{
    match drive_at(drives, provider, service) {
        Some(k) => {
            proof {
                lemma_listed_first(drives@, k as int, provider@, service@);
            }
            Some(drives[k].line.as_str())
        },
        None => {
            proof {
                lemma_unlisted(drives@, provider@, service@);
            }
            None
        },
    }
}

/// Each drive is the line its service drives by the rows, and each service of
/// the rows has one.
spec fn drives_match(drives: Seq<Drive>, rows: Seq<ServiceTagUsage>) -> bool {
    &&& services_distinct(drives)
    &&& forall|k: int|
        0 <= k < drives.len() ==> has_service(
            rows,
            (#[trigger] drives[k]).provider@,
            drives[k].service@,
        ) && driven_line(rows, drives[k].provider@, drives[k].service@) == Some(drives[k].line@)
    &&& forall|i: int|
        0 <= i < rows.len() ==> exists|k: int|
            0 <= k < drives.len() && drives_for(
                #[trigger] drives[k],
                (#[trigger] rows[i]).provider@,
                rows[i].service@,
            )
}

proof fn lemma_drives_listed(
    drives: Seq<Drive>,
    rows: Seq<ServiceTagUsage>,
    provider: Seq<char>,
    service: Seq<char>,
)
    requires
        drives_match(drives, rows),
    ensures
        listed_line(drives, provider, service) == driven_line(rows, provider, service),
{
    if has_service(rows, provider, service) {
        let i = choose|i: int|
            0 <= i < rows.len() && #[trigger] of_service(rows[i], provider, service);
        assert(rows[i].provider@ == provider);
        let k = choose|k: int|
            0 <= k < drives.len() && drives_for(
                #[trigger] drives[k],
                rows[i].provider@,
                rows[i].service@,
            );
        assert forall|j: int| 0 <= j < k implies !#[trigger] drives_for(
            drives[j],
            provider,
            service,
        ) by {
            assert(drives[j].provider@ != drives[k].provider@ || drives[j].service@
                != drives[k].service@);
        }
        lemma_listed_first(drives, k, provider, service);
    } else {
        assert forall|k: int| 0 <= k < drives.len() implies !#[trigger] drives_for(
            drives[k],
            provider,
            service,
        ) by {
            assert(has_service(rows, drives[k].provider@, drives[k].service@));
        }
        lemma_unlisted(drives, provider, service);
    }
}

/// One more row leaves the line of every other service as it is, and names a
/// line for its own where none was named.
proof fn lemma_driven_push(
    rows: Seq<ServiceTagUsage>,
    row: ServiceTagUsage,
    provider: Seq<char>,
    service: Seq<char>,
)
    ensures
        driven_line(rows.push(row), provider, service) == (if of_service(row, provider, service) {
            match named_line(rows, provider, service) {
                Some(line) => Some(line),
                None => Some(row.tag_value@),
            }
        } else {
            driven_line(rows, provider, service)
        }),
        has_service(rows.push(row), provider, service) <==> has_service(rows, provider, service)
            || of_service(row, provider, service),
        named_line(rows, provider, service) matches Some(line) ==> line != "Unallocated"@
            && has_service(rows, provider, service),
{
    let more = rows.push(row);
    assert(more.drop_last() =~= rows);
    if has_service(rows, provider, service) {
        let i = choose|i: int|
            0 <= i < rows.len() && #[trigger] of_service(rows[i], provider, service);
        assert(of_service(more[i], provider, service));
    }
    if of_service(row, provider, service) {
        assert(of_service(more[rows.len() as int], provider, service));
    }
    if has_service(more, provider, service) && !of_service(row, provider, service) {
        let i = choose|i: int|
            0 <= i < more.len() && #[trigger] of_service(more[i], provider, service);
        assert(of_service(rows[i], provider, service));
    }
    lemma_named(rows, provider, service);
}

proof fn lemma_named(rows: Seq<ServiceTagUsage>, provider: Seq<char>, service: Seq<char>)
    ensures
        named_line(rows, provider, service) matches Some(line) ==> line != "Unallocated"@
            && has_service(rows, provider, service),
    decreases rows.len(),
{
    if rows.len() > 0 {
        let rest = rows.drop_last();
        lemma_named(rest, provider, service);
        if has_service(rest, provider, service) {
            let i = choose|i: int|
                0 <= i < rest.len() && #[trigger] of_service(rest[i], provider, service);
            assert(of_service(rows[i], provider, service));
        }
        if of_service(rows.last(), provider, service) {
            assert(of_service(rows[rows.len() - 1], provider, service));
        }
    }
}

/// The business line each service mostly drives: for every service of the rows
/// the tag of its first row that is not unallocated, or `Unallocated` where it
/// has no tagged usage.
pub fn drives_by_service(rows: &Vec<ServiceTagUsage>) -> (res: Vec<Drive>)
    ensures
        services_distinct(res@),
        forall|provider: Seq<char>, service: Seq<char>|
            #![trigger listed_line(res@, provider, service)]
            listed_line(res@, provider, service) == driven_line(rows@, provider, service),
{
    let mut drives: Vec<Drive> = Vec::new();
    let mut i: usize = 0;
    while i < rows.len()
        invariant
            i <= rows.len(),
            drives_match(drives@, rows@.take(i as int)),
        decreases rows.len() - i,
    {
        let row = &rows[i];
        let ghost before = drives@;
        let ghost done = rows@.take(i as int);
        proof {
            assert(rows@.take(i + 1) =~= done.push(*row));
            assert forall|k: int| 0 <= k < before.len() implies driven_line(
                done.push(*row),
                (#[trigger] before[k]).provider@,
                before[k].service@,
            ) == (if drives_for(before[k], row.provider@, row.service@) {
                Some(
                    if before[k].line@ == "Unallocated"@ {
                        row.tag_value@
                    } else {
                        before[k].line@
                    },
                )
            } else {
                Some(before[k].line@)
            }) && has_service(done.push(*row), before[k].provider@, before[k].service@) by {
                lemma_driven_push(done, *row, before[k].provider@, before[k].service@);
            }
            lemma_driven_push(done, *row, row.provider@, row.service@);
        }
        match drive_at(&drives, &row.provider, &row.service) {
            None => {
                drives.push(
                    Drive {
                        provider: row.provider.clone(),
                        service: row.service.clone(),
                        line: row.tag_value.clone(),
                    },
                );
                proof {
                    let more = drives@;
                    if has_service(done, row.provider@, row.service@) {
                        let j = choose|j: int|
                            0 <= j < done.len() && #[trigger] of_service(
                                done[j],
                                row.provider@,
                                row.service@,
                            );
                        assert(done[j].provider@ == row.provider@);
                    }
                    assert forall|k: int| 0 <= k < before.len() implies (
                    #[trigger] more[k]).provider@ != row.provider@ || more[k].service@
                        != row.service@ by {
                        assert(!drives_for(before[k], row.provider@, row.service@));
                    }
                    assert forall|j: int| 0 <= j < done.push(*row).len() implies exists|k: int|
                        0 <= k < more.len() && drives_for(
                            #[trigger] more[k],
                            (#[trigger] done.push(*row)[j]).provider@,
                            done.push(*row)[j].service@,
                        ) by {
                        if j < done.len() {
                            assert(done.push(*row)[j] == done[j]);
                            let k = choose|k: int|
                                0 <= k < before.len() && drives_for(
                                    #[trigger] before[k],
                                    done[j].provider@,
                                    done[j].service@,
                                );
                            assert(more[k] == before[k]);
                        } else {
                            assert(drives_for(
                                more[before.len() as int],
                                row.provider@,
                                row.service@,
                            ));
                        }
                    }
                }
            },
            Some(at) => {
                if same_text(&drives[at].line, UNALLOCATED) {
                    drives.set(
                        at,
                        Drive {
                            provider: row.provider.clone(),
                            service: row.service.clone(),
                            line: row.tag_value.clone(),
                        },
                    );
                }
                proof {
                    let more = drives@;
                    assert forall|k: int| 0 <= k < more.len() implies (
                    #[trigger] more[k]).provider@ == before[k].provider@ && more[k].service@
                        == before[k].service@ by {}
                    assert forall|k: int| 0 <= k < before.len() && k != at implies !drives_for(
                        #[trigger] before[k],
                        row.provider@,
                        row.service@,
                    ) by {
                        assert(before[at as int].provider@ == row.provider@);
                    }
                    assert forall|j: int| 0 <= j < done.push(*row).len() implies exists|k: int|
                        0 <= k < more.len() && drives_for(
                            #[trigger] more[k],
                            (#[trigger] done.push(*row)[j]).provider@,
                            done.push(*row)[j].service@,
                        ) by {
                        if j < done.len() {
                            assert(done.push(*row)[j] == done[j]);
                            let k = choose|k: int|
                                0 <= k < before.len() && drives_for(
                                    #[trigger] before[k],
                                    done[j].provider@,
                                    done[j].service@,
                                );
                            assert(drives_for(more[k], done[j].provider@, done[j].service@));
                        } else {
                            assert(drives_for(more[at as int], row.provider@, row.service@));
                        }
                    }
                }
            },
        }
        i = i + 1;
    }
    proof {
        assert(rows@.take(i as int) =~= rows@);
        assert forall|provider: Seq<char>, service: Seq<char>|
            #![trigger listed_line(drives@, provider, service)]
            listed_line(drives@, provider, service) == driven_line(rows@, provider, service) by {
            lemma_drives_listed(drives@, rows@, provider, service);
        }
    }
    drives
}

/// The line a window's breakdown names for a service: the first value that is
/// not unallocated, else `Unallocated`.
pub open spec fn line_of_breakdown(breakdown: Seq<(String, Amount)>) -> Seq<char>
    decreases breakdown.len(),
{
    if breakdown.len() == 0 {
        "Unallocated"@
    } else if breakdown[0].0@ != "Unallocated"@ {
        breakdown[0].0@
    } else {
        line_of_breakdown(breakdown.skip(1))
    }
}

/// The business line a service mostly drives by its tag breakdown.
pub fn drives_between(breakdown: &Vec<(String, Amount)>) -> (res: String)
    ensures
        res@ == line_of_breakdown(breakdown@),
{
    let mut i: usize = 0;
    proof {
        assert(breakdown@.skip(0) =~= breakdown@);
    }
    while i < breakdown.len()
        invariant
            i <= breakdown.len(),
            line_of_breakdown(breakdown@) == line_of_breakdown(breakdown@.skip(i as int)),
        decreases breakdown.len() - i,
    {
        proof {
            assert(breakdown@.skip(i as int).skip(1) =~= breakdown@.skip(i + 1));
        }
        if !same_text(&breakdown[i].0, UNALLOCATED) {
            return breakdown[i].0.clone();
        }
        i = i + 1;
    }
    UNALLOCATED.to_owned()
}

/// One row of the movers table.
#[derive(Debug)]
pub struct MoverRow {
    pub provider: String,
    pub service: String,
    pub amount: Amount,
    pub change_pct: Option<Amount>,
    /// The business line this usage mostly drives, or `Unallocated`.
    pub drives: String,
}

impl Clone for MoverRow {
    fn clone(&self) -> (res: Self)
        ensures
            res == *self,
    {
        MoverRow {
            provider: self.provider.clone(),
            service: self.service.clone(),
            amount: self.amount,
            change_pct: self.change_pct,
            drives: self.drives.clone(),
        }
    }
}

/// `rows` are the rows of `movers`, each with the line it drives.
pub open spec fn tells_movers(
    rows: Seq<MoverRow>,
    movers: Seq<Mover>,
    drives: Seq<Drive>,
) -> bool {
    &&& rows.len() == movers.len()
    &&& forall|i: int|
        #![trigger rows[i]]
        0 <= i < rows.len() ==> {
            &&& rows[i].provider == movers[i].provider
            &&& rows[i].service == movers[i].service
            &&& rows[i].amount == movers[i].amount
            &&& rows[i].change_pct == movers[i].change_pct
            &&& rows[i].drives@ == (match listed_line(
                drives,
                movers[i].provider@,
                movers[i].service@,
            ) {
                Some(line) => line,
                None => "Unallocated"@,
            })
        }
}

/// The rows of the movers table, each with the line it drives.
pub fn mover_rows(movers: &Vec<Mover>, drives: &Vec<Drive>) -> (res: Vec<MoverRow>)
    ensures
        tells_movers(res@, movers@, drives@),
{
    let mut res: Vec<MoverRow> = Vec::new();
    let mut i: usize = 0;
    while i < movers.len()
        invariant
            i <= movers.len(),
            res@.len() == i,
            forall|k: int|
                #![trigger res@[k]]
                0 <= k < i ==> {
                    &&& res@[k].provider == movers@[k].provider
                    &&& res@[k].service == movers@[k].service
                    &&& res@[k].amount == movers@[k].amount
                    &&& res@[k].change_pct == movers@[k].change_pct
                    &&& res@[k].drives@ == (match listed_line(
                        drives@,
                        movers@[k].provider@,
                        movers@[k].service@,
                    ) {
                        Some(line) => line,
                        None => "Unallocated"@,
                    })
                },
        decreases movers.len() - i,
    {
        let line = match drive_of(drives, &movers[i].provider, &movers[i].service) {
            Some(line) => line.to_owned(),
            None => UNALLOCATED.to_owned(),
        };
        res.push(
            MoverRow {
                provider: movers[i].provider.clone(),
                service: movers[i].service.clone(),
                amount: movers[i].amount,
                change_pct: movers[i].change_pct,
                drives: line,
            },
        );
        i = i + 1;
    }
    res
}

} // verus!
